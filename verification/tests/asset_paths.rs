use bevy_shader::asset::{import_of_file, separators_of, strip_extension, Separators};
use bevy_shader::text::{
    join_texts, last_piece, replace_char, same_text, split_names, split_text, strip_prefix,
    trim_leading,
};
use bevy_shader::{Shader, ShaderImport};
use std::path::{Path, MAIN_SEPARATOR};

const PATHS: [&str; 46] = [
    "",
    "/",
    "//",
    ".",
    "..",
    "...",
    "/.",
    "/..",
    "./",
    "./.",
    "a",
    "a/",
    "a.b",
    "a.b.c",
    "a.b/c",
    "a.b/c.d",
    "a/b.c/",
    "a/b.c//",
    "a/b.c/.",
    "a/b.c/./",
    "a/b.c/..",
    "/a/b.wesl",
    "shaders/main.wesl",
    "shaders/.wesl",
    ".wesl",
    "..wesl",
    "a.",
    "a..",
    "a/.b.c",
    "a/..bb",
    "a/./b.c",
    "a/../b.c",
    "/./a.b",
    "caf\u{e9}.\u{e9}\u{e9}/\u{2603}.wesl",
    "a b.c d",
    "a\\b.c",
    "a/b\\c.wesl",
    "embedded:/a.wesl",
    "http://a/b.wesl",
    "a.bb/./",
    "..wesl/",
    "a/..b//.",
    "a/..b",
    "a/..\u{e9}/",
    "a/...b",
    "a.bcdef/",
];

#[test]
fn extensions_are_stripped_as_from_paths() {
    for path in PATHS {
        let expected = Path::new(path).with_extension("");
        let stem = strip_extension(path, separators_of(MAIN_SEPARATOR));
        assert_eq!(stem, expected.to_string_lossy(), "{path:?}");
    }
}

#[test]
fn files_are_imported_from_the_root() {
    for path in PATHS {
        let expected = Path::new("/").join(path).with_extension("");
        let expected = expected.to_string_lossy().replace('\\', "/");
        let import = import_of_file(path, separators_of(MAIN_SEPARATOR));
        assert_eq!(import, ShaderImport::AssetPath(expected.clone()), "{path:?}");
        assert_eq!(Shader::from_wesl("", path).import_path, import, "{path:?}");
        assert!(expected.starts_with('/') && !expected.contains('\\'));
    }
}

#[test]
fn embedded_files_are_imported_by_name() {
    for path in PATHS {
        let expected = Path::new(path)
            .with_extension("")
            .to_string_lossy()
            .split('/')
            .filter(|component| !component.is_empty())
            .collect::<Vec<_>>()
            .join("::");
        let embedded = format!("embedded://{path}");
        let import = import_of_file(&embedded, separators_of(MAIN_SEPARATOR));
        assert_eq!(import, ShaderImport::Custom(expected), "{path:?}");
    }
    assert_eq!(
        import_of_file("embedded://bevy_pbr/render/mesh.wesl", Separators::Slash),
        ShaderImport::Custom("bevy_pbr::render::mesh".to_string())
    );
}

#[test]
fn texts_are_cut_and_joined() {
    for text in PATHS {
        let pieces: Vec<String> = text.split('/').map(|s| s.to_string()).collect();
        assert_eq!(split_text(text, '/'), pieces);
        assert_eq!(join_texts(&pieces, "/"), text);
        assert_eq!(last_piece(text, '/'), text.rsplit('/').next().unwrap());
        assert_eq!(replace_char(text, '/', '\\'), text.replace('/', "\\"));
        assert_eq!(trim_leading(text, '/'), text.trim_start_matches('/'));
        assert_eq!(strip_prefix(text, "a"), text.strip_prefix("a").map(|s| s.to_string()));
        assert!(same_text(text, text));
        assert!(!same_text(text, "other"));
    }
    assert_eq!(split_names("/a//b/", '/'), vec!["a".to_string(), "b".to_string()]);
    assert_eq!(join_texts(&vec![], "::"), "");
    assert_eq!(strip_prefix("", "a"), None);
}

#[test]
fn backslashes_separate_on_some_systems() {
    for (path, both, slash) in [
        ("a.b\\c", "/a.b/c", "/a"),
        ("shaders\\main.wesl", "/shaders/main", "/shaders/main"),
        ("shaders\\v1.2/main.wesl", "/shaders/v1.2/main", "/shaders/v1.2/main"),
        ("a\\b.c\\", "/a/b", "/a/b"),
        ("a\\..wesl", "/a/..", "/a/."),
        ("\\a.wesl", "/a", "//a"),
        ("C:\\x\\a.wesl", "C:/x/a", "/C:/x/a"),
        ("c:a.wesl", "c:a", "/c:a"),
        ("c:.wesl", "c:.wesl", "/c:"),
        ("1:a.wesl", "/1:a", "/1:a"),
        ("\\\\server\\share.x", "//server/share.x", "///server/share"),
        ("//server/share/a.b", "//server/share/a", "//server/share/a"),
        ("\\\\server.x", "//server", "///server"),
        ("//server.x/", "//server", "//server"),
    ] {
        let asset = |path: &str| ShaderImport::AssetPath(path.to_string());
        assert_eq!(import_of_file(path, Separators::Both), asset(both), "{path:?}");
        assert_eq!(import_of_file(path, Separators::Slash), asset(slash), "{path:?}");
    }
    for (path, both, slash) in [
        ("embedded://a.b\\c", "a.b\\c", "a"),
        ("embedded://a\\b.wesl", "a\\b", "a\\b"),
        ("embedded://p/a.b\\c.wesl", "p::a.b\\c", "p::a.b\\c"),
        ("embedded://C:.wesl", "C:.wesl", "C:"),
    ] {
        let custom = |path: &str| ShaderImport::Custom(path.to_string());
        assert_eq!(import_of_file(path, Separators::Both), custom(both), "{path:?}");
        assert_eq!(import_of_file(path, Separators::Slash), custom(slash), "{path:?}");
    }
}

#[test]
fn verbatim_paths_are_separated_by_backslashes() {
    for (path, expected) in [
        ("\\\\?\\C:\\a.b\\c.wesl", "//?/C:/a.b/c"),
        ("\\\\?\\C:\\a.b/c", "//?/C:/a"),
        ("\\\\?\\C:\\a.b\\.", "//?/C:/a.b/."),
        ("\\\\?\\C:\\a.b\\", "//?/C:/a"),
        ("\\\\?\\pics.x", "//?/pics.x"),
        ("\\\\?\\pics.x\\a.b", "//?/pics.x/a"),
        ("\\\\?\\UNC\\server\\share.x", "//?/UNC/server/share.x"),
        ("\\\\?\\UNC\\server\\share.x\\a.b", "//?/UNC/server/share.x/a"),
        ("\\\\?\\UNC\\server.x", "//?/UNC/server.x"),
        ("//?/C:/a.b/c.wesl", "//?/C:/a.b/c"),
        ("\\\\.\\COM1.x", "//./COM1.x"),
    ] {
        let expected = ShaderImport::AssetPath(expected.to_string());
        assert_eq!(import_of_file(path, Separators::Both), expected, "{path:?}");
    }
}

#[test]
fn plain_paths_are_read_alike_everywhere() {
    for path in PATHS {
        if !path.contains('\\') {
            let slash = import_of_file(path, Separators::Slash);
            assert_eq!(import_of_file(path, Separators::Both), slash, "{path:?}");
        }
    }
}
