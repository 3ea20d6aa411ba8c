use bevy_shader::asset::{import_of_file, separators_of, Separators};
use bevy_shader::loader::{file_dependencies, ignores_shader_defs};
use bevy_shader::shader::is_readable;
use bevy_shader::{
    Shader, ShaderDefVal, ShaderImport, ShaderLoader, ShaderLoaderError, ShaderSettings, Source,
    ValidateShader,
};

fn asset(path: &str) -> ShaderImport {
    ShaderImport::AssetPath(path.to_string())
}

fn defs() -> Vec<ShaderDefVal> {
    vec![
        ShaderDefVal::Bool("A".to_string(), true),
        ShaderDefVal::Int("B".to_string(), -1),
        ShaderDefVal::UInt("C".to_string(), 2),
    ]
}

fn settings() -> ShaderSettings {
    ShaderSettings { shader_defs: defs() }
}

#[test]
fn wgsl_shaders_stand_alone() {
    let shader = Shader::from_wgsl("fn f() { super::a::b(); }", "shaders/a.wgsl");
    assert_eq!(shader.path, "shaders/a.wgsl");
    assert_eq!(shader.import_path, asset("shaders/a.wgsl"));
    assert_eq!(shader.imports, vec![]);
    assert_eq!(shader.shader_defs, vec![]);
    assert_eq!(shader.file_dependencies, Vec::<String>::new());
    assert!(matches!(shader.validate_shader, ValidateShader::Disabled));
    assert!(matches!(shader.source, Source::Wgsl(_)));
    assert_eq!(shader.source.as_str(), "fn f() { super::a::b(); }");
}

#[test]
fn wgsl_shaders_take_defs() {
    let shader = Shader::from_wgsl_with_defs(String::from("x"), String::from("a.wgsl"), defs());
    assert_eq!(shader.shader_defs, defs());
    assert_eq!(shader.import_path, asset("a.wgsl"));
    assert_eq!(shader.source.as_str(), "x");
}

#[test]
fn spirv_shaders_keep_their_code() {
    let shader = Shader::from_spirv(vec![3u8, 2, 35, 7], "a.spv");
    assert_eq!(shader.path, "a.spv");
    assert_eq!(shader.import_path, asset("a.spv"));
    assert_eq!(shader.imports, vec![]);
    assert!(matches!(&shader.source, Source::SpirV(code) if code.as_ref() == [3u8, 2, 35, 7]));
}

#[test]
fn clones_say_the_same() {
    let mut shader = Shader::from_wesl("fn f() { super::a::b(); }", "shaders/a.wesl");
    shader.shader_defs = defs();
    shader.file_dependencies = vec!["x".to_string()];
    shader.validate_shader = ValidateShader::Enabled;
    let copy = shader.clone();
    assert_eq!(copy.path, shader.path);
    assert_eq!(copy.import_path, shader.import_path);
    assert_eq!(copy.imports, vec![asset("/shaders/a")]);
    assert_eq!(copy.shader_defs, defs());
    assert_eq!(copy.file_dependencies, shader.file_dependencies);
    assert!(matches!(copy.validate_shader, ValidateShader::Enabled));
    assert!(matches!(&copy.source, Source::Wesl(text) if text.as_ref() == "fn f() { super::a::b(); }"));
    let code = Source::SpirV(vec![1u8].into());
    assert!(matches!(code.clone(), Source::SpirV(copy) if copy.as_ref() == [1u8]));
}

#[test]
fn validation_is_off_by_default() {
    assert!(matches!(ValidateShader::default(), ValidateShader::Disabled));
    assert_eq!(ShaderSettings::default().shader_defs, vec![]);
}

#[test]
fn wesl_files_are_loaded_with_their_dependencies() {
    let source = "import super::lib::X;\nimport dep::Y;\nfn f() { package::other::g(X, Y); }";
    let shader = ShaderLoader
        .load(
            "wesl",
            "shaders\\main.wesl",
            '\\',
            "shaders\\main.wesl",
            source.as_bytes().to_vec(),
            &settings(),
        )
        .unwrap();
    assert_eq!(shader.path, "shaders/main.wesl");
    assert_eq!(shader.import_path, asset("/shaders/main"));
    assert_eq!(
        shader.imports,
        vec![asset("/shaders/lib"), ShaderImport::Custom("dep".to_string()), asset("/other")]
    );
    assert_eq!(shader.shader_defs, defs());
    assert_eq!(shader.file_dependencies, vec!["shaders/lib.wesl", "other.wesl"]);
    assert_eq!(shader.source.as_str(), source);
}

/// A dependency is imported by the name that asked for it.
#[test]
fn fetched_files_are_imported_by_their_names() {
    let imports = vec![asset("/shaders/lib"), asset("/a"), asset("/b.c/d.e")];
    let files = file_dependencies(&imports, "wesl");
    assert_eq!(files, vec!["shaders/lib.wesl", "a.wesl", "b.c/d.e.wesl"]);
    for (file, import) in files.iter().zip(&imports) {
        assert_eq!(&import_of_file(file, Separators::Slash), import);
        assert_eq!(&import_of_file(file, Separators::Both), import);
    }
}

#[test]
fn only_asset_paths_are_fetched() {
    let imports = vec![ShaderImport::Custom("a".to_string()), asset("//b"), asset("c")];
    assert_eq!(file_dependencies(&imports, "wesl"), vec!["b.wesl", "c.wesl"]);
    assert_eq!(file_dependencies(&imports, "wgsl"), vec!["//b", "c"]);
}

#[test]
fn wgsl_and_spirv_files_ignore_defs() {
    let shader = ShaderLoader
        .load("wgsl", "remote://a.wgsl", '/', "a.wgsl", b"fn f() {}".to_vec(), &settings())
        .unwrap();
    assert_eq!(shader.path, "remote://a.wgsl");
    assert_eq!(shader.shader_defs, vec![]);
    assert!(matches!(shader.source, Source::Wgsl(_)));

    let shader = ShaderLoader
        .load("spv", "remote://a.spv", '/', "a.spv", vec![255, 254], &settings())
        .unwrap();
    assert_eq!(shader.path, "a.spv");
    assert!(matches!(&shader.source, Source::SpirV(code) if code.as_ref() == [255u8, 254]));

    assert!(ignores_shader_defs("wgsl", &settings()));
    assert!(!ignores_shader_defs("wesl", &settings()));
    assert!(!ignores_shader_defs("spv", &ShaderSettings::default()));
}

#[test]
fn text_files_have_to_be_utf8() {
    for ext in ["wgsl", "wesl"] {
        let loaded = ShaderLoader.load(ext, "a", '/', "a", vec![102, 255], &settings());
        assert!(matches!(loaded, Err(ShaderLoaderError::Parse(_))));
    }
    let text = "// caf\u{e9}".to_string();
    let shader = ShaderLoader
        .load("wgsl", "a", '/', "a", text.clone().into_bytes(), &settings())
        .unwrap();
    assert_eq!(shader.source.as_str(), text);
}

#[test]
fn errors_convert() {
    let io = std::io::Error::new(std::io::ErrorKind::NotFound, "gone");
    assert!(matches!(ShaderLoaderError::from(io), ShaderLoaderError::Io(_)));
    let parse = String::from_utf8(vec![255]).unwrap_err();
    assert!(matches!(ShaderLoaderError::from(parse), ShaderLoaderError::Parse(_)));
}

#[test]
fn three_extensions_can_be_loaded() {
    assert_eq!(ShaderLoader.extensions(), &["spv", "wgsl", "wesl"]);
}

#[test]
fn no_file_is_fetched_twice() {
    let source = "import package::a::X;\nimport package::a::Y;\n\
        fn f() { package::a::g(X); super::a::h(Y); a::i(); }";
    let shader = ShaderLoader
        .load("wesl", "main.wesl", '/', "main.wesl", source.as_bytes().to_vec(), &settings())
        .unwrap();
    assert_eq!(shader.imports, vec![asset("/a"), ShaderImport::Custom("a".to_string())]);
    assert_eq!(shader.file_dependencies, vec!["a.wesl"]);
}

/// A loaded shader asks for the files of its own imports.
#[test]
fn loaded_shaders_fetch_their_imports() {
    let source = "import package::lib::X;\nimport dep::Y;\nfn f() { super::near::g(X, Y); }";
    for separator in ['/', '\\'] {
        let bytes = source.as_bytes().to_vec();
        let shader = ShaderLoader
            .load("wesl", "v1.2/main.wesl", separator, "v1.2/main.wesl", bytes, &settings())
            .unwrap();
        let fetched: Vec<ShaderImport> = shader
            .file_dependencies
            .iter()
            .map(|file| import_of_file(file, separators_of(separator)))
            .collect();
        assert_eq!(fetched, vec![asset("/lib"), asset("/v1.2/near")]);
        let assets: Vec<ShaderImport> =
            shader.imports.into_iter().filter(|i| matches!(i, ShaderImport::AssetPath(_))).collect();
        assert_eq!(assets, fetched);
    }
}

/// On a system with backslashes a disk stays in front of the path.
#[test]
fn disks_stay_in_front_of_paths() {
    let load = |separator| {
        let bytes = b"fn f() { super::g::h(); }".to_vec();
        ShaderLoader.load("wesl", "C:a.b\\c.wesl", separator, "c.wesl", bytes, &settings()).unwrap()
    };
    let shader = load('\\');
    assert_eq!(shader.path, "C:a.b/c.wesl");
    assert_eq!(shader.import_path, asset("C:a.b/c"));
    assert_eq!(shader.imports, vec![asset("/C:a.b/g")]);
    let shader = load('/');
    assert_eq!(shader.path, "C:a.b\\c.wesl");
    assert_eq!(shader.import_path, asset("/C:a.b/c"));
}

/// A source that names no module is not parsed, so nothing is asked of its numbers.
#[test]
fn only_modules_are_parsed() {
    assert!(!is_readable("const a = 0x0p300;", "main.wesl", Separators::Slash));
    assert!(is_readable("const a = 0x0p268;", "main.wesl", Separators::Slash));
    assert!(is_readable("const a = 0x0p300;", "embedded://", Separators::Slash));
    let bytes = b"const a = package::m::f(0x0p300);".to_vec();
    let shader =
        ShaderLoader.load("wesl", "embedded:///", '/', "x.wesl", bytes, &settings()).unwrap();
    assert_eq!(shader.import_path, ShaderImport::Custom(String::new()));
    assert!(shader.imports.is_empty());
}
