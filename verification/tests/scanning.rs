use bevy_shader::asset::{import_of_file, Separators};
use bevy_shader::import::{import_of, wesl_module_path};
use bevy_shader::path::{WeslOrigin, WeslPath};
use bevy_shader::scan::{import_bindings, scan_imports, scan_wesl_imports};
use bevy_shader::names::bare_names;
use bevy_shader::syntax::{
    Action, Block, CallExpr, Decl, Expr, FunctionDecl, GlobalDecl, ImportStmt, Imported, PlainStmt,
    Stmt, TypeExpr, TypedName, Unit,
};
use bevy_shader::usage::used_module_paths;
use bevy_shader::ShaderImport;

fn strings(list: &[&str]) -> Vec<String> {
    list.iter().map(|s| s.to_string()).collect()
}

fn absolute(names: &[&str]) -> WeslPath {
    WeslPath { origin: WeslOrigin::Absolute, components: strings(names) }
}

fn package(name: &str, names: &[&str]) -> WeslPath {
    WeslPath { origin: WeslOrigin::Package(name.to_string()), components: strings(names) }
}

fn relative(steps: usize, names: &[&str]) -> WeslPath {
    WeslPath { origin: WeslOrigin::Relative(steps), components: strings(names) }
}

/// `fn f() { path::item(); }` for each path.
fn calling(paths: Vec<WeslPath>) -> GlobalDecl {
    let call = |path| {
        let ty = TypeExpr { path: Some(path), name: "item".to_string(), template_args: None };
        plain(Action::Call(CallExpr { ty, arguments: vec![Expr::Literal] }))
    };
    function(vec![], paths.into_iter().map(call).collect())
}

fn plain(action: Action) -> Stmt {
    Stmt::Plain(PlainStmt { attributes: vec![], action })
}

fn bare(name: &str) -> TypeExpr {
    TypeExpr { path: None, name: name.to_string(), template_args: None }
}

fn function(parameters: Vec<TypedName>, statements: Vec<Stmt>) -> GlobalDecl {
    GlobalDecl::Function(FunctionDecl {
        attributes: vec![],
        parameters,
        return_attributes: vec![],
        return_type: None,
        body: Block { attributes: vec![], statements },
    })
}

fn importing(path: WeslPath, name: &str, alias: Option<&str>) -> ImportStmt {
    ImportStmt {
        path: Some(path),
        content: Imported::Item { name: name.to_string(), alias: alias.map(|s| s.to_string()) },
    }
}

#[test]
fn a_unit_written_by_hand_is_scanned() {
    let unit = Unit {
        imports: vec![
            importing(absolute(&["utils"]), "color", Some("c")),
            importing(relative(1, &["lib"]), "BARE", None),
        ],
        declarations: vec![
            GlobalDecl::Void,
            calling(vec![package("c", &["deep"]), relative(0, &["own"]), package("dep", &[])]),
        ],
    };
    let module = absolute(&["shaders", "main"]);

    let bindings = import_bindings(&unit.imports, &module);
    assert_eq!(bindings.len(), 2);
    assert_eq!((bindings[0].bound.as_str(), bindings[0].real.as_str()), ("c", "color"));
    assert!(bindings[0].parent.same(&absolute(&["utils"])));
    assert_eq!((bindings[1].bound.as_str(), bindings[1].real.as_str()), ("BARE", "BARE"));
    assert!(bindings[1].parent.same(&absolute(&["shaders", "lib"])));

    let used = used_module_paths(&unit);
    assert_eq!(used.len(), 3);
    assert!(used[0].same(&package("c", &["deep"])));
    assert!(used[1].same(&relative(0, &["own"])));
    assert!(used[2].same(&package("dep", &[])));

    assert_eq!(
        scan_imports(&unit, &module),
        vec![
            ShaderImport::AssetPath("/shaders/lib".to_string()),
            ShaderImport::AssetPath("/utils/color/deep".to_string()),
            ShaderImport::AssetPath("/shaders/main/own".to_string()),
            ShaderImport::Custom("dep".to_string()),
        ]
    );
}

#[test]
fn relative_modules_are_no_imports() {
    let imports = scan_wesl_imports(
        "fn f() { super::a::b(); package::c::d(); }",
        &relative(2, &["x"]),
    );
    assert_eq!(imports, vec![ShaderImport::AssetPath("/c".to_string())]);
}

#[test]
fn an_item_without_a_path_binds_nothing() {
    let unit = Unit {
        imports: vec![ImportStmt {
            path: None,
            content: Imported::Item { name: "a".to_string(), alias: None },
        }],
        declarations: vec![],
    };
    assert_eq!(scan_imports(&unit, &absolute(&[])), vec![]);
}

#[test]
fn paths_resolve_as_written_in_a_module() {
    let module = absolute(&["a", "b"]);
    assert!(module.resolve(&absolute(&["c"])).same(&absolute(&["c"])));
    assert!(module.resolve(&relative(0, &["c"])).same(&absolute(&["a", "b", "c"])));
    assert!(module.resolve(&relative(1, &["c"])).same(&absolute(&["a", "c"])));
    assert!(module.resolve(&relative(5, &["c"])).same(&absolute(&["c"])));
    assert!(module.resolve(&package("p", &["c"])).same(&package("p", &["c"])));

    let inside = package("p", &["a"]);
    assert!(inside.resolve(&absolute(&["c"])).same(&package("p", &["c"])));
    assert!(inside.resolve(&relative(1, &["c"])).same(&package("p", &["c"])));
    assert!(inside.resolve(&package("q", &["c"])).same(&package("p/q", &["c"])));

    let above = relative(1, &["a"]);
    assert!(above.resolve(&relative(3, &["c"])).same(&relative(3, &["c"])));
    assert!(above.resolve(&relative(1, &["c"])).same(&relative(1, &["c"])));
    assert!(!above.same(&relative(2, &["a"])));
    assert!(!above.same(&relative(1, &["b"])));
    assert!(!above.same(&relative(1, &[])));
}

#[test]
fn imports_lead_back_to_their_modules() {
    for path in [
        absolute(&[]),
        absolute(&["a"]),
        absolute(&["shaders", "utils", "color"]),
        package("p", &[]),
        package("p", &["a", "b"]),
    ] {
        let import = import_of(&path).unwrap();
        assert!(wesl_module_path(&import).unwrap().same(&path));
    }
    assert!(import_of(&relative(0, &["a"])).is_none());
}

#[test]
fn imports_are_written_out() {
    assert_eq!(
        import_of(&absolute(&["a", "b"])),
        Some(ShaderImport::AssetPath("/a/b".to_string()))
    );
    assert_eq!(import_of(&absolute(&[])), Some(ShaderImport::AssetPath("/".to_string())));
    assert_eq!(
        import_of(&package("outer/inner", &["a", "b"])),
        Some(ShaderImport::Custom("inner::a::b".to_string()))
    );
}

#[test]
fn module_paths_of_imports() {
    let module = |import| wesl_module_path(&import);
    let text = |s: &str| s.to_string();
    assert!(module(ShaderImport::Custom(text(""))).is_none());
    assert!(module(ShaderImport::Custom(text("::a"))).is_none());
    assert!(module(ShaderImport::Custom(text("a:::b"))).unwrap().same(&package("a", &[":b"])));
    assert!(module(ShaderImport::Custom(text("a:b"))).unwrap().same(&package("a:b", &[])));
    assert!(module(ShaderImport::AssetPath(text("/a//b/"))).unwrap().same(&absolute(&["a", "b"])));
}

#[test]
fn files_lead_to_their_modules() {
    let module = |path| wesl_module_path(&import_of_file(path, Separators::Slash)).unwrap();
    assert!(module("shaders/utils/color.wesl").same(&absolute(&["shaders", "utils", "color"])));
    assert!(module("embedded://my_crate/render/mesh.wesl")
        .same(&package("my_crate", &["render", "mesh"])));
    assert!(module("a.b.wesl").same(&absolute(&["a.b"])));
}

#[test]
fn bare_names_are_those_that_no_scope_knows() {
    let parameter =
        TypedName { attributes: vec![], name: "p".to_string(), ty: bare("p") };
    let declaration = Stmt::Declaration(Decl {
        attributes: vec![Expr::Type(bare("x"))],
        name: "x".to_string(),
        ty: Some(TypeExpr {
            path: Some(absolute(&["m"])),
            name: "x".to_string(),
            template_args: Some(vec![Expr::Type(bare("T")), Expr::Type(bare("p"))]),
        }),
        initializer: Some(Expr::Type(bare("x"))),
    });
    let assignment = plain(Action::Assignment(Expr::Type(bare("x")), Expr::Type(bare("y"))));
    let unit = Unit {
        imports: vec![],
        declarations: vec![function(vec![parameter], vec![declaration, assignment])],
    };
    assert_eq!(bare_names(&unit), vec!["p", "x", "T", "x", "y"]);
    let used = used_module_paths(&unit);
    assert_eq!(used.len(), 1);
    assert!(used[0].same(&absolute(&["m"])));
}

/// What an import calls an item is a matter of the source alone.
#[test]
fn renaming_an_import_changes_no_dependency() {
    let unit = |name: &str, alias: Option<&str>| Unit {
        imports: vec![
            importing(absolute(&["utils"]), "color", alias),
            importing(absolute(&["lib"]), "other", None),
        ],
        declarations: vec![
            calling(vec![package(name, &["deep"]), package("other", &[]), package("dep", &[])]),
            function(vec![], vec![plain(Action::Increment(Expr::Type(bare("other"))))]),
        ],
    };
    let module = absolute(&["main"]);
    let expected = scan_imports(&unit("color", None), &module);
    let files = ["/lib", "/utils/color/deep", "/lib/other"];
    assert_eq!(&expected[..3], files.map(|path| ShaderImport::AssetPath(path.to_string())));
    assert_eq!(expected[3], ShaderImport::Custom("dep".to_string()));
    for name in ["c", "colour", "fresh"] {
        assert_eq!(scan_imports(&unit(name, Some(name)), &module), expected, "{name}");
    }
    // A name that already leads a path is another matter.
    assert_ne!(scan_imports(&unit("dep", Some("dep")), &module), expected);
}

#[test]
fn repeated_uses_change_no_dependency() {
    let unit = |extra: Vec<GlobalDecl>| {
        let mut declarations = vec![calling(vec![package("color", &[]), absolute(&["m"])])];
        declarations.extend(extra);
        Unit {
            imports: vec![
                importing(absolute(&["utils"]), "color", None),
                importing(absolute(&["lib"]), "X", None),
            ],
            declarations,
        }
    };
    let module = absolute(&["main"]);
    let use_bare = |name| function(vec![], vec![plain(Action::Increment(Expr::Type(bare(name))))]);
    let expected = scan_imports(&unit(vec![]), &module);
    let files = ["/lib", "/utils/color", "/m"];
    assert_eq!(expected, files.map(|path| ShaderImport::AssetPath(path.to_string())));
    for extra in [
        GlobalDecl::Void,
        calling(vec![absolute(&["m"]), package("color", &[])]),
        use_bare("X"),
        use_bare("own"),
    ] {
        assert_eq!(scan_imports(&unit(vec![extra]), &module), expected);
    }
    assert_ne!(scan_imports(&unit(vec![use_bare("color")]), &module), expected);
    assert_ne!(scan_imports(&unit(vec![calling(vec![absolute(&["n"])])]), &module), expected);
}

/// One path for each type expression that carries one, template arguments included.
#[test]
fn each_written_path_is_counted() {
    let inner = TypeExpr { path: Some(absolute(&["b"])), ..bare("T") };
    let outer = TypeExpr {
        path: Some(absolute(&["a"])),
        name: "array".to_string(),
        template_args: Some(vec![Expr::Type(inner), Expr::Type(bare("n")), Expr::Literal]),
    };
    let alias = TypedName { attributes: vec![], name: "A".to_string(), ty: outer };
    let unit = Unit {
        imports: vec![importing(absolute(&["x"]), "y", None)],
        declarations: vec![
            GlobalDecl::TypeAlias(alias),
            calling(vec![absolute(&["b"]), absolute(&["b"])]),
        ],
    };
    let paths = used_module_paths(&unit);
    let expected = [["a"], ["b"], ["b"], ["b"]].map(|names| absolute(&names));
    assert_eq!(paths.len(), expected.len());
    for (path, other) in paths.into_iter().zip(&expected) {
        assert!(path.same(other));
    }
}
