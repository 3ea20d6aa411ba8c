use bevy_shader::{Shader, ShaderImport};

fn asset(path: &str) -> ShaderImport {
    ShaderImport::AssetPath(path.to_string())
}

fn custom(path: &str) -> ShaderImport {
    ShaderImport::Custom(path.to_string())
}

/// A module path may be written inline in a declaration, with no import statement at all.
/// The module is still a dependency, whatever the path's origin or where it is written.
#[test]
fn inline_path_without_an_import_is_a_dependency() {
    let relative = Shader::from_wesl("fn main() { super::file1::bar(); }", "shaders/main.wesl");
    assert_eq!(relative.imports, vec![asset("/shaders/file1")]);

    let absolute = Shader::from_wesl(
        "fn main() { package::shaders::foo::bar(); }",
        "shaders/main.wesl",
    );
    assert_eq!(absolute.imports, vec![asset("/shaders/foo")]);

    let initializer = Shader::from_wesl("var a = package::shaders::file::b;", "shaders/main.wesl");
    assert_eq!(initializer.imports, vec![asset("/shaders/file")]);
}

/// A bare use of an imported name binds a declaration in the parent module, so only the
/// parent is a dependency. The item's name must never become a module path.
#[test]
fn bare_use_depends_only_on_the_parent_module() {
    let shader = Shader::from_wesl(
        "import super::custom_material_import::COLOR_MULTIPLIER;\n\
         @fragment fn fragment() -> @location(0) vec4<f32> { return COLOR_MULTIPLIER; }",
        "shaders/custom_material.wesl",
    );

    assert_eq!(shader.imports, vec![asset("/shaders/custom_material_import")]);
}

/// A qualified use reaches into a module, so the nested module is the dependency. Dropping it
/// would silently break projects that organise shaders into subdirectories.
#[test]
fn qualified_use_depends_on_the_nested_module() {
    let shader = Shader::from_wesl(
        "import package::shaders::utils::color;\n\
         @fragment fn fragment() -> @location(0) vec4<f32> { return color::TINT; }",
        "shaders/root.wesl",
    );

    assert_eq!(shader.imports, vec![asset("/shaders/utils/color")]);
}

/// Importing an item from a nested module needs both: the module is reached by the qualified
/// path in the import, and the item is a declaration inside it.
#[test]
fn item_from_nested_module_depends_on_that_module() {
    let shader = Shader::from_wesl(
        "import package::shaders::utils::color::TINT;\n\
         @fragment fn fragment() -> @location(0) vec4<f32> { return TINT; }",
        "shaders/root.wesl",
    );

    assert_eq!(shader.imports, vec![asset("/shaders/utils/color")]);
}

/// A module may be nested under one reached by an import. The components written after the
/// imported name are part of the module path and must not be dropped.
#[test]
fn module_nested_under_an_imported_name_is_a_dependency() {
    let shader = Shader::from_wesl(
        "import package::shaders::a::b;\nfn f() { b::c::D(); }",
        "shaders/main.wesl",
    );

    assert_eq!(shader.imports, vec![asset("/shaders/a/b/c")]);
}

/// A renamed import is used under its alias, so the alias is what decides.
#[test]
fn alias_is_what_decides_the_reading() {
    let shader = Shader::from_wesl(
        "import package::shaders::utils::color as c;\n\
         @fragment fn fragment() -> @location(0) vec4<f32> { return c::TINT; }",
        "shaders/root.wesl",
    );

    assert_eq!(shader.imports, vec![asset("/shaders/utils/color")]);
}

/// Under an alias the item's own name leads no path: it is read from the current module, as any
/// name that no import bound.
#[test]
fn the_name_behind_an_alias_is_not_bound() {
    let shader = Shader::from_wesl(
        "import package::shaders::utils::color as c;\n\
         fn f() { color::tint(); }",
        "shaders/root.wesl",
    );

    assert_eq!(shader.imports, vec![asset("/shaders/utils"), custom("color")]);
}

/// A material shader that takes a constant from a file and a type from a package.
///
/// The asset loader turns every `AssetPath` import into a fetch, so this pins the whole
/// set of requests. `COLOR_MULTIPLIER` is a `const`, not a file, and must never be one.
#[test]
fn real_example_asset_fetches_only_real_modules() {
    let source = "import super::custom_material_import::COLOR_MULTIPLIER;\n\
         import bevy_pbr::forward_io::VertexOutput;\n\
         @group(2) @binding(0) var<uniform> material_color: vec4<f32>;\n\
         @group(2) @binding(1) var material_color_texture: texture_2d<f32>;\n\
         @group(2) @binding(2) var material_color_sampler: sampler;\n\
         @fragment fn fragment(mesh: VertexOutput) -> @location(0) vec4<f32> {\n\
             return material_color * textureSample(material_color_texture, \
                 material_color_sampler, mesh.uv) * COLOR_MULTIPLIER;\n\
         }";
    let shader = Shader::from_wesl(source, "shaders/custom_material.wesl");

    let fetched: Vec<&ShaderImport> = shader
        .imports
        .iter()
        .filter(|import| matches!(import, ShaderImport::AssetPath(_)))
        .collect();

    assert_eq!(fetched, vec![&asset("/shaders/custom_material_import")]);
    assert_eq!(
        shader.imports,
        vec![asset("/shaders/custom_material_import"), custom("bevy_pbr::forward_io")]
    );
}

/// A bare use of a name needs the module that it comes from, and a qualified use needs the nested
/// module too.
#[test]
fn bare_and_qualified_uses_need_both_modules() {
    let shader = Shader::from_wesl(
        "import package::shaders::a::b;\nfn f() { let x = b; b::D(); }",
        "shaders/main.wesl",
    );
    assert_eq!(shader.imports, vec![asset("/shaders/a"), asset("/shaders/a/b")]);

    let renamed = Shader::from_wesl(
        "import package::a::b as c;\nfn f() -> array<c, 2> { return c::d(); }",
        "shaders/main.wesl",
    );
    assert_eq!(renamed.imports, vec![asset("/a"), asset("/a/b")]);

    let global = Shader::from_wesl(
        "import package::a::b;\nconst x: b = b::c;",
        "shaders/main.wesl",
    );
    assert_eq!(global.imports, vec![asset("/a"), asset("/a/b")]);
}

/// A name that a function declares itself is no bare use of an import of that name.
#[test]
fn local_names_are_no_bare_uses() {
    let only_nested = vec![asset("/utils/color")];
    for body in [
        "let color = color::TINT; return color;",
        "var color = color::TINT; { color = 2 * color; }",
        "let x = color::TINT; let color = x; if color > 0 { return color; }",
        "for (var color = color::TINT; color < 4; color++) { x(color); }",
        "loop { let color = color::TINT; continuing { x(color); break if color > 1; } }",
        "loop { color::f(); continuing { let color = 1; break if color > 1; } }",
        "let color = color::TINT; switch color { case color: { return color; } default: { } }",
        "let color = color::TINT; while color > 0 { color--; } loop { if color < 1 { break; } }",
        "let color: color::T = 1; { let color = color; x(color[color].color); }",
    ] {
        let source = format!("import package::utils::color;\nfn f() {{ {body} }}");
        let shader = Shader::from_wesl(source, "shaders/root.wesl");
        assert_eq!(shader.imports, only_nested, "{body}");
    }

    let parameter = Shader::from_wesl(
        "import package::utils::color;\nfn f(color: color::T) -> f32 { return color; }",
        "shaders/root.wesl",
    );
    assert_eq!(parameter.imports, only_nested);
}

/// A name is known from its declaration to the end of the block.
#[test]
fn names_outside_their_block_are_bare_uses() {
    for body in [
        "let color = color; color::f();",
        "{ let color = color::TINT; } x(color);",
        "for (var color = color::TINT; ; ) { } x(color);",
        "loop { let color = color::TINT; } x(color);",
        "if color::TINT > 0 { let color = 1; } else { x(color); }",
        "x(color); let color = color::TINT;",
        "loop { color::f(); continuing { { let color = 1; } break if color > 1; } }",
    ] {
        let source = format!("import package::utils::color;\nfn f() {{ {body} }}");
        let shader = Shader::from_wesl(source, "shaders/root.wesl");
        assert_eq!(shader.imports, vec![asset("/utils"), asset("/utils/color")], "{body}");
    }

    let parameters = Shader::from_wesl(
        "import package::utils::color;\nfn f(color: color) -> color { return color::TINT; }",
        "shaders/root.wesl",
    );
    assert_eq!(parameters.imports, vec![asset("/utils"), asset("/utils/color")]);
}

/// The first import of a name is the one that its use sites mean.
#[test]
fn the_first_import_of_a_name_counts() {
    let shader = Shader::from_wesl(
        "import package::one::x;\nimport package::two::x;\nfn f() { x::c(); }",
        "shaders/main.wesl",
    );

    assert_eq!(shader.imports, vec![asset("/one/x")]);
}

/// The values that an attribute is given are use sites.
#[test]
fn attributes_are_use_sites() {
    let shader = Shader::from_wesl(
        "@compute @workgroup_size(super::c::N) fn f() { }",
        "shaders/main.wesl",
    );
    assert_eq!(shader.imports, vec![asset("/shaders/c")]);

    let bare = Shader::from_wesl(
        "import package::a::b;\n@compute @workgroup_size(b) fn f() { b::c(); }",
        "shaders/main.wesl",
    );
    assert_eq!(bare.imports, vec![asset("/a"), asset("/a/b")]);
}

/// Every attribute of a source that can be given a value, each with a module of its own.
#[test]
fn attributes_are_found_everywhere_and_in_order() {
    let source = "
        @group(package::m01::c) @binding(package::m02::c) var x: package::m03::T;
        @id(package::m04::c) override y: f32 = package::m05::c;
        @mine(package::m06::c, package::m07::c) struct S {
            @align(package::m08::c) @size(package::m09::c) a: package::m10::T,
            @location(package::m11::c) @blend_src(package::m12::c) b: package::m13::T,
        }
        @mine(package::m14::c) alias A = package::m15::T;
        @mine(package::m16::c) const_assert package::m17::c;
        @compute @workgroup_size(package::m18::x, package::m19::y, package::m20::z)
        fn f(@location(package::m21::c) p: package::m22::T)
            -> @location(package::m23::c) package::m24::T @mine(package::m25::c) {
            @mine(package::m26::c) x = package::m27::v;
            @mine(package::m28::c) x++;
            @mine(package::m29::c) x--;
            @mine(package::m30::c) if package::m31::v @mine(package::m32::c) { }
            else if package::m33::v @mine(package::m34::c) { }
            else @mine(package::m35::c) { }
            @mine(package::m36::c) switch package::m37::v @mine(package::m38::c) {
                @mine(package::m39::c) case package::m40::v @mine(package::m41::c) { }
            }
            @mine(package::m42::c) loop @mine(package::m43::c) {
                package::m44::g();
                @mine(package::m45::c) continuing @mine(package::m46::c) {
                    @mine(package::m47::c) break if package::m48::v;
                }
            }
            @mine(package::m49::c) for (x = package::m50::v; ; ) @mine(package::m51::c) {
                @mine(package::m52::c) continue;
            }
            @mine(package::m53::c) while package::m54::v @mine(package::m55::c) {
                @mine(package::m56::c) break;
            }
            @mine(package::m57::c) { @mine(package::m58::c) discard; }
            @mine(package::m59::c) package::m60::g();
            @mine(package::m61::c) const_assert package::m62::c;
            @mine(package::m63::c) let l: package::m64::T = package::m65::v;
            @mine(package::m66::c) return package::m67::v;
        }
    ";
    let shader = Shader::from_wesl(source, "main.wesl");
    let expected: Vec<ShaderImport> = (1..68).map(|i| asset(&format!("/m{i:02}"))).collect();
    assert_eq!(shader.imports, expected);
}

/// The condition of an `@if` speaks of features, not of values.
#[test]
fn conditions_on_features_are_no_use_sites() {
    let shader = Shader::from_wesl(
        "import package::a::b;\n@if(b) fn f() { b::c(); }\n@else fn f() { }",
        "shaders/main.wesl",
    );
    assert_eq!(shader.imports, vec![asset("/a/b")]);
}

/// Words and the names that WGSL fixes are no use sites either.
#[test]
fn attributes_without_values_are_no_use_sites() {
    let shader = Shader::from_wesl(
        "import package::a::position;
        @vertex @must_use @diagnostic(off, derivative_uniformity)
        fn f(@builtin(position) @invariant p: vec4f, @interpolate(flat) q: f32)
            -> @location(package::m::c) f32 { return package::n::c; }
        @if(x) @fragment fn g() { }
        @elif(y) @fragment fn g() { package::o::h(); }
        fn k() { position::l(); }",
        "main.wesl",
    );
    assert_eq!(
        shader.imports,
        vec![asset("/m"), asset("/n"), asset("/o"), asset("/a/position")]
    );
}

#[test]
fn each_dependency_is_listed_once_in_order() {
    let shader = Shader::from_wesl(
        "import package::b::X;\n\
         import package::a::Y;\n\
         import package::b::Z;\n\
         fn f() { package::a::g(); package::c::h(); package::c::i(); }",
        "shaders/main.wesl",
    );

    assert_eq!(shader.imports, vec![asset("/b"), asset("/a"), asset("/c")]);
}

#[test]
fn collections_bind_every_item_of_theirs() {
    let shader = Shader::from_wesl(
        "import package::lib::{x::A, y::{B, C as D}, z};\n\
         fn f() { A(); z::g(); D::h(); }",
        "shaders/main.wesl",
    );

    // `A` is bare, `B` is not used, `z` and `D` (the alias of `C`) are qualified.
    assert_eq!(
        shader.imports,
        vec![asset("/lib/x"), asset("/lib/y"), asset("/lib/z"), asset("/lib/y/C")]
    );
}

#[test]
fn collections_without_a_path_lead_with_packages() {
    let shader = Shader::from_wesl(
        "import {one::a::X, two::Y};\nfn f() { X(); Y(); }",
        "shaders/main.wesl",
    );

    assert_eq!(shader.imports, vec![custom("one::a"), custom("two")]);
}

#[test]
fn packages_and_supers_inside_a_package() {
    let shader = Shader::from_wesl(
        "fn f() { super::sibling::g(); package::root::h(); other::mod1::i(); self::k::l(); }",
        "embedded://my_crate/render/main.wesl",
    );

    assert_eq!(shader.import_path, custom("my_crate::render::main"));
    assert_eq!(
        shader.imports,
        vec![
            custom("my_crate::render::sibling"),
            custom("my_crate::root"),
            custom("other::mod1"),
            custom("my_crate::render::main::k"),
        ]
    );
}

#[test]
fn too_many_supers_stop_at_the_root() {
    let shader = Shader::from_wesl(
        "fn f() { super::super::super::super::a::b(); }",
        "shaders/main.wesl",
    );

    assert_eq!(shader.imports, vec![asset("/a")]);
}

/// Every place of a source that can hold a use site, each with a module of its own.
#[test]
fn use_sites_are_found_everywhere_and_in_order() {
    let source = "
        const k: package::m01::T = package::m02::c + (package::m03::c);
        alias A = array<package::m04::T, package::m05::N>;
        struct S { a: package::m06::T, b: package::m07::T }
        const_assert package::m08::c < 4;
        fn f(p: package::m09::T, q: package::m10::T) -> package::m11::T {
            package::m12::v = package::m13::v;
            package::m14::v++;
            package::m15::v--;
            if package::m16::v { package::m17::g(); }
            else if package::m18::v { package::m19::g(); }
            else { package::m20::g(package::m21::x, -package::m22::x); }
            switch package::m23::v {
                case package::m24::v, package::m25::v: { package::m26::g(); }
                default: { package::m27::g(); }
            }
            loop {
                package::m28::g();
                continuing { package::m29::g(); break if package::m30::v; }
            }
            for (var i = package::m31::v; i < package::m32::v; package::m33::g()) {
                package::m34::g();
            }
            while package::m35::v { package::m36::g(); }
            { let l: package::m37::T = package::m38::v; }
            const_assert package::m39::c;
            let n = package::m40::v.x[package::m41::i];
            return package::m42::v;
        }
    ";
    let shader = Shader::from_wesl(source, "main.wesl");
    let expected: Vec<ShaderImport> = (1..43).map(|i| asset(&format!("/m{i:02}"))).collect();
    assert_eq!(shader.imports, expected);
}

#[test]
fn a_source_that_does_not_parse_has_no_imports() {
    let shader = Shader::from_wesl("import import import", "shaders/main.wesl");
    assert_eq!(shader.imports, vec![]);
    assert_eq!(shader.import_path, asset("/shaders/main"));
    assert_eq!(shader.source.as_str(), "import import import");
}

#[test]
fn an_embedded_shader_without_a_name_has_no_imports() {
    let shader = Shader::from_wesl("fn f() { package::a::g(); }", "embedded://");
    assert_eq!(shader.import_path, custom(""));
    assert_eq!(shader.imports, vec![]);
}

/// Statements and declarations without their optional parts, and those that hold no path at all.
#[test]
fn what_is_left_out_holds_no_path() {
    let source = "
        ;
        var<private> a: i32;
        struct Empty { x: i32 }
        fn g() { }
        fn f(x: i32) {
            ;
            var y: i32;
            for (;;) { break; }
            loop { continue; }
            loop { continuing { y++; } }
            if x < y { discard; }
            switch x { default { } }
            while true { }
            { }
            return;
        }
        const last = package::last::value;
    ";
    let shader = Shader::from_wesl(source, "main.wesl");
    assert_eq!(shader.imports, vec![asset("/last")]);
}
