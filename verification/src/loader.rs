//! Loading shaders: from the bytes of an asset to a shader and the files that it needs.

use std::borrow::Cow;
use vstd::prelude::*;
use vstd::std_specs::convert::FromSpecImpl;
use vstd::utf8::{decode_utf8, valid_utf8};

use crate::asset::{file_import, separators, separators_of, Separators};
use crate::import::{import_views, ImportView, ShaderImport};
use crate::reader::wesl_syntax;
use crate::shader::{can_be_read, wesl_dependencies, Shader, ShaderDefVal, Source, ValidateShader};
use crate::text::{
    replace_char, same_text, texts, trim_leading, with_replaced, without_leading,
};

verus! {

/// The error of reading from a source or writing to a sink.
#[verifier::external_type_specification]
#[verifier::external_body]
pub struct ExIoError(std::io::Error);

/// The error of bytes that are not UTF-8, with the bytes.
#[verifier::external_type_specification]
#[verifier::external_body]
pub struct ExFromUtf8Error(std::string::FromUtf8Error);

/// `String::from_utf8` of the standard library gives back the text that the bytes encode, and an
/// error exactly where they are not valid UTF-8.
pub assume_specification[ String::from_utf8 ](vec: Vec<u8>) -> (r: Result<
    String,
    std::string::FromUtf8Error,
>)
    ensures
        match r {
            Ok(text) => valid_utf8(vec@) && text@ == decode_utf8(vec@),
            Err(_) => !valid_utf8(vec@),
        },
;

/// The loader of unprocessed shader assets.
#[derive(Debug, Default)]
pub struct ShaderLoader;

/// An error encountered while loading a shader's source.
#[non_exhaustive]
#[derive(Debug)]
pub enum ShaderLoaderError {
    Io(std::io::Error),
    Parse(std::string::FromUtf8Error),
}

impl From<std::io::Error> for ShaderLoaderError {
    fn from(error: std::io::Error) -> (r: Self) {
        ShaderLoaderError::Io(error)
    }
}

impl FromSpecImpl<std::io::Error> for ShaderLoaderError {
    open spec fn obeys_from_spec() -> bool {
        true
    }

    open spec fn from_spec(error: std::io::Error) -> Self {
        ShaderLoaderError::Io(error)
    }
}

impl From<std::string::FromUtf8Error> for ShaderLoaderError {
    fn from(error: std::string::FromUtf8Error) -> (r: Self) {
        ShaderLoaderError::Parse(error)
    }
}

impl FromSpecImpl<std::string::FromUtf8Error> for ShaderLoaderError {
    open spec fn obeys_from_spec() -> bool {
        true
    }

    open spec fn from_spec(error: std::string::FromUtf8Error) -> Self {
        ShaderLoaderError::Parse(error)
    }
}

/// Settings for loading shaders.
#[derive(Debug)]
pub struct ShaderSettings {
    /// The shader defs to apply when this shader is loaded.
    pub shader_defs: Vec<ShaderDefVal>,
}

impl Default for ShaderSettings {
    fn default() -> (r: Self)
        ensures
            r.shader_defs@ == Seq::<ShaderDefVal>::empty(),
    {
        ShaderSettings { shader_defs: Vec::new() }
    }
}

/// The file that has to be loaded for an import of a shader file with extension `ext`. Only asset
/// paths are files; WESL names them from the root and without their extension.
pub open spec fn fetched_file(import: ImportView, ext: Seq<char>) -> Option<Seq<char>> {
    match import {
        ImportView::AssetPath(path) => if ext == "wesl"@ {
            Some(without_leading(path, '/') + seq!['.'] + ext)
        } else {
            Some(path)
        },
        ImportView::Custom(_) => None,
    }
}

/// The files that have to be loaded for a list of imports, in order.
pub open spec fn fetched_files(imports: Seq<ImportView>, ext: Seq<char>) -> Seq<Seq<char>>
    decreases imports.len(),
{
    if imports.len() == 0 {
        Seq::empty()
    } else {
        let before = fetched_files(imports.drop_last(), ext);
        match fetched_file(imports.last(), ext) {
            Some(file) => before.push(file),
            None => before,
        }
    }
}

/// The files that have to be loaded for the imports of a shader file with extension `ext`.
pub fn file_dependencies(imports: &Vec<ShaderImport>, ext: &str) -> (r: Vec<String>)
    ensures
        texts(r@) == fetched_files(import_views(imports@), ext@),
{
    let mut r: Vec<String> = Vec::new();
    let ghost views = import_views(imports@);
    assert(texts(r@) == Seq::<Seq<char>>::empty());
    proof {
        reveal_strlit(".");
        assert("."@ == seq!['.']);
    }
    let rooted = same_text(ext, "wesl");
    let mut i: usize = 0;
    while i < imports.len()
        invariant
            i <= imports.len(),
            views == import_views(imports@),
            rooted == (ext@ == "wesl"@),
            "."@ == seq!['.'],
            texts(r@) == fetched_files(views.take(i as int), ext@),
        decreases imports.len() - i,
    {
        assert(views.take(i + 1).drop_last() == views.take(i as int));
        let ghost before = texts(r@);
        match &imports[i] {
            ShaderImport::AssetPath(path) => {
                let file = if rooted {
                    let mut file = trim_leading(path.as_str(), '/');
                    file.append(".");
                    file.append(ext);
                    file
                } else {
                    path.clone()
                };
                let ghost shown = file@;
                r.push(file);
                assert(texts(r@) == before.push(shown));
            },
            ShaderImport::Custom(_) => {},
        }
        i += 1;
    }
    assert(views.take(views.len() as int) == views);
    r
}

/// Whether the shader defs of the settings have no effect on a file with extension `ext`: only
/// WESL takes them.
pub fn ignores_shader_defs(ext: &str, settings: &ShaderSettings) -> (r: bool)
    ensures
        r == (ext@ != "wesl"@ && settings.shader_defs@.len() > 0),
{
    !same_text(ext, "wesl") && settings.shader_defs.len() > 0
}

/// Whether shaders can be loaded from files with extension `ext`.
pub open spec fn is_loadable(ext: Seq<char>) -> bool {
    ext == "spv"@ || ext == "wgsl"@ || ext == "wesl"@
}

/// Whether `shader` is what is loaded from SPIR-V code in `file`.
pub open spec fn is_spirv(shader: Shader, code: Seq<u8>, file: Seq<char>) -> bool {
    &&& shader.source matches Source::SpirV(source) && source@ == code
    &&& shader.stands_alone(file)
}

/// Whether `shader` is what is loaded from a WGSL text at `path`.
pub open spec fn is_wgsl(shader: Shader, text: Seq<char>, path: Seq<char>) -> bool {
    &&& shader.source matches Source::Wgsl(source) && source@ == text
    &&& shader.stands_alone(path)
}

/// Whether `shader` is what is loaded from a WESL text at `path` with some shader defs.
pub open spec fn is_wesl(
    shader: Shader,
    text: Seq<char>,
    path: Seq<char>,
    shader_defs: Seq<ShaderDefVal>,
    separators: Separators,
) -> bool {
    let imports = wesl_dependencies(wesl_syntax(text), file_import(path, separators));
    &&& shader.source matches Source::Wesl(source) && source@ == text
    &&& shader.path@ == path
    &&& shader.import_path@ == file_import(path, separators)
    &&& import_views(shader.imports@) == imports
    &&& shader.shader_defs@ == shader_defs
    &&& texts(shader.file_dependencies@) == fetched_files(imports, "wesl"@)
    &&& shader.validate_shader == ValidateShader::Disabled
}

impl ShaderLoader {
    /// The extensions of the files that shaders can be loaded from.
    pub fn extensions(&self) -> (r: &'static [&'static str])
        ensures
            r@.len() == 3,
            r@[0]@ == "spv"@,
            r@[1]@ == "wgsl"@,
            r@[2]@ == "wesl"@,
            forall|i: int| 0 <= i < r@.len() ==> is_loadable((#[trigger] r@[i])@),
    {
        &["spv", "wgsl", "wesl"]
    }

    /// Makes a shader of the bytes of a file with extension `ext`. The file is the asset at
    /// `asset_path`, on a system that mainly separates by `separator`; `file` is its path
    /// without the source of the asset.
    ///
    /// The files that the shader needs are its `file_dependencies`.
    pub fn load(
        &self,
        ext: &str,
        asset_path: &str,
        separator: char,
        file: &str,
        bytes: Vec<u8>,
        settings: &ShaderSettings,
    ) -> (r: Result<Shader, ShaderLoaderError>)
        requires
            is_loadable(ext@),
            ext@ == "wesl"@ && valid_utf8(bytes@) ==> can_be_read(
                decode_utf8(bytes@),
                with_replaced(asset_path@, separator, '/'),
                separators(separator),
            ),
        ensures
            ext@ == "spv"@ ==> match r {
                Ok(shader) => is_spirv(shader, bytes@, file@),
                Err(_) => false,
            },
            ext@ != "spv"@ && !valid_utf8(bytes@) ==> r matches Err(ShaderLoaderError::Parse(_)),
            ext@ == "wgsl"@ && valid_utf8(bytes@) ==> match r {
                Ok(shader) => is_wgsl(
                    shader,
                    decode_utf8(bytes@),
                    with_replaced(asset_path@, separator, '/'),
                ),
                Err(_) => false,
            },
            ext@ == "wesl"@ && valid_utf8(bytes@) ==> match r {
                Ok(shader) => is_wesl(
                    shader,
                    decode_utf8(bytes@),
                    with_replaced(asset_path@, separator, '/'),
                    settings.shader_defs@,
                    separators(separator),
                ),
                Err(_) => false,
            },
    {
        proof {
            reveal_strlit("spv");
            reveal_strlit("wgsl");
            reveal_strlit("wesl");
            assert("spv"@.len() != "wgsl"@.len());
            assert("wgsl"@[1] != "wesl"@[1]);
        }
        let path = replace_char(asset_path, separator, '/');
        let mut shader = if same_text(ext, "spv") {
            Shader::new_spirv(Cow::Owned(bytes), file.to_owned())
        } else {
            let text = match String::from_utf8(bytes) {
                Ok(text) => text,
                Err(error) => {
                    return Err(ShaderLoaderError::from(error));
                },
            };
            if same_text(ext, "wgsl") {
                Shader::from_wgsl(text, path)
            } else {
                let mut shader = Shader::new_wesl(
                    Cow::from(text),
                    path,
                    separators_of(separator),
                );
                shader.shader_defs = settings.shader_defs.clone();
                assert(shader.shader_defs@ == settings.shader_defs@);
                shader
            }
        };
        shader.file_dependencies = file_dependencies(&shader.imports, ext);
        proof {
            assert(texts(shader.file_dependencies@).len() == shader.file_dependencies@.len());
            assert(ext@ != "wesl"@ ==> shader.file_dependencies@ == Seq::<String>::empty());
        }
        Ok(shader)
    }
}

}
