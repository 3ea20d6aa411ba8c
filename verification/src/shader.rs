//! Shaders: their source, the path from which they can be imported, and what they depend on.

use std::borrow::Cow;
use vstd::prelude::*;

use crate::asset::{file_import, import_of_file, separators_of, Separators};
use crate::import::{import_views, wesl_module_path, ImportView, ShaderImport};
use crate::literal::{can_lex, is_lexable};
use crate::reader::wesl_syntax;
use crate::scan::{scan_wesl_imports, source_dependencies};
use crate::syntax::UnitTree;
use crate::text::texts;

verus! {

/// A shader definition: a name and the value that it stands for.
#[derive(Debug, PartialEq, Eq, Hash)]
pub enum ShaderDefVal {
    Bool(String, bool),
    Int(String, i32),
    UInt(String, u32),
}

impl Clone for ShaderDefVal {
    fn clone(&self) -> (r: Self)
        ensures
            r == *self,
    {
        match self {
            ShaderDefVal::Bool(name, value) => ShaderDefVal::Bool(name.clone(), *value),
            ShaderDefVal::Int(name, value) => ShaderDefVal::Int(name.clone(), *value),
            ShaderDefVal::UInt(name, value) => ShaderDefVal::UInt(name.clone(), *value),
        }
    }
}

/// Describes whether or not to perform runtime checks on shaders.
/// Runtime checks can be enabled for safety at the cost of speed.
/// By default no runtime checks will be performed.
///
/// # Panics
/// Because no runtime checks are performed for spirv,
/// enabling `ValidateShader` for spirv will cause a panic
#[derive(Debug)]
pub enum ValidateShader {
    /// No runtime checks for soundness (e.g. bound checking) are performed.
    ///
    /// This is suitable for trusted shaders, written by your program or dependencies you trust.
    Disabled,
    /// Enable's runtime checks for soundness (e.g. bound checking).
    ///
    /// While this can have a meaningful impact on performance,
    /// this setting should *always* be enabled when loading untrusted shaders.
    /// This might occur if you are creating a shader playground, running user-generated shaders
    /// (as in `VRChat`), or writing a web browser in Bevy.
    Enabled,
}

impl Clone for ValidateShader {
    fn clone(&self) -> (r: Self)
        ensures
            r == *self,
    {
        match self {
            ValidateShader::Disabled => ValidateShader::Disabled,
            ValidateShader::Enabled => ValidateShader::Enabled,
        }
    }
}

impl Default for ValidateShader {
    fn default() -> (r: Self)
        ensures
            r == ValidateShader::Disabled,
    {
        ValidateShader::Disabled
    }
}

/// Raw shader source code.
#[derive(Debug)]
pub enum Source {
    Wgsl(Cow<'static, str>),
    Wesl(Cow<'static, str>),
    SpirV(Cow<'static, [u8]>),
}

impl Clone for Source {
    fn clone(&self) -> (r: Self)
        ensures
            r.says_as(*self),
    {
        match self {
            Source::Wgsl(Cow::Borrowed(s)) => Source::Wgsl(Cow::from(*s)),
            Source::Wgsl(Cow::Owned(s)) => Source::Wgsl(Cow::Owned(s.clone())),
            Source::Wesl(Cow::Borrowed(s)) => Source::Wesl(Cow::from(*s)),
            Source::Wesl(Cow::Owned(s)) => Source::Wesl(Cow::Owned(s.clone())),
            Source::SpirV(Cow::Borrowed(s)) => Source::SpirV(Cow::Borrowed(*s)),
            Source::SpirV(Cow::Owned(s)) => Source::SpirV(Cow::Owned(s.clone())),
        }
    }
}

impl Source {
    /// Whether both hold the same code in the same language.
    pub open spec fn says_as(self, other: Source) -> bool {
        match (self, other) {
            (Source::Wgsl(a), Source::Wgsl(b)) => a@ == b@,
            (Source::Wesl(a), Source::Wesl(b)) => a@ == b@,
            (Source::SpirV(a), Source::SpirV(b)) => a@ == b@,
            _ => false,
        }
    }

    /// The source code, unless it is SPIR-V.
    pub open spec fn text(self) -> Option<Seq<char>> {
        match self {
            Source::Wgsl(s) => Some(s@),
            Source::Wesl(s) => Some(s@),
            Source::SpirV(_) => None,
        }
    }

    /// The underlying source code string, which SPIR-V does not have.
    pub fn as_str(&self) -> (r: &str)
        requires
            self.text() is Some,
        ensures
            self.text() == Some(r@),
    {
        match self {
            Source::Wgsl(s) | Source::Wesl(s) => cow_str(s),
            Source::SpirV(_) => "",
        }
    }
}

/// The text of a borrowed or owned string.
fn cow_str<'a>(s: &'a Cow<'static, str>) -> (r: &'a str)
    ensures
        r@ == s@,
{
    match s {
        Cow::Borrowed(text) => text,
        Cow::Owned(text) => text.as_str(),
    }
}

/// An "unprocessed" shader. It can contain imports and conditional
/// compilation attributes.
#[derive(Debug)]
pub struct Shader {
    /// The asset path of the shader.
    pub path: String,
    /// The raw source code of the shader.
    pub source: Source,
    /// The path from which this shader can be imported by other shaders.
    pub import_path: ShaderImport,
    /// The import paths this shader depends on.
    pub imports: Vec<ShaderImport>,
    /// Any shader defs that should be included when this module is used.
    pub shader_defs: Vec<ShaderDefVal>,
    /// The asset paths of this shader's dependencies. Whoever loads the shader holds on to them,
    /// to prevent them from being immediately dropped if this shader is the only user.
    pub file_dependencies: Vec<String>,
    /// Enable or disable runtime shader validation, trading safety against speed.
    ///
    /// Please read the [`ValidateShader`] docs for a discussion of the tradeoffs involved.
    pub validate_shader: ValidateShader,
}

impl Clone for Shader {
    fn clone(&self) -> (r: Self)
        ensures
            r.path@ == self.path@,
            r.source.says_as(self.source),
            r.import_path@ == self.import_path@,
            import_views(r.imports@) == import_views(self.imports@),
            r.shader_defs@ == self.shader_defs@,
            texts(r.file_dependencies@) == texts(self.file_dependencies@),
            r.validate_shader == self.validate_shader,
    {
        Shader {
            path: self.path.clone(),
            source: self.source.clone(),
            import_path: self.import_path.clone(),
            imports: self.imports.clone(),
            shader_defs: self.shader_defs.clone(),
            file_dependencies: self.file_dependencies.clone(),
            validate_shader: self.validate_shader.clone(),
        }
    }
}

/// What a WESL source depends on when its shader can be imported by `import`.
pub open spec fn wesl_dependencies(unit: Option<UnitTree>, import: ImportView) -> Seq<ImportView> {
    match import.module() {
        Some(module) => source_dependencies(unit, module),
        None => Seq::empty(),
    }
}

/// Whether the source of a WESL shader at `path` can be handed to the parser, or is not: a shader
/// that names no module is not parsed.
pub open spec fn can_be_read(
    source: Seq<char>,
    path: Seq<char>,
    separators: Separators,
) -> bool {
    file_import(path, separators).module() is Some ==> is_lexable(source)
}

/// Whether the source of a WESL shader at `path` can be handed to the parser, or need not be.
pub fn is_readable(source: &str, path: &str, separators: Separators) -> (r: bool)
    ensures
        r == can_be_read(source@, path@, separators),
{
    wesl_module_path(&import_of_file(path, separators)).is_none() || can_lex(source)
}

/// `std::path::MAIN_SEPARATOR`. It rests on the system, so nothing is claimed of it.
#[verifier::external_body]
fn main_separator() -> (r: char) {
    std::path::MAIN_SEPARATOR
}

impl Shader {
    /// Whether nothing was set but the path, the source, the import path and the imports.
    pub open spec fn is_fresh(self) -> bool {
        &&& self.shader_defs@ == Seq::<ShaderDefVal>::empty()
        &&& self.file_dependencies@ == Seq::<String>::empty()
        &&& self.validate_shader == ValidateShader::Disabled
    }

    /// Whether all but the shader defs is as in the fresh shader of a source that imports
    /// nothing, found at `path`.
    pub open spec fn without_defs(self, path: Seq<char>) -> bool {
        &&& self.path@ == path
        &&& self.import_path@ == ImportView::AssetPath(path)
        &&& import_views(self.imports@) == Seq::<ImportView>::empty()
        &&& self.file_dependencies@ == Seq::<String>::empty()
        &&& self.validate_shader == ValidateShader::Disabled
    }

    /// Whether this is the fresh shader of a source that imports nothing, found at `path`.
    pub open spec fn stands_alone(self, path: Seq<char>) -> bool {
        &&& self.without_defs(path)
        &&& self.shader_defs@ == Seq::<ShaderDefVal>::empty()
    }

    /// Whether this is the fresh shader of a WESL source at `path` in which `unit` was read.
    pub open spec fn reads(
        self,
        unit: Option<UnitTree>,
        path: Seq<char>,
        separators: Separators,
    ) -> bool {
        &&& self.is_fresh()
        &&& self.path@ == path
        &&& self.import_path@ == file_import(path, separators)
        &&& import_views(self.imports@) == wesl_dependencies(unit, file_import(path, separators))
    }

    /// Creates a new WGSL shader.
    pub fn from_wgsl<S: Into<Cow<'static, str>>, P: Into<String>>(source: S, path: P) -> (r: Shader)
        ensures
            exists|text: Cow<'static, str>, p: String|
                #![trigger call_ensures(S::into, (source,), text), call_ensures(P::into, (path,), p)]
                call_ensures(S::into, (source,), text) && call_ensures(P::into, (path,), p)
                    && r.source == Source::Wgsl(text) && r.stands_alone(p@),
    {
        Shader::new_wgsl(source.into(), path.into())
    }

    /// Creates a new WGSL shader from its text.
    pub fn new_wgsl(source: Cow<'static, str>, path: String) -> (r: Shader)
        ensures
            r.source == Source::Wgsl(source),
            r.stands_alone(path@),
    {
        Shader::alone(Source::Wgsl(source), path)
    }

    /// Creates a new WGSL shader with some given shader defs.
    pub fn from_wgsl_with_defs<S: Into<Cow<'static, str>>, P: Into<String>>(
        source: S,
        path: P,
        shader_defs: Vec<ShaderDefVal>,
    ) -> (r: Shader)
        ensures
            r.shader_defs == shader_defs,
            exists|text: Cow<'static, str>, p: String|
                #![trigger call_ensures(S::into, (source,), text), call_ensures(P::into, (path,), p)]
                call_ensures(S::into, (source,), text) && call_ensures(P::into, (path,), p)
                    && r.source == Source::Wgsl(text) && r.without_defs(p@),
    {
        Shader::new_wgsl_with_defs(source.into(), path.into(), shader_defs)
    }

    /// Creates a new WGSL shader from its text, with some given shader defs.
    pub fn new_wgsl_with_defs(
        source: Cow<'static, str>,
        path: String,
        shader_defs: Vec<ShaderDefVal>,
    ) -> (r: Shader)
        ensures
            r.shader_defs == shader_defs,
            r.source == Source::Wgsl(source),
            r.without_defs(path@),
    {
        Shader { shader_defs, ..Shader::new_wgsl(source, path) }
    }

    /// Creates a new SPIR-V shader.
    pub fn from_spirv<S: Into<Cow<'static, [u8]>>, P: Into<String>>(
        source: S,
        path: P,
    ) -> (r: Shader)
        ensures
            exists|code: Cow<'static, [u8]>, p: String|
                #![trigger call_ensures(S::into, (source,), code), call_ensures(P::into, (path,), p)]
                call_ensures(S::into, (source,), code) && call_ensures(P::into, (path,), p)
                    && r.source == Source::SpirV(code) && r.stands_alone(p@),
    {
        Shader::new_spirv(source.into(), path.into())
    }

    /// Creates a new SPIR-V shader from its code.
    pub fn new_spirv(source: Cow<'static, [u8]>, path: String) -> (r: Shader)
        ensures
            r.source == Source::SpirV(source),
            r.stands_alone(path@),
    {
        Shader::alone(Source::SpirV(source), path)
    }

    /// Creates a new Wesl shader. Its path is read with the separators of the system.
    pub fn from_wesl<S: Into<Cow<'static, str>>, P: Into<String>>(source: S, path: P) -> (r: Shader)
        requires
            forall|text: Cow<'static, str>, p: String, separators: Separators|
                #![trigger call_ensures(S::into, (source,), text), can_be_read(
                    text@,
                    p@,
                    separators,
                ), call_ensures(P::into, (path,), p)]
                call_ensures(S::into, (source,), text) && call_ensures(P::into, (path,), p)
                    ==> can_be_read(text@, p@, separators),
        ensures
            exists|text: Cow<'static, str>, p: String, separators: Separators|
                #![trigger call_ensures(S::into, (source,), text), r.reads(
                    wesl_syntax(text@),
                    p@,
                    separators,
                ), call_ensures(P::into, (path,), p)]
                call_ensures(S::into, (source,), text) && call_ensures(P::into, (path,), p)
                    && r.source == Source::Wesl(text) && r.reads(
                    wesl_syntax(text@),
                    p@,
                    separators,
                ),
    {
        let separators = separators_of(main_separator());
        let text: Cow<'static, str> = source.into();
        let p: String = path.into();
        assert(can_be_read(text@, p@, separators));
        Shader::new_wesl(text, p, separators)
    }

    /// Creates a new Wesl shader from its text.
    pub fn new_wesl(source: Cow<'static, str>, path: String, separators: Separators) -> (r: Shader)
        requires
            can_be_read(source@, path@, separators),
        ensures
            r.source == Source::Wesl(source),
            r.reads(wesl_syntax(source@), path@, separators),
    {
        let import_path = import_of_file(path.as_str(), separators);
        let imports = match wesl_module_path(&import_path) {
            Some(module) => scan_wesl_imports(cow_str(&source), &module),
            None => Vec::new(),
        };
        assert(import_path@.module() is None ==> import_views(imports@) == Seq::<
            ImportView,
        >::empty());
        Shader {
            path,
            imports,
            import_path,
            source: Source::Wesl(source),
            shader_defs: Vec::new(),
            file_dependencies: Vec::new(),
            validate_shader: ValidateShader::Disabled,
        }
    }

    /// The fresh shader of a source that imports nothing.
    fn alone(source: Source, path: String) -> (r: Shader)
        ensures
            r.source == source,
            r.stands_alone(path@),
    {
        let imports: Vec<ShaderImport> = Vec::new();
        assert(import_views(imports@) == Seq::<ImportView>::empty());
        Shader {
            import_path: ShaderImport::AssetPath(path.clone()),
            path,
            imports,
            source,
            shader_defs: Vec::new(),
            file_dependencies: Vec::new(),
            validate_shader: ValidateShader::Disabled,
        }
    }
}

}
