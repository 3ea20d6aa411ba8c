//! Shader sources, the modules they import and the files they depend on.

pub mod asset;
pub mod choosing;
pub mod cutting;
pub mod edits;
pub mod files;
pub mod grouping;
pub mod import;
pub mod laws;
pub mod literal;
pub mod loader;
pub mod mentions;
pub mod modules;
pub mod names;
pub mod naming;
pub mod occurs;
pub mod parts;
pub mod path;
pub mod reader;
pub mod reading;
pub mod scan;
pub mod scanning;
pub mod scopes;
pub mod shader;
pub mod syntax;
pub mod text;
pub mod usage;

pub use import::ShaderImport;
pub use loader::{ShaderLoader, ShaderLoaderError, ShaderSettings};
pub use shader::{Shader, ShaderDefVal, Source, ValidateShader};
