# bevy_shader

Shader sources, the modules they import and the files they depend on, verified with Verus.

A WESL module names other modules in its imports and at its use sites. The library reads a source
with the `wesl` crate, decides which modules it really needs, names them as imports, and says which
files have to be loaded for them. Every step has a contract that says exactly what it returns.

- `src/text.rs`, `src/path.rs`: text and module paths.
- `src/syntax.rs`, `src/reader.rs`: the syntax of a source, read from the tree of the `wesl` crate.
- `src/literal.rs`: the number literals that the parser can compute.
- `src/usage.rs`, `src/names.rs`: the module paths at use sites, and the names that are used bare.
- `src/scan.rs`: the modules that are needed.
- `src/import.rs`, `src/asset.rs`: imports, and the files that they name.
- `src/shader.rs`, `src/loader.rs`: shaders, and how they are made from the bytes of a file.
- `src/laws.rs`, `src/mentions.rs`, `src/edits.rs`, `src/naming.rs`: what holds of all this as a
  whole.
- `app/`: the loader for `bevy_asset`, around the library.

Believed without proof is what the functions marked `external_body` and the
`assume_specification` items say of the `wesl` crate and of the standard library.
