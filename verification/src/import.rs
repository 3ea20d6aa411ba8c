//! How shaders name the modules that they import.

use vstd::prelude::*;

use crate::path::{OriginView, PathView, WeslOrigin, WeslPath};
use crate::text::{
    chars_of, join_texts, last_piece, named_pieces, pieces, joined_text, same_text, split_names,
    text_of, texts,
};

verus! {

/// A shader import, described as either an asset path or an import path.
#[derive(Debug, PartialEq, Eq, Hash)]
pub enum ShaderImport {
    /// An asset path to a shader.
    AssetPath(String),
    /// An import path from which a shader may be imported.
    Custom(String),
}

/// What a [`ShaderImport`] says.
pub enum ImportView {
    AssetPath(Seq<char>),
    Custom(Seq<char>),
}

impl View for ShaderImport {
    type V = ImportView;

    open spec fn view(&self) -> ImportView {
        match self {
            ShaderImport::AssetPath(path) => ImportView::AssetPath(path@),
            ShaderImport::Custom(path) => ImportView::Custom(path@),
        }
    }
}

/// What each import of a list says.
pub open spec fn import_views(list: Seq<ShaderImport>) -> Seq<ImportView> {
    list.map_values(|i: ShaderImport| i@)
}

impl PathView {
    /// The import that names the module at this path: a file for a path from the root, an import
    /// path for one from a package. A package reached through another one counts by its own name,
    /// and a path that is still relative names no module.
    pub open spec fn import(self) -> Option<ImportView> {
        match self.origin {
            OriginView::Absolute => Some(
                ImportView::AssetPath(seq!['/'] + joined_text(self.components, seq!['/'])),
            ),
            OriginView::Package(name) => Some(
                ImportView::Custom(
                    joined_text(
                        seq![pieces(name, '/').last()] + self.components,
                        seq![':', ':'],
                    ),
                ),
            ),
            OriginView::Relative(_) => None,
        }
    }
}

/// Whether `::` stands in `s` at `i`.
pub open spec fn cut_at(s: Seq<char>, i: int) -> bool {
    0 <= i && i + 1 < s.len() && s[i] == ':' && s[i + 1] == ':'
}

/// Where the first `::` of `s` from `from` on stands, or the length of `s` where there is none.
pub open spec fn next_cut(s: Seq<char>, from: int) -> int
    decreases s.len() - from,
{
    if from >= s.len() {
        s.len() as int
    } else if cut_at(s, from) {
        from
    } else {
        next_cut(s, from + 1)
    }
}

/// The parts of `s` between each `::` and the next.
pub open spec fn segments(s: Seq<char>) -> Seq<Seq<char>>
    decreases s.len(),
{
    let cut = next_cut(s, 0);
    if cut_at(s, cut) {
        seq![s.take(cut)] + segments(s.skip(cut + 2))
    } else {
        seq![s]
    }
}

impl ImportView {
    /// The path of the module that an import names: the names of an asset path lead from the
    /// root, those of an import path from the package that it starts with.
    pub open spec fn module(self) -> Option<PathView> {
        match self {
            ImportView::AssetPath(path) => Some(
                PathView { origin: OriginView::Absolute, components: named_pieces(path, '/') },
            ),
            ImportView::Custom(path) => {
                let parts = segments(path);
                if parts[0].len() == 0 {
                    None
                } else {
                    Some(
                        PathView {
                            origin: OriginView::Package(parts[0]),
                            components: parts.skip(1),
                        },
                    )
                }
            },
        }
    }
}

impl Clone for ShaderImport {
    fn clone(&self) -> (r: Self)
        ensures
            r@ == self@,
    {
        match self {
            ShaderImport::AssetPath(path) => ShaderImport::AssetPath(path.clone()),
            ShaderImport::Custom(path) => ShaderImport::Custom(path.clone()),
        }
    }
}

impl ShaderImport {
    /// Whether two imports say the same.
    pub fn same(&self, other: &ShaderImport) -> (r: bool)
        ensures
            r == (self@ == other@),
    {
        match (self, other) {
            (ShaderImport::AssetPath(a), ShaderImport::AssetPath(b)) => same_text(
                a.as_str(),
                b.as_str(),
            ),
            (ShaderImport::Custom(a), ShaderImport::Custom(b)) => same_text(
                a.as_str(),
                b.as_str(),
            ),
            _ => false,
        }
    }
}

/// The import that names the module at `path`.
pub fn import_of(path: &WeslPath) -> (r: Option<ShaderImport>)
    ensures
        match r {
            Some(import) => path@.import() == Some(import@),
            None => path@.import() is None,
        },
{
    proof {
        reveal_strlit("/");
        reveal_strlit("::");
        assert("/"@ == seq!['/']);
        assert("::"@ == seq![':', ':']);
    }
    match &path.origin {
        WeslOrigin::Absolute => {
            let mut file = String::new();
            file.append("/");
            file.append(join_texts(&path.components, "/").as_str());
            assert(file@ == seq!['/'] + joined_text(texts(path.components@), seq!['/']));
            Some(ShaderImport::AssetPath(file))
        },
        WeslOrigin::Package(name) => {
            let mut names: Vec<String> = Vec::new();
            names.push(last_piece(name.as_str(), '/'));
            let mut i: usize = 0;
            while i < path.components.len()
                invariant
                    i <= path.components.len(),
                    texts(names@) == seq![pieces(name@, '/').last()] + texts(
                        path.components@,
                    ).take(i as int),
                decreases path.components.len() - i,
            {
                let ghost before = texts(names@);
                names.push(path.components[i].clone());
                assert(texts(names@) == before.push(path.components@[i as int]@));
                i += 1;
            }
            assert(texts(path.components@).take(i as int) == texts(path.components@));
            Some(ShaderImport::Custom(join_texts(&names, "::")))
        },
        WeslOrigin::Relative(_) => None,
    }
}

/// Looking for a cut in a suffix finds what looking for it in the whole text finds.
proof fn lemma_next_cut_skip(s: Seq<char>, start: int, from: int)
    requires
        0 <= start <= s.len(),
        0 <= from,
    ensures
        next_cut(s.skip(start), from) + start == next_cut(s, start + from),
    decreases s.len() - from,
{
    let rest = s.skip(start);
    if from < rest.len() {
        assert(cut_at(rest, from) == cut_at(s, start + from));
        if !cut_at(rest, from) {
            lemma_next_cut_skip(s, start, from + 1);
        }
    }
}

/// Cuts `s` at every `::`.
fn split_segments(s: &str) -> (r: Vec<String>)
    ensures
        texts(r@) == segments(s@),
{
    let chars = chars_of(s);
    let mut r: Vec<String> = Vec::new();
    let mut start: usize = 0;
    let mut i: usize = 0;
    assert(s@.skip(0) == s@);
    while i < chars.len()
        invariant
            start <= i <= chars.len(),
            chars@ == s@,
            next_cut(s@, start as int) == next_cut(s@, i as int),
            texts(r@) + segments(s@.skip(start as int)) == segments(s@),
        decreases chars.len() - i,
    {
        if i + 1 < chars.len() && chars[i] == ':' && chars[i + 1] == ':' {
            let ghost rest = s@.skip(start as int);
            let ghost before = texts(r@);
            proof {
                assert(cut_at(s@, i as int));
                lemma_next_cut_skip(s@, start as int, 0);
                assert(next_cut(rest, 0) == i - start);
                assert(cut_at(rest, i - start));
                assert(rest.take(i - start) == s@.subrange(start as int, i as int));
                assert(rest.skip(i - start + 2) == s@.skip(i + 2));
            }
            r.push(text_of(&chars, start, i));
            assert(texts(r@) == before.push(rest.take(i - start)));
            i += 2;
            start = i;
        } else {
            assert(!cut_at(s@, i as int));
            i += 1;
        }
    }
    let ghost rest = s@.skip(start as int);
    let ghost before = texts(r@);
    proof {
        lemma_next_cut_skip(s@, start as int, 0);
        assert(next_cut(rest, 0) == rest.len());
        assert(rest == s@.subrange(start as int, s@.len() as int));
    }
    r.push(text_of(&chars, start, chars.len()));
    assert(texts(r@) == before.push(rest));
    r
}

/// The path of the module that `import` names, where it names one.
pub fn wesl_module_path(import: &ShaderImport) -> (r: Option<WeslPath>)
    ensures
        match r {
            Some(path) => import@.module() == Some(path@),
            None => import@.module() is None,
        },
{
    match import {
        ShaderImport::AssetPath(path) => Some(
            WeslPath { origin: WeslOrigin::Absolute, components: split_names(path.as_str(), '/') },
        ),
        ShaderImport::Custom(path) => {
            let parts = split_segments(path.as_str());
            assert(texts(parts@).len() == parts@.len());
            assert(texts(parts@)[0] == parts@[0]@);
            if parts[0].as_str().is_empty() {
                None
            } else {
                let mut module = WeslPath {
                    origin: WeslOrigin::Package(parts[0].clone()),
                    components: Vec::new(),
                };
                module.extend(&parts, 1);
                assert(module@.components == texts(parts@).skip(1));
                Some(module)
            }
        },
    }
}

}
