//! Modules and the imports that name them, name by name.

use vstd::prelude::*;

use crate::cutting::{law_joining_puts_the_separator_between, law_names_stand_between_separators};
use crate::import::{cut_at, next_cut, segments, ImportView};
use crate::path::{OriginView, PathView};
use crate::text::{joined_text, lemma_pieces_nonempty, pieces};

verus! {

/// Behind the last separator stands the last piece.
proof fn lemma_last_piece_behind(own: Seq<char>, sep: char, name: Seq<char>)
    requires
        !name.contains(sep),
    ensures
        pieces(own + seq![sep] + name, sep).last() == name,
    decreases name.len(),
{
    let whole = own + seq![sep] + name;
    if name.len() == 0 {
        assert(whole.last() == sep);
        assert(name == Seq::<char>::empty());
    } else {
        let before = name.drop_last();
        assert(name[name.len() - 1] != sep);
        assert(!before.contains(sep)) by {
            assert(forall|i: int| 0 <= i < before.len() ==> before[i] == name[i]);
        }
        lemma_last_piece_behind(own, sep, before);
        assert(whole.drop_last() == own + seq![sep] + before);
        lemma_pieces_nonempty(whole.drop_last(), sep);
        assert(before.push(name.last()) == name);
    }
}

proof fn lemma_only_piece(name: Seq<char>, sep: char)
    requires
        !name.contains(sep),
    ensures
        pieces(name, sep).last() == name,
    decreases name.len(),
{
    if name.len() > 0 {
        let before = name.drop_last();
        assert(name[name.len() - 1] != sep);
        assert(!before.contains(sep)) by {
            assert(forall|i: int| 0 <= i < before.len() ==> before[i] == name[i]);
        }
        lemma_only_piece(before, sep);
        lemma_pieces_nonempty(before, sep);
        assert(before.push(name.last()) == name);
    } else {
        assert(name == Seq::<char>::empty());
    }
}

/// A package that is reached from inside another one is named by its own name, whether a module in
/// it is meant or its root.
pub proof fn law_a_package_is_named_by_its_own_name(
    own: Seq<char>,
    name: Seq<char>,
    names: Seq<Seq<char>>,
)
    requires
        !name.contains('/'),
    ensures
        ({
            let through = PathView {
                origin: OriginView::Package(own + seq!['/'] + name),
                components: names,
            };
            let direct = PathView { origin: OriginView::Package(name), components: names };
            through.import() == direct.import()
        }),
{
    lemma_last_piece_behind(own, '/', name);
    lemma_only_piece(name, '/');
}

/// The import of the root is a slash, that of a package is its name, and a path that is still
/// relative has none.
pub proof fn law_imports_start_at_the_root_or_a_package(name: Seq<char>, path: PathView)
    ensures
        ({
            let root = PathView { origin: OriginView::Absolute, components: Seq::empty() };
            root.import() == Some(ImportView::AssetPath(seq!['/']))
        }),
        ({
            let package = PathView { origin: OriginView::Package(name), components: Seq::empty() };
            !name.contains('/') ==> package.import() == Some(ImportView::Custom(name))
        }),
        path.origin is Relative ==> path.import() is None,
{
    assert(seq!['/'] + joined_text(Seq::empty(), seq!['/']) == seq!['/']);
    if !name.contains('/') {
        lemma_only_piece(name, '/');
        assert(seq![name] + Seq::<Seq<char>>::empty() == seq![name]);
    }
}

/// Each further name is written behind the import of the module around it: behind a slash from the
/// root, behind `::` in a package.
pub proof fn law_imports_grow_with_their_paths(path: PathView, name: Seq<char>)
    ensures
        match path.origin {
            OriginView::Absolute => path.import() matches Some(ImportView::AssetPath(file)) && (
            path.components.len() == 0 ==> path.child(name).import() == Some(
                ImportView::AssetPath(file + name),
            )) && (path.components.len() > 0 ==> path.child(name).import() == Some(
                ImportView::AssetPath(file + seq!['/'] + name),
            )),
            OriginView::Package(_) => path.import() matches Some(ImportView::Custom(module))
                && path.child(name).import() == Some(
                ImportView::Custom(module + seq![':', ':'] + name),
            ),
            OriginView::Relative(_) => path.child(name).import() is None,
        },
{
    let names = path.components;
    assert(names.push(name) == names + seq![name]);
    match path.origin {
        OriginView::Absolute => {
            let slash = seq!['/'];
            law_joining_puts_the_separator_between(names, seq![name], name, slash);
            if names.len() == 0 {
                assert(names + seq![name] == seq![name]);
                assert(slash + joined_text(names, slash) == slash);
            } else {
                assert(slash + (joined_text(names, slash) + slash + name) == slash + joined_text(
                    names,
                    slash,
                ) + slash + name);
            }
        },
        OriginView::Package(package) => {
            let first = pieces(package, '/').last();
            let all = seq![first] + names;
            assert(seq![first] + names.push(name) == all + seq![name]);
            law_joining_puts_the_separator_between(all, seq![name], name, seq![':', ':']);
        },
        OriginView::Relative(_) => {},
    }
}

/// An asset path leads from the root through the names between its slashes, however many slashes
/// there are.
pub proof fn law_asset_paths_lead_through_their_names(a: Seq<char>, b: Seq<char>)
    ensures
        ({
            let whole = ImportView::AssetPath(a + seq!['/'] + b).module();
            let front = ImportView::AssetPath(a).module();
            let back = ImportView::AssetPath(b).module();
            &&& whole matches Some(path)
            &&& path.origin is Absolute
            &&& front matches Some(start)
            &&& back matches Some(end)
            &&& path.components == start.components + end.components
            &&& !a.contains('/') && a.len() > 0 ==> start.components == seq![a]
            &&& a.len() == 0 ==> start.components.len() == 0
        }),
{
    law_names_stand_between_separators(a, '/', b);
}

/// Whether two colons in a row stand in `s`.
pub open spec fn has_cut(s: Seq<char>) -> bool {
    exists|i: int| 0 <= i && i + 1 < s.len() && #[trigger] s[i] == ':' && s[i + 1] == ':'
}

proof fn lemma_next_cut(s: Seq<char>, from: int)
    requires
        0 <= from,
    ensures
        from <= s.len() ==> from <= next_cut(s, from) <= s.len(),
        forall|i: int| from <= i < next_cut(s, from) ==> !cut_at(s, i),
        next_cut(s, from) < s.len() ==> cut_at(s, next_cut(s, from)),
        from > s.len() ==> next_cut(s, from) == s.len(),
    decreases s.len() - from,
{
    if from < s.len() && !cut_at(s, from) {
        lemma_next_cut(s, from + 1);
    }
}

/// Cutting at the first `::` each time, and joining again.
proof fn lemma_segments(s: Seq<char>)
    ensures
        segments(s).len() > 0,
        joined_text(segments(s), seq![':', ':']) == s,
        forall|i: int|
            0 <= i < segments(s).len() - 1 ==> !has_cut((#[trigger] segments(s)[i]).push(':')),
        !has_cut(segments(s).last()),
    decreases s.len(),
{
    let sep = seq![':', ':'];
    let cut = next_cut(s, 0);
    lemma_next_cut(s, 0);
    if cut_at(s, cut) {
        let first = s.take(cut);
        let rest = s.skip(cut + 2);
        let tail = segments(rest);
        lemma_segments(rest);
        law_joining_puts_the_separator_between(seq![first], tail, first, sep);
        assert(s == first + sep + rest) by {
            assert(s[cut] == ':' && s[cut + 1] == ':');
        }
        let all = segments(s);
        assert(all == seq![first] + tail);
        assert(!has_cut(first.push(':'))) by {
            let marked = first.push(':');
            assert forall|i: int| 0 <= i && i + 1 < marked.len() implies !(#[trigger] marked[i]
                == ':' && marked[i + 1] == ':') by {
                assert(!cut_at(s, i));
                assert(marked[i] == s[i] && marked[i + 1] == s[i + 1]);
            }
        }
        assert forall|i: int| 0 <= i < all.len() - 1 implies !has_cut(
            (#[trigger] all[i]).push(':'),
        ) by {
            if i > 0 {
                assert(all[i] == tail[i - 1]);
            }
        }
        assert(all.last() == tail.last());
    } else {
        assert(segments(s) == seq![s]);
        assert(!has_cut(s)) by {
            assert forall|i: int| 0 <= i && i + 1 < s.len() implies !(#[trigger] s[i] == ':' && s[i
                + 1] == ':') by {
                assert(!cut_at(s, i));
            }
        }
    }
}

/// An import path leads from the package that it starts with through the names between each `::`
/// and the next. One that starts with `::`, or is empty, names no module.
pub proof fn law_import_paths_lead_from_their_package(text: Seq<char>)
    ensures
        match ImportView::Custom(text).module() {
            Some(path) => {
                &&& path.origin matches OriginView::Package(package)
                &&& package.len() > 0
                &&& joined_text(seq![package] + path.components, seq![':', ':']) == text
                &&& path.components.len() > 0 ==> !has_cut(package.push(':')) && !has_cut(
                    path.components.last(),
                )
                &&& path.components.len() == 0 ==> !has_cut(package)
                &&& forall|i: int|
                    0 <= i < path.components.len() - 1 ==> !has_cut(
                        (#[trigger] path.components[i]).push(':'),
                    )
            },
            None => text.len() == 0 || (text.len() > 1 && text[0] == ':' && text[1] == ':'),
        },
        text.len() == 0 || (text.len() > 1 && text[0] == ':' && text[1] == ':')
            ==> ImportView::Custom(text).module() is None,
{
    let parts = segments(text);
    let cut = next_cut(text, 0);
    lemma_segments(text);
    lemma_next_cut(text, 0);
    if parts[0].len() > 0 {
        let names = parts.skip(1);
        assert(seq![parts[0]] + names == parts);
        assert forall|i: int| 0 <= i < names.len() - 1 implies !has_cut(
            (#[trigger] names[i]).push(':'),
        ) by {
            assert(names[i] == parts[i + 1]);
        }
        if text.len() > 1 && text[0] == ':' && text[1] == ':' {
            assert(cut_at(text, 0));
            assert(cut == 0);
        }
    } else if cut_at(text, cut) {
        assert(parts[0] == text.take(cut));
        assert(cut == 0);
    } else {
        assert(parts == seq![text]);
    }
}

}
