//! What holds between modules, the imports that name them and the files that they are loaded
//! from.

use vstd::prelude::*;

use crate::asset::{
    extension_len, file_import, file_stem, last_name, lemma_last_piece, lemma_stem_is_prefix,
    lemma_trimmed_is_prefix, names_file, prefix_len, rooted, slash_at, trimmed, unprefixed,
    without_extension, Separators,
};
use crate::import::{cut_at, import_views, next_cut, segments, ImportView};
use crate::laws::{law_dependencies_are_distinct, lemma_named_imports_come_from};
use crate::loader::{fetched_file, fetched_files, is_wesl};
use crate::path::{OriginView, PathView};
use crate::reader::wesl_syntax;
use crate::scan::{lemma_distinct_same_members, lemma_push_contains, named_imports};
use crate::shader::{Shader, ShaderDefVal};
use crate::syntax::UnitTree;
use crate::text::{
    joined_text, named_pieces, nonempty_parts, pieces, starts_with,
    texts, with_replaced, without_leading,
};

verus! {

/// Whether no part holds `c`.
pub open spec fn free_of(parts: Seq<Seq<char>>, c: char) -> bool {
    forall|i: int| 0 <= i < parts.len() ==> !(#[trigger] parts[i]).contains(c)
}

/// Whether every part holds at least one character.
pub open spec fn all_named(parts: Seq<Seq<char>>) -> bool {
    forall|i: int| 0 <= i < parts.len() ==> (#[trigger] parts[i]).len() > 0
}

/// A text without `sep` is one piece.
proof fn lemma_pieces_uncut(s: Seq<char>, sep: char)
    requires
        !s.contains(sep),
    ensures
        pieces(s, sep) == seq![s],
    decreases s.len(),
{
    if s.len() > 0 {
        assert(s[s.len() - 1] != sep);
        assert(!s.drop_last().contains(sep)) by {
            assert(forall|i: int| 0 <= i < s.len() - 1 ==> s.drop_last()[i] == s[i]);
        }
        lemma_pieces_uncut(s.drop_last(), sep);
        assert(s.drop_last().push(s.last()) == s);
        assert(pieces(s, sep) == seq![s]);
    } else {
        assert(s == Seq::<char>::empty());
    }
}

/// What follows the last `sep` is the last piece.
proof fn lemma_pieces_append(s: Seq<char>, sep: char, t: Seq<char>)
    requires
        !t.contains(sep),
    ensures
        pieces(s + seq![sep] + t, sep) == pieces(s, sep).push(t),
    decreases t.len(),
{
    let whole = s + seq![sep] + t;
    if t.len() == 0 {
        assert(whole.drop_last() == s);
        assert(t == Seq::<char>::empty());
    } else {
        assert(t[t.len() - 1] != sep);
        assert(!t.drop_last().contains(sep)) by {
            assert(forall|i: int| 0 <= i < t.len() - 1 ==> t.drop_last()[i] == t[i]);
        }
        lemma_pieces_append(s, sep, t.drop_last());
        assert(whole.drop_last() == s + seq![sep] + t.drop_last());
        assert(t.drop_last().push(t.last()) == t);
        let before = pieces(s, sep).push(t.drop_last());
        assert(before.drop_last() == pieces(s, sep));
    }
}

/// Cutting a joined text gives the parts back.
proof fn lemma_pieces_of_joined(parts: Seq<Seq<char>>, sep: char)
    requires
        parts.len() > 0,
        free_of(parts, sep),
    ensures
        pieces(joined_text(parts, seq![sep]), sep) == parts,
    decreases parts.len(),
{
    let last = parts.last();
    assert(!parts[parts.len() - 1].contains(sep));
    if parts.len() == 1 {
        lemma_pieces_uncut(last, sep);
        assert(parts == seq![last]);
    } else {
        let before = parts.drop_last();
        assert(free_of(before, sep)) by {
            assert(forall|i: int| 0 <= i < before.len() ==> before[i] == parts[i]);
        }
        lemma_pieces_of_joined(before, sep);
        lemma_pieces_append(joined_text(before, seq![sep]), sep, last);
        assert(before.push(last) == parts);
    }
}

/// Joining can start at the front as well.
proof fn lemma_joined_front(first: Seq<char>, rest: Seq<Seq<char>>, sep: Seq<char>)
    requires
        rest.len() > 0,
    ensures
        joined_text(seq![first] + rest, sep) == first + sep + joined_text(rest, sep),
    decreases rest.len(),
{
    let all = seq![first] + rest;
    assert(all.drop_last() == seq![first] + rest.drop_last());
    assert(all.last() == rest.last());
    if rest.len() == 1 {
        assert(all.drop_last() == seq![first]);
        assert(joined_text(all.drop_last(), sep) == first);
        assert(joined_text(rest, sep) == rest.last());
    } else {
        lemma_joined_front(first, rest.drop_last(), sep);
        assert(joined_text(all, sep) == joined_text(all.drop_last(), sep) + sep + all.last());
        assert(joined_text(rest, sep) == joined_text(rest.drop_last(), sep) + sep + rest.last());
        assert(first + sep + joined_text(rest.drop_last(), sep) + sep + rest.last() == first + sep
            + (joined_text(rest.drop_last(), sep) + sep + rest.last()));
    }
}

/// Dropping what is empty from a list of names behind an empty text leaves the names.
proof fn lemma_nonempty_names(parts: Seq<Seq<char>>)
    requires
        all_named(parts),
    ensures
        nonempty_parts(seq![Seq::<char>::empty()] + parts) == parts,
    decreases parts.len(),
{
    let all = seq![Seq::<char>::empty()] + parts;
    if parts.len() == 0 {
        assert(all.drop_last() == Seq::<Seq<char>>::empty());
        assert(nonempty_parts(all.drop_last()) == Seq::<Seq<char>>::empty());
        assert(all.last().len() == 0);
        assert(parts == Seq::<Seq<char>>::empty());
    } else {
        let before = parts.drop_last();
        assert(all_named(before)) by {
            assert(forall|i: int| 0 <= i < before.len() ==> before[i] == parts[i]);
        }
        lemma_nonempty_names(before);
        assert(all.drop_last() == seq![Seq::<char>::empty()] + before);
        assert(all.last() == parts[parts.len() - 1]);
        assert(before.push(parts.last()) == parts);
    }
}

/// The import of a module at a path from the root leads back to that module.
pub proof fn law_asset_import_names_its_module(names: Seq<Seq<char>>)
    requires
        all_named(names),
        free_of(names, '/'),
    ensures
        ({
            let path = PathView { origin: OriginView::Absolute, components: names };
            path.import() matches Some(import) && import.module() == Some(path)
        }),
{
    let slash = seq!['/'];
    let file = slash + joined_text(names, slash);
    let all = seq![Seq::<char>::empty()] + names;
    if names.len() == 0 {
        assert(file == slash);
        assert(file.drop_last() == Seq::<char>::empty());
        reveal_with_fuel(pieces, 2);
        assert(pieces(file, '/') == seq![Seq::<char>::empty(), Seq::<char>::empty()]);
        let both = pieces(file, '/');
        assert(both.drop_last() == seq![Seq::<char>::empty()] + names);
        lemma_nonempty_names(names);
        assert(named_pieces(file, '/') == names);
    } else {
        lemma_joined_front(Seq::empty(), names, slash);
        assert(file == joined_text(all, slash));
        assert(free_of(all, '/')) by {
            assert forall|i: int| 0 <= i < all.len() implies !(#[trigger] all[i]).contains('/') by {
                if i > 0 {
                    assert(all[i] == names[i - 1]);
                }
            }
        }
        lemma_pieces_of_joined(all, '/');
        lemma_nonempty_names(names);
        assert(named_pieces(file, '/') == names);
    }
}

/// Where no colon stands in front of it, the next cut is the first `::`, or the end.
proof fn lemma_first_cut(s: Seq<char>, from: int, first: int)
    requires
        0 <= from <= first <= s.len(),
        forall|i: int| from <= i < first ==> s[i] != ':',
        first == s.len() || cut_at(s, first),
    ensures
        next_cut(s, from) == first,
    decreases first - from,
{
    if from < first {
        assert(s[from] != ':');
        assert(!cut_at(s, from));
        lemma_first_cut(s, from + 1, first);
    }
}

/// Cutting a path that was joined by `::` gives the parts back.
proof fn lemma_segments_of_joined(parts: Seq<Seq<char>>)
    requires
        parts.len() > 0,
        free_of(parts, ':'),
    ensures
        segments(joined_text(parts, seq![':', ':'])) == parts,
    decreases parts.len(),
{
    let sep = seq![':', ':'];
    let first = parts[0];
    let s = joined_text(parts, sep);
    assert forall|i: int| 0 <= i < first.len() implies first[i] != ':' by {
        assert(!parts[0].contains(':'));
        assert(first.contains(first[i]));
    }
    if parts.len() == 1 {
        lemma_first_cut(s, 0, s.len() as int);
        assert(!cut_at(s, s.len() as int));
        assert(parts == seq![s]);
    } else {
        let rest = parts.skip(1);
        assert(parts == seq![first] + rest);
        lemma_joined_front(first, rest, sep);
        let tail = joined_text(rest, sep);
        let cut = first.len() as int;
        assert(s == first + sep + tail);
        assert(cut_at(s, cut)) by {
            assert(s[cut] == sep[0] && s[cut + 1] == sep[1]);
        }
        lemma_first_cut(s, 0, cut);
        assert(s.take(cut) == first);
        assert(s.skip(cut + 2) == tail);
        assert(free_of(rest, ':')) by {
            assert(forall|i: int| 0 <= i < rest.len() ==> rest[i] == parts[i + 1]);
        }
        lemma_segments_of_joined(rest);
    }
}

/// The import of a module in a package leads back to that module.
pub proof fn law_custom_import_names_its_module(package: Seq<char>, names: Seq<Seq<char>>)
    requires
        package.len() > 0,
        !package.contains('/'),
        !package.contains(':'),
        free_of(names, ':'),
    ensures
        ({
            let path = PathView { origin: OriginView::Package(package), components: names };
            path.import() matches Some(import) && import.module() == Some(path)
        }),
{
    lemma_pieces_uncut(package, '/');
    let all = seq![package] + names;
    assert(free_of(all, ':')) by {
        assert forall|i: int| 0 <= i < all.len() implies !(#[trigger] all[i]).contains(':') by {
            if i > 0 {
                assert(all[i] == names[i - 1]);
            }
        }
    }
    lemma_segments_of_joined(all);
    assert(all.skip(1) == names);
}

/// Whether a path has no prefix, nor has what stands behind the scheme of an embedded file.
pub open spec fn is_plain(path: Seq<char>) -> bool {
    let scheme = "embedded://"@;
    if starts_with(path, scheme) {
        prefix_len(path.skip(scheme.len() as int)) == 0
    } else {
        prefix_len(path) == 0
    }
}

/// Where both kinds of slashes separate, a path without backslashes and without a prefix is read
/// as where only the slash does.
pub proof fn law_plain_path_is_read_alike(path: Seq<char>)
    requires
        !path.contains('\\'),
        is_plain(path),
    ensures
        file_import(path, Separators::Both) == file_import(path, Separators::Slash),
{
    let scheme = "embedded://"@;
    let file = path.skip(scheme.len() as int);
    if starts_with(path, scheme) {
        lemma_plain_stem(file);
    } else {
        let whole = rooted(path, Separators::Slash);
        assert(rooted(path, Separators::Both) == whole) by {
            if path.len() > 0 {
                assert(path.contains(path[0]));
            }
        }
        assert(prefix_len(whole) == 0) by {
            if path.len() > 0 && path[0] != '/' {
                assert(path.contains(path[0]));
                assert(whole[1] == path[0]);
            }
        }
        lemma_plain_stem(whole);
    }
}

/// Without backslashes and prefixes the stem is the same for all separators.
proof fn lemma_plain_stem(path: Seq<char>)
    requires
        !path.contains('\\'),
        prefix_len(path) == 0,
    ensures
        file_stem(path, Separators::Both) == file_stem(path, Separators::Slash),
{
    assert(path.skip(0) == path);
    assert(with_replaced(path, '\\', '/') == path) by {
        assert forall|i: int| 0 <= i < path.len() implies path[i] != '\\' by {
            assert(path.contains(path[i]));
        }
    }
    lemma_stem_is_prefix(path);
}

/// A shader file that is not embedded is imported by a path that starts at the root and is
/// written with forward slashes. A prefix stays in front of it.
pub proof fn law_file_import_is_rooted(path: Seq<char>, separators: Separators)
    requires
        !starts_with(path, "embedded://"@),
    ensures
        file_import(path, separators) matches ImportView::AssetPath(import) && !import.contains(
            '\\',
        ) && (separators is Slash || prefix_len(path) == 0 ==> import.len() > 0 && import[0]
            == '/'),
{
    let whole = rooted(path, separators);
    let file = file_stem(whole, separators);
    let import = with_replaced(file, '\\', '/');
    assert(forall|i: int| 0 <= i < import.len() ==> import[i] != '\\');
    if separators is Slash || prefix_len(path) == 0 {
        match separators {
            Separators::Slash => {
                lemma_stem_keeps_root(whole);
                lemma_stem_is_prefix(whole);
            },
            Separators::Both => {
                assert(prefix_len(whole) == 0) by {
                    if !slash_at(path, 0) && path.len() > 0 {
                        assert(whole[1] == path[0]);
                    }
                }
                let rest = unprefixed(whole);
                assert(rest[0] == '/');
                lemma_stem_keeps_root(rest);
                lemma_stem_is_prefix(rest);
                assert(file[0] == whole[0]);
            },
        }
        assert(import[0] == '/');
    }
}

/// A path from the root stays one without its extension.
proof fn lemma_stem_keeps_root(path: Seq<char>)
    requires
        path.len() > 0,
        path[0] == '/',
    ensures
        without_extension(path).len() > 0,
        without_extension(path)[0] == '/',
{
    lemma_trimmed_is_prefix(path);
    if names_file(path) {
        let kept = trimmed(path);
        let name = last_name(path);
        lemma_last_piece(kept, '/');
        lemma_last_piece(name, '.');
        assert(kept.len() > 0);
        assert(kept[0] == path[0]);
        if name.len() == kept.len() {
            assert(kept.skip(0) == kept);
            assert(name.contains(name[0]));
        }
        assert(without_extension(path)[0] == kept[0]);
    }
}

/// A list of names joined by slashes starts and ends with a name and holds no two slashes in a
/// row.
proof fn lemma_joined_names(names: Seq<Seq<char>>)
    requires
        names.len() > 0,
        all_named(names),
        free_of(names, '/'),
    ensures
        ({
            let file = joined_text(names, seq!['/']);
            &&& file.len() > 0
            &&& file[0] != '/'
            &&& file.last() != '/'
            &&& forall|i: int| 0 <= i && i + 1 < file.len() ==> !(#[trigger] file[i] == '/'
                && file[i + 1] == '/')
        }),
    decreases names.len(),
{
    let slash = seq!['/'];
    let last = names.last();
    assert(names[names.len() - 1].len() > 0 && !names[names.len() - 1].contains('/'));
    assert forall|i: int| 0 <= i < last.len() implies last[i] != '/' by {
        assert(last.contains(last[i]));
    }
    if names.len() > 1 {
        let before = names.drop_last();
        assert(all_named(before) && free_of(before, '/')) by {
            assert(forall|i: int| 0 <= i < before.len() ==> before[i] == names[i]);
        }
        lemma_joined_names(before);
        let start = joined_text(before, slash);
        let file = joined_text(names, slash);
        assert(file == start + slash + last);
        assert(file[0] == start[0]);
        assert(file.last() == last.last());
        assert forall|i: int| 0 <= i && i + 1 < file.len() implies !(#[trigger] file[i] == '/'
            && file[i + 1] == '/') by {
            if i + 1 < start.len() {
                assert(file[i] == start[i] && file[i + 1] == start[i + 1]);
            } else if i + 1 == start.len() {
                assert(file[i] == start.last());
            } else {
                assert(file[i + 1] == last[i - start.len()]);
            }
        }
    }
}

/// A character that is in no part and is not the separator is not in the joined text.
proof fn lemma_joined_free(parts: Seq<Seq<char>>, sep: char, c: char)
    requires
        free_of(parts, c),
        c != sep,
    ensures
        !joined_text(parts, seq![sep]).contains(c),
    decreases parts.len(),
{
    if parts.len() > 0 {
        let last = parts.last();
        assert(!parts[parts.len() - 1].contains(c));
        if parts.len() > 1 {
            let before = parts.drop_last();
            assert(free_of(before, c)) by {
                assert(forall|i: int| 0 <= i < before.len() ==> before[i] == parts[i]);
            }
            lemma_joined_free(before, sep, c);
            let start = joined_text(before, seq![sep]);
            let whole = joined_text(parts, seq![sep]);
            assert(whole == start + seq![sep] + last);
            assert forall|i: int| 0 <= i < whole.len() implies whole[i] != c by {
                if i < start.len() {
                    assert(start.contains(start[i]));
                } else if i > start.len() {
                    assert(last.contains(last[i - start.len() - 1]));
                }
            }
        }
    }
}

/// The file name without the extension that was put on it.
proof fn lemma_extension_of(stem: Seq<char>, ext: Seq<char>)
    requires
        stem.len() > 0,
        !ext.contains('.'),
    ensures
        extension_len(stem + seq!['.'] + ext) == ext.len() + 1,
{
    lemma_pieces_append(stem, '.', ext);
    assert(pieces(stem + seq!['.'] + ext, '.').last() == ext);
}

/// A list of names is what is left of it without its empty parts.
proof fn lemma_all_nonempty(parts: Seq<Seq<char>>)
    requires
        all_named(parts),
    ensures
        nonempty_parts(parts) == parts,
    decreases parts.len(),
{
    if parts.len() == 0 {
        assert(parts == Seq::<Seq<char>>::empty());
    } else {
        let before = parts.drop_last();
        assert(all_named(before)) by {
            assert(forall|i: int| 0 <= i < before.len() ==> before[i] == parts[i]);
        }
        lemma_all_nonempty(before);
        assert(parts[parts.len() - 1] == parts.last());
        assert(before.push(parts.last()) == parts);
    }
}

/// Taking the extension off a WESL file leaves the names in front of it, read from the root or
/// not.
proof fn lemma_stem_of_file(front: Seq<char>, names: Seq<Seq<char>>)
    requires
        front == Seq::<char>::empty() || front == seq!['/'],
        names.len() > 0,
        names.last() != seq!['.'],
        all_named(names),
        free_of(names, '/'),
    ensures
        without_extension(front + joined_text(names, seq!['/']) + seq!['.'] + "wesl"@) == front
            + joined_text(names, seq!['/']),
{
    let slash = seq!['/'];
    let ext = "wesl"@;
    reveal_strlit("wesl");
    assert(!ext.contains('.') && !ext.contains('/'));
    let stem = front + joined_text(names, slash);
    let whole = stem + seq!['.'] + ext;
    assert(whole.last() == 'l');
    assert(trimmed(whole) == whole);
    let last = names.last();
    let name = last + seq!['.'] + ext;
    assert(names[names.len() - 1].len() > 0 && !names[names.len() - 1].contains('/'));
    assert(!name.contains('/')) by {
        assert forall|i: int| 0 <= i < name.len() implies name[i] != '/' by {
            if i < last.len() {
                assert(last.contains(last[i]));
            }
        }
    }
    if names.len() == 1 {
        if front.len() == 0 {
            assert(whole == name);
            lemma_pieces_uncut(name, '/');
        } else {
            assert(whole == Seq::<char>::empty() + slash + name);
            lemma_pieces_append(Seq::empty(), '/', name);
        }
    } else {
        let start = front + joined_text(names.drop_last(), slash);
        assert(whole == start + slash + name);
        lemma_pieces_append(start, '/', name);
    }
    assert(last_name(whole) == name);
    lemma_extension_of(last, ext);
    assert(name.take(name.len() - 5) == last);
    assert(without_extension(whole) == whole.take(whole.len() - 5));
    assert(whole.take(whole.len() - 5) == stem);
}

/// Whether a module at these names from the root can be asked for by a file name: there are
/// names, each one is a name, and the last is not a single dot, which would leave `..` without the
/// extension. Where both kinds of slashes separate, the first must not start with a disk.
pub open spec fn is_fetchable(names: Seq<Seq<char>>, separators: Separators) -> bool {
    &&& names.len() > 0
    &&& names.last() != seq!['.']
    &&& all_named(names)
    &&& free_of(names, '/')
    &&& free_of(names, '\\')
    &&& separators is Both ==> prefix_len(names[0]) == 0
}

/// Loading the file that an import is fetched from gives a shader that this import names: a WESL
/// module finds the modules that it depends on under the names by which it asks for them, and they
/// read their own paths in the module that was asked for.
pub proof fn law_fetched_file_is_imported_by_its_name(
    names: Seq<Seq<char>>,
    separators: Separators,
)
    requires
        is_fetchable(names, separators),
    ensures
        ({
            let path = PathView { origin: OriginView::Absolute, components: names };
            path.import() matches Some(import) && fetched_file(import, "wesl"@) matches Some(file)
                && file_import(file, separators) == import && file_import(file, separators).module()
                == Some(path)
        }),
{
    lemma_fetched_file(names);
    if separators is Both {
        let slash = seq!['/'];
        let file = joined_text(names, slash) + seq!['.'] + "wesl"@;
        reveal_strlit("wesl");
        lemma_joined_names(names);
        lemma_joined_free(names, '/', '\\');
        let stem = joined_text(names, slash);
        assert(!file.contains('\\')) by {
            assert forall|i: int| 0 <= i < file.len() implies file[i] != '\\' by {
                if i < stem.len() {
                    assert(stem.contains(stem[i]));
                }
            }
        }
        assert(!starts_with(file, "embedded://"@));
        assert(prefix_len(file) == 0) by {
            lemma_joined_start(names);
            let first = names[0];
            assert(first.len() > 0);
            assert(stem.take(first.len() as int)[0] == first[0]);
            assert(file[0] == stem[0]);
            assert(stem.contains(stem[0]));
            assert(!slash_at(file, 0));
            if first.len() > 1 {
                assert(stem.take(first.len() as int)[1] == first[1]);
                assert(file[1] == stem[1]);
            } else if stem.len() > 1 {
                assert(file[1] == stem[1]);
            }
        }
        law_plain_path_is_read_alike(file);
    }
}

/// What is joined starts with its first part.
proof fn lemma_joined_start(names: Seq<Seq<char>>)
    requires
        names.len() > 0,
        all_named(names),
    ensures
        ({
            let file = joined_text(names, seq!['/']);
            &&& file.len() >= names[0].len()
            &&& file.take(names[0].len() as int) == names[0]
            &&& file.len() > names[0].len() ==> file[names[0].len() as int] == '/'
        }),
    decreases names.len(),
{
    let slash = seq!['/'];
    let file = joined_text(names, slash);
    if names.len() == 1 {
        assert(file.take(file.len() as int) == file);
    } else {
        let before = names.drop_last();
        assert(all_named(before)) by {
            assert(forall|i: int| 0 <= i < before.len() ==> before[i] == names[i]);
        }
        lemma_joined_start(before);
        let start = joined_text(before, slash);
        assert(file == start + slash + names.last());
        assert(file.take(names[0].len() as int) == start.take(names[0].len() as int));
    }
}

/// The file that an import is fetched from is imported by it, where only the slash separates, and
/// is not embedded.
proof fn lemma_fetched_file(names: Seq<Seq<char>>)
    requires
        is_fetchable(names, Separators::Slash),
    ensures
        ({
            let path = PathView { origin: OriginView::Absolute, components: names };
            let file = joined_text(names, seq!['/']) + seq!['.'] + "wesl"@;
            &&& path.import() matches Some(import)
            &&& fetched_file(import, "wesl"@) == Some(file)
            &&& !starts_with(file, "embedded://"@)
            &&& file_import(file, Separators::Slash) == import
            &&& import.module() == Some(path)
        }),
{
    let slash = seq!['/'];
    let ext = "wesl"@;
    reveal_strlit("wesl");
    reveal_strlit("embedded://");
    let stem = joined_text(names, slash);
    let import = slash + stem;
    lemma_joined_names(names);
    lemma_joined_free(names, '/', '\\');

    // The slash in front goes, and nothing else.
    assert(import.skip(1) == stem);
    assert(without_leading(stem, '/') == stem);
    assert(without_leading(import, '/') == stem);
    let file = stem + seq!['.'] + ext;
    assert(fetched_file(ImportView::AssetPath(import), ext) == Some(file));

    // It is no embedded file: those have two slashes in a row.
    if starts_with(file, "embedded://"@) {
        let head = file.take("embedded://"@.len() as int);
        assert(head[9] == '/' && head[10] == '/');
        assert(file[9] == '/' && file[10] == '/');
        if 10 < stem.len() {
            assert(stem[9] == '/' && stem[10] == '/');
        } else {
            assert(file[10] != '/');
        }
    }

    // The path from the root ends in the last name with the extension.
    assert(file[0] == stem[0]);
    assert(rooted(file, Separators::Slash) == import + seq!['.'] + ext);
    lemma_stem_of_file(slash, names);
    assert(with_replaced(import, '\\', '/') == import) by {
        assert forall|i: int| 0 <= i < import.len() implies import[i] != '\\' by {
            if i > 0 {
                assert(stem.contains(stem[i - 1]));
            }
        }
    }
    law_asset_import_names_its_module(names);
}

/// An embedded file is imported by the names in its path, the first of which is its package.
pub proof fn law_embedded_file_is_in_its_package(
    names: Seq<Seq<char>>,
    separators: Separators,
)
    requires
        separators is Both ==> free_of(names, '\\'),
        names.len() > 0,
        names.last() != seq!['.'],
        all_named(names),
        free_of(names, '/'),
        free_of(names, ':'),
    ensures
        ({
            let path = PathView {
                origin: OriginView::Package(names[0]),
                components: names.skip(1),
            };
            let file = "embedded://"@ + joined_text(names, seq!['/']) + seq!['.'] + "wesl"@;
            path.import() == Some(file_import(file, separators)) && file_import(
                file,
                separators,
            ).module() == Some(path)
        }),
{
    let slash = seq!['/'];
    let scheme = "embedded://"@;
    let stem = joined_text(names, slash);
    let inner = stem + seq!['.'] + "wesl"@;
    let file = scheme + stem + seq!['.'] + "wesl"@;
    assert(file.take(scheme.len() as int) == scheme);
    assert(file.skip(scheme.len() as int) == inner);
    lemma_stem_of_file(Seq::empty(), names);
    assert(Seq::<char>::empty() + stem == stem);
    lemma_pieces_of_joined(names, '/');
    lemma_all_nonempty(names);
    assert(named_pieces(stem, '/') == names);
    assert(names[0].len() > 0 && !names[0].contains('/') && !names[0].contains(':'));
    assert(seq![names[0]] + names.skip(1) == names);
    lemma_pieces_uncut(names[0], '/');
    assert(free_of(names.skip(1), ':')) by {
        assert(forall|i: int| 0 <= i < names.len() - 1 ==> names.skip(1)[i] == names[i + 1]);
    }
    law_custom_import_names_its_module(names[0], names.skip(1));
    if separators is Both {
        reveal_strlit("wesl");
        lemma_joined_names(names);
        lemma_joined_free(names, '/', '\\');
        assert(!inner.contains('\\')) by {
            assert forall|i: int| 0 <= i < inner.len() implies inner[i] != '\\' by {
                if i < stem.len() {
                    assert(stem.contains(stem[i]));
                }
            }
        }
        assert(prefix_len(inner) == 0) by {
            lemma_joined_free(names, '/', ':');
            assert(inner[0] == stem[0]);
            if stem.len() > 1 {
                assert(inner[1] == stem[1]);
                assert(stem.contains(stem[1]));
            }
        }
        lemma_plain_stem(inner);
    }
}

/// The files that a loader fetches are those of the imports that are asset paths, and no others.
pub proof fn law_only_asset_paths_are_fetched(
    imports: Seq<ImportView>,
    ext: Seq<char>,
    file: Seq<char>,
)
    ensures
        fetched_files(imports, ext).contains(file) <==> exists|i: int|
            0 <= i < imports.len() && (#[trigger] imports[i]) is AssetPath && fetched_file(
                imports[i],
                ext,
            ) == Some(file),
    decreases imports.len(),
{
    if imports.len() > 0 {
        let before = imports.drop_last();
        law_only_asset_paths_are_fetched(before, ext, file);
        let earlier = exists|i: int|
            0 <= i < before.len() && (#[trigger] before[i]) is AssetPath && fetched_file(
                before[i],
                ext,
            ) == Some(file);
        if earlier {
            let i = choose|i: int|
                0 <= i < before.len() && (#[trigger] before[i]) is AssetPath && fetched_file(
                    before[i],
                    ext,
                ) == Some(file);
            assert(imports[i] == before[i]);
        }
        assert forall|i: int|
            0 <= i < imports.len() && (#[trigger] imports[i]) is AssetPath && fetched_file(
                imports[i],
                ext,
            ) == Some(file) implies earlier || i == imports.len() - 1 by {
            if i < before.len() {
                assert(before[i] == imports[i]);
            }
        }
        match fetched_file(imports.last(), ext) {
            Some(last) => {
                lemma_push_contains(fetched_files(before, ext), last, file);
                assert(imports[imports.len() - 1] == imports.last());
            },
            None => {},
        }
    }
}

/// Whether an import is no asset path, or one with exactly one slash in front.
pub open spec fn starts_at_root(import: ImportView) -> bool {
    match import {
        ImportView::AssetPath(path) => path.len() > 0 && path[0] == '/' && (path.len() > 1
            ==> path[1] != '/'),
        ImportView::Custom(_) => true,
    }
}

/// Two imports from the root that are fetched from the same file are the same import.
proof fn lemma_fetched_from_one_file(a: ImportView, b: ImportView)
    requires
        starts_at_root(a),
        starts_at_root(b),
        fetched_file(a, "wesl"@) is Some,
        fetched_file(a, "wesl"@) == fetched_file(b, "wesl"@),
    ensures
        a == b,
{
    let end = seq!['.'] + "wesl"@;
    let (p, q) = (a->AssetPath_0, b->AssetPath_0);
    assert(without_leading(p.skip(1), '/') == p.skip(1));
    assert(without_leading(q.skip(1), '/') == q.skip(1));
    let file = p.skip(1) + seq!['.'] + "wesl"@;
    let other = q.skip(1) + seq!['.'] + "wesl"@;
    assert(fetched_file(a, "wesl"@) == Some(file) && fetched_file(b, "wesl"@) == Some(other));
    assert(file.len() == p.len() - 1 + end.len() && other.len() == q.len() - 1 + end.len());
    assert(p.skip(1) == file.take(p.len() - 1));
    assert(q.skip(1) == other.take(q.len() - 1));
    assert(p == seq!['/'] + p.skip(1));
    assert(q == seq!['/'] + q.skip(1));
}

/// Different imports from the root are fetched from different files.
proof fn lemma_fetched_once(imports: Seq<ImportView>)
    requires
        imports.no_duplicates(),
        forall|i: int| 0 <= i < imports.len() ==> starts_at_root(#[trigger] imports[i]),
    ensures
        fetched_files(imports, "wesl"@).no_duplicates(),
    decreases imports.len(),
{
    if imports.len() > 0 {
        let before = imports.drop_last();
        assert forall|i: int| 0 <= i < before.len() implies starts_at_root(#[trigger] before[i]) by {
            assert(before[i] == imports[i]);
        }
        lemma_fetched_once(before);
        match fetched_file(imports.last(), "wesl"@) {
            Some(file) => {
                law_only_asset_paths_are_fetched(before, "wesl"@, file);
                if fetched_files(before, "wesl"@).contains(file) {
                    let i = choose|i: int|
                        0 <= i < before.len() && (#[trigger] before[i]) is AssetPath
                            && fetched_file(before[i], "wesl"@) == Some(file);
                    assert(imports[imports.len() - 1] == imports.last());
                    assert(imports[i] == before[i]);
                    lemma_fetched_from_one_file(imports[i], imports[imports.len() - 1]);
                }
            },
            None => {},
        }
    }
}

/// No file is fetched twice for one source.
pub proof fn law_no_file_is_fetched_twice(unit: UnitTree, module: PathView)
    requires
        forall|i: int|
            0 <= i < unit.modules(module).len() ==> all_named(
                (#[trigger] unit.modules(module)[i]).components,
            ) && free_of(unit.modules(module)[i].components, '/'),
    ensures
        fetched_files(unit.dependencies(module), "wesl"@).no_duplicates(),
{
    let imports = unit.dependencies(module);
    let modules = unit.modules(module);
    law_dependencies_are_distinct(unit, module);
    assert forall|i: int| 0 <= i < imports.len() implies starts_at_root(#[trigger] imports[i]) by {
        assert(imports.contains(imports[i]));
        lemma_distinct_same_members(named_imports(modules));
        lemma_named_imports_come_from(modules, imports[i]);
        let k = choose|k: int|
            0 <= k < modules.len() && (#[trigger] modules[k]).import() == Some(imports[i]);
        let names = modules[k].components;
        if modules[k].origin is Absolute && names.len() > 0 {
            lemma_joined_names(names);
        }
    }
    lemma_fetched_once(imports);
}

/// Whether each module from the root that a source in `module` needs can be asked for by a file
/// name.
pub open spec fn needs_fetchable(
    unit: UnitTree,
    module: PathView,
    separators: Separators,
) -> bool {
    forall|i: int|
        0 <= i < unit.modules(module).len() && (#[trigger] unit.modules(module)[i]).origin
            is Absolute ==> is_fetchable(unit.modules(module)[i].components, separators)
}

/// The file that a dependency is fetched from is imported by that dependency.
proof fn lemma_dependency_is_fetched(
    unit: UnitTree,
    module: PathView,
    separators: Separators,
    import: ImportView,
)
    requires
        needs_fetchable(unit, module, separators),
        unit.dependencies(module).contains(import),
        import is AssetPath,
    ensures
        fetched_file(import, "wesl"@) matches Some(file) && file_import(file, separators) == import,
{
    let modules = unit.modules(module);
    lemma_distinct_same_members(named_imports(modules));
    lemma_named_imports_come_from(modules, import);
    let k = choose|k: int| 0 <= k < modules.len() && (#[trigger] modules[k]).import() == Some(
        import,
    );
    let names = modules[k].components;
    law_fetched_file_is_imported_by_its_name(names, separators);
    assert(modules[k].origin is Absolute);
    assert(modules[k] == PathView { origin: OriginView::Absolute, components: names });
}

/// A loaded WESL shader asks for the files of its own imports: each file that it needs is imported
/// by one of them, and each of them that is an asset path is the import of such a file.
pub proof fn law_loaded_shader_fetches_its_imports(
    shader: Shader,
    text: Seq<char>,
    path: Seq<char>,
    shader_defs: Seq<ShaderDefVal>,
    separators: Separators,
)
    requires
        is_wesl(shader, text, path, shader_defs, separators),
        file_import(path, separators).module() matches Some(module) ==> wesl_syntax(
            text,
        ) matches Some(unit) ==> needs_fetchable(unit, module, separators),
    ensures
        forall|i: int|
            0 <= i < shader.file_dependencies@.len() ==> import_views(shader.imports@).contains(
                file_import((#[trigger] shader.file_dependencies@[i])@, separators),
            ),
        forall|i: int|
            0 <= i < shader.imports@.len() && (#[trigger] shader.imports@[i])@ is AssetPath
                ==> exists|k: int|
                0 <= k < shader.file_dependencies@.len() && file_import(
                    (#[trigger] shader.file_dependencies@[k])@,
                    separators,
                ) == shader.imports@[i]@,
{
    let imports = import_views(shader.imports@);
    let files = texts(shader.file_dependencies@);
    assert(files == fetched_files(imports, "wesl"@));
    assert forall|import: ImportView| #[trigger]
        imports.contains(import) && import is AssetPath implies fetched_file(
        import,
        "wesl"@,
    ) matches Some(file) && file_import(file, separators) == import by {
        let module = file_import(path, separators).module()->Some_0;
        let unit = wesl_syntax(text)->Some_0;
        lemma_dependency_is_fetched(unit, module, separators, import);
    }
    assert forall|i: int| 0 <= i < shader.file_dependencies@.len() implies imports.contains(
        file_import((#[trigger] shader.file_dependencies@[i])@, separators),
    ) by {
        let file = shader.file_dependencies@[i]@;
        assert(files[i] == file);
        assert(files.contains(file));
        law_only_asset_paths_are_fetched(imports, "wesl"@, file);
        let k = choose|k: int|
            0 <= k < imports.len() && (#[trigger] imports[k]) is AssetPath && fetched_file(
                imports[k],
                "wesl"@,
            ) == Some(file);
        assert(imports.contains(imports[k]));
    }
    assert forall|i: int|
        0 <= i < shader.imports@.len() && (#[trigger] shader.imports@[i])@
            is AssetPath implies exists|k: int|
        0 <= k < shader.file_dependencies@.len() && file_import(
            (#[trigger] shader.file_dependencies@[k])@,
            separators,
        ) == shader.imports@[i]@ by {
        let import = shader.imports@[i]@;
        assert(imports[i] == import);
        assert(imports.contains(import));
        let file = fetched_file(import, "wesl"@)->Some_0;
        law_only_asset_paths_are_fetched(imports, "wesl"@, file);
        assert(files.contains(file));
        let k = choose|k: int| 0 <= k < files.len() && files[k] == file;
        assert(files[k] == shader.file_dependencies@[k]@);
    }
}

}
