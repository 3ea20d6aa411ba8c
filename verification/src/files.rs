//! Files: how their names are read, and what is fetched and kept of them.

use vstd::prelude::*;

use crate::asset::{
    extension_len, file_import, file_stem, is_verbatim, last_name, lemma_last_piece,
    lemma_stem_is_prefix, name_end, prefix_len, rooted, separators, slash_at, trimmed, unprefixed,
    without_extension, Separators,
};
use crate::import::{import_views, ImportView};
use crate::loader::{fetched_file, fetched_files, is_loadable, is_spirv, is_wesl, is_wgsl};
use crate::reader::wesl_syntax;
use crate::shader::{can_be_read, wesl_dependencies, Shader, ShaderDefVal, Source};
use crate::syntax::UnitTree;
use crate::text::{joined_text, named_pieces, pieces, starts_with, texts, with_replaced};

verus! {

/// Slashes at the end of a path, and dots behind a slash, name no file and are passed over; nothing
/// else is.
pub proof fn law_slashes_at_the_end_are_passed_over(path: Seq<char>)
    ensures
        trimmed(path + seq!['/']) == trimmed(path),
        trimmed(path + seq!['/'] + seq!['.']) == trimmed(path),
        path.len() == 0 || (path.last() != '/' && !(path.len() > 1 && path.last() == '.'
            && path[path.len() - 2] == '/')) ==> trimmed(path) == path,
{
    let closed = path + seq!['/'];
    let dotted = closed + seq!['.'];
    assert(closed.drop_last() == path);
    assert(dotted.drop_last() == closed);
    assert(dotted[dotted.len() - 2] == '/');
}

/// The last name in a path that ends in `name`, with only what is passed over behind it.
proof fn lemma_last_name(dir: Seq<char>, name: Seq<char>, path: Seq<char>)
    requires
        dir.len() == 0 || dir.last() == '/',
        !name.contains('/'),
        trimmed(path) == dir + name,
    ensures
        last_name(path) == name,
{
    let kept = dir + name;
    lemma_last_piece(kept, '/');
    let last = pieces(kept, '/').last();
    if last.len() < name.len() {
        let k = kept.len() - last.len() - 1;
        assert(kept[k] == name[k - dir.len()]);
        assert(name.contains(name[k - dir.len()]));
    } else if last.len() > name.len() {
        assert(kept.skip(kept.len() - last.len())[last.len() - name.len() - 1] == dir.last());
        assert(last.contains('/')) by {
            assert(last[last.len() - name.len() - 1] == '/');
        }
    }
    assert(kept.skip(kept.len() - name.len()) == name);
}

/// What stands behind the last dot of a file name is its extension, and goes with the dot and with
/// what is passed over behind it. Only where that leaves a single dot, of a path that ends there, a
/// second one stays.
pub proof fn law_the_extension_goes_with_its_dot(
    dir: Seq<char>,
    stem: Seq<char>,
    ext: Seq<char>,
    path: Seq<char>,
)
    requires
        dir.len() == 0 || dir.last() == '/',
        stem.len() > 0,
        !stem.contains('/'),
        !ext.contains('/'),
        !ext.contains('.'),
        !(stem == seq!['.'] && ext.len() == 0),
        trimmed(path) == dir + stem + seq!['.'] + ext,
    ensures
        stem == seq!['.'] && path == trimmed(path) ==> without_extension(path) == dir + seq![
            '.',
            '.',
        ],
        !(stem == seq!['.'] && path == trimmed(path)) ==> without_extension(path) == dir + stem,
{
    let name = stem + seq!['.'] + ext;
    assert(!name.contains('/')) by {
        assert forall|i: int| 0 <= i < name.len() implies name[i] != '/' by {
            if i < stem.len() {
                assert(stem.contains(stem[i]));
            } else if i > stem.len() {
                assert(ext.contains(ext[i - stem.len() - 1]));
            }
        }
    }
    assert(dir + name == dir + stem + seq!['.'] + ext);
    lemma_last_name(dir, name, path);
    lemma_last_piece(name, '.');
    let last = pieces(name, '.').last();
    if last.len() < ext.len() {
        let k = name.len() - last.len() - 1;
        assert(name[k] == ext[k - stem.len() - 1]);
        assert(ext.contains(ext[k - stem.len() - 1]));
    } else if last.len() > ext.len() {
        assert(name.skip(name.len() - last.len())[last.len() - ext.len() - 1] == '.');
        assert(last[last.len() - ext.len() - 1] == '.');
        assert(last.contains('.'));
    }
    assert(extension_len(name) == ext.len() + 1);
    assert(name != seq!['.', '.']) by {
        if name == seq!['.', '.'] {
            assert(stem.len() == 1 && ext.len() == 0);
            assert(stem[0] == name[0]);
            assert(stem == seq!['.']);
        }
    }
    assert(name != seq!['.']);
    assert(name.take(name.len() - extension_len(name)) == stem);
    let kept = trimmed(path);
    assert(kept.take(kept.len() - extension_len(name)) == dir + stem);
    if stem == seq!['.'] {
        assert((dir + stem).push('.') == dir + seq!['.', '.']);
    }
}

/// A file name without a dot behind its first character has no extension: only what is passed over
/// behind it goes.
pub proof fn law_a_name_without_extension_stays(dir: Seq<char>, name: Seq<char>, path: Seq<char>)
    requires
        dir.len() == 0 || dir.last() == '/',
        name.len() > 0,
        !name.contains('/'),
        forall|i: int| 0 < i < name.len() ==> name[i] != '.',
        name != seq!['.'],
        trimmed(path) == dir + name,
    ensures
        without_extension(path) == dir + name,
{
    lemma_last_name(dir, name, path);
    lemma_last_piece(name, '.');
    let last = pieces(name, '.').last();
    if last.len() < name.len() {
        let k = name.len() - last.len() - 1;
        assert(name[k] == '.');
        assert(k == 0);
    }
    assert(extension_len(name) == 0);
    assert(name.take(name.len() as int) == name);
    let kept = trimmed(path);
    assert(kept.take(kept.len() as int) == kept);
    assert(name != seq!['.', '.']) by {
        if name == seq!['.', '.'] {
            assert(name[1] == '.');
        }
    }
}

/// A path that ends in the root, in `.` or in `..` names no file and stays as it is.
pub proof fn law_a_path_without_file_stays(dir: Seq<char>, path: Seq<char>)
    requires
        dir.len() == 0 || dir.last() == '/',
        trimmed(path).len() == 0 || trimmed(path) == seq!['.'] || trimmed(path) == dir + seq![
            '.',
            '.',
        ],
    ensures
        without_extension(path) == path,
{
    if trimmed(path).len() == 0 {
        assert(trimmed(path) == Seq::<char>::empty());
        assert(last_name(path).len() == 0);
    } else if trimmed(path) == seq!['.'] {
        let none = Seq::<char>::empty();
        assert(none + seq!['.'] == seq!['.']);
        lemma_last_name(none, seq!['.'], path);
    } else {
        lemma_last_name(dir, seq!['.', '.'], path);
    }
}

/// A path is read from the root: a slash is put in front of one that starts elsewhere, and nothing
/// of one that starts there. On systems with backslashes those and prefixes start a path too.
pub proof fn law_a_path_is_read_from_the_root(path: Seq<char>, separators: Separators)
    ensures
        ({
            let starts = match separators {
                Separators::Slash => path.len() > 0 && path[0] == '/',
                Separators::Both => path.len() > 0 && (path[0] == '/' || path[0] == '\\')
                    || prefix_len(path) > 0,
            };
            &&& starts ==> rooted(path, separators) == path
            &&& !starts ==> rooted(path, separators) == seq!['/'] + path
            &&& rooted(rooted(path, separators), separators) == rooted(path, separators)
        }),
{
    let whole = rooted(path, separators);
    assert(whole.len() > 0 && whole[0] == '/' || whole == path);
}

/// Only a system whose main separator is the backslash separates by it.
pub proof fn law_backslashes_separate_where_they_are_the_main_separator(separator: char)
    ensures
        separators(separator) is Both <==> separator == '\\',
{
}

/// Where backslashes separate, a path is cut as it would be with slashes for them; what names the
/// disk or the share stays in front of it.
pub proof fn law_backslashes_are_read_as_slashes(path: Seq<char>)
    requires
        !is_verbatim(path),
    ensures
        ({
            let prefix = prefix_len(path);
            let stem = file_stem(path, Separators::Both);
            let rest = with_replaced(path.skip(prefix), '\\', '/');
            &&& 0 <= prefix <= path.len()
            &&& stem.len() <= path.len()
            &&& path.take(stem.len() as int) == stem
            &&& prefix <= stem.len()
            &&& with_replaced(stem.skip(prefix), '\\', '/') == without_extension(rest)
        }),
{
    let prefix = prefix_len(path);
    lemma_prefix_bounds(path);
    let stem = file_stem(path, Separators::Both);
    let rest = with_replaced(path.skip(prefix), '\\', '/');
    lemma_stem_is_prefix(rest);
    assert(path.take(stem.len() as int) == stem);
    assert(with_replaced(stem.skip(prefix), '\\', '/') == rest.take(
        without_extension(rest).len() as int,
    ));
}

/// In a verbatim path only the backslash separates, and a path that ends in the name `.` stays.
pub proof fn law_verbatim_paths_are_cut_at_backslashes(path: Seq<char>, read: Seq<char>)
    requires
        is_verbatim(path),
        read.len() == path.len() - prefix_len(path),
        forall|i: int|
            0 <= i < read.len() ==> #[trigger] read[i] == match path[prefix_len(path) + i] {
                '\\' => '/',
                '/' => '?',
                c => c,
            },
    ensures
        ({
            let stem = file_stem(path, Separators::Both);
            let names = named_pieces(read, '/');
            if names.len() > 0 && names.last() == seq!['.'] {
                stem == path
            } else {
                &&& path.take(stem.len() as int) == stem
                &&& stem.len() == prefix_len(path) + without_extension(read).len() <= path.len()
            }
        }),
{
    lemma_prefix_bounds(path);
    assert(unprefixed(path) == read);
    lemma_stem_is_prefix(read);
}

/// Where only the slash separates, no more is done than to take the extension off.
pub proof fn law_slashes_alone_need_no_prefix(path: Seq<char>)
    ensures
        file_stem(path, Separators::Slash) == without_extension(path),
{
}

proof fn lemma_name_end(path: Seq<char>, from: int, end: int, verbatim: bool)
    requires
        0 <= from <= end <= path.len(),
        forall|i: int|
            from <= i < end ==> path[i] != '\\' && (verbatim || #[trigger] path[i] != '/'),
        end == path.len() || path[end] == '\\' || (!verbatim && path[end] == '/'),
    ensures
        name_end(path, from, verbatim) == end,
    decreases end - from,
{
    if from < end {
        assert(path[from] != '\\');
        lemma_name_end(path, from + 1, end, verbatim);
    }
}

proof fn lemma_name_end_bounds(path: Seq<char>, from: int, verbatim: bool)
    requires
        0 <= from,
    ensures
        from <= name_end(path, from, verbatim),
        from <= path.len() ==> name_end(path, from, verbatim) <= path.len(),
        from > path.len() ==> name_end(path, from, verbatim) == from,
    decreases path.len() - from,
{
    if from < path.len() {
        lemma_name_end_bounds(path, from + 1, verbatim);
    }
}

proof fn lemma_prefix_bounds(path: Seq<char>)
    ensures
        0 <= prefix_len(path) <= path.len(),
{
    lemma_name_end_bounds(path, 4, true);
    lemma_name_end_bounds(path, 8, true);
    lemma_name_end_bounds(path, name_end(path, 8, true) + 1, true);
    lemma_name_end_bounds(path, 2, false);
    lemma_name_end_bounds(path, name_end(path, 2, false) + 1, false);
}

/// A letter and a colon name a disk.
pub proof fn law_a_letter_and_a_colon_name_a_disk(letter: char, rest: Seq<char>)
    requires
        'a' <= letter <= 'z' || 'A' <= letter <= 'Z',
    ensures
        prefix_len(seq![letter, ':'] + rest) == 2,
{
    let path = seq![letter, ':'] + rest;
    assert(path[0] == letter && path[1] == ':');
}

/// Two slashes, a server, a slash and a share name a share; a server alone does not.
pub proof fn law_two_slashes_name_a_share(
    first: char,
    second: char,
    third: char,
    server: Seq<char>,
    share: Seq<char>,
    rest: Seq<char>,
)
    requires
        first == '/' || first == '\\',
        second == '/' || second == '\\',
        third == '/' || third == '\\',
        !server.contains('/') && !server.contains('\\'),
        !share.contains('/') && !share.contains('\\'),
        server != seq!['?'],
        rest.len() == 0 || rest[0] == '/' || rest[0] == '\\',
    ensures
        ({
            let path = seq![first, second] + server + seq![third] + share + rest;
            if server.len() > 0 && share.len() > 0 {
                prefix_len(path) == 3 + server.len() + share.len()
            } else {
                prefix_len(path) == 0
            }
        }),
        prefix_len(seq![first, second] + server) == 0,
{
    let path = seq![first, second] + server + seq![third] + share + rest;
    let start = 2 + server.len() as int;
    let end = start + 1 + share.len();
    assert forall|i: int| 2 <= i < start implies path[i] != '\\' && #[trigger] path[i] != '/' by {
        assert(path[i] == server[i - 2]);
        assert(server.contains(server[i - 2]));
    }
    assert forall|i: int| start < i < end implies path[i] != '\\' && #[trigger] path[i] != '/' by {
        assert(path[i] == share[i - start - 1]);
        assert(share.contains(share[i - start - 1]));
    }
    assert(path[start] == third);
    assert(path[0] == first && path[1] == second);
    if end < path.len() {
        assert(path[end] == rest[0]);
    }
    lemma_name_end(path, 2, start, false);
    lemma_name_end(path, start + 1, end, false);
    assert(!is_verbatim(path)) by {
        if is_verbatim(path) {
            if server.len() == 0 {
                assert(path[2] == third);
            } else {
                assert(path[2] == server[0]);
                if server.len() > 1 {
                    assert(path[3] == server[1]);
                    assert(server.contains(server[1]));
                }
                assert(server == seq!['?']);
            }
        }
    }
    let short = seq![first, second] + server;
    assert forall|i: int| 2 <= i < start implies short[i] != '\\' && #[trigger] short[i] != '/' by {
        assert(short[i] == server[i - 2]);
        assert(server.contains(server[i - 2]));
    }
    lemma_name_end(short, 2, start, false);
    lemma_name_end_bounds(short, start + 1, false);
    assert(short[0] == first && short[1] == second);
    assert(!is_verbatim(short)) by {
        if is_verbatim(short) {
            assert(short[3] == server[1]);
            assert(server.contains(server[1]));
        }
    }
}

/// A path that starts with neither has no prefix.
pub proof fn law_other_paths_have_no_prefix(path: Seq<char>)
    requires
        path.len() < 2 || path[1] != ':' || !('a' <= path[0] <= 'z' || 'A' <= path[0] <= 'Z'),
        !(slash_at(path, 0) && slash_at(path, 1)),
    ensures
        prefix_len(path) == 0,
{
}

/// A path is verbatim only where it starts with `\\?\`, in these characters.
pub proof fn law_verbatim_paths_start_with_a_question(path: Seq<char>)
    ensures
        is_verbatim(path) <==> path.len() >= 4 && path.take(4) == seq!['\\', '\\', '?', '\\'],
{
    if path.len() >= 4 {
        let start = path.take(4);
        assert(start[0] == path[0] && start[1] == path[1] && start[2] == path[2] && start[3]
            == path[3]);
        if is_verbatim(path) {
            assert(start == seq!['\\', '\\', '?', '\\']);
        }
    }
}

/// Behind `\\?\` stands one name, or `UNC` and then a server and a share.
pub proof fn law_verbatim_prefixes(
    name: Seq<char>,
    server: Seq<char>,
    share: Seq<char>,
    rest: Seq<char>,
)
    requires
        !name.contains('\\') && !server.contains('\\') && !share.contains('\\'),
        name != seq!['U', 'N', 'C'],
        !(name.len() > 3 && name[0] == 'U' && name[1] == 'N' && name[2] == 'C' && name[3] == '/'),
        share.len() > 0,
        rest.len() == 0 || rest[0] == '\\',
    ensures
        ({
            let start = seq!['\\', '\\', '?', '\\'];
            &&& is_verbatim(start + rest)
            &&& prefix_len(start + name + rest) == 4 + name.len()
            &&& prefix_len(
                start + seq!['U', 'N', 'C', '\\'] + server + seq!['\\'] + share + rest,
            ) == 9 + server.len() + share.len()
        }),
{
    let start = seq!['\\', '\\', '?', '\\'];
    let path = start + name + rest;
    let end = 4 + name.len() as int;
    assert((start + rest)[0] == '\\' && (start + rest)[1] == '\\' && (start + rest)[2] == '?'
        && (start + rest)[3] == '\\');
    assert(path[0] == '\\' && path[1] == '\\' && path[2] == '?' && path[3] == '\\');
    assert forall|i: int| 4 <= i < end implies #[trigger] path[i] != '\\' by {
        assert(path[i] == name[i - 4]);
        assert(name.contains(name[i - 4]));
    }
    if end < path.len() {
        assert(path[end] == rest[0]);
    }
    lemma_name_end(path, 4, end, true);
    assert(!crate::asset::names_share(path)) by {
        if crate::asset::names_share(path) {
            if name.len() >= 3 {
                assert(name[0] == path[4] && name[1] == path[5] && name[2] == path[6]);
                if name.len() > 3 {
                    assert(name[3] == path[7]);
                } else {
                    assert(name == seq!['U', 'N', 'C']);
                }
            } else {
                assert(path[4 + name.len() as int] == rest[0]);
            }
        }
    }
    let shared = start + seq!['U', 'N', 'C', '\\'] + server + seq!['\\'] + share + rest;
    let middle = 8 + server.len() as int;
    let last = middle + 1 + share.len();
    assert(shared[0] == '\\' && shared[1] == '\\' && shared[2] == '?' && shared[3] == '\\');
    assert(shared[4] == 'U' && shared[5] == 'N' && shared[6] == 'C' && shared[7] == '\\');
    assert forall|i: int| 8 <= i < middle implies #[trigger] shared[i] != '\\' by {
        assert(shared[i] == server[i - 8]);
        assert(server.contains(server[i - 8]));
    }
    assert forall|i: int| middle < i < last implies #[trigger] shared[i] != '\\' by {
        assert(shared[i] == share[i - middle - 1]);
        assert(share.contains(share[i - middle - 1]));
    }
    assert(shared[middle] == '\\');
    if last < shared.len() {
        assert(shared[last] == rest[0]);
    }
    lemma_name_end(shared, 8, middle, true);
    lemma_name_end(shared, middle + 1, last, true);
}

/// An embedded file is imported by the names in its path, any other file by its path from the root
/// with forward slashes; the extension belongs to neither.
pub proof fn law_files_are_imported_without_their_extension(
    path: Seq<char>,
    file: Seq<char>,
    separators: Separators,
)
    ensures
        file_import("embedded://"@ + file, separators) == ImportView::Custom(
            joined_text(named_pieces(file_stem(file, separators), '/'), seq![':', ':']),
        ),
        !starts_with(path, "embedded://"@) ==> file_import(path, separators)
            == ImportView::AssetPath(
            with_replaced(file_stem(rooted(path, separators), separators), '\\', '/'),
        ),
{
    let scheme = "embedded://"@;
    let whole = scheme + file;
    assert(whole.take(scheme.len() as int) == scheme);
    assert(whole.skip(scheme.len() as int) == file);
}

/// A WESL import is fetched from the file at its path, without the slashes in front and with the
/// extension. Others are fetched from the path as it stands, and import paths are no files.
pub proof fn law_imports_are_fetched_from_their_files(
    slashes: Seq<char>,
    rest: Seq<char>,
    ext: Seq<char>,
)
    requires
        forall|i: int| 0 <= i < slashes.len() ==> slashes[i] == '/',
        rest.len() == 0 || rest[0] != '/',
    ensures
        fetched_file(ImportView::AssetPath(slashes + rest), "wesl"@) == Some(
            rest + seq!['.'] + "wesl"@,
        ),
        ext != "wesl"@ ==> fetched_file(ImportView::AssetPath(rest), ext) == Some(rest),
        fetched_file(ImportView::Custom(rest), ext) is None,
    decreases slashes.len(),
{
    if slashes.len() == 0 {
        assert(slashes + rest == rest);
    } else {
        let fewer = slashes.skip(1);
        law_imports_are_fetched_from_their_files(fewer, rest, ext);
        assert((slashes + rest).skip(1) == fewer + rest);
        assert((slashes + rest)[0] == '/');
    }
}

/// The files of a list of imports are fetched import by import.
pub proof fn law_files_are_fetched_import_by_import(
    a: Seq<ImportView>,
    b: Seq<ImportView>,
    one: ImportView,
    ext: Seq<char>,
)
    ensures
        fetched_files(a + b, ext) == fetched_files(a, ext) + fetched_files(b, ext),
        fetched_file(one, ext) matches Some(file) ==> fetched_files(seq![one], ext) == seq![file],
        fetched_file(one, ext) is None ==> fetched_files(seq![one], ext).len() == 0,
    decreases b.len(),
{
    assert(seq![one].drop_last() == Seq::<ImportView>::empty());
    reveal_with_fuel(fetched_files, 2);
    if b.len() == 0 {
        assert(a + b == a);
    } else {
        law_files_are_fetched_import_by_import(a, b.drop_last(), one, ext);
        assert((a + b).drop_last() == a + b.drop_last());
    }
}

/// Shaders are loaded from three kinds of files.
pub proof fn law_three_kinds_of_files_are_loaded(ext: Seq<char>)
    ensures
        is_loadable(ext) <==> (ext == "spv"@ || ext == "wgsl"@ || ext == "wesl"@),
{
}

/// A shader that stands alone is found and imported at its path and needs nothing else.
pub proof fn law_a_shader_alone_needs_nothing(shader: Shader, path: Seq<char>)
    ensures
        shader.stands_alone(path) <==> {
            &&& shader.path@ == path
            &&& shader.import_path@ == ImportView::AssetPath(path)
            &&& shader.imports@.len() == 0
            &&& shader.shader_defs@.len() == 0
            &&& shader.file_dependencies@.len() == 0
            &&& shader.validate_shader is Disabled
        },
        shader.without_defs(path) <==> {
            &&& shader.path@ == path
            &&& shader.import_path@ == ImportView::AssetPath(path)
            &&& shader.imports@.len() == 0
            &&& shader.file_dependencies@.len() == 0
            &&& shader.validate_shader is Disabled
        },
{
    assert(import_views(shader.imports@).len() == shader.imports@.len());
    if shader.imports@.len() == 0 {
        assert(import_views(shader.imports@) == Seq::<ImportView>::empty());
    }
    if shader.shader_defs@.len() == 0 {
        assert(shader.shader_defs@ == Seq::<ShaderDefVal>::empty());
    }
    if shader.file_dependencies@.len() == 0 {
        assert(shader.file_dependencies@ == Seq::<String>::empty());
    }
}

/// A WESL shader is found at its path, is imported by the name of its file, imports what its source
/// depends on, and has nothing else set.
pub proof fn law_a_wesl_shader_says_what_its_source_needs(
    shader: Shader,
    unit: Option<UnitTree>,
    path: Seq<char>,
    separators: Separators,
)
    ensures
        shader.reads(unit, path, separators) <==> {
            &&& shader.path@ == path
            &&& shader.import_path@ == file_import(path, separators)
            &&& import_views(shader.imports@) == wesl_dependencies(
                unit,
                file_import(path, separators),
            )
            &&& shader.shader_defs@.len() == 0
            &&& shader.file_dependencies@.len() == 0
            &&& shader.validate_shader is Disabled
        },
{
    if shader.shader_defs@.len() == 0 {
        assert(shader.shader_defs@ == Seq::<ShaderDefVal>::empty());
    }
    if shader.file_dependencies@.len() == 0 {
        assert(shader.file_dependencies@ == Seq::<String>::empty());
    }
}

/// What is loaded keeps its source; only a WESL shader has shader defs and files to fetch.
pub proof fn law_loaded_shaders_keep_their_source(
    shader: Shader,
    code: Seq<u8>,
    text: Seq<char>,
    path: Seq<char>,
    shader_defs: Seq<ShaderDefVal>,
    separators: Separators,
)
    ensures
        is_spirv(shader, code, path) <==> shader.source is SpirV && shader.source->SpirV_0@ == code
            && shader.stands_alone(path),
        is_wgsl(shader, text, path) <==> shader.source is Wgsl && shader.source->Wgsl_0@ == text
            && shader.stands_alone(path),
        is_wesl(shader, text, path, shader_defs, separators) ==> {
            let imports = import_views(shader.imports@);
            &&& shader.source is Wesl
            &&& shader.source->Wesl_0@ == text
            &&& shader.path@ == path
            &&& shader.import_path@ == file_import(path, separators)
            &&& imports == wesl_dependencies(wesl_syntax(text), file_import(path, separators))
            &&& shader.shader_defs@ == shader_defs
            &&& texts(shader.file_dependencies@) == fetched_files(imports, "wesl"@)
            &&& shader.validate_shader is Disabled
        },
{
}

/// Text sources say their text, SPIR-V none; two sources say the same if they hold the same in the
/// same language.
pub proof fn law_sources_say_their_text(a: Source, b: Source)
    ensures
        match a {
            Source::Wgsl(s) => a.text() == Some(s@),
            Source::Wesl(s) => a.text() == Some(s@),
            Source::SpirV(_) => a.text() is None,
        },
        a.says_as(b) <==> match (a, b) {
            (Source::Wgsl(s), Source::Wgsl(t)) => s@ == t@,
            (Source::Wesl(s), Source::Wesl(t)) => s@ == t@,
            (Source::SpirV(s), Source::SpirV(t)) => s@ == t@,
            _ => false,
        },
{
}

/// A source need not be lexable where its shader is in no module; else it has to be.
pub proof fn law_only_modules_are_parsed(
    source: Seq<char>,
    path: Seq<char>,
    separators: Separators,
)
    ensures
        file_import(path, separators).module() is None ==> can_be_read(source, path, separators),
        file_import(path, separators).module() is Some ==> can_be_read(source, path, separators)
            == crate::literal::is_lexable(source),
{
}

}
