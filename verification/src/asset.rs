//! Asset paths: file names, their extensions, and the import that names a shader file.
//!
//! How a path is read rests on the system: some separate directories by `/` alone, others by `\`
//! too, and those also know prefixes such as `C:`, `\\server\share` and `\\?\`. What follows `\\?\`
//! is read verbatim: the slash does not separate there, and `.` is a name.

use vstd::prelude::*;

use crate::import::{ImportView, ShaderImport};
use crate::text::{
    chars_of, join_texts, joined_text, last_piece, lemma_pieces_nonempty, named_pieces, pieces,
    replace_char, same_text, split_names, starts_with, strip_prefix, text_of, texts,
    with_replaced,
};

verus! {

/// A path without what names no file at its end: slashes, and `.` behind a slash.
pub open spec fn trimmed(path: Seq<char>) -> Seq<char>
    decreases path.len(),
{
    if path.len() > 0 && path.last() == '/' {
        trimmed(path.drop_last())
    } else if path.len() > 1 && path.last() == '.' && path[path.len() - 2] == '/' {
        trimmed(path.drop_last())
    } else {
        path
    }
}

/// The last name in a path.
pub open spec fn last_name(path: Seq<char>) -> Seq<char> {
    pieces(trimmed(path), '/').last()
}

/// Whether a path ends in the name of a file: not in the root, nor in `.` or `..`.
pub open spec fn names_file(path: Seq<char>) -> bool {
    let name = last_name(path);
    name.len() > 0 && name != seq!['.'] && name != seq!['.', '.']
}

/// How many characters the extension of a name and its dot take: those from the last dot on. A
/// dot that starts the name starts no extension.
pub open spec fn extension_len(name: Seq<char>) -> nat {
    let len = pieces(name, '.').last().len() + 1;
    if len < name.len() {
        len
    } else {
        0
    }
}

/// The path without the extension of its file name. A path that names no file stays as it is. As
/// `..` names no file either, a path that ends in a name such as `..wesl` keeps both its dots.
pub open spec fn without_extension(path: Seq<char>) -> Seq<char> {
    if names_file(path) {
        let name = last_name(path);
        let cut = trimmed(path).take(trimmed(path).len() - extension_len(name));
        if name.take(name.len() - extension_len(name)) == seq!['.'] && trimmed(path) == path {
            cut.push('.')
        } else {
            cut
        }
    } else {
        path
    }
}

/// Which characters separate the directories in a path.
#[derive(Debug, Clone, Copy)]
pub enum Separators {
    /// The slash.
    Slash,
    /// The slash and the backslash.
    Both,
}

/// The separators of a system that mainly uses `separator`.
pub open spec fn separators(separator: char) -> Separators {
    if separator == '\\' {
        Separators::Both
    } else {
        Separators::Slash
    }
}

/// Whether a slash or a backslash stands in `path` at `i`.
pub open spec fn slash_at(path: Seq<char>, i: int) -> bool {
    0 <= i < path.len() && (path[i] == '/' || path[i] == '\\')
}

/// Whether a path starts with `\\?\` and is read verbatim.
pub open spec fn is_verbatim(path: Seq<char>) -> bool {
    path.len() >= 4 && path[0] == '\\' && path[1] == '\\' && path[2] == '?' && path[3] == '\\'
}

/// Where the next separator stands from `from` on, or the end of the path. In a verbatim path the
/// slash is none.
pub open spec fn name_end(path: Seq<char>, from: int, verbatim: bool) -> int
    decreases path.len() - from,
{
    if 0 <= from < path.len() && (!slash_at(path, from) || (verbatim && path[from] == '/')) {
        name_end(path, from + 1, verbatim)
    } else {
        from
    }
}

/// Where the names of a server and of its share end that are written from `from` on.
pub open spec fn share_end(path: Seq<char>, from: int, verbatim: bool) -> int {
    name_end(path, name_end(path, from, verbatim) + 1, verbatim)
}

/// Whether a path starts with the letter of a disk and a colon.
pub open spec fn starts_with_disk(path: Seq<char>) -> bool {
    path.len() >= 2 && ('a' <= path[0] <= 'z' || 'A' <= path[0] <= 'Z') && path[1] == ':'
}

/// Whether a verbatim path names a share, as `\\?\UNC\server\share`.
pub open spec fn names_share(path: Seq<char>) -> bool {
    path.len() >= 8 && path[4] == 'U' && path[5] == 'N' && path[6] == 'C' && slash_at(path, 7)
}

/// How much of a path names a disk, as `C:`, or a share, as `\\server\share`, where both kinds of
/// slashes separate. A server alone is no share, unless the path is verbatim.
pub open spec fn prefix_len(path: Seq<char>) -> int {
    if starts_with_disk(path) {
        2
    } else if is_verbatim(path) && !names_share(path) {
        name_end(path, 4, true)
    } else if is_verbatim(path) {
        let server = name_end(path, 8, true);
        if server + 1 < share_end(path, 8, true) {
            share_end(path, 8, true)
        } else {
            server
        }
    } else if slash_at(path, 0) && slash_at(path, 1) && 2 < name_end(path, 2, false) && name_end(
        path,
        2,
        false,
    ) + 1 < share_end(path, 2, false) {
        share_end(path, 2, false)
    } else {
        0
    }
}

/// What follows the prefix of a path, with slashes for its separators and for nothing else.
pub open spec fn unprefixed(path: Seq<char>) -> Seq<char> {
    let rest = path.skip(prefix_len(path));
    if is_verbatim(path) {
        with_replaced(with_replaced(rest, '/', '?'), '\\', '/')
    } else {
        with_replaced(rest, '\\', '/')
    }
}

/// Whether the last name in a path is a dot.
pub open spec fn ends_in_dot(path: Seq<char>) -> bool {
    let names = named_pieces(path, '/');
    names.len() > 0 && names.last() == seq!['.']
}

/// The path without the extension of its file name, which is no part of the prefix.
pub open spec fn file_stem(path: Seq<char>, separators: Separators) -> Seq<char> {
    match separators {
        Separators::Slash => without_extension(path),
        Separators::Both => if is_verbatim(path) && ends_in_dot(unprefixed(path)) {
            path
        } else {
            path.take(prefix_len(path) + without_extension(unprefixed(path)).len())
        },
    }
}

/// The path read from the root, whether it starts there or not. A prefix starts a path too.
pub open spec fn rooted(path: Seq<char>, separators: Separators) -> Seq<char> {
    let starts = match separators {
        Separators::Slash => path.len() > 0 && path[0] == '/',
        Separators::Both => slash_at(path, 0) || prefix_len(path) > 0,
    };
    if starts {
        path
    } else {
        seq!['/'] + path
    }
}

/// The import that names the shader at an asset path: for an embedded file the names in its path
/// without extension, for another file its path from the root without extension and with forward
/// slashes.
pub open spec fn file_import(path: Seq<char>, separators: Separators) -> ImportView {
    let scheme = "embedded://"@;
    if starts_with(path, scheme) {
        let file = file_stem(path.skip(scheme.len() as int), separators);
        ImportView::Custom(joined_text(named_pieces(file, '/'), seq![':', ':']))
    } else {
        ImportView::AssetPath(
            with_replaced(file_stem(rooted(path, separators), separators), '\\', '/'),
        )
    }
}

/// Trimming drops characters at the end only.
pub proof fn lemma_trimmed_is_prefix(path: Seq<char>)
    ensures
        trimmed(path).len() <= path.len(),
        trimmed(path) == path.take(trimmed(path).len() as int),
    decreases path.len(),
{
    if trimmed(path) == path {
        assert(path.take(path.len() as int) == path);
    } else {
        let before = path.drop_last();
        lemma_trimmed_is_prefix(before);
        assert(before.take(trimmed(before).len() as int) == path.take(
            trimmed(before).len() as int,
        ));
    }
}

/// The last piece is what stands behind the last `sep`.
pub proof fn lemma_last_piece(s: Seq<char>, sep: char)
    ensures
        pieces(s, sep).last().len() <= s.len(),
        !pieces(s, sep).last().contains(sep),
        s.skip(s.len() - pieces(s, sep).last().len()) == pieces(s, sep).last(),
        pieces(s, sep).last().len() < s.len() ==> s[s.len() - pieces(s, sep).last().len() - 1]
            == sep,
    decreases s.len(),
{
    lemma_pieces_nonempty(s, sep);
    if s.len() > 0 {
        let before = s.drop_last();
        lemma_last_piece(before, sep);
        lemma_pieces_nonempty(before, sep);
        let piece = pieces(before, sep).last();
        if s.last() != sep {
            let last = piece.push(s.last());
            assert(pieces(s, sep).last() == last);
            assert forall|i: int| 0 <= i < last.len() implies last[i] != sep by {
                if i < piece.len() {
                    assert(piece.contains(piece[i]));
                }
            }
            let start = before.len() - piece.len();
            assert(s.skip(start) == last) by {
                assert forall|i: int| 0 <= i < last.len() implies s.skip(start)[i] == last[i] by {
                    if i < piece.len() {
                        assert(before.skip(start)[i] == piece[i]);
                    }
                }
            }
        } else {
            assert(pieces(s, sep).last() == Seq::<char>::empty());
            assert(s.skip(s.len() as int) == Seq::<char>::empty());
        }
    }
}

/// Taking the extension off a path drops characters at the end only.
pub proof fn lemma_stem_is_prefix(path: Seq<char>)
    ensures
        without_extension(path).len() <= path.len(),
        without_extension(path) == path.take(without_extension(path).len() as int),
{
    lemma_trimmed_is_prefix(path);
    let kept = trimmed(path);
    let name = last_name(path);
    lemma_last_piece(kept, '/');
    lemma_last_piece(name, '.');
    if names_file(path) {
        let dropped = extension_len(name);
        let cut = kept.take(kept.len() - dropped);
        assert(cut == path.take(cut.len() as int));
        if name.take(name.len() - dropped) == seq!['.'] && kept == path {
            assert(dropped > 0) by {
                if dropped == 0 {
                    assert(name.take(name.len() as int) == name);
                }
            }
            assert(name[name.len() - dropped] == '.');
            assert(kept.skip(kept.len() - name.len())[name.len() - dropped] == kept[kept.len()
                - dropped]);
            assert(cut.push('.') == path.take(cut.len() as int + 1));
        }
    } else {
        assert(path.take(path.len() as int) == path);
    }
}

/// Drops slashes, and `.` behind a slash, from the end of a path.
fn trim_path(path: &str) -> (r: String)
    ensures
        r@ == trimmed(path@),
{
    let chars = chars_of(path);
    let mut n: usize = chars.len();
    assert(path@.take(n as int) == path@);
    while n > 0 && (chars[n - 1] == '/' || (n > 1 && chars[n - 1] == '.' && chars[n - 2] == '/'))
        invariant
            n <= chars.len(),
            chars@ == path@,
            trimmed(path@.take(n as int)) == trimmed(path@),
        decreases n,
    {
        assert(path@.take(n as int).drop_last() == path@.take(n - 1));
        n -= 1;
    }
    assert(path@.take(n as int) == path@.subrange(0, n as int));
    text_of(&chars, 0, n)
}

/// Drops the extension of the file name, where only the slash separates.
fn strip_plain_extension(path: &str) -> (r: String)
    ensures
        r@ == without_extension(path@),
{
    let file = trim_path(path);
    let name = last_piece(file.as_str(), '/');
    proof {
        reveal_strlit(".");
        reveal_strlit("..");
        assert("."@ == seq!['.']);
        assert(".."@ == seq!['.', '.']);
        lemma_last_piece(file@, '/');
        lemma_last_piece(name@, '.');
    }
    if name.as_str().is_empty() || same_text(name.as_str(), ".") || same_text(name.as_str(), "..") {
        return path.to_owned();
    }
    let extension = last_piece(name.as_str(), '.');
    let chars = chars_of(file.as_str());
    let name_len: usize = chars_of(name.as_str()).len();
    let ext_len: usize = chars_of(extension.as_str()).len();
    let dropped: usize = if ext_len < name_len && ext_len + 1 < name_len {
        ext_len + 1
    } else {
        0
    };
    assert(file@.take(file@.len() - dropped) == file@.subrange(0, file@.len() - dropped));
    let mut r = text_of(&chars, 0, chars.len() - dropped);
    let stem = text_of(&chars_of(name.as_str()), 0, name_len - dropped);
    assert(name@.take(name@.len() - dropped) == name@.subrange(0, name@.len() - dropped));
    if same_text(stem.as_str(), ".") && same_text(file.as_str(), path) {
        r.push('.');
    }
    r
}

/// The separators of a system that mainly uses `separator`.
pub fn separators_of(separator: char) -> (r: Separators)
    ensures
        r == separators(separator),
{
    if separator == '\\' {
        Separators::Both
    } else {
        Separators::Slash
    }
}

fn is_slash(chars: &Vec<char>, i: usize) -> (r: bool)
    ensures
        r == slash_at(chars@, i as int),
{
    i < chars.len() && (chars[i] == '/' || chars[i] == '\\')
}

fn is_read_verbatim(chars: &Vec<char>) -> (r: bool)
    ensures
        r == is_verbatim(chars@),
{
    chars.len() >= 4 && chars[0] == '\\' && chars[1] == '\\' && chars[2] == '?' && chars[3] == '\\'
}

fn find_name_end(chars: &Vec<char>, from: usize, verbatim: bool) -> (r: usize)
    requires
        from <= chars.len(),
    ensures
        r == name_end(chars@, from as int, verbatim),
        from <= r <= chars.len(),
{
    let mut i: usize = from;
    while i < chars.len() && (!is_slash(chars, i) || (verbatim && chars[i] == '/'))
        invariant
            from <= i <= chars.len(),
            name_end(chars@, from as int, verbatim) == name_end(chars@, i as int, verbatim),
        decreases chars.len() - i,
    {
        i += 1;
    }
    i
}

/// Where the server and the share end that are written from `from` on.
fn find_share(chars: &Vec<char>, from: usize, verbatim: bool) -> (r: (usize, Option<usize>))
    requires
        from <= chars.len(),
    ensures
        r.0 == name_end(chars@, from as int, verbatim),
        from <= r.0 <= chars.len(),
        match r.1 {
            Some(end) => end == share_end(chars@, from as int, verbatim) && r.0 + 1 < end
                <= chars.len(),
            None => r.0 + 1 >= share_end(chars@, from as int, verbatim),
        },
{
    let server: usize = find_name_end(chars, from, verbatim);
    if server < chars.len() {
        let share: usize = find_name_end(chars, server + 1, verbatim);
        if server + 1 < share {
            return (server, Some(share));
        }
    }
    (server, None)
}

fn find_prefix(chars: &Vec<char>) -> (r: usize)
    ensures
        r == prefix_len(chars@),
        r <= chars.len(),
{
    if chars.len() < 2 {
        return 0;
    }
    if (('a' <= chars[0] && chars[0] <= 'z') || ('A' <= chars[0] && chars[0] <= 'Z')) && chars[1]
        == ':' {
        return 2;
    }
    if is_read_verbatim(chars) {
        if chars.len() >= 8 && chars[4] == 'U' && chars[5] == 'N' && chars[6] == 'C' && is_slash(
            chars,
            7,
        ) {
            return match find_share(chars, 8, true) {
                (_, Some(share)) => share,
                (server, None) => server,
            };
        }
        return find_name_end(chars, 4, true);
    }
    if is_slash(chars, 0) && is_slash(chars, 1) {
        if let (server, Some(share)) = find_share(chars, 2, false) {
            if 2 < server {
                return share;
            }
        }
    }
    0
}

/// What follows the first `prefix` characters of a path, with slashes for its separators and for
/// nothing else.
fn without_prefix(chars: &Vec<char>, prefix: usize) -> (r: String)
    requires
        prefix == prefix_len(chars@),
        prefix <= chars.len(),
    ensures
        r@ == unprefixed(chars@),
{
    let rest = text_of(chars, prefix, chars.len());
    assert(chars@.skip(prefix as int) == chars@.subrange(prefix as int, chars@.len() as int));
    if is_read_verbatim(chars) {
        let marked = replace_char(rest.as_str(), '/', '?');
        replace_char(marked.as_str(), '\\', '/')
    } else {
        replace_char(rest.as_str(), '\\', '/')
    }
}

fn has_dot_at_end(path: &str) -> (r: bool)
    ensures
        r == ends_in_dot(path@),
{
    let names = split_names(path, '/');
    proof {
        reveal_strlit(".");
        assert("."@ == seq!['.']);
        assert(texts(names@).len() == names@.len());
    }
    names.len() > 0 && same_text(names[names.len() - 1].as_str(), ".")
}

/// Drops the extension of the file name.
pub fn strip_extension(path: &str, separators: Separators) -> (r: String)
    ensures
        r@ == file_stem(path@, separators),
{
    match separators {
        Separators::Slash => strip_plain_extension(path),
        Separators::Both => {
            let chars = chars_of(path);
            let prefix: usize = find_prefix(&chars);
            let rest = without_prefix(&chars, prefix);
            if is_read_verbatim(&chars) && has_dot_at_end(rest.as_str()) {
                return path.to_owned();
            }
            proof {
                lemma_stem_is_prefix(rest@);
            }
            let kept: usize = chars_of(strip_plain_extension(rest.as_str()).as_str()).len();
            assert(path@.take(prefix + kept) == path@.subrange(0, prefix + kept));
            text_of(&chars, 0, prefix + kept)
        },
    }
}

/// Puts a slash in front of a path that does not start at the root.
fn root_path(path: &str, separators: Separators) -> (r: String)
    ensures
        r@ == rooted(path@, separators),
{
    let chars = chars_of(path);
    let starts = match separators {
        Separators::Slash => chars.len() > 0 && chars[0] == '/',
        Separators::Both => is_slash(&chars, 0) || find_prefix(&chars) > 0,
    };
    if starts {
        return path.to_owned();
    }
    proof {
        reveal_strlit("/");
        assert("/"@ == seq!['/']);
    }
    let mut r = String::new();
    r.append("/");
    r.append(path);
    assert(r@ == seq!['/'] + path@);
    r
}

/// The import that names the shader at an asset path.
pub fn import_of_file(path: &str, separators: Separators) -> (r: ShaderImport)
    ensures
        r@ == file_import(path@, separators),
{
    match strip_prefix(path, "embedded://") {
        Some(file) => {
            proof {
                reveal_strlit("::");
                assert("::"@ == seq![':', ':']);
            }
            let stem = strip_extension(file.as_str(), separators);
            ShaderImport::Custom(join_texts(&split_names(stem.as_str(), '/'), "::"))
        },
        None => {
            let file = strip_extension(root_path(path, separators).as_str(), separators);
            ShaderImport::AssetPath(replace_char(file.as_str(), '\\', '/'))
        },
    }
}

}
