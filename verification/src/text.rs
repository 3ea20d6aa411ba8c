//! Text as a sequence of characters: splitting, joining and rewriting.

use std::borrow::Cow;
use vstd::prelude::*;

verus! {

/// What each string of a list says.
pub open spec fn texts(list: Seq<String>) -> Seq<Seq<char>> {
    list.map_values(|s: String| s@)
}

/// The parts in order, with `sep` between each two of them.
pub open spec fn joined_text(parts: Seq<Seq<char>>, sep: Seq<char>) -> Seq<char>
    decreases parts.len(),
{
    if parts.len() == 0 {
        Seq::empty()
    } else if parts.len() == 1 {
        parts[0]
    } else {
        joined_text(parts.drop_last(), sep) + sep + parts.last()
    }
}

/// The maximal stretches of `s` without `sep`, the empty ones included: always one more than
/// `sep` occurs.
pub open spec fn pieces(s: Seq<char>, sep: char) -> Seq<Seq<char>>
    decreases s.len(),
{
    if s.len() == 0 {
        seq![Seq::empty()]
    } else {
        let before = pieces(s.drop_last(), sep);
        if s.last() == sep {
            before.push(Seq::empty())
        } else {
            before.drop_last().push(before.last().push(s.last()))
        }
    }
}

/// The parts that hold at least one character, in order.
pub open spec fn nonempty_parts(parts: Seq<Seq<char>>) -> Seq<Seq<char>>
    decreases parts.len(),
{
    if parts.len() == 0 {
        Seq::empty()
    } else {
        let before = nonempty_parts(parts.drop_last());
        if parts.last().len() > 0 {
            before.push(parts.last())
        } else {
            before
        }
    }
}

/// The pieces that hold at least one character.
pub open spec fn named_pieces(s: Seq<char>, sep: char) -> Seq<Seq<char>> {
    nonempty_parts(pieces(s, sep))
}

/// `s` with every `from` turned into `to`.
pub open spec fn with_replaced(s: Seq<char>, from: char, to: char) -> Seq<char> {
    s.map_values(|c: char| if c == from { to } else { c })
}

/// `s` without the run of `c` that it starts with.
pub open spec fn without_leading(s: Seq<char>, c: char) -> Seq<char>
    decreases s.len(),
{
    if s.len() > 0 && s[0] == c {
        without_leading(s.skip(1), c)
    } else {
        s
    }
}

/// Whether `s` starts with `prefix`.
pub open spec fn starts_with(s: Seq<char>, prefix: Seq<char>) -> bool {
    prefix.len() <= s.len() && s.take(prefix.len() as int) == prefix
}

/// `String::push` of the standard library appends one character and keeps what was there.
pub assume_specification[ String::push ](s: &mut String, c: char)
    ensures
        final(s)@ == old(s)@.push(c),
;

/// `From` of the standard library for a type and itself returns the argument unchanged.
pub assume_specification<T>[ <T as From<T>>::from ](t: T) -> (r: T)
    ensures
        r == t,
;

/// `From<&str>` of the standard library for `String` copies the text.
pub assume_specification<'a>[ <String as From<&'a str>>::from ](s: &str) -> (r: String)
    ensures
        r@ == s@,
;

/// `From<&str>` of the standard library for `Cow` borrows the text.
pub assume_specification<'a>[ <Cow<'a, str> as From<&'a str>>::from ](
    s: &'a str,
) -> (r: Cow<'a, str>)
    ensures
        r == Cow::Borrowed(s),
;

/// `From<String>` of the standard library for `Cow` owns the text.
pub assume_specification<'a>[ <Cow<'a, str> as From<String>>::from ](s: String) -> (r: Cow<'a, str>)
    ensures
        r == Cow::<str>::Owned(s),
;

/// There is always at least one piece.
pub proof fn lemma_pieces_nonempty(s: Seq<char>, sep: char)
    ensures
        pieces(s, sep).len() >= 1,
    decreases s.len(),
{
    if s.len() > 0 {
        lemma_pieces_nonempty(s.drop_last(), sep);
    }
}

/// The characters of `s`, one by one.
pub fn chars_of(s: &str) -> (r: Vec<char>)
    ensures
        r@ == s@,
{
    let mut r: Vec<char> = Vec::new();
    for c in it: s.chars()
        invariant
            r@ == s@.take(it.index() as int),
            it.seq() == s@,
    {
        r.push(c);
    }
    r
}

/// The string made of the characters from `from` up to but not including `to`.
pub fn text_of(chars: &Vec<char>, from: usize, to: usize) -> (r: String)
    requires
        from <= to <= chars.len(),
    ensures
        r@ == chars@.subrange(from as int, to as int),
{
    let mut r = String::new();
    let mut i: usize = from;
    while i < to
        invariant
            from <= i <= to <= chars.len(),
            r@ == chars@.subrange(from as int, i as int),
        decreases to - i,
    {
        r.push(chars[i]);
        i += 1;
    }
    r
}

/// Whether two texts are the same.
pub fn same_text(a: &str, b: &str) -> (r: bool)
    ensures
        r == (a@ == b@),
{
    a.to_owned() == b.to_owned()
}

/// The parts in order, with `sep` between each two of them.
pub fn join_texts(parts: &Vec<String>, sep: &str) -> (r: String)
    ensures
        r@ == joined_text(texts(parts@), sep@),
{
    let mut r = String::new();
    let ghost all = texts(parts@);
    let mut i: usize = 0;
    while i < parts.len()
        invariant
            i <= parts.len(),
            all == texts(parts@),
            r@ == joined_text(all.take(i as int), sep@),
        decreases parts.len() - i,
    {
        assert(all.take(i + 1).drop_last() == all.take(i as int));
        if i > 0 {
            r.append(sep);
        }
        r.append(parts[i].as_str());
        i += 1;
    }
    assert(all.take(all.len() as int) == all);
    r
}

/// Cuts `s` at every `sep`.
pub fn split_text(s: &str, sep: char) -> (r: Vec<String>)
    ensures
        texts(r@) == pieces(s@, sep),
{
    let chars = chars_of(s);
    let mut done: Vec<String> = Vec::new();
    let mut piece = String::new();
    let mut i: usize = 0;
    while i < chars.len()
        invariant
            i <= chars.len(),
            chars@ == s@,
            texts(done@).push(piece@) == pieces(s@.take(i as int), sep),
        decreases chars.len() - i,
    {
        assert(s@.take(i + 1).drop_last() == s@.take(i as int));
        let ghost before = pieces(s@.take(i as int), sep);
        let ghost shown = texts(done@);
        assert(before.drop_last() == shown);
        assert(before.last() == piece@);
        if chars[i] == sep {
            let ghost cut = piece@;
            done.push(piece);
            piece = String::new();
            assert(texts(done@) == shown.push(cut));
        } else {
            piece.push(chars[i]);
        }
        i += 1;
    }
    assert(s@.take(s@.len() as int) == s@);
    let ghost shown = texts(done@);
    let ghost cut = piece@;
    done.push(piece);
    assert(texts(done@) == shown.push(cut));
    done
}

/// Cuts `s` at every `sep` and drops the empty pieces.
pub fn split_names(s: &str, sep: char) -> (r: Vec<String>)
    ensures
        texts(r@) == named_pieces(s@, sep),
{
    let all = split_text(s, sep);
    let mut r: Vec<String> = Vec::new();
    let ghost shown = texts(all@);
    let mut i: usize = 0;
    while i < all.len()
        invariant
            i <= all.len(),
            shown == texts(all@),
            texts(r@) == nonempty_parts(shown.take(i as int)),
        decreases all.len() - i,
    {
        assert(shown.take(i + 1).drop_last() == shown.take(i as int));
        let ghost before = texts(r@);
        if !all[i].as_str().is_empty() {
            r.push(all[i].clone());
            assert(texts(r@) == before.push(all@[i as int]@));
        }
        i += 1;
    }
    assert(shown.take(shown.len() as int) == shown);
    r
}

/// What follows the last `sep` in `s`, or all of `s` where there is none.
pub fn last_piece(s: &str, sep: char) -> (r: String)
    ensures
        r@ == pieces(s@, sep).last(),
{
    let all = split_text(s, sep);
    proof {
        lemma_pieces_nonempty(s@, sep);
        assert(texts(all@).len() == all@.len());
    }
    all[all.len() - 1].clone()
}

/// Turns every `from` in `s` into `to`.
pub fn replace_char(s: &str, from: char, to: char) -> (r: String)
    ensures
        r@ == with_replaced(s@, from, to),
{
    let chars = chars_of(s);
    let mut r = String::new();
    let mut i: usize = 0;
    while i < chars.len()
        invariant
            i <= chars.len(),
            chars@ == s@,
            r@ == with_replaced(s@.take(i as int), from, to),
        decreases chars.len() - i,
    {
        if chars[i] == from {
            r.push(to);
        } else {
            r.push(chars[i]);
        }
        i += 1;
    }
    assert(s@.take(s@.len() as int) == s@);
    r
}

/// Drops the run of `c` that `s` starts with.
pub fn trim_leading(s: &str, c: char) -> (r: String)
    ensures
        r@ == without_leading(s@, c),
{
    let chars = chars_of(s);
    let mut i: usize = 0;
    assert(s@.skip(0) == s@);
    while i < chars.len() && chars[i] == c
        invariant
            i <= chars.len(),
            chars@ == s@,
            without_leading(s@, c) == without_leading(s@.skip(i as int), c),
        decreases chars.len() - i,
    {
        assert(s@.skip(i as int).skip(1) == s@.skip(i + 1));
        i += 1;
    }
    assert(s@.skip(i as int) == s@.subrange(i as int, s@.len() as int));
    text_of(&chars, i, chars.len())
}

/// What follows `prefix` in `s`, or nothing where `s` does not start with it.
pub fn strip_prefix(s: &str, prefix: &str) -> (r: Option<String>)
    ensures
        match r {
            Some(rest) => starts_with(s@, prefix@) && rest@ == s@.skip(prefix@.len() as int),
            None => !starts_with(s@, prefix@),
        },
{
    let chars = chars_of(s);
    let head = chars_of(prefix);
    if head.len() > chars.len() {
        return None;
    }
    let start = text_of(&chars, 0, head.len());
    assert(s@.take(prefix@.len() as int) == s@.subrange(0, prefix@.len() as int));
    if !same_text(start.as_str(), prefix) {
        return None;
    }
    assert(s@.skip(prefix@.len() as int) == s@.subrange(prefix@.len() as int, s@.len() as int));
    Some(text_of(&chars, head.len(), chars.len()))
}

}
