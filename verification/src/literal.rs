//! Hexadecimal number literals, as far as the parser can compute their values.
//!
//! The parser works out the value of every hexadecimal number with a fraction or an exponent. It
//! shifts the digits by their leading zeros and scales the exponent in 32 bits, and overflows on
//! a zero with a large exponent and on exponents that are larger still. Brackets are counted in 32
//! bits as well.

use vstd::prelude::*;

use crate::text::chars_of;

verus! {

/// How large an exponent can get, with room for the digits and the bias of the binary exponent.
pub const EXPONENT_LIMIT: i64 = 0x1fff_f000;

/// Whether `c` is a decimal digit, or a hexadecimal one where `hex` holds.
pub open spec fn is_digit(c: char, hex: bool) -> bool {
    ||| '0' <= c <= '9'
    ||| hex && ('a' <= c <= 'f' || 'A' <= c <= 'F')
}

/// Where the run of digits ends that starts at `from`.
pub open spec fn run_end(s: Seq<char>, from: int, hex: bool) -> int
    decreases s.len() - from,
{
    if 0 <= from < s.len() && is_digit(s[from], hex) {
        run_end(s, from + 1, hex)
    } else {
        from
    }
}

/// Whether there are only zeros from `from` up to `to`.
pub open spec fn only_zeros(s: Seq<char>, from: int, to: int) -> bool {
    forall|i: int| from <= i < to ==> s[i] == '0'
}

/// The number that is written in decimal digits from `from` up to `to`.
pub open spec fn written_number(s: Seq<char>, from: int, to: int) -> nat
    decreases to - from,
{
    if to <= from {
        0
    } else {
        (10 * written_number(s, from, to - 1) + (s[to - 1] as int - '0' as int)) as nat
    }
}

/// Whether one of two characters stands in `s` at `i`.
pub open spec fn stands_at(s: Seq<char>, i: int, one: char, other: char) -> bool {
    0 <= i < s.len() && (s[i] == one || s[i] == other)
}

/// Whether a hexadecimal number can start in `s` at `i`.
pub open spec fn starts_hex(s: Seq<char>, i: int) -> bool {
    stands_at(s, i, '0', '0') && stands_at(s, i + 1, 'x', 'X')
}

/// Where the digits in front of the point end in the number that starts at `i`.
pub open spec fn whole_end(s: Seq<char>, i: int) -> int {
    run_end(s, i + 2, true)
}

/// Whether the number that starts at `i` has a point.
pub open spec fn has_point(s: Seq<char>, i: int) -> bool {
    stands_at(s, whole_end(s, i), '.', '.')
}

/// Where the digits of the number that starts at `i` end, those behind the point included.
pub open spec fn digits_end(s: Seq<char>, i: int) -> int {
    if has_point(s, i) {
        run_end(s, whole_end(s, i) + 1, true)
    } else {
        whole_end(s, i)
    }
}

/// How many digits stand behind the point of the number that starts at `i`.
pub open spec fn fraction_len(s: Seq<char>, i: int) -> int {
    if has_point(s, i) {
        digits_end(s, i) - whole_end(s, i) - 1
    } else {
        0
    }
}

/// How many digits the number that starts at `i` has, on both sides of the point.
pub open spec fn digits_len(s: Seq<char>, i: int) -> int {
    whole_end(s, i) - i - 2 + fraction_len(s, i)
}

/// Where the digits of the exponent start in the number that starts at `i`, if it has one.
pub open spec fn exponent_start(s: Seq<char>, i: int) -> int {
    let sign = digits_end(s, i) + 1;
    if stands_at(s, sign, '+', '-') {
        sign + 1
    } else {
        sign
    }
}

/// Whether the number that starts at `i` has an exponent.
pub open spec fn has_exponent(s: Seq<char>, i: int) -> bool {
    &&& stands_at(s, digits_end(s, i), 'p', 'P')
    &&& exponent_start(s, i) < run_end(s, exponent_start(s, i), false)
}

/// The exponent of the number that starts at `i`.
pub open spec fn exponent(s: Seq<char>, i: int) -> int {
    let start = exponent_start(s, i);
    let size = written_number(s, start, run_end(s, start, false));
    if !has_exponent(s, i) {
        0
    } else if stands_at(s, digits_end(s, i) + 1, '-', '-') {
        -size
    } else {
        size as int
    }
}

/// Whether `suffix` follows the exponent of the number that starts at `i`.
pub open spec fn has_suffix(s: Seq<char>, i: int, suffix: char) -> bool {
    has_exponent(s, i) && stands_at(
        s,
        run_end(s, exponent_start(s, i), false),
        suffix,
        suffix,
    )
}

/// Whether all digits of the number that starts at `i` are zeros.
pub open spec fn is_zero(s: Seq<char>, i: int) -> bool {
    only_zeros(s, i + 2, whole_end(s, i)) && only_zeros(s, whole_end(s, i) + 1, digits_end(s, i))
}

/// Whether the value of the number that starts at `i` is worked out. That is left out where `f`
/// follows it.
pub open spec fn is_computed(s: Seq<char>, i: int) -> bool {
    &&& digits_len(s, i) > 0
    &&& has_point(s, i) || has_exponent(s, i)
    &&& !has_suffix(s, i, 'f')
}

/// Whether the parser can work out the value of the number that starts at `i`. A zero has to have
/// an exponent that a float can be multiplied by at once: a `f32` where `h` follows the number,
/// else a `f64`.
pub open spec fn is_computable(s: Seq<char>, i: int) -> bool {
    let scale = exponent(s, i) - fraction_len(s, i);
    &&& -EXPONENT_LIMIT <= exponent(s, i) - digits_len(s, i)
    &&& exponent(s, i) + digits_len(s, i) <= EXPONENT_LIMIT
    &&& is_zero(s, i) ==> if has_suffix(s, i, 'h') {
        -31 <= scale <= 37
    } else {
        -255 <= scale <= 268
    }
}

/// Whether the parser leaves the value of the number that starts at `i` out, or can work it out.
pub open spec fn is_harmless(s: Seq<char>, i: int) -> bool {
    starts_hex(s, i) && is_computed(s, i) ==> is_computable(s, i)
}

/// Whether `c` can stand in a name, as far as names are ASCII.
pub open spec fn is_word(c: char) -> bool {
    '0' <= c <= '9' || 'a' <= c <= 'z' || 'A' <= c <= 'Z' || c == '_'
}

/// Where the run of word characters ends that starts at `from`.
pub open spec fn word_end(s: Seq<char>, from: int) -> int
    decreases s.len() - from,
{
    if 0 <= from < s.len() && is_word(s[from]) {
        word_end(s, from + 1)
    } else {
        from
    }
}

/// Whether `c` ends a line.
pub open spec fn ends_line(c: char) -> bool {
    '\n' <= c <= '\r' || c == '\u{85}' || c == '\u{2028}' || c == '\u{2029}'
}

/// Where the line ends that goes on at `from`.
pub open spec fn line_end(s: Seq<char>, from: int) -> int
    decreases s.len() - from,
{
    if 0 <= from < s.len() && !ends_line(s[from]) {
        line_end(s, from + 1)
    } else {
        from
    }
}

/// Whether two characters stand in `s` at `i`, one behind the other.
pub open spec fn pair_at(s: Seq<char>, i: int, first: char, second: char) -> bool {
    stands_at(s, i, first, first) && stands_at(s, i + 1, second, second)
}

/// Where the block comment ends that goes on at `from`, with `depth` comments open.
pub open spec fn block_end(s: Seq<char>, from: int, depth: nat) -> int
    decreases s.len() - from,
{
    if !(0 <= from < s.len()) || depth == 0 {
        from
    } else if pair_at(s, from, '/', '*') {
        block_end(s, from + 2, depth + 1)
    } else if pair_at(s, from, '*', '/') {
        block_end(s, from + 2, (depth - 1) as nat)
    } else {
        block_end(s, from + 1, depth)
    }
}

/// Whether `c` is blank.
pub open spec fn is_blank(c: char) -> bool {
    ||| c == ' ' || '\t' <= c <= '\r'
    ||| c == '\u{85}' || c == '\u{a0}' || c == '\u{1680}' || '\u{2000}' <= c <= '\u{200a}'
    ||| c == '\u{200e}' || c == '\u{200f}' || c == '\u{2028}' || c == '\u{2029}'
    ||| c == '\u{202f}' || c == '\u{205f}' || c == '\u{3000}'
}

/// Whether what follows `c` is no part of a number that `c` is part of: `c` is blank, or a symbol
/// other than the point.
pub open spec fn separates(c: char) -> bool {
    ||| is_blank(c)
    ||| c == '!' || '%' <= c <= '&' || '(' <= c <= '-' || c == '/'
    ||| ':' <= c <= '>' || c == '@' || c == '[' || c == ']' || c == '^'
    ||| '{' <= c <= '~'
}

/// Where to look on behind what starts in `s` at `i`, and whether a name can start there. Comments
/// are passed over. So is a name, where `fresh` says that one can start at `i`; else what looks
/// like a name may belong to a number.
pub open spec fn next_start(s: Seq<char>, i: int, fresh: bool) -> (int, bool) {
    if pair_at(s, i, '/', '/') {
        (line_end(s, i + 2), true)
    } else if pair_at(s, i, '/', '*') {
        (block_end(s, i + 2, 1), true)
    } else if fresh && is_word(s[i]) && !('0' <= s[i] <= '9') {
        (word_end(s, i), true)
    } else {
        (i + 1, separates(s[i]) || (fresh && s[i] == '.'))
    }
}

/// Whether the parser can work out every hexadecimal number from `i` on, where `fresh` says that a
/// name can start at `i`.
pub open spec fn is_lexable_from(s: Seq<char>, i: int, fresh: bool) -> bool
    decreases s.len() - i,
{
    if 0 <= i < s.len() {
        proof {
            lemma_next_start(s, i, fresh);
        }
        let (next, named) = next_start(s, i, fresh);
        &&& next == i + 1 ==> is_harmless(s, i)
        &&& is_lexable_from(s, next, named)
    } else {
        true
    }
}

/// Whether the parser can be handed `text`: it is no longer than its counters reach, and it can
/// work out every hexadecimal number that is written in it outside of comments and names.
pub open spec fn is_lexable(text: Seq<char>) -> bool {
    text.len() <= i32::MAX && is_lexable_from(text, 0, true)
}

/// Words, lines and comments end where they start or behind that.
proof fn lemma_ends(s: Seq<char>, from: int, depth: nat)
    requires
        0 <= from <= s.len(),
    ensures
        from <= word_end(s, from) <= s.len(),
        from <= line_end(s, from) <= s.len(),
        from <= block_end(s, from, depth) <= s.len(),
    decreases s.len() - from,
{
    if from < s.len() {
        lemma_ends(s, from + 1, depth);
        if pair_at(s, from, '/', '*') {
            lemma_ends(s, from + 2, depth + 1);
        } else if depth > 0 && pair_at(s, from, '*', '/') {
            lemma_ends(s, from + 2, (depth - 1) as nat);
        }
    }
}

/// The next place to look on is behind the last.
pub proof fn lemma_next_start(s: Seq<char>, i: int, fresh: bool)
    requires
        0 <= i < s.len(),
    ensures
        i < next_start(s, i, fresh).0 <= s.len(),
{
    if pair_at(s, i, '/', '/') || pair_at(s, i, '/', '*') {
        lemma_ends(s, i + 2, 1);
    }
    lemma_ends(s, i + 1, 0);
}

/// A text in which no hexadecimal number is written can be handed to the parser, as long as it
/// stays within the reach of the counters.
pub proof fn law_text_without_hexadecimal_numbers_is_lexable(text: Seq<char>)
    requires
        text.len() <= i32::MAX,
        forall|i: int| !starts_hex(text, i),
    ensures
        is_lexable(text),
{
    lemma_without_hex(text, 0, true);
}

/// Where no hexadecimal number starts, none is too large.
proof fn lemma_without_hex(s: Seq<char>, i: int, fresh: bool)
    requires
        0 <= i,
        forall|j: int| !starts_hex(s, j),
    ensures
        is_lexable_from(s, i, fresh),
    decreases s.len() - i,
{
    if i < s.len() {
        lemma_next_start(s, i, fresh);
        assert(!starts_hex(s, i));
        let (next, named) = next_start(s, i, fresh);
        lemma_without_hex(s, next, named);
    }
}

/// A run ends where it starts or behind that, and at the end of the text at the latest.
proof fn lemma_run_end(s: Seq<char>, from: int, hex: bool)
    requires
        0 <= from <= s.len(),
    ensures
        from <= run_end(s, from, hex) <= s.len(),
        forall|i: int| from <= i < run_end(s, from, hex) ==> is_digit(#[trigger] s[i], hex),
    decreases s.len() - from,
{
    if from < s.len() && is_digit(s[from], hex) {
        lemma_run_end(s, from + 1, hex);
    }
}

fn find_run_end(chars: &Vec<char>, from: usize, hex: bool) -> (r: usize)
    requires
        from <= chars.len(),
    ensures
        r == run_end(chars@, from as int, hex),
        from <= r <= chars.len(),
        forall|i: int| from <= i < r ==> is_digit(#[trigger] chars@[i], hex),
{
    proof {
        lemma_run_end(chars@, from as int, hex);
    }
    let mut i: usize = from;
    while i < chars.len() && (('0' <= chars[i] && chars[i] <= '9') || (hex && (('a' <= chars[i]
        && chars[i] <= 'f') || ('A' <= chars[i] && chars[i] <= 'F'))))
        invariant
            from <= i <= chars.len(),
            run_end(chars@, from as int, hex) == run_end(chars@, i as int, hex),
        decreases chars.len() - i,
    {
        i += 1;
    }
    i
}

fn stands(chars: &Vec<char>, i: usize, one: char, other: char) -> (r: bool)
    ensures
        r == stands_at(chars@, i as int, one, other),
{
    i < chars.len() && (chars[i] == one || chars[i] == other)
}

fn all_zeros(chars: &Vec<char>, from: usize, to: usize) -> (r: bool)
    requires
        to <= chars.len(),
    ensures
        r == only_zeros(chars@, from as int, to as int),
{
    let mut i: usize = from;
    while i < to
        invariant
            from <= i,
            to <= chars.len(),
            forall|j: int| from <= j < i ==> chars@[j] == '0',
        decreases to - i,
    {
        if chars[i] != '0' {
            return false;
        }
        i += 1;
    }
    true
}

/// The number that is written from `from` up to `to`, as far as the limit of an exponent.
fn read_number(chars: &Vec<char>, from: usize, to: usize) -> (r: i64)
    requires
        from <= to <= chars.len(),
        forall|i: int| from <= i < to ==> is_digit(#[trigger] chars@[i], false),
    ensures
        0 <= r <= EXPONENT_LIMIT + 1,
        r <= EXPONENT_LIMIT ==> r == written_number(chars@, from as int, to as int),
        r > EXPONENT_LIMIT ==> written_number(chars@, from as int, to as int) > EXPONENT_LIMIT,
{
    let mut r: i64 = 0;
    let mut i: usize = from;
    while i < to
        invariant
            from <= i <= to <= chars.len(),
            forall|i: int| from <= i < to ==> is_digit(#[trigger] chars@[i], false),
            0 <= r <= EXPONENT_LIMIT + 1,
            r <= EXPONENT_LIMIT ==> r == written_number(chars@, from as int, i as int),
            r > EXPONENT_LIMIT ==> written_number(chars@, from as int, i as int) > EXPONENT_LIMIT,
        decreases to - i,
    {
        assert(is_digit(chars@[i as int], false));
        let digit: i64 = chars[i] as i64 - '0' as i64;
        if r <= EXPONENT_LIMIT {
            r = 10 * r + digit;
            if r > EXPONENT_LIMIT {
                r = EXPONENT_LIMIT + 1;
            }
        }
        i += 1;
    }
    r
}

/// Whether the parser can work out the value of the number that starts at `i`, or leaves it out.
fn fits(chars: &Vec<char>, i: usize) -> (r: bool)
    requires
        chars.len() <= i32::MAX,
        starts_hex(chars@, i as int),
    ensures
        r == is_harmless(chars@, i as int),
{
    let whole: usize = find_run_end(chars, i + 2, true);
    let point = stands(chars, whole, '.', '.');
    let end: usize = if point {
        find_run_end(chars, whole + 1, true)
    } else {
        whole
    };
    let fraction: i64 = if point {
        (end - whole - 1) as i64
    } else {
        0
    };
    let digits: i64 = (whole - i - 2) as i64 + fraction;
    let mut size: i64 = 0;
    let mut powered = false;
    let mut half = false;
    let mut single = false;
    if stands(chars, end, 'p', 'P') {
        let start: usize = if stands(chars, end + 1, '+', '-') {
            end + 2
        } else {
            end + 1
        };
        let stop: usize = find_run_end(chars, start, false);
        if start < stop {
            powered = true;
            half = stands(chars, stop, 'h', 'h');
            single = stands(chars, stop, 'f', 'f');
            size = read_number(chars, start, stop);
            if stands(chars, end + 1, '-', '-') {
                size = -size;
            }
        }
    }
    if digits == 0 || (!point && !powered) || single {
        return true;
    }
    if size - digits < -EXPONENT_LIMIT || size + digits > EXPONENT_LIMIT {
        return false;
    }
    if !(all_zeros(chars, i + 2, whole) && all_zeros(chars, whole + 1, end)) {
        return true;
    }
    if half {
        -31 <= size - fraction && size - fraction <= 37
    } else {
        -255 <= size - fraction && size - fraction <= 268
    }
}

fn find_word_end(chars: &Vec<char>, from: usize) -> (r: usize)
    requires
        from <= chars.len(),
    ensures
        r == word_end(chars@, from as int),
        r <= chars.len(),
{
    let mut i: usize = from;
    while i < chars.len() && (('0' <= chars[i] && chars[i] <= '9') || ('a' <= chars[i] && chars[i]
        <= 'z') || ('A' <= chars[i] && chars[i] <= 'Z') || chars[i] == '_')
        invariant
            i <= chars.len(),
            word_end(chars@, from as int) == word_end(chars@, i as int),
        decreases chars.len() - i,
    {
        i += 1;
    }
    i
}

fn find_line_end(chars: &Vec<char>, from: usize) -> (r: usize)
    requires
        from <= chars.len(),
    ensures
        r == line_end(chars@, from as int),
        r <= chars.len(),
{
    let mut i: usize = from;
    while i < chars.len() && !(('\n' <= chars[i] && chars[i] <= '\r') || chars[i] == '\u{85}'
        || chars[i] == '\u{2028}' || chars[i] == '\u{2029}')
        invariant
            i <= chars.len(),
            line_end(chars@, from as int) == line_end(chars@, i as int),
        decreases chars.len() - i,
    {
        i += 1;
    }
    i
}

fn find_block_end(chars: &Vec<char>, from: usize) -> (r: usize)
    requires
        from <= chars.len(),
    ensures
        r == block_end(chars@, from as int, 1),
        r <= chars.len(),
{
    let mut i: usize = from;
    let mut depth: usize = 1;
    while i < chars.len() && depth > 0
        invariant
            from <= i <= chars.len(),
            depth <= i - from + 1,
            block_end(chars@, from as int, 1) == block_end(chars@, i as int, depth as nat),
        decreases chars.len() - i,
    {
        if is_pair(chars, i, '/', '*') {
            i += 2;
            depth += 1;
        } else if is_pair(chars, i, '*', '/') {
            i += 2;
            depth -= 1;
        } else {
            i += 1;
        }
    }
    i
}

fn is_pair(chars: &Vec<char>, i: usize, first: char, second: char) -> (r: bool)
    ensures
        r == pair_at(chars@, i as int, first, second),
{
    i < chars.len() && chars[i] == first && stands(chars, i + 1, second, second)
}

fn is_space(c: char) -> (r: bool)
    ensures
        r == is_blank(c),
{
    c == ' ' || ('\t' <= c && c <= '\r') || c == '\u{85}' || c == '\u{a0}' || c == '\u{1680}' || (
    '\u{2000}' <= c && c <= '\u{200a}') || c == '\u{200e}' || c == '\u{200f}' || c == '\u{2028}'
        || c == '\u{2029}' || c == '\u{202f}' || c == '\u{205f}' || c == '\u{3000}'
}

fn is_separator(c: char) -> (r: bool)
    ensures
        r == separates(c),
{
    is_space(c) || c == '!' || ('%' <= c && c <= '&') || ('(' <= c && c <= '-') || c == '/' || (
    ':' <= c && c <= '>') || c == '@' || c == '[' || c == ']' || c == '^' || ('{' <= c && c <= '~')
}

fn find_next_start(chars: &Vec<char>, i: usize, fresh: bool) -> (r: (usize, bool))
    requires
        i < chars.len(),
    ensures
        (r.0 as int, r.1) == next_start(chars@, i as int, fresh),
        i < r.0 <= chars.len(),
{
    proof {
        lemma_next_start(chars@, i as int, fresh);
    }
    let c = chars[i];
    if is_pair(chars, i, '/', '/') {
        (find_line_end(chars, i + 2), true)
    } else if is_pair(chars, i, '/', '*') {
        (find_block_end(chars, i + 2), true)
    } else if fresh && (('a' <= c && c <= 'z') || ('A' <= c && c <= 'Z') || c == '_') {
        (find_word_end(chars, i), true)
    } else {
        (i + 1, is_separator(c) || (fresh && c == '.'))
    }
}

/// Whether the parser can be handed `text`.
pub fn can_lex(text: &str) -> (r: bool)
    ensures
        r == is_lexable(text@),
{
    let chars = chars_of(text);
    if chars.len() > 0x7fff_ffff {
        return false;
    }
    let mut i: usize = 0;
    let mut fresh = true;
    while i < chars.len()
        invariant
            i <= chars.len() <= i32::MAX,
            chars@ == text@,
            is_lexable_from(text@, 0, true) == is_lexable_from(text@, i as int, fresh),
        decreases chars.len() - i,
    {
        let (next, named) = find_next_start(&chars, i, fresh);
        if next == i + 1 && stands(&chars, i, '0', '0') && stands(&chars, i + 1, 'x', 'X')
            && !fits(&chars, i) {
            return false;
        }
        i = next;
        fresh = named;
    }
    true
}

}
