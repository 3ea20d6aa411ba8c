//! How the texts are scanned that are handed to the parser: what is passed over, where a number
//! ends and what it has to fit.

use vstd::prelude::*;

use crate::literal::{
    block_end, digits_end, digits_len, exponent, exponent_start, fraction_len, has_exponent,
    has_point, has_suffix, is_blank, is_harmless, is_lexable, is_lexable_from, is_zero, line_end,
    only_zeros, run_end, separates, starts_hex, whole_end, word_end, written_number,
};

verus! {

/// Whether `c` is a decimal digit.
pub open spec fn is_decimal(c: char) -> bool {
    '0' <= c <= '9'
}

/// Whether `c` is a hexadecimal digit.
pub open spec fn is_hexadecimal(c: char) -> bool {
    '0' <= c <= '9' || 'a' <= c <= 'f' || 'A' <= c <= 'F'
}

/// A run of digits goes on as long as there are digits.
pub proof fn law_runs_end_where_the_digits_end(s: Seq<char>, from: int, hex: bool)
    requires
        0 <= from <= s.len(),
    ensures
        from <= run_end(s, from, hex) <= s.len(),
        forall|i: int|
            from <= i < run_end(s, from, hex) ==> if hex {
                is_hexadecimal(#[trigger] s[i])
            } else {
                is_decimal(s[i])
            },
        run_end(s, from, hex) < s.len() ==> if hex {
            !is_hexadecimal(s[run_end(s, from, hex)])
        } else {
            !is_decimal(s[run_end(s, from, hex)])
        },
    decreases s.len() - from,
{
    if from < s.len() && if hex {
        is_hexadecimal(s[from])
    } else {
        is_decimal(s[from])
    } {
        law_runs_end_where_the_digits_end(s, from + 1, hex);
    }
}

/// A line goes on up to a character that ends lines, and a name as long as there are letters,
/// digits
/// and underscores.
pub proof fn law_lines_and_words_end_where_they_should(s: Seq<char>, from: int)
    requires
        0 <= from <= s.len(),
    ensures
        from <= line_end(s, from) <= s.len(),
        forall|i: int|
            from <= i < line_end(s, from) ==> !('\n' <= #[trigger] s[i] <= '\r') && s[i] != '\u{85}'
                && s[i] != '\u{2028}' && s[i] != '\u{2029}',
        line_end(s, from) < s.len() ==> {
            let c = s[line_end(s, from)];
            '\n' <= c <= '\r' || c == '\u{85}' || c == '\u{2028}' || c == '\u{2029}'
        },
        from <= word_end(s, from) <= s.len(),
        forall|i: int|
            from <= i < word_end(s, from) ==> is_decimal(#[trigger] s[i])
                || 'a' <= s[i] <= 'z' || 'A'
                <= s[i] <= 'Z' || s[i] == '_',
        word_end(s, from) < s.len() ==> {
            let c = s[word_end(s, from)];
            !is_decimal(c) && !('a' <= c <= 'z') && !('A' <= c <= 'Z') && c != '_'
        },
    decreases s.len() - from,
{
    if from < s.len() {
        law_lines_and_words_end_where_they_should(s, from + 1);
    }
}

/// Block comments nest: each opening has to be closed.
pub proof fn law_block_comments_nest(s: Seq<char>, from: int, depth: nat)
    requires
        0 <= from,
    ensures
        block_end(s, from, 0) == from,
        from >= s.len() ==> block_end(s, from, depth) == from,
        from + 1 < s.len() && s[from] == '/' && s[from + 1] == '*' && depth > 0 ==> block_end(
            s,
            from,
            depth,
        ) == block_end(s, from + 2, depth + 1),
        from + 1 < s.len() && s[from] == '*' && s[from + 1] == '/' ==> block_end(s, from, depth + 1)
            == block_end(s, from + 2, depth),
        from < s.len() && depth > 0 && !(from + 1 < s.len() && (s[from] == '/' && s[from + 1] == '*'
            || s[from] == '*' && s[from + 1] == '/')) ==> block_end(s, from, depth) == block_end(
            s,
            from + 1,
            depth,
        ),
{
}

/// Blanks and symbols separate; letters, digits, underscores and points do not.
pub proof fn law_blanks_and_symbols_separate(c: char)
    ensures
        c == ' ' || c == '\t' || c == '\n' || c == '\r' || c == '\u{a0}' || c == '\u{2028}'
            ==> separates(c),
        c == '(' || c == ')' || c == '[' || c == ']' || c == '{' || c == '}' || c == ',' || c == ';'
            || c == ':' || c == '=' || c == '<' || c == '>' || c == '+' || c == '-' || c == '*' || c
            == '/' || c == '%' || c == '&' || c == '|' || c == '^' || c == '!' || c == '~' || c
            == '@' ==> separates(c),
        is_hexadecimal(c) || 'a' <= c <= 'z' || 'A' <= c <= 'Z' || c == '_' || c == '.'
            ==> !separates(c),
        is_blank(c) ==> separates(c),
{
}

/// A text can be handed to the parser if it fits its counters and each number in it can be worked
/// out: comments are passed over, and names where one can start.
pub proof fn law_comments_and_names_are_passed_over(s: Seq<char>, i: int, fresh: bool)
    requires
        0 <= i < s.len(),
    ensures
        is_lexable(s) <==> s.len() <= i32::MAX && is_lexable_from(s, 0, true),
        is_lexable_from(s, s.len() as int, fresh),
        i + 1 < s.len() && s[i] == '/' && s[i + 1] == '/' ==> is_lexable_from(s, i, fresh)
            == is_lexable_from(s, line_end(s, i + 2), true),
        i + 1 < s.len() && s[i] == '/' && s[i + 1] == '*' ==> is_lexable_from(s, i, fresh)
            == is_lexable_from(s, block_end(s, i + 2, 1), true),
        fresh && ('a' <= s[i] <= 'z' || 'A' <= s[i] <= 'Z' || s[i] == '_') && word_end(s, i) > i + 1
            ==> is_lexable_from(s, i, fresh) == is_lexable_from(s, word_end(s, i), true),
        s[i] != '/' && !(fresh && ('a' <= s[i] <= 'z' || 'A' <= s[i] <= 'Z' || s[i] == '_'))
            ==> is_lexable_from(s, i, fresh) == (is_harmless(s, i) && is_lexable_from(
            s,
            i + 1,
            separates(s[i]) || (fresh && s[i] == '.'),
        )),
{
    crate::literal::lemma_next_start(s, i, fresh);
    if i + 1 < s.len() {
        law_lines_and_words_end_where_they_should(s, i + 2);
        if s[i] == '/' && s[i + 1] == '/' {
            assert(line_end(s, i + 2) >= i + 2);
        }
        if s[i] == '/' && s[i + 1] == '*' {
            lemma_block_end(s, i + 2, 1);
        }
    }
}

proof fn lemma_block_end(s: Seq<char>, from: int, depth: nat)
    requires
        0 <= from,
    ensures
        from <= block_end(s, from, depth),
    decreases s.len() - from,
{
    if from < s.len() && depth > 0 {
        lemma_block_end(s, from + 1, depth);
        if from + 1 < s.len() {
            lemma_block_end(s, from + 2, depth + 1);
            lemma_block_end(s, from + 2, (depth - 1) as nat);
        }
    }
}

proof fn lemma_run(s: Seq<char>, from: int, end: int, hex: bool)
    requires
        0 <= from <= end <= s.len(),
        forall|i: int|
            from <= i < end ==> if hex {
                is_hexadecimal(#[trigger] s[i])
            } else {
                is_decimal(s[i])
            },
        end < s.len() ==> if hex {
            !is_hexadecimal(s[end])
        } else {
            !is_decimal(s[end])
        },
    ensures
        run_end(s, from, hex) == end,
    decreases end - from,
{
    if from < end {
        assert(if hex {
            is_hexadecimal(s[from])
        } else {
            is_decimal(s[from])
        });
        lemma_run(s, from + 1, end, hex);
    }
}

proof fn lemma_written(s: Seq<char>, from: int, digits: Seq<char>, to: int)
    requires
        0 <= from,
        0 <= to <= digits.len(),
        from + digits.len() <= s.len(),
        s.subrange(from, from + digits.len()) == digits,
    ensures
        written_number(s, from, from + to) == written_number(digits, 0, to),
    decreases to,
{
    if to > 0 {
        lemma_written(s, from, digits, to - 1);
        assert(s.subrange(from, from + digits.len())[to - 1] == s[from + to - 1]);
    }
}

/// Each further digit counts ten times what stands in front of it.
pub proof fn law_digits_write_a_number(digits: Seq<char>, to: int)
    requires
        0 <= to < digits.len(),
        is_decimal(digits[to]),
    ensures
        written_number(digits, 0, 0) == 0,
        written_number(digits, 0, to + 1) == 10 * written_number(digits, 0, to) + (digits[to] as int
            - '0' as int),
{
}

/// A hexadecimal number with an exponent: its digits on both sides of the point, the exponent with
/// its sign, and the letter behind it decide whether it can be worked out. One with `f` behind it
/// is
/// not worked out at all.
pub proof fn law_a_number_with_an_exponent_has_to_fit(
    whole: Seq<char>,
    point: Seq<char>,
    fraction: Seq<char>,
    sign: Seq<char>,
    digits: Seq<char>,
    tail: Seq<char>,
    marks: (char, char),
)
    requires
        marks.0 == 'x' || marks.0 == 'X',
        marks.1 == 'p' || marks.1 == 'P',
        forall|i: int| 0 <= i < whole.len() ==> is_hexadecimal(#[trigger] whole[i]),
        forall|i: int| 0 <= i < fraction.len() ==> is_hexadecimal(#[trigger] fraction[i]),
        forall|i: int| 0 <= i < digits.len() ==> is_decimal(#[trigger] digits[i]),
        point == seq!['.'] || (point.len() == 0 && fraction.len() == 0),
        sign == seq!['+'] || sign == seq!['-'] || sign.len() == 0,
        digits.len() > 0,
        tail.len() == 0 || !is_decimal(tail[0]),
    ensures
        ({
            let rest = sign + digits + tail;
            let s = seq!['0', marks.0] + whole + point + fraction + seq![marks.1] + rest;
            let size = written_number(digits, 0, digits.len() as int) as int;
            let value = if sign == seq!['-'] {
                -size
            } else {
                size
            };
            let len = (whole.len() + fraction.len()) as int;
            let zero = (forall|i: int| 0 <= i < whole.len() ==> #[trigger] whole[i] == '0')
                && forall|i: int| 0 <= i < fraction.len() ==> #[trigger] fraction[i] == '0';
            let half = tail.len() > 0 && tail[0] == 'h';
            let scale = value - fraction.len();
            is_harmless(s, 0) <==> {
                ||| len == 0
                ||| tail.len() > 0 && tail[0] == 'f'
                ||| -0x1fff_f000 <= value - len && value + len <= 0x1fff_f000 && (zero ==> if half {
                    -31 <= scale <= 37
                } else {
                    -255 <= scale <= 268
                })
            }
        }),
{
    let rest = sign + digits + tail;
    let s = seq!['0', marks.0] + whole + point + fraction + seq![marks.1] + rest;
    let front = 2 + whole.len() as int;
    let middle = front + point.len() as int;
    let mark = middle + fraction.len() as int;
    let start = mark + 1 + sign.len() as int;
    let end = start + digits.len() as int;
    assert(s[0] == '0' && s[1] == marks.0 && s[mark] == marks.1);
    assert forall|i: int| 2 <= i < front implies is_hexadecimal(#[trigger] s[i]) && s[i] == whole[i
        - 2] by {
        assert(is_hexadecimal(whole[i - 2]));
    }
    assert forall|i: int| middle <= i < mark implies is_hexadecimal(#[trigger] s[i]) && s[i]
        == fraction[i - middle] by {
        assert(is_hexadecimal(fraction[i - middle]));
    }
    assert forall|i: int| start <= i < end implies is_decimal(#[trigger] s[i]) && s[i] == digits[i
        - start] by {
        assert(is_decimal(digits[i - start]));
        assert(s[i] == rest[i - mark - 1]);
    }
    if point.len() > 0 {
        assert(s[front] == '.');
    } else {
        assert(front == mark);
    }
    lemma_run(s, 2, front, true);
    if point.len() > 0 {
        lemma_run(s, middle, mark, true);
    }
    if sign.len() > 0 {
        assert(s[mark + 1] == rest[0] && rest[0] == sign[0]);
    } else {
        assert(s[mark + 1] == rest[0] && rest[0] == digits[0]);
        assert(is_decimal(digits[0]));
    }
    if end < s.len() {
        assert(s[end] == rest[end - mark - 1] && rest[end - mark - 1] == tail[0]);
    } else {
        assert(tail.len() == 0);
    }
    lemma_run(s, start, end, false);
    assert(s.subrange(start, end) == digits) by {
        assert forall|i: int| 0 <= i < digits.len() implies s.subrange(start, end)[i]
            == digits[i] by {
            assert(s[start + i] == digits[start + i - start]);
        }
    }
    lemma_written(s, start, digits, digits.len() as int);
    assert(whole_end(s, 0) == front);
    assert(has_point(s, 0) <==> point.len() > 0);
    assert(digits_end(s, 0) == mark);
    assert(fraction_len(s, 0) == fraction.len());
    assert(digits_len(s, 0) == whole.len() + fraction.len());
    assert(exponent_start(s, 0) == start);
    assert(has_exponent(s, 0));
    let size = written_number(digits, 0, digits.len() as int) as int;
    assert(exponent(s, 0) == if sign == seq!['-'] {
        -size
    } else {
        size
    });
    assert(has_suffix(s, 0, 'f') <==> tail.len() > 0 && tail[0] == 'f');
    assert(has_suffix(s, 0, 'h') <==> tail.len() > 0 && tail[0] == 'h');
    let zero = (forall|i: int| 0 <= i < whole.len() ==> #[trigger] whole[i] == '0')
        && forall|i: int| 0 <= i < fraction.len() ==> #[trigger] fraction[i] == '0';
    assert(is_zero(s, 0) == zero) by {
        if zero {
            assert forall|i: int| 2 <= i < front implies s[i] == '0' by {
                assert(whole[i - 2] == '0');
            }
            assert forall|i: int| front + 1 <= i < mark implies s[i] == '0' by {
                assert(s[i] == fraction[i - middle]);
                assert(fraction[i - middle] == '0');
            }
        }
        if is_zero(s, 0) {
            assert(only_zeros(s, 2, front) && only_zeros(s, front + 1, mark));
            assert forall|i: int| 0 <= i < whole.len() implies #[trigger] whole[i] == '0' by {
                assert(s[i + 2] == whole[i + 2 - 2]);
            }
            assert forall|i: int| 0 <= i < fraction.len() implies #[trigger] fraction[i] == '0' by {
                assert(s[middle + i] == fraction[middle + i - middle]);
            }
        }
    }
    assert(starts_hex(s, 0));
}

/// A hexadecimal number with a point but without an exponent has to fit as well; one without both
/// is a whole number, which the parser leaves alone, and so is what starts with no `0x`.
pub proof fn law_a_number_without_an_exponent_has_to_fit(
    whole: Seq<char>,
    fraction: Seq<char>,
    tail: Seq<char>,
    mark: char,
    other: Seq<char>,
)
    requires
        mark == 'x' || mark == 'X',
        forall|i: int| 0 <= i < whole.len() ==> is_hexadecimal(#[trigger] whole[i]),
        forall|i: int| 0 <= i < fraction.len() ==> is_hexadecimal(#[trigger] fraction[i]),
        tail.len() == 0 || (!is_hexadecimal(tail[0]) && tail[0] != 'p' && tail[0] != 'P'),
        other.len() < 2 || other[0] != '0' || (other[1] != 'x' && other[1] != 'X'),
    ensures
        ({
            let s = seq!['0', mark] + whole + seq!['.'] + fraction + tail;
            let len = (whole.len() + fraction.len()) as int;
            let zero = (forall|i: int| 0 <= i < whole.len() ==> #[trigger] whole[i] == '0')
                && forall|i: int| 0 <= i < fraction.len() ==> #[trigger] fraction[i] == '0';
            is_harmless(s, 0) <==> len == 0 || len <= 0x1fff_f000 && (zero ==> fraction.len()
                <= 255)
        }),
        tail.len() == 0 || tail[0] != '.' ==> is_harmless(seq!['0', mark] + whole + tail, 0),
        is_harmless(other, 0),
{
    let s = seq!['0', mark] + whole + seq!['.'] + fraction + tail;
    let front = 2 + whole.len() as int;
    let end = front + 1 + fraction.len() as int;
    assert(s[0] == '0' && s[1] == mark && s[front] == '.');
    assert forall|i: int| 2 <= i < front implies is_hexadecimal(#[trigger] s[i]) && s[i] == whole[i
        - 2] by {
        assert(is_hexadecimal(whole[i - 2]));
    }
    assert forall|i: int| front < i < end implies is_hexadecimal(#[trigger] s[i]) && s[i]
        == fraction[i - front - 1] by {
        assert(is_hexadecimal(fraction[i - front - 1]));
    }
    if end < s.len() {
        assert(s[end] == tail[0]);
    }
    lemma_run(s, 2, front, true);
    lemma_run(s, front + 1, end, true);
    assert(digits_end(s, 0) == end);
    assert(!has_exponent(s, 0));
    assert(digits_len(s, 0) == whole.len() + fraction.len());
    let zero = (forall|i: int| 0 <= i < whole.len() ==> #[trigger] whole[i] == '0')
        && forall|i: int| 0 <= i < fraction.len() ==> #[trigger] fraction[i] == '0';
    assert(is_zero(s, 0) == zero) by {
        if zero {
            assert forall|i: int| 2 <= i < front implies s[i] == '0' by {
                assert(whole[i - 2] == '0');
            }
            assert forall|i: int| front + 1 <= i < end implies s[i] == '0' by {
                assert(s[i] == fraction[i - front - 1]);
                assert(fraction[i - front - 1] == '0');
            }
        }
        if is_zero(s, 0) {
            assert(only_zeros(s, 2, front) && only_zeros(s, front + 1, end));
            assert forall|i: int| 0 <= i < whole.len() implies #[trigger] whole[i] == '0' by {
                assert(s[i + 2] == whole[i + 2 - 2]);
            }
            assert forall|i: int| 0 <= i < fraction.len() implies #[trigger] fraction[i] == '0' by {
                assert(s[front + 1 + i] == fraction[front + 1 + i - front - 1]);
            }
        }
    }
    if tail.len() == 0 || tail[0] != '.' {
        let t = seq!['0', mark] + whole + tail;
        assert forall|i: int| 2 <= i < front implies is_hexadecimal(#[trigger] t[i]) by {
            assert(is_hexadecimal(whole[i - 2]));
        }
        if front < t.len() {
            assert(t[front] == tail[0]);
        }
        lemma_run(t, 2, front, true);
        assert(!has_point(t, 0));
        assert(!has_exponent(t, 0));
    }
}

}
