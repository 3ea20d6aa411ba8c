//! Cutting and joining texts: what one does, the other undoes.

use vstd::prelude::*;

use crate::text::{
    joined_text, lemma_pieces_nonempty, named_pieces, nonempty_parts, pieces, starts_with, texts,
    with_replaced, without_leading,
};

verus! {

/// A list of strings says what each of them says, in order.
pub proof fn law_texts_say_what_each_says(list: Seq<String>, i: int)
    ensures
        texts(list).len() == list.len(),
        0 <= i < list.len() ==> texts(list)[i] == list[i]@,
{
}

/// Joined parts can be joined in any order of steps, and nothing stands around them.
pub proof fn law_joining_puts_the_separator_between(
    a: Seq<Seq<char>>,
    b: Seq<Seq<char>>,
    x: Seq<char>,
    sep: Seq<char>,
)
    ensures
        joined_text(Seq::empty(), sep).len() == 0,
        joined_text(seq![x], sep) == x,
        a.len() > 0 && b.len() > 0 ==> joined_text(a + b, sep) == joined_text(a, sep) + sep
            + joined_text(b, sep),
    decreases b.len(),
{
    if a.len() > 0 && b.len() > 0 {
        let front = b.drop_last();
        assert((a + b).drop_last() == a + front);
        assert((a + b).last() == b.last());
        if front.len() == 0 {
            assert(a + front == a);
            assert(joined_text(b, sep) == b.last());
        } else {
            law_joining_puts_the_separator_between(a, front, x, sep);
            assert(joined_text(a, sep) + sep + joined_text(front, sep) + sep + b.last()
                == joined_text(a, sep) + sep + (joined_text(front, sep) + sep + b.last()));
        }
    }
}

/// Joining the pieces of a text gives it back, and no piece can be cut further.
pub proof fn law_joining_undoes_cutting(s: Seq<char>, sep: char)
    ensures
        pieces(s, sep).len() > 0,
        joined_text(pieces(s, sep), seq![sep]) == s,
        forall|i: int| 0 <= i < pieces(s, sep).len()
            ==> !(#[trigger] pieces(s, sep)[i]).contains(sep),
    decreases s.len(),
{
    lemma_pieces_nonempty(s, sep);
    let all = pieces(s, sep);
    if s.len() == 0 {
        assert(joined_text(all, seq![sep]) == s);
    } else {
        let before = pieces(s.drop_last(), sep);
        lemma_pieces_nonempty(s.drop_last(), sep);
        law_joining_undoes_cutting(s.drop_last(), sep);
        let last = s.last();
        if last == sep {
            assert(all.drop_last() == before);
            assert(joined_text(all, seq![sep]) == s.drop_last() + seq![sep] + Seq::<char>::empty());
            assert(joined_text(all, seq![sep]) == s);
        } else {
            let piece = before.last().push(last);
            assert(all == before.drop_last().push(piece));
            assert(all.drop_last() == before.drop_last());
            assert(!before[before.len() - 1].contains(sep));
            assert(!piece.contains(sep)) by {
                assert forall|i: int| 0 <= i < piece.len() implies piece[i] != sep by {
                    if i < before.last().len() {
                        assert(before.last().contains(before.last()[i]));
                    }
                }
            }
            if before.len() == 1 {
                assert(joined_text(all, seq![sep]) == piece);
                assert(piece == s);
            } else {
                let start = joined_text(before.drop_last(), seq![sep]);
                assert(s.drop_last() == start + seq![sep] + before.last());
                assert(start + seq![sep] + piece == (start + seq![sep] + before.last()).push(last));
                assert(s.drop_last().push(last) == s);
            }
        }
        assert forall|i: int| 0 <= i < all.len() implies !(#[trigger] all[i]).contains(sep) by {
            if i < all.len() - 1 {
                assert(all[i] == before[i]);
            } else if last == sep {
                assert(all[i] == Seq::<char>::empty());
            }
        }
    }
}

/// The parts that hold a character are kept, the others dropped, and the order stays.
pub proof fn law_empty_parts_are_dropped(a: Seq<Seq<char>>, b: Seq<Seq<char>>, x: Seq<char>)
    ensures
        nonempty_parts(a + b) == nonempty_parts(a) + nonempty_parts(b),
        x.len() > 0 ==> nonempty_parts(seq![x]) == seq![x],
        x.len() == 0 ==> nonempty_parts(seq![x]).len() == 0,
    decreases b.len(),
{
    assert(seq![x].drop_last() == Seq::<Seq<char>>::empty());
    reveal_with_fuel(nonempty_parts, 2);
    if b.len() == 0 {
        assert(a + b == a);
    } else {
        law_empty_parts_are_dropped(a, b.drop_last(), x);
        assert((a + b).drop_last() == a + b.drop_last());
    }
}

/// The pieces of two texts with a separator between them are those of the first and then those of
/// the second.
proof fn lemma_pieces_sum(a: Seq<char>, sep: char, b: Seq<char>)
    ensures
        pieces(a + seq![sep] + b, sep) == pieces(a, sep) + pieces(b, sep),
    decreases b.len(),
{
    let whole = a + seq![sep] + b;
    lemma_pieces_nonempty(b, sep);
    if b.len() == 0 {
        assert(whole.drop_last() == a);
        assert(pieces(b, sep) == seq![Seq::<char>::empty()]);
        assert(pieces(a, sep).push(Seq::<char>::empty()) == pieces(a, sep) + seq![
            Seq::<char>::empty(),
        ]);
    } else {
        lemma_pieces_sum(a, sep, b.drop_last());
        lemma_pieces_nonempty(b.drop_last(), sep);
        assert(whole.drop_last() == a + seq![sep] + b.drop_last());
        let before = pieces(b.drop_last(), sep);
        let all = pieces(a, sep) + before;
        assert(all.last() == before.last());
        assert(all.drop_last() == pieces(a, sep) + before.drop_last());
    }
}

proof fn lemma_uncut(s: Seq<char>, sep: char)
    requires
        !s.contains(sep),
    ensures
        pieces(s, sep) == seq![s],
    decreases s.len(),
{
    if s.len() > 0 {
        assert(s[s.len() - 1] != sep);
        assert(!s.drop_last().contains(sep)) by {
            assert(forall|i: int| 0 <= i < s.len() - 1 ==> s.drop_last()[i] == s[i]);
        }
        lemma_uncut(s.drop_last(), sep);
        assert(s.drop_last().push(s.last()) == s);
    } else {
        assert(s == Seq::<char>::empty());
    }
}

/// The names in a path are those in front of a separator and then those behind it. A text without
/// one is a name, unless it is empty.
pub proof fn law_names_stand_between_separators(a: Seq<char>, sep: char, b: Seq<char>)
    ensures
        named_pieces(a + seq![sep] + b, sep) == named_pieces(a, sep) + named_pieces(b, sep),
        !a.contains(sep) && a.len() > 0 ==> named_pieces(a, sep) == seq![a],
        a.len() == 0 ==> named_pieces(a, sep).len() == 0,
{
    lemma_pieces_sum(a, sep, b);
    law_empty_parts_are_dropped(pieces(a, sep), pieces(b, sep), a);
    if !a.contains(sep) {
        lemma_uncut(a, sep);
    }
}

/// Replacing looks at each character alone.
pub proof fn law_replacing_changes_one_character(s: Seq<char>, from: char, to: char, i: int)
    ensures
        with_replaced(s, from, to).len() == s.len(),
        0 <= i < s.len() && s[i] == from ==> with_replaced(s, from, to)[i] == to,
        0 <= i < s.len() && s[i] != from ==> with_replaced(s, from, to)[i] == s[i],
{
}

/// Trimming drops all of the run in front and nothing else.
pub proof fn law_trimming_drops_the_run_in_front(s: Seq<char>, c: char)
    ensures
        without_leading(s, c).len() <= s.len(),
        s.skip(s.len() - without_leading(s, c).len()) == without_leading(s, c),
        forall|i: int| 0 <= i < s.len() - without_leading(s, c).len() ==> s[i] == c,
        without_leading(s, c).len() > 0 ==> without_leading(s, c)[0] != c,
    decreases s.len(),
{
    if s.len() > 0 && s[0] == c {
        let rest = s.skip(1);
        law_trimming_drops_the_run_in_front(rest, c);
        let dropped = rest.len() - without_leading(rest, c).len();
        assert(s.skip(1 + dropped) == rest.skip(dropped));
        assert forall|i: int| 0 <= i < 1 + dropped implies s[i] == c by {
            if i > 0 {
                assert(rest[i - 1] == c);
            }
        }
    } else {
        assert(s.skip(0) == s);
    }
}

/// A text starts with another one exactly where that can be continued to it.
pub proof fn law_a_prefix_can_be_continued(s: Seq<char>, prefix: Seq<char>, rest: Seq<char>)
    ensures
        starts_with(prefix + rest, prefix),
        starts_with(s, prefix) ==> s == prefix + s.skip(prefix.len() as int),
{
    assert((prefix + rest).take(prefix.len() as int) == prefix);
    if starts_with(s, prefix) {
        assert(s == s.take(prefix.len() as int) + s.skip(prefix.len() as int));
    }
}

}
