//! Texts as sequences of characters: cutting them at a mark.

use vstd::prelude::*;

verus! {

/// The characters of a text, in order.
pub fn text_chars(text: &str) -> (chars: Vec<char>)
    ensures
        chars@ == text@,
{
    let length = text.unicode_len();
    let mut chars: Vec<char> = Vec::new();
    let mut i: usize = 0;
    while i < length
        invariant
            i <= length,
            length == text@.len(),
            chars@ == text@.take(i as int),
        decreases length - i,
    {
        chars.push(text.get_char(i));
        proof {
            assert(text@.take(i as int).push(text@[i as int]) == text@.take(i + 1));
        }
        i += 1;
    }
    proof {
        assert(text@.take(length as int) == text@);
    }
    chars
}

/// The position of the first `mark` in `text`, or the length of `text`
/// where it holds none.
pub open spec fn first_at(text: Seq<char>, mark: char) -> int
    decreases text.len(),
{
    if text.len() == 0 || text[0] == mark {
        0
    } else {
        1 + first_at(text.drop_first(), mark)
    }
}

/// The pieces of `text` between the occurrences of `mark`: one more piece
/// than there are marks, and none of them holds a mark.
pub open spec fn split(text: Seq<char>, mark: char) -> Seq<Seq<char>>
    decreases text.len(),
{
    let at = first_at(text, mark);
    if 0 <= at < text.len() {
        seq![text.take(at)] + split(text.skip(at + 1), mark)
    } else {
        seq![text]
    }
}

/// `first_at` is a position in the text or its length, no mark stands before
/// it, and a mark stands at it where it is a position.
pub proof fn lemma_first_at(text: Seq<char>, mark: char)
    ensures
        0 <= first_at(text, mark) <= text.len(),
        forall|i: int| 0 <= i < first_at(text, mark) ==> text[i] != mark,
        first_at(text, mark) < text.len() ==> text[first_at(text, mark)] == mark,
    decreases text.len(),
{
    if text.len() == 0 || text[0] == mark {
    } else {
        let rest = text.drop_first();
        lemma_first_at(rest, mark);
        assert forall|i: int| 0 <= i < first_at(text, mark) implies text[i] != mark by {
            if i > 0 {
                assert(text[i] == rest[i - 1]);
            }
        }
        if first_at(text, mark) < text.len() {
            assert(text[first_at(text, mark)] == rest[first_at(rest, mark)]);
        }
    }
}

/// A position that holds the mark, with no mark before it, is `first_at`; so
/// is the length of a text without a mark.
pub proof fn lemma_first_at_is(text: Seq<char>, mark: char, at: int)
    requires
        0 <= at <= text.len(),
        forall|i: int| 0 <= i < at ==> text[i] != mark,
        at < text.len() ==> text[at] == mark,
    ensures
        first_at(text, mark) == at,
{
    lemma_first_at(text, mark);
    let found = first_at(text, mark);
    if found < at {
        assert(text[found] == mark);
    } else if found > at {
        assert(text[at] != mark);
    }
}

/// Whether `text` does not hold `c`.
pub open spec fn avoids(text: Seq<char>, c: char) -> bool {
    forall|i: int| 0 <= i < text.len() ==> #[trigger] text[i] != c
}

/// A text without the mark is one piece.
pub proof fn lemma_split_whole(text: Seq<char>, mark: char)
    requires
        forall|i: int| 0 <= i < text.len() ==> text[i] != mark,
    ensures
        split(text, mark) == seq![text],
{
    lemma_first_at_is(text, mark, text.len() as int);
}

/// A text that starts with a piece without the mark, followed by the mark, is
/// that piece and the pieces of what follows the mark.
pub proof fn lemma_split_joined(head: Seq<char>, mark: char, rest: Seq<char>)
    requires
        forall|i: int| 0 <= i < head.len() ==> head[i] != mark,
    ensures
        split(head + seq![mark] + rest, mark) == seq![head] + split(rest, mark),
{
    let text = head + seq![mark] + rest;
    assert forall|i: int| 0 <= i < head.len() implies text[i] != mark by {
        assert(text[i] == head[i]);
    }
    assert(text[head.len() as int] == mark);
    lemma_first_at_is(text, mark, head.len() as int);
    assert(text.take(head.len() as int) == head);
    assert(text.skip(head.len() as int + 1) == rest);
}

/// Cutting a text that is put together from two texts with a mark between
/// them gives the pieces of the first followed by the pieces of the second.
pub proof fn lemma_split_concat(first: Seq<char>, mark: char, second: Seq<char>)
    ensures
        split(first + seq![mark] + second, mark) == split(first, mark) + split(second, mark),
    decreases first.len(),
{
    lemma_first_at(first, mark);
    let at = first_at(first, mark);
    if at == first.len() {
        lemma_split_joined(first, mark, second);
        lemma_split_whole(first, mark);
    } else {
        let head = first.take(at);
        let rest = first.skip(at + 1);
        assert forall|i: int| 0 <= i < head.len() implies head[i] != mark by {
            assert(head[i] == first[i]);
        }
        lemma_split_concat(rest, mark, second);
        lemma_split_joined(head, mark, rest + seq![mark] + second);
        assert(head + seq![mark] + (rest + seq![mark] + second) == first + seq![mark] + second);
        assert(seq![head] + (split(rest, mark) + split(second, mark)) == (seq![head] + split(
            rest,
            mark,
        )) + split(second, mark));
    }
}

/// The models of a list of pieces.
pub open spec fn pieces_view(pieces: Seq<Vec<char>>) -> Seq<Seq<char>> {
    pieces.map_values(|piece: Vec<char>| piece@)
}

/// Cuts `text` at every `mark`.
pub fn split_text(text: &Vec<char>, mark: char) -> (pieces: Vec<Vec<char>>)
    ensures
        pieces_view(pieces@) == split(text@, mark),
{
    let mut pieces: Vec<Vec<char>> = Vec::new();
    let mut piece: Vec<char> = Vec::new();
    let ghost mut start: int = 0;
    let mut i: usize = 0;
    proof {
        assert(text@.skip(0) == text@);
        assert(pieces_view(pieces@) == Seq::<Seq<char>>::empty());
        assert(text@.subrange(0, 0) == Seq::<char>::empty());
    }
    while i < text.len()
        invariant
            0 <= start <= i <= text.len(),
            piece@ == text@.subrange(start, i as int),
            forall|j: int| start <= j < i ==> text@[j] != mark,
            split(text@, mark) == pieces_view(pieces@) + split(text@.skip(start), mark),
        decreases text.len() - i,
    {
        let c = text[i];
        if c == mark {
            proof {
                let rest = text@.skip(start);
                assert forall|j: int| 0 <= j < i - start implies rest[j] != mark by {
                    assert(rest[j] == text@[start + j]);
                }
                lemma_first_at_is(rest, mark, i - start);
                assert(rest.take(i - start) == piece@);
                assert(rest.skip(i - start + 1) == text@.skip(i + 1));
                assert(pieces_view(pieces@.push(piece)) == pieces_view(pieces@).push(piece@));
                assert(pieces_view(pieces@).push(piece@) + split(text@.skip(i + 1), mark)
                    == pieces_view(pieces@) + (seq![piece@] + split(text@.skip(i + 1), mark)));
                start = i + 1;
            }
            pieces.push(piece);
            piece = Vec::new();
            proof {
                assert(text@.subrange(i + 1, i + 1) == Seq::<char>::empty());
            }
        } else {
            piece.push(c);
            proof {
                assert(text@.subrange(start, i as int).push(c) == text@.subrange(start, i + 1));
            }
        }
        i += 1;
    }
    proof {
        let rest = text@.skip(start);
        assert forall|j: int| 0 <= j < rest.len() implies rest[j] != mark by {
            assert(rest[j] == text@[start + j]);
        }
        lemma_first_at_is(rest, mark, rest.len() as int);
        assert(rest == piece@);
        assert(pieces_view(pieces@.push(piece)) == pieces_view(pieces@).push(piece@));
        assert(pieces_view(pieces@).push(piece@) == pieces_view(pieces@) + seq![piece@]);
    }
    pieces.push(piece);
    pieces
}

/// Finds the first `mark` in `text`.
pub fn find_first(text: &Vec<char>, mark: char) -> (at: usize)
    ensures
        at == first_at(text@, mark),
{
    let mut i: usize = 0;
    while i < text.len()
        invariant
            i <= text.len(),
            forall|j: int| 0 <= j < i ==> text@[j] != mark,
        decreases text.len() - i,
    {
        if text[i] == mark {
            proof {
                lemma_first_at_is(text@, mark, i as int);
            }
            return i;
        }
        i += 1;
    }
    proof {
        lemma_first_at_is(text@, mark, text.len() as int);
    }
    text.len()
}

/// The characters of `text` from `from` up to `to`.
pub(crate) fn copy_range(text: &Vec<char>, from: usize, to: usize) -> (part: Vec<char>)
    requires
        from <= to <= text.len(),
    ensures
        part@ == text@.subrange(from as int, to as int),
{
    let mut part: Vec<char> = Vec::new();
    let mut i: usize = from;
    while i < to
        invariant
            from <= i <= to <= text.len(),
            part@ == text@.subrange(from as int, i as int),
        decreases to - i,
    {
        part.push(text[i]);
        proof {
            assert(text@.subrange(from as int, i as int).push(text@[i as int]) == text@.subrange(
                from as int,
                i + 1,
            ));
        }
        i += 1;
    }
    part
}

} // verus!
