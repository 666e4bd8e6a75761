//! IPv6 addresses in colon-separated hexadecimal groups.

use crate::ipv4::ipv4_of;
use crate::ipv4::ipv4_string;
use crate::ipv4::ipv4_text;
use crate::ipv4::lemma_ipv4_avoids_bracket;
use crate::ipv4::lemma_ipv4_first_piece;
use crate::ipv4::lemma_ipv4_round_trip;
use crate::ipv4::parse_ipv4;
use crate::number::all_hex;
use crate::number::hex_bound;
use crate::number::hex_digit_value;
use crate::number::hex_string;
use crate::number::hex_text;
use crate::number::hex_value;
use crate::number::lemma_hex_text;
use crate::number::parse_hex_digit;
use crate::text::avoids;
use crate::text::copy_range;
use crate::text::lemma_split_concat;
use crate::text::lemma_split_joined;
use crate::text::lemma_split_whole;
use crate::text::pieces_view;
use crate::text::split;
use crate::text::split_text;
use vstd::prelude::*;

verus! {

/// The group of an IPv6 address that `text` writes: one to four hexadecimal
/// digits.
pub open spec fn group_of(text: Seq<char>) -> Option<u16> {
    if 1 <= text.len() <= 4 && all_hex(text) {
        Some(hex_value(text) as u16)
    } else {
        None
    }
}

/// Reads one group of an IPv6 address.
pub fn parse_group(text: &Vec<char>) -> (group: Option<u16>)
    ensures
        group == group_of(text@),
{
    if text.len() == 0 || text.len() > 4 {
        return None;
    }
    let mut value: u16 = 0;
    let mut i: usize = 0;
    proof {
        assert(text@.take(0) == Seq::<char>::empty());
    }
    while i < text.len()
        invariant
            i <= text.len() <= 4,
            all_hex(text@.take(i as int)),
            value == hex_value(text@.take(i as int)),
            value <= hex_bound(i as int),
        decreases text.len() - i,
    {
        let digit = match parse_hex_digit(text[i]) {
            Some(digit) => digit,
            None => {
                proof {
                    assert(hex_digit_value(text@[i as int]) is None);
                }
                return None;
            },
        };
        proof {
            let longer = text@.take(i + 1);
            assert(longer.drop_last() == text@.take(i as int));
            assert(longer.last() == text@[i as int]);
            assert forall|j: int| 0 <= j < longer.len() implies (#[trigger] hex_digit_value(
                longer[j],
            )) is Some by {
                if j < i {
                    assert(longer[j] == text@.take(i as int)[j]);
                }
            }
        }
        value = value * 16 + digit;
        i += 1;
    }
    proof {
        assert(text@.take(text.len() as int) == text@);
    }
    Some(value)
}

/// The text of a group reads back as the group.
pub proof fn lemma_group_round_trip(group: u16)
    ensures
        group_of(hex_text(group as nat)) == Some(group),
        split(hex_text(group as nat), '.') == seq![hex_text(group as nat)],
{
    lemma_hex_text(group as nat);
    lemma_split_whole(hex_text(group as nat), '.');
}

/// The groups that pieces of a text write, where every piece writes one.
pub open spec fn groups_of(pieces: Seq<Seq<char>>) -> Option<Seq<u16>> {
    if forall|i: int| 0 <= i < pieces.len() ==> (#[trigger] group_of(pieces[i])) is Some {
        Some(Seq::new(pieces.len(), |i: int| group_of(pieces[i]).unwrap()))
    } else {
        None
    }
}

/// The two groups that the four octets of an IPv4 address fill.
pub open spec fn ipv4_groups(octets: Seq<u8>) -> Seq<u16> {
    seq![(octets[0] * 256 + octets[1]) as u16, (octets[2] * 256 + octets[3]) as u16]
}

/// The groups that the last pieces of an address write: every piece writes a
/// group, but the last may write an IPv4 address, which fills two groups.
pub open spec fn tail_groups_of(pieces: Seq<Seq<char>>) -> Option<Seq<u16>> {
    if pieces.len() >= 1 && ipv4_of(pieces.last()) is Some {
        match groups_of(pieces.drop_last()) {
            Some(groups) => Some(groups + ipv4_groups(ipv4_of(pieces.last()).unwrap())),
            None => None,
        }
    } else {
        groups_of(pieces)
    }
}

/// Whether two colons in a row start at `at`.
pub open spec fn two_colons(text: Seq<char>, at: int) -> bool {
    0 <= at && at + 1 < text.len() && text[at] == ':' && text[at + 1] == ':'
}

/// The position of the first two colons in a row, or the length of `text`
/// where it holds none.
pub open spec fn double_colon_at(text: Seq<char>) -> int
    decreases text.len(),
{
    if text.len() < 2 {
        text.len() as int
    } else if text[0] == ':' && text[1] == ':' {
        0
    } else {
        1 + double_colon_at(text.drop_first())
    }
}

/// The groups before two colons in a row: none for an empty text, else one
/// group for each piece between colons.
pub open spec fn head_of(text: Seq<char>) -> Option<Seq<u16>> {
    if text.len() == 0 {
        Some(Seq::empty())
    } else {
        groups_of(split(text, ':'))
    }
}

/// The groups after two colons in a row: none for an empty text, else what
/// the pieces between colons write, the last of which may be an IPv4 address.
pub open spec fn tail_of(text: Seq<char>) -> Option<Seq<u16>> {
    if text.len() == 0 {
        Some(Seq::empty())
    } else {
        tail_groups_of(split(text, ':'))
    }
}

/// So many groups of zero.
pub open spec fn zero_groups(count: int) -> Seq<u16> {
    Seq::new(count as nat, |i: int| 0u16)
}

/// The eight groups of the IPv6 address that `text` writes. Without two
/// colons in a row the text writes all eight groups. With them, the groups
/// before and after are at most seven, and zeros stand for the others.
pub open spec fn ipv6_of(text: Seq<char>) -> Option<Seq<u16>> {
    let at = double_colon_at(text);
    if at + 2 <= text.len() {
        match (head_of(text.take(at)), tail_of(text.skip(at + 2))) {
            (Some(head), Some(tail)) => if head.len() + tail.len() <= 7 {
                Some(head + zero_groups(8 - head.len() - tail.len()) + tail)
            } else {
                None
            },
            _ => None,
        }
    } else {
        match tail_groups_of(split(text, ':')) {
            Some(groups) => if groups.len() == 8 {
                Some(groups)
            } else {
                None
            },
            None => None,
        }
    }
}

/// `double_colon_at` is a position of two colons in a row or the length of the
/// text, and no two colons in a row start before it.
pub proof fn lemma_double_colon_at(text: Seq<char>)
    ensures
        0 <= double_colon_at(text) <= text.len(),
        double_colon_at(text) < text.len() ==> two_colons(text, double_colon_at(text)),
        forall|i: int| 0 <= i < double_colon_at(text) ==> !#[trigger] two_colons(text, i),
    decreases text.len(),
{
    if text.len() < 2 {
    } else if text[0] == ':' && text[1] == ':' {
    } else {
        let rest = text.drop_first();
        lemma_double_colon_at(rest);
        let at = double_colon_at(text);
        if at < text.len() {
            assert(two_colons(rest, at - 1));
            assert(text[at] == rest[at - 1]);
            assert(text[at + 1] == rest[at]);
        }
        assert forall|i: int| 0 <= i < at implies !#[trigger] two_colons(text, i) by {
            if i > 0 {
                assert(!two_colons(rest, i - 1));
                if i + 1 < text.len() {
                    assert(text[i] == rest[i - 1]);
                    assert(text[i + 1] == rest[i]);
                }
            }
        }
    }
}

/// A position where two colons in a row start, with none starting before
/// it, is `double_colon_at`; so is the length of a text without two colons in
/// a row.
pub proof fn lemma_double_colon_at_is(text: Seq<char>, at: int)
    requires
        0 <= at <= text.len(),
        forall|i: int| 0 <= i < at ==> !#[trigger] two_colons(text, i),
        at < text.len() ==> two_colons(text, at),
    ensures
        double_colon_at(text) == at,
{
    lemma_double_colon_at(text);
    let found = double_colon_at(text);
    if found < at {
        assert(two_colons(text, found));
    } else if found > at {
        assert(!two_colons(text, at));
    }
}

/// Finds the first two colons in a row.
pub fn find_double_colon(text: &Vec<char>) -> (at: usize)
    ensures
        at == double_colon_at(text@),
{
    if text.len() < 2 {
        proof {
            lemma_double_colon_at_is(text@, text.len() as int);
        }
        return text.len();
    }
    let last = text.len() - 1;
    let mut i: usize = 0;
    while i < last
        invariant
            i <= last,
            last + 1 == text.len(),
            forall|j: int| 0 <= j < i ==> !#[trigger] two_colons(text@, j),
        decreases last - i,
    {
        if text[i] == ':' && text[i + 1] == ':' {
            proof {
                lemma_double_colon_at_is(text@, i as int);
            }
            return i;
        }
        i += 1;
    }
    proof {
        lemma_double_colon_at_is(text@, text.len() as int);
    }
    text.len()
}

/// Reads the first `count` pieces as groups.
pub(crate) fn parse_groups(pieces: &Vec<Vec<char>>, count: usize) -> (groups: Option<Vec<u16>>)
    requires
        count <= pieces.len(),
    ensures
        match groups {
            Some(read) => groups_of(pieces_view(pieces@).take(count as int)) == Some(read@),
            None => groups_of(pieces_view(pieces@).take(count as int)) is None,
        },
{
    let mut groups: Vec<u16> = Vec::new();
    let ghost all = pieces_view(pieces@).take(count as int);
    let mut i: usize = 0;
    while i < count
        invariant
            i <= count <= pieces.len(),
            all == pieces_view(pieces@).take(count as int),
            groups.len() == i,
            forall|j: int| 0 <= j < i ==> (#[trigger] group_of(all[j])) == Some(groups[j]),
        decreases count - i,
    {
        proof {
            assert(all[i as int] == pieces[i as int]@);
        }
        match parse_group(&pieces[i]) {
            Some(group) => {
                groups.push(group);
            },
            None => {
                proof {
                    assert(group_of(all[i as int]) is None);
                }
                return None;
            },
        }
        i += 1;
    }
    proof {
        assert(groups_of(all) is Some);
        assert(groups_of(all).unwrap() =~= groups@);
    }
    Some(groups)
}

/// Reads the last pieces of an address: groups, of which the last may be an
/// IPv4 address.
pub fn parse_tail_groups(pieces: &Vec<Vec<char>>) -> (groups: Option<Vec<u16>>)
    ensures
        match groups {
            Some(read) => tail_groups_of(pieces_view(pieces@)) == Some(read@),
            None => tail_groups_of(pieces_view(pieces@)) is None,
        },
{
    let count = pieces.len();
    let ghost all = pieces_view(pieces@);
    proof {
        assert(all.take(count as int) == all);
    }
    if count == 0 {
        return parse_groups(pieces, 0);
    }
    proof {
        assert(all.last() == pieces[count - 1]@);
        assert(all.take(count - 1) == all.drop_last());
    }
    match parse_ipv4(&pieces[count - 1]) {
        Some(octets) => match parse_groups(pieces, count - 1) {
            Some(mut groups) => {
                let high: u16 = octets[0] as u16 * 256 + octets[1] as u16;
                let low: u16 = octets[2] as u16 * 256 + octets[3] as u16;
                proof {
                    assert(groups@.push(high).push(low) =~= groups@ + ipv4_groups(octets@));
                }
                groups.push(high);
                groups.push(low);
                Some(groups)
            },
            None => None,
        },
        None => parse_groups(pieces, count),
    }
}

/// Reads the groups before two colons in a row.
pub fn parse_head(text: &Vec<char>) -> (groups: Option<Vec<u16>>)
    ensures
        match groups {
            Some(read) => head_of(text@) == Some(read@),
            None => head_of(text@) is None,
        },
{
    if text.len() == 0 {
        return Some(Vec::new());
    }
    let pieces = split_text(text, ':');
    proof {
        assert(pieces_view(pieces@).take(pieces.len() as int) == pieces_view(pieces@));
    }
    parse_groups(&pieces, pieces.len())
}

/// Reads the groups after two colons in a row.
pub fn parse_tail(text: &Vec<char>) -> (groups: Option<Vec<u16>>)
    ensures
        match groups {
            Some(read) => tail_of(text@) == Some(read@),
            None => tail_of(text@) is None,
        },
{
    if text.len() == 0 {
        return Some(Vec::new());
    }
    let pieces = split_text(text, ':');
    parse_tail_groups(&pieces)
}

/// Puts zeros between the groups before and after two colons in a row.
pub(crate) fn fill_groups(head: Vec<u16>, tail: &Vec<u16>) -> (all: Vec<u16>)
    requires
        head.len() + tail.len() <= 7,
    ensures
        all@ == head@ + zero_groups(8 - head.len() - tail.len()) + tail@,
        all.len() == 8,
{
    let ghost before = head@;
    let zeros = 8 - head.len() - tail.len();
    let mut all = head;
    let mut i: usize = 0;
    proof {
        assert(before + zero_groups(0) =~= before);
    }
    while i < zeros
        invariant
            i <= zeros,
            zeros + before.len() + tail.len() == 8,
            all@ == before + zero_groups(i as int),
        decreases zeros - i,
    {
        all.push(0);
        proof {
            assert((before + zero_groups(i as int)).push(0u16) =~= before + zero_groups(i + 1));
        }
        i += 1;
    }
    let mut j: usize = 0;
    proof {
        assert(before + zero_groups(zeros as int) + tail@.take(0) =~= before + zero_groups(
            zeros as int,
        ));
    }
    while j < tail.len()
        invariant
            j <= tail.len(),
            zeros + before.len() + tail.len() == 8,
            all@ == before + zero_groups(zeros as int) + tail@.take(j as int),
        decreases tail.len() - j,
    {
        all.push(tail[j]);
        proof {
            assert((before + zero_groups(zeros as int) + tail@.take(j as int)).push(
                tail@[j as int],
            ) =~= before + zero_groups(zeros as int) + tail@.take(j + 1));
        }
        j += 1;
    }
    proof {
        assert(tail@.take(tail.len() as int) == tail@);
    }
    all
}

/// Reads the groups of an address that holds two colons in a row at `at`.
pub(crate) fn parse_compressed(text: &Vec<char>, at: usize) -> (groups: Option<Vec<u16>>)
    requires
        at + 2 <= text.len(),
    ensures
        match (head_of(text@.take(at as int)), tail_of(text@.skip(at + 2))) {
            (Some(head), Some(tail)) => if head.len() + tail.len() <= 7 {
                groups matches Some(all) && all@ == head + zero_groups(
                    8 - head.len() - tail.len(),
                ) + tail && all.len() == 8
            } else {
                groups is None
            },
            _ => groups is None,
        },
{
    proof {
        assert(text@.subrange(0, at as int) == text@.take(at as int));
        assert(text@.subrange(at + 2, text.len() as int) == text@.skip(at + 2));
    }
    let head = match parse_head(&copy_range(text, 0, at)) {
        Some(head) => head,
        None => {
            return None;
        },
    };
    let tail = match parse_tail(&copy_range(text, at + 2, text.len())) {
        Some(tail) => tail,
        None => {
            return None;
        },
    };
    if head.len() > 7 || tail.len() > 7 - head.len() {
        return None;
    }
    Some(fill_groups(head, &tail))
}

/// Reads the eight groups of an IPv6 address.
pub fn parse_ipv6(text: &Vec<char>) -> (groups: Option<[u16; 8]>)
    ensures
        match groups {
            Some(read) => ipv6_of(text@) == Some(read@),
            None => ipv6_of(text@) is None,
        },
{
    let at = find_double_colon(text);
    proof {
        lemma_double_colon_at(text@);
    }
    let found = if at < text.len() {
        parse_compressed(text, at)
    } else {
        let pieces = split_text(text, ':');
        match parse_tail_groups(&pieces) {
            Some(all) => if all.len() == 8 {
                Some(all)
            } else {
                None
            },
            None => None,
        }
    };
    match found {
        Some(all) => {
            let groups: [u16; 8] = [all[0], all[1], all[2], all[3], all[4], all[5], all[6], all[7]];
            proof {
                assert(groups@ =~= all@);
            }
            Some(groups)
        },
        None => None,
    }
}

/// The pieces with a colon between every two of them.
pub open spec fn join(pieces: Seq<Seq<char>>) -> Seq<char>
    decreases pieces.len(),
{
    if pieces.len() == 0 {
        Seq::empty()
    } else if pieces.len() == 1 {
        pieces[0]
    } else {
        join(pieces.drop_last()) + seq![':'] + pieces.last()
    }
}

/// The texts of groups, in their order.
pub open spec fn group_texts(groups: Seq<u16>) -> Seq<Seq<char>> {
    groups.map_values(|group: u16| hex_text(group as nat))
}

/// The number of groups of zero in a row from `at` on.
pub open spec fn zero_run(groups: Seq<u16>, at: int) -> int
    decreases groups.len() - at,
{
    if 0 <= at < groups.len() && groups[at] == 0 {
        1 + zero_run(groups, at + 1)
    } else {
        0
    }
}

/// Where the longest run of zero groups starts, the first where several are
/// as long: `best` is that start among the positions before `at`.
pub open spec fn longest_run_from(groups: Seq<u16>, at: int, best: int) -> int
    decreases groups.len() - at,
{
    if at < 0 || at >= groups.len() {
        best
    } else if zero_run(groups, at) > zero_run(groups, best) {
        longest_run_from(groups, at + 1, at)
    } else {
        longest_run_from(groups, at + 1, best)
    }
}

/// Where the longest run of zero groups starts, the first where several are
/// as long; the number of groups where there is no group of zero.
pub open spec fn longest_run(groups: Seq<u16>) -> int {
    longest_run_from(groups, 0, groups.len() as int)
}

/// Whether the address stands for an IPv4 address: five groups of zero and
/// one of `ffff` come before the two groups of that address.
pub open spec fn is_mapped(groups: Seq<u16>) -> bool {
    groups.len() == 8 && groups[0] == 0 && groups[1] == 0 && groups[2] == 0 && groups[3] == 0
        && groups[4] == 0 && groups[5] == 0xffff
}

/// The four octets in the last two groups of an address.
pub open spec fn mapped_octets(groups: Seq<u16>) -> Seq<u8> {
    seq![
        (groups[6] / 256) as u8,
        (groups[6] % 256) as u8,
        (groups[7] / 256) as u8,
        (groups[7] % 256) as u8,
    ]
}

/// What is written before the IPv4 address that an address stands for.
pub open spec fn mapped_prefix() -> Seq<char> {
    seq![':', ':', 'f', 'f', 'f', 'f', ':']
}

/// The text of an IPv6 address. An address that stands for an IPv4 address
/// is written as `::ffff:` and that address. Any other is written as its
/// groups in hexadecimal with a colon between them, where two colons in a row
/// stand for the longest run of two or more groups of zero.
pub open spec fn ipv6_text(groups: Seq<u16>) -> Seq<char> {
    let start = longest_run(groups);
    let run = zero_run(groups, start);
    if is_mapped(groups) {
        mapped_prefix() + ipv4_text(mapped_octets(groups))
    } else if run >= 2 {
        join(group_texts(groups.take(start))) + seq![':', ':'] + join(
            group_texts(groups.skip(start + run)),
        )
    } else {
        join(group_texts(groups))
    }
}

/// A run of zero groups ends within the groups, and holds zeros only.
pub proof fn lemma_zero_run(groups: Seq<u16>, at: int)
    requires
        0 <= at <= groups.len(),
    ensures
        0 <= zero_run(groups, at) <= groups.len() - at,
        forall|i: int| at <= i < at + zero_run(groups, at) ==> groups[i] == 0,
    decreases groups.len() - at,
{
    if at < groups.len() && groups[at] == 0 {
        lemma_zero_run(groups, at + 1);
    }
}

/// The longest run starts at a position of the groups, or at their number.
pub proof fn lemma_longest_run_from(groups: Seq<u16>, at: int, best: int)
    requires
        0 <= at <= groups.len(),
        0 <= best <= groups.len(),
    ensures
        0 <= longest_run_from(groups, at, best) <= groups.len(),
    decreases groups.len() - at,
{
    if at < groups.len() {
        if zero_run(groups, at) > zero_run(groups, best) {
            lemma_longest_run_from(groups, at + 1, at);
        } else {
            lemma_longest_run_from(groups, at + 1, best);
        }
    }
}

/// Pieces without a colon, joined by colons and cut at the colons, are the
/// pieces again.
pub proof fn lemma_join_split(pieces: Seq<Seq<char>>)
    requires
        pieces.len() >= 1,
        forall|i: int| 0 <= i < pieces.len() ==> avoids(#[trigger] pieces[i], ':'),
    ensures
        split(join(pieces), ':') == pieces,
    decreases pieces.len(),
{
    if pieces.len() == 1 {
        assert(avoids(pieces[0], ':'));
        lemma_split_whole(pieces[0], ':');
        assert(seq![pieces[0]] =~= pieces);
    } else {
        let before = pieces.drop_last();
        assert forall|i: int| 0 <= i < before.len() implies avoids(#[trigger] before[i], ':') by {
            assert(before[i] == pieces[i]);
        }
        lemma_join_split(before);
        lemma_split_concat(join(before), ':', pieces.last());
        assert(avoids(pieces[pieces.len() - 1], ':'));
        lemma_split_whole(pieces.last(), ':');
        assert(before + seq![pieces.last()] =~= pieces);
    }
}

/// Pieces that are not empty and hold no colon, joined by colons, give a
/// text that is not empty, neither starts nor ends with a colon, and holds no
/// two colons in a row.
pub proof fn lemma_join_colons(pieces: Seq<Seq<char>>)
    requires
        pieces.len() >= 1,
        forall|i: int|
            0 <= i < pieces.len() ==> (#[trigger] pieces[i]).len() >= 1 && avoids(pieces[i], ':'),
    ensures
        join(pieces).len() >= 1,
        join(pieces)[0] != ':',
        join(pieces).last() != ':',
        forall|i: int| !#[trigger] two_colons(join(pieces), i),
    decreases pieces.len(),
{
    let text = join(pieces);
    let last = pieces.last();
    assert(pieces[pieces.len() - 1].len() >= 1 && avoids(last, ':'));
    if pieces.len() == 1 {
        assert(pieces[0].len() >= 1 && avoids(pieces[0], ':'));
        assert forall|i: int| !#[trigger] two_colons(text, i) by {
            if 0 <= i && i + 1 < text.len() {
                assert(text[i] != ':');
            }
        }
    } else {
        let before = pieces.drop_last();
        assert forall|i: int| 0 <= i < before.len() implies (#[trigger] before[i]).len() >= 1
            && avoids(before[i], ':') by {
            assert(before[i] == pieces[i]);
        }
        lemma_join_colons(before);
        let start = join(before);
        assert(text == start + seq![':'] + last);
        assert(text[0] == start[0]);
        assert(text.last() == last.last());
        assert forall|i: int| !#[trigger] two_colons(text, i) by {
            if 0 <= i && i + 1 < text.len() {
                if i + 1 < start.len() {
                    assert(!two_colons(start, i));
                    assert(text[i] == start[i] && text[i + 1] == start[i + 1]);
                } else if i + 1 == start.len() {
                    assert(text[i] == start.last());
                } else if i == start.len() {
                    assert(text[i + 1] == last[0]);
                } else {
                    assert(text[i] == last[i - start.len() - 1]);
                }
            }
        }
    }
}

/// Pieces that hold no `c`, joined by colons, hold no `c` where `c` is no
/// colon.
pub proof fn lemma_join_avoids(pieces: Seq<Seq<char>>, c: char)
    requires
        c != ':',
        forall|i: int| 0 <= i < pieces.len() ==> avoids(#[trigger] pieces[i], c),
    ensures
        avoids(join(pieces), c),
    decreases pieces.len(),
{
    if pieces.len() == 0 {
    } else if pieces.len() == 1 {
        assert(avoids(pieces[0], c));
    } else {
        let before = pieces.drop_last();
        assert forall|i: int| 0 <= i < before.len() implies avoids(#[trigger] before[i], c) by {
            assert(before[i] == pieces[i]);
        }
        lemma_join_avoids(before, c);
        let start = join(before);
        let last = pieces.last();
        assert(avoids(pieces[pieces.len() - 1], c));
        let text = join(pieces);
        assert forall|i: int| 0 <= i < text.len() implies #[trigger] text[i] != c by {
            if i < start.len() {
                assert(text[i] == start[i]);
            } else if i == start.len() {
            } else {
                assert(text[i] == last[i - start.len() - 1]);
            }
        }
    }
}

/// The text of every group is not empty, reads back as the group, and holds
/// neither a colon, a dot nor a bracket.
pub proof fn lemma_group_texts(groups: Seq<u16>)
    ensures
        group_texts(groups).len() == groups.len(),
        forall|i: int|
            0 <= i < groups.len() ==> (#[trigger] group_texts(groups)[i]).len() >= 1 && avoids(
                group_texts(groups)[i],
                ':',
            ) && avoids(group_texts(groups)[i], ']') && avoids(group_texts(groups)[i], '.')
                && group_of(group_texts(groups)[i]) == Some(groups[i]),
{
    let pieces = group_texts(groups);
    assert forall|i: int| 0 <= i < groups.len() implies (#[trigger] pieces[i]).len() >= 1
        && avoids(pieces[i], ':') && avoids(pieces[i], ']') && avoids(pieces[i], '.') && group_of(
        pieces[i],
    ) == Some(groups[i]) by {
        lemma_hex_text(groups[i] as nat);
        lemma_group_round_trip(groups[i]);
        let piece = pieces[i];
        assert forall|j: int| 0 <= j < piece.len() implies #[trigger] piece[j] != ']' by {
            assert(hex_digit_value(piece[j]) is Some);
        }
    }
}

/// Groups written with colons between them read back as the groups, both
/// before and after two colons in a row; their text holds no two colons in a
/// row, neither starts nor ends with a colon, and holds neither a dot nor a
/// bracket.
pub proof fn lemma_groups_joined(groups: Seq<u16>)
    ensures
        head_of(join(group_texts(groups))) == Some(groups),
        tail_of(join(group_texts(groups))) == Some(groups),
        groups.len() == 0 ==> join(group_texts(groups)).len() == 0,
        groups.len() >= 1 ==> join(group_texts(groups)).len() >= 1 && join(group_texts(groups))[0]
            != ':' && join(group_texts(groups)).last() != ':' && split(
            join(group_texts(groups)),
            ':',
        ) == group_texts(groups),
        forall|i: int| !#[trigger] two_colons(join(group_texts(groups)), i),
        avoids(join(group_texts(groups)), ']'),
        avoids(join(group_texts(groups)), '.'),
{
    let pieces = group_texts(groups);
    let text = join(pieces);
    lemma_group_texts(groups);
    lemma_join_avoids(pieces, ']');
    lemma_join_avoids(pieces, '.');
    if groups.len() == 0 {
        assert(Seq::<u16>::empty() =~= groups);
    } else {
        lemma_join_split(pieces);
        lemma_join_colons(pieces);
        lemma_group_round_trip(groups.last());
        assert(pieces.last() == hex_text(groups.last() as nat));
        assert(ipv4_of(pieces.last()) is None);
        assert forall|i: int| 0 <= i < pieces.len() implies (#[trigger] group_of(pieces[i]))
            is Some by {
            assert(pieces[i].len() >= 1);
        }
        assert(groups_of(pieces).unwrap() =~= groups);
    }
}

/// The text `ffff` writes the group of that value.
pub proof fn lemma_group_ffff()
    ensures
        group_of(seq!['f', 'f', 'f', 'f']) == Some(0xffffu16),
{
    let text = seq!['f', 'f', 'f', 'f'];
    let three = text.drop_last();
    let two = three.drop_last();
    let one = two.drop_last();
    assert(one.drop_last() =~= Seq::<char>::empty());
    assert(hex_value(one.drop_last()) == 0);
    assert(one.last() == 'f' && two.last() == 'f' && three.last() == 'f' && text.last() == 'f');
    assert(hex_value(one) == 15);
    assert(hex_value(two) == 255);
    assert(hex_value(three) == 4095);
    assert(hex_value(text) == 65535);
    assert forall|i: int| 0 <= i < text.len() implies (#[trigger] hex_digit_value(text[i]))
        is Some by {
        assert(text[i] == 'f');
    }
}

/// The text of an address that stands for an IPv4 address reads back as its
/// eight groups, holds no bracket, and writes no IPv4 address by itself.
pub proof fn lemma_mapped_round_trip(groups: Seq<u16>)
    requires
        is_mapped(groups),
    ensures
        ipv6_of(mapped_prefix() + ipv4_text(mapped_octets(groups))) == Some(groups),
        avoids(mapped_prefix() + ipv4_text(mapped_octets(groups)), ']'),
        ipv4_of(mapped_prefix() + ipv4_text(mapped_octets(groups))) is None,
{
    let octets = mapped_octets(groups);
    let v4 = ipv4_text(octets);
    let prefix = mapped_prefix();
    let text = prefix + v4;
    let ffff = seq!['f', 'f', 'f', 'f'];
    lemma_ipv4_round_trip(octets);
    lemma_group_ffff();
    assert(two_colons(text, 0));
    lemma_double_colon_at_is(text, 0);
    assert(text.take(0) =~= Seq::<char>::empty());
    let tail = text.skip(2);
    assert(tail =~= ffff + seq![':'] + v4);
    assert forall|i: int| 0 <= i < v4.len() implies v4[i] != ':' by {
        assert(avoids(v4, ':'));
    }
    lemma_split_joined(ffff, ':', v4);
    lemma_split_whole(v4, ':');
    let pieces = split(tail, ':');
    assert(pieces == seq![ffff, v4]);
    assert(pieces.last() == v4);
    assert(pieces.drop_last() =~= seq![ffff]);
    assert(group_of(pieces.drop_last()[0]) == Some(0xffffu16));
    assert(groups_of(pieces.drop_last()).unwrap() =~= seq![0xffffu16]);
    let read = seq![0xffffu16] + ipv4_groups(octets);
    assert(tail_of(tail) == Some(read));
    assert(Seq::<u16>::empty() + zero_groups(5) + read =~= groups);
    assert forall|i: int| 0 <= i < text.len() implies #[trigger] text[i] != ']' by {
        if i >= 7 {
            assert(text[i] == v4[i - 7]);
            lemma_ipv4_avoids_bracket(octets);
        }
    }
    lemma_ipv4_first_piece(octets, prefix);
}

/// The text of an IPv6 address reads back as its eight groups, holds no
/// bracket, and writes no IPv4 address.
pub proof fn lemma_ipv6_round_trip(groups: Seq<u16>)
    requires
        groups.len() == 8,
    ensures
        ipv6_of(ipv6_text(groups)) == Some(groups),
        avoids(ipv6_text(groups), ']'),
        ipv4_of(ipv6_text(groups)) is None,
        ipv6_text(groups).len() >= 1,
{
    let text = ipv6_text(groups);
    lemma_longest_run_from(groups, 0, 8);
    let start = longest_run(groups);
    lemma_zero_run(groups, start);
    let run = zero_run(groups, start);
    if is_mapped(groups) {
        lemma_mapped_round_trip(groups);
    } else if run >= 2 {
        let head = groups.take(start);
        let tail = groups.skip(start + run);
        let before = join(group_texts(head));
        let after = join(group_texts(tail));
        lemma_groups_joined(head);
        lemma_groups_joined(tail);
        let at = before.len() as int;
        assert(text == before + seq![':', ':'] + after);
        assert forall|i: int| 0 <= i < at implies !#[trigger] two_colons(text, i) by {
            if i + 1 < at {
                assert(!two_colons(before, i));
                assert(text[i] == before[i] && text[i + 1] == before[i + 1]);
            } else {
                assert(text[i] == before.last());
            }
        }
        assert(text[at] == ':' && text[at + 1] == ':');
        assert(two_colons(text, at));
        lemma_double_colon_at_is(text, at);
        assert(text.take(at) == before);
        assert(text.skip(at + 2) == after);
        assert(zero_groups(8 - head.len() - tail.len()) =~= groups.subrange(start, start + run));
        assert(head + groups.subrange(start, start + run) + tail =~= groups);
        assert forall|i: int| 0 <= i < text.len() implies #[trigger] text[i] != ']' && text[i]
            != '.' by {
            if i < at {
                assert(text[i] == before[i]);
            } else if i >= at + 2 {
                assert(text[i] == after[i - at - 2]);
            }
        }
        lemma_split_whole(text, '.');
    } else {
        lemma_groups_joined(groups);
        lemma_double_colon_at_is(text, text.len() as int);
        assert forall|i: int| 0 <= i < text.len() implies text[i] != '.' by {
            assert(avoids(text, '.'));
        }
        lemma_split_whole(text, '.');
    }
}

/// Counts the groups of zero in a row from `at` on.
pub fn count_zeros(groups: &[u16; 8], at: usize) -> (run: usize)
    ensures
        run == zero_run(groups@, at as int),
{
    if at >= 8 {
        return 0;
    }
    let mut i: usize = at;
    while i < 8 && groups[i] == 0
        invariant
            at <= i <= 8,
            groups@.len() == 8,
            zero_run(groups@, at as int) == (i - at) + zero_run(groups@, i as int),
        decreases 8 - i,
    {
        i += 1;
    }
    i - at
}

/// Finds where the longest run of zero groups starts, the first where
/// several are as long.
pub fn find_longest_run(groups: &[u16; 8]) -> (start: usize)
    ensures
        start == longest_run(groups@),
        start <= 8,
{
    let mut best: usize = 8;
    let mut best_run: usize = 0;
    let mut i: usize = 0;
    while i < 8
        invariant
            i <= 8,
            best <= 8,
            groups@.len() == 8,
            best_run == zero_run(groups@, best as int),
            longest_run(groups@) == longest_run_from(groups@, i as int, best as int),
        decreases 8 - i,
    {
        let run = count_zeros(groups, i);
        if run > best_run {
            best = i;
            best_run = run;
        }
        i += 1;
    }
    best
}

/// Writes the groups from `from` up to `to` with a colon between them.
pub(crate) fn join_groups(groups: &[u16; 8], from: usize, to: usize) -> (text: String)
    requires
        from <= to <= 8,
    ensures
        text@ == join(group_texts(groups@.subrange(from as int, to as int))),
{
    if from == to {
        proof {
            assert(group_texts(groups@.subrange(from as int, to as int)).len() == 0);
        }
        return String::new();
    }
    let mut text = hex_string(groups[from] as u32);
    proof {
        reveal_strlit(":");
        assert(":"@ =~= seq![':']);
        let first = group_texts(groups@.subrange(from as int, from + 1));
        assert(first.len() == 1);
        assert(first[0] == hex_text(groups@[from as int] as nat));
    }
    let mut i: usize = from + 1;
    while i < to
        invariant
            from < i <= to <= 8,
            ":"@ == seq![':'],
            text@ == join(group_texts(groups@.subrange(from as int, i as int))),
        decreases to - i,
    {
        text.append(":");
        text.append(hex_string(groups[i] as u32).as_str());
        proof {
            let longer = group_texts(groups@.subrange(from as int, i + 1));
            assert(longer.drop_last() =~= group_texts(groups@.subrange(from as int, i as int)));
            assert(longer.last() == hex_text(groups@[i as int] as nat));
        }
        i += 1;
    }
    text
}

/// Writes the eight groups of an IPv6 address as a text.
pub fn ipv6_string(groups: &[u16; 8]) -> (text: String)
    ensures
        text@ == ipv6_text(groups@),
{
    if groups[0] == 0 && groups[1] == 0 && groups[2] == 0 && groups[3] == 0 && groups[4] == 0
        && groups[5] == 0xffff {
        let octets: [u8; 4] = [
            (groups[6] / 256) as u8,
            (groups[6] % 256) as u8,
            (groups[7] / 256) as u8,
            (groups[7] % 256) as u8,
        ];
        proof {
            reveal_strlit("::ffff:");
            assert("::ffff:"@ =~= mapped_prefix());
            assert(octets@ =~= mapped_octets(groups@));
        }
        let mut text = String::from_str("::ffff:");
        text.append(ipv4_string(&octets).as_str());
        return text;
    }
    let start = find_longest_run(groups);
    let run = count_zeros(groups, start);
    proof {
        lemma_zero_run(groups@, start as int);
    }
    if run >= 2 {
        let mut text = join_groups(groups, 0, start);
        proof {
            reveal_strlit("::");
            assert("::"@ =~= seq![':', ':']);
            assert(groups@.subrange(0, start as int) == groups@.take(start as int));
            assert(groups@.subrange(start + run, 8) == groups@.skip(start + run));
        }
        text.append("::");
        text.append(join_groups(groups, start + run, 8).as_str());
        text
    } else {
        proof {
            assert(groups@.subrange(0, 8) == groups@);
        }
        join_groups(groups, 0, 8)
    }
}

} // verus!
