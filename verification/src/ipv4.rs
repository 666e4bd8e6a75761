//! IPv4 addresses in dotted decimal.

use crate::number::decimal_string;
use crate::number::decimal_text;
use crate::number::is_digit;
use crate::number::lemma_decimal_text;
use crate::number::number_of;
use crate::number::parse_number;
use crate::text::avoids;
use crate::text::lemma_split_joined;
use crate::text::lemma_split_whole;
use crate::text::pieces_view;
use crate::text::split;
use crate::text::split_text;
use vstd::prelude::*;

verus! {

/// The octet that `text` writes: a decimal number of at most 255, in one to
/// three digits, with no zero before another digit.
pub open spec fn octet_of(text: Seq<char>) -> Option<u8> {
    if text.len() <= 3 && (text.len() == 1 || text[0] != '0') {
        match number_of(text, 255) {
            Some(value) => Some(value as u8),
            None => None,
        }
    } else {
        None
    }
}

/// The octets of the IPv4 address that `text` writes: four octets with a dot
/// between them.
pub open spec fn ipv4_of(text: Seq<char>) -> Option<Seq<u8>> {
    let pieces = split(text, '.');
    if pieces.len() == 4 && octet_of(pieces[0]) is Some && octet_of(pieces[1]) is Some
        && octet_of(pieces[2]) is Some && octet_of(pieces[3]) is Some {
        Some(
            seq![
                octet_of(pieces[0]).unwrap(),
                octet_of(pieces[1]).unwrap(),
                octet_of(pieces[2]).unwrap(),
                octet_of(pieces[3]).unwrap(),
            ],
        )
    } else {
        None
    }
}

/// Reads one octet of an IPv4 address.
pub fn parse_octet(text: &Vec<char>) -> (octet: Option<u8>)
    ensures
        octet == octet_of(text@),
{
    if text.len() > 3 || (text.len() != 1 && text.len() > 0 && text[0] == '0') {
        return None;
    }
    match parse_number(text, 255) {
        Some(value) => Some(value as u8),
        None => None,
    }
}

/// Reads the four octets of an IPv4 address.
pub fn parse_ipv4(text: &Vec<char>) -> (octets: Option<[u8; 4]>)
    ensures
        match octets {
            Some(read) => ipv4_of(text@) == Some(read@),
            None => ipv4_of(text@) is None,
        },
{
    let pieces = split_text(text, '.');
    if pieces.len() != 4 {
        return None;
    }
    proof {
        let models = pieces_view(pieces@);
        assert(models[0] == pieces@[0]@);
        assert(models[1] == pieces@[1]@);
        assert(models[2] == pieces@[2]@);
        assert(models[3] == pieces@[3]@);
    }
    let a = match parse_octet(&pieces[0]) {
        Some(octet) => octet,
        None => {
            return None;
        },
    };
    let b = match parse_octet(&pieces[1]) {
        Some(octet) => octet,
        None => {
            return None;
        },
    };
    let c = match parse_octet(&pieces[2]) {
        Some(octet) => octet,
        None => {
            return None;
        },
    };
    let d = match parse_octet(&pieces[3]) {
        Some(octet) => octet,
        None => {
            return None;
        },
    };
    let octets: [u8; 4] = [a, b, c, d];
    proof {
        assert(octets@ =~= seq![a, b, c, d]);
    }
    Some(octets)
}

/// The text of an IPv4 address: its four octets in decimal with a dot between
/// them.
pub open spec fn ipv4_text(octets: Seq<u8>) -> Seq<char> {
    decimal_text(octets[0] as nat) + seq!['.'] + decimal_text(octets[1] as nat) + seq!['.']
        + decimal_text(octets[2] as nat) + seq!['.'] + decimal_text(octets[3] as nat)
}

/// Writes the four octets of an IPv4 address as a text.
pub fn ipv4_string(octets: &[u8; 4]) -> (text: String)
    ensures
        text@ == ipv4_text(octets@),
{
    let mut text = decimal_string(octets[0] as u32);
    proof {
        reveal_strlit(".");
        assert("."@ =~= seq!['.']);
    }
    text.append(".");
    text.append(decimal_string(octets[1] as u32).as_str());
    text.append(".");
    text.append(decimal_string(octets[2] as u32).as_str());
    text.append(".");
    text.append(decimal_string(octets[3] as u32).as_str());
    text
}

/// The text of a number holds neither a dot nor a colon, and reads back as an
/// octet where the number is at most 255.
pub proof fn lemma_decimal_piece(number: nat)
    ensures
        forall|i: int|
            0 <= i < decimal_text(number).len() ==> decimal_text(number)[i] != '.'
                && decimal_text(number)[i] != ':',
        number <= 255 ==> octet_of(decimal_text(number)) == Some(number as u8),
        number <= 65535 ==> number_of(decimal_text(number), 65535) == Some(number as int),
{
    lemma_decimal_text(number);
    let text = decimal_text(number);
    assert forall|i: int| 0 <= i < text.len() implies text[i] != '.' && text[i] != ':' by {
        assert(is_digit(text[i]));
    }
}

/// The text of an IPv4 address reads back as its octets, and holds no colon.
pub proof fn lemma_ipv4_round_trip(octets: Seq<u8>)
    requires
        octets.len() == 4,
    ensures
        ipv4_of(ipv4_text(octets)) == Some(octets),
        avoids(ipv4_text(octets), ':'),
        ipv4_text(octets).len() >= 1,
        ipv4_text(octets)[0] != '[',
{
    let a = decimal_text(octets[0] as nat);
    let b = decimal_text(octets[1] as nat);
    let c = decimal_text(octets[2] as nat);
    let d = decimal_text(octets[3] as nat);
    let dot = seq!['.'];
    lemma_decimal_piece(octets[0] as nat);
    lemma_decimal_piece(octets[1] as nat);
    lemma_decimal_piece(octets[2] as nat);
    lemma_decimal_piece(octets[3] as nat);
    lemma_decimal_text(octets[0] as nat);
    let text = ipv4_text(octets);
    let after_b = c + dot + d;
    let after_a = b + dot + after_b;
    assert(text == a + dot + after_a);
    lemma_split_joined(a, '.', after_a);
    lemma_split_joined(b, '.', after_b);
    lemma_split_joined(c, '.', d);
    lemma_split_whole(d, '.');
    let pieces = split(text, '.');
    assert(pieces == seq![a, b, c, d]);
    assert(ipv4_of(text).unwrap() == octets);
    assert(text[0] == a[0]);
    assert(is_digit(a[0]));
    assert forall|i: int| 0 <= i < text.len() implies #[trigger] text[i] != ':' by {
        if i < a.len() {
            assert(text[i] == a[i]);
        } else if i == a.len() {
        } else if i < a.len() + 1 + b.len() {
            assert(text[i] == b[i - a.len() - 1]);
        } else if i == a.len() + 1 + b.len() {
        } else if i < a.len() + 1 + b.len() + 1 + c.len() {
            assert(text[i] == c[i - a.len() - b.len() - 2]);
        } else if i == a.len() + 1 + b.len() + 1 + c.len() {
        } else {
            assert(text[i] == d[i - a.len() - b.len() - c.len() - 3]);
        }
    }
}

/// The text of an IPv4 address holds no bracket.
pub proof fn lemma_ipv4_avoids_bracket(octets: Seq<u8>)
    requires
        octets.len() == 4,
    ensures
        avoids(ipv4_text(octets), ']'),
{
    let a = decimal_text(octets[0] as nat);
    let b = decimal_text(octets[1] as nat);
    let c = decimal_text(octets[2] as nat);
    let d = decimal_text(octets[3] as nat);
    lemma_decimal_text(octets[0] as nat);
    lemma_decimal_text(octets[1] as nat);
    lemma_decimal_text(octets[2] as nat);
    lemma_decimal_text(octets[3] as nat);
    let text = ipv4_text(octets);
    assert forall|i: int| 0 <= i < text.len() implies #[trigger] text[i] != ']' by {
        if i < a.len() {
            assert(text[i] == a[i]);
            assert(is_digit(a[i]));
        } else if i == a.len() {
        } else if i < a.len() + 1 + b.len() {
            assert(text[i] == b[i - a.len() - 1]);
            assert(is_digit(b[i - a.len() - 1]));
        } else if i == a.len() + 1 + b.len() {
        } else if i < a.len() + 1 + b.len() + 1 + c.len() {
            assert(text[i] == c[i - a.len() - b.len() - 2]);
            assert(is_digit(c[i - a.len() - b.len() - 2]));
        } else if i == a.len() + 1 + b.len() + 1 + c.len() {
        } else {
            assert(text[i] == d[i - a.len() - b.len() - c.len() - 3]);
            assert(is_digit(d[i - a.len() - b.len() - c.len() - 3]));
        }
    }
}

/// The text of an IPv4 address behind a text of four characters or more
/// that holds no dot writes no IPv4 address: its first piece is too long for
/// an octet.
pub proof fn lemma_ipv4_first_piece(octets: Seq<u8>, before: Seq<char>)
    requires
        octets.len() == 4,
        before.len() >= 4,
        avoids(before, '.'),
    ensures
        ipv4_of(before + ipv4_text(octets)) is None,
{
    let a = decimal_text(octets[0] as nat);
    let b = decimal_text(octets[1] as nat);
    let c = decimal_text(octets[2] as nat);
    let d = decimal_text(octets[3] as nat);
    let dot = seq!['.'];
    lemma_decimal_piece(octets[0] as nat);
    let first = before + a;
    let rest = b + dot + (c + dot + d);
    let text = before + ipv4_text(octets);
    assert(text =~= first + dot + rest);
    assert forall|i: int| 0 <= i < first.len() implies first[i] != '.' by {
        if i < before.len() {
            assert(first[i] == before[i]);
        } else {
            assert(first[i] == a[i - before.len()]);
        }
    }
    lemma_split_joined(first, '.', rest);
    assert(split(text, '.')[0] == first);
    assert(octet_of(first) is None);
}

} // verus!
