//! Numbers written in decimal and in hexadecimal.

use vstd::prelude::*;

verus! {

/// Whether `c` is one of the ten decimal digits.
pub open spec fn is_digit(c: char) -> bool {
    48 <= c as u32 <= 57
}

/// The number that a decimal digit stands for.
pub open spec fn digit_value(c: char) -> int {
    c as u32 - 48
}

/// Whether `text` holds decimal digits only.
pub open spec fn all_digits(text: Seq<char>) -> bool {
    forall|i: int| 0 <= i < text.len() ==> is_digit(#[trigger] text[i])
}

/// The number that a sequence of decimal digits writes.
pub open spec fn decimal_value(text: Seq<char>) -> int
    decreases text.len(),
{
    if text.len() == 0 {
        0
    } else {
        10 * decimal_value(text.drop_last()) + digit_value(text.last())
    }
}

/// The number that `text` writes in decimal, with any number of leading
/// zeros, where it writes one that is at most `limit`.
pub open spec fn number_of(text: Seq<char>, limit: int) -> Option<int> {
    if text.len() >= 1 && all_digits(text) && decimal_value(text) <= limit {
        Some(decimal_value(text))
    } else {
        None
    }
}

/// A run of digits writes no negative number.
pub proof fn lemma_decimal_nonnegative(text: Seq<char>)
    requires
        all_digits(text),
    ensures
        0 <= decimal_value(text),
    decreases text.len(),
{
    if text.len() > 0 {
        let shorter = text.drop_last();
        assert forall|i: int| 0 <= i < shorter.len() implies is_digit(#[trigger] shorter[i]) by {
            assert(shorter[i] == text[i]);
        }
        lemma_decimal_nonnegative(shorter);
        assert(is_digit(text[text.len() - 1]));
    }
}

/// A longer run of digits writes no smaller number than its beginning.
pub proof fn lemma_decimal_grows(text: Seq<char>, k: int)
    requires
        all_digits(text),
        0 <= k <= text.len(),
    ensures
        0 <= decimal_value(text.take(k)) <= decimal_value(text),
    decreases text.len() - k,
{
    if k == text.len() {
        assert(text.take(k) == text);
        lemma_decimal_nonnegative(text);
    } else {
        lemma_decimal_grows(text, k + 1);
        let longer = text.take(k + 1);
        assert(longer.drop_last() == text.take(k));
        assert(is_digit(text[k]));
        assert(longer.last() == text[k]);
        lemma_decimal_nonnegative(text.take(k));
    }
}

/// Reads a decimal number of at most `limit`.
pub fn parse_number(text: &Vec<char>, limit: u32) -> (number: Option<u32>)
    ensures
        match number {
            Some(value) => number_of(text@, limit as int) == Some(value as int),
            None => number_of(text@, limit as int) is None,
        },
{
    if text.len() == 0 {
        return None;
    }
    let mut value: u64 = 0;
    let mut i: usize = 0;
    proof {
        assert(text@.take(0) == Seq::<char>::empty());
    }
    while i < text.len()
        invariant
            i <= text.len(),
            all_digits(text@.take(i as int)),
            value == decimal_value(text@.take(i as int)),
            value <= limit,
        decreases text.len() - i,
    {
        let code = text[i] as u32;
        if code < 48 || code > 57 {
            proof {
                assert(!is_digit(text@[i as int]));
            }
            return None;
        }
        let ghost longer = text@.take(i + 1);
        proof {
            assert(longer.drop_last() == text@.take(i as int));
            assert(longer.last() == text@[i as int]);
            assert forall|j: int| 0 <= j < longer.len() implies is_digit(#[trigger] longer[j]) by {
                if j < i {
                    assert(longer[j] == text@.take(i as int)[j]);
                }
            }
        }
        value = value * 10 + (code - 48) as u64;
        if value > limit as u64 {
            proof {
                if all_digits(text@) {
                    lemma_decimal_grows(text@, i + 1);
                }
            }
            return None;
        }
        i += 1;
    }
    proof {
        assert(text@.take(text.len() as int) == text@);
    }
    Some(value as u32)
}

/// The decimal digit that stands for `value`; nine for a larger value.
pub open spec fn digit_char(value: int) -> char {
    if value == 0 {
        '0'
    } else if value == 1 {
        '1'
    } else if value == 2 {
        '2'
    } else if value == 3 {
        '3'
    } else if value == 4 {
        '4'
    } else if value == 5 {
        '5'
    } else if value == 6 {
        '6'
    } else if value == 7 {
        '7'
    } else if value == 8 {
        '8'
    } else {
        '9'
    }
}

/// `number` in decimal, with no zero before another digit.
pub open spec fn decimal_text(number: nat) -> Seq<char>
    decreases number,
{
    if number < 10 {
        seq![digit_char(number as int)]
    } else {
        decimal_text(number / 10).push(digit_char((number % 10) as int))
    }
}

/// What `decimal_text` writes reads back as the same number; it has no zero
/// before another digit, and at most three digits for a number below 1000.
pub proof fn lemma_decimal_text(number: nat)
    ensures
        decimal_text(number).len() >= 1,
        all_digits(decimal_text(number)),
        decimal_value(decimal_text(number)) == number,
        number > 0 ==> decimal_text(number)[0] != '0',
        number < 10 ==> decimal_text(number).len() == 1,
        number < 100 ==> decimal_text(number).len() <= 2,
        number < 1000 ==> decimal_text(number).len() <= 3,
    decreases number,
{
    let text = decimal_text(number);
    if number < 10 {
        assert(text.drop_last() == Seq::<char>::empty());
        assert(decimal_value(text.drop_last()) == 0);
    } else {
        lemma_decimal_text(number / 10);
        let shorter = decimal_text(number / 10);
        let digit = digit_char((number % 10) as int);
        assert(text == shorter.push(digit));
        assert(text.drop_last() == shorter);
        assert(text.last() == digit);
        assert(text[0] == shorter[0]);
        assert forall|i: int| 0 <= i < text.len() implies is_digit(#[trigger] text[i]) by {
            if i < shorter.len() {
                assert(text[i] == shorter[i]);
            }
        }
    }
}

/// One decimal digit as a text; nine for a value above it.
pub fn digit_text(value: u32) -> (text: &'static str)
    ensures
        text@ == seq![digit_char(value as int)],
{
    proof {
        reveal_strlit("0");
        reveal_strlit("1");
        reveal_strlit("2");
        reveal_strlit("3");
        reveal_strlit("4");
        reveal_strlit("5");
        reveal_strlit("6");
        reveal_strlit("7");
        reveal_strlit("8");
        reveal_strlit("9");
    }
    let text = if value == 0 {
        "0"
    } else if value == 1 {
        "1"
    } else if value == 2 {
        "2"
    } else if value == 3 {
        "3"
    } else if value == 4 {
        "4"
    } else if value == 5 {
        "5"
    } else if value == 6 {
        "6"
    } else if value == 7 {
        "7"
    } else if value == 8 {
        "8"
    } else {
        "9"
    };
    proof {
        assert(text@ =~= seq![digit_char(value as int)]);
    }
    text
}

/// Writes a number in decimal.
pub fn decimal_string(number: u32) -> (text: String)
    ensures
        text@ == decimal_text(number as nat),
    decreases number,
{
    if number < 10 {
        String::from_str(digit_text(number))
    } else {
        let mut text = decimal_string(number / 10);
        text.append(digit_text(number % 10));
        proof {
            let digit = digit_char((number % 10) as int);
            assert(decimal_text((number / 10) as nat) + seq![digit] == decimal_text(
                (number / 10) as nat,
            ).push(digit));
        }
        text
    }
}

/// The number that a hexadecimal digit stands for, in either case.
pub open spec fn hex_digit_value(c: char) -> Option<int> {
    let code = c as u32;
    if 48 <= code <= 57 {
        Some(code - 48)
    } else if 97 <= code <= 102 {
        Some(code - 87)
    } else if 65 <= code <= 70 {
        Some(code - 55)
    } else {
        None
    }
}

/// Whether `text` holds hexadecimal digits only.
pub open spec fn all_hex(text: Seq<char>) -> bool {
    forall|i: int| 0 <= i < text.len() ==> (#[trigger] hex_digit_value(text[i])) is Some
}

/// The number that a sequence of hexadecimal digits writes.
pub open spec fn hex_value(text: Seq<char>) -> int
    decreases text.len(),
{
    if text.len() == 0 {
        0
    } else {
        16 * hex_value(text.drop_last()) + hex_digit_value(text.last()).unwrap()
    }
}

/// The largest number that `digits` hexadecimal digits write, for up to four
/// digits.
pub open spec fn hex_bound(digits: int) -> int {
    if digits <= 0 {
        0
    } else if digits == 1 {
        0xf
    } else if digits == 2 {
        0xff
    } else if digits == 3 {
        0xfff
    } else {
        0xffff
    }
}

/// Reads one hexadecimal digit.
pub fn parse_hex_digit(c: char) -> (value: Option<u16>)
    ensures
        match value {
            Some(digit) => hex_digit_value(c) == Some(digit as int),
            None => hex_digit_value(c) is None,
        },
{
    let code = c as u32;
    if 48 <= code && code <= 57 {
        Some((code - 48) as u16)
    } else if 97 <= code && code <= 102 {
        Some((code - 87) as u16)
    } else if 65 <= code && code <= 70 {
        Some((code - 55) as u16)
    } else {
        None
    }
}

/// The hexadecimal digit that stands for `value`, in lower case; `f` for a
/// value above fifteen.
pub open spec fn hex_digit_char(value: int) -> char {
    if value == 0 {
        '0'
    } else if value == 1 {
        '1'
    } else if value == 2 {
        '2'
    } else if value == 3 {
        '3'
    } else if value == 4 {
        '4'
    } else if value == 5 {
        '5'
    } else if value == 6 {
        '6'
    } else if value == 7 {
        '7'
    } else if value == 8 {
        '8'
    } else if value == 9 {
        '9'
    } else if value == 10 {
        'a'
    } else if value == 11 {
        'b'
    } else if value == 12 {
        'c'
    } else if value == 13 {
        'd'
    } else if value == 14 {
        'e'
    } else {
        'f'
    }
}

/// `number` in hexadecimal, in lower case, with no zero before another
/// digit.
pub open spec fn hex_text(number: nat) -> Seq<char>
    decreases number,
{
    if number < 16 {
        seq![hex_digit_char(number as int)]
    } else {
        hex_text(number / 16).push(hex_digit_char((number % 16) as int))
    }
}

/// What `hex_text` writes reads back as the same number; it has at most four
/// digits for a number of sixteen bits, and holds neither a colon nor a dot.
pub proof fn lemma_hex_text(number: nat)
    ensures
        hex_text(number).len() >= 1,
        all_hex(hex_text(number)),
        hex_value(hex_text(number)) == number,
        number < 0x10 ==> hex_text(number).len() == 1,
        number < 0x100 ==> hex_text(number).len() <= 2,
        number < 0x1000 ==> hex_text(number).len() <= 3,
        number < 0x10000 ==> hex_text(number).len() <= 4,
        forall|i: int|
            0 <= i < hex_text(number).len() ==> hex_text(number)[i] != ':' && hex_text(number)[i]
                != '.',
    decreases number,
{
    let text = hex_text(number);
    if number < 16 {
        assert(text.drop_last() == Seq::<char>::empty());
        assert(hex_value(text.drop_last()) == 0);
    } else {
        lemma_hex_text(number / 16);
        let shorter = hex_text(number / 16);
        let digit = hex_digit_char((number % 16) as int);
        assert(text == shorter.push(digit));
        assert(text.drop_last() == shorter);
        assert(text.last() == digit);
        assert forall|i: int| 0 <= i < text.len() implies (#[trigger] hex_digit_value(text[i]))
            is Some by {
            if i < shorter.len() {
                assert(text[i] == shorter[i]);
            }
        }
        assert forall|i: int| 0 <= i < text.len() implies text[i] != ':' && text[i] != '.' by {
            if i < shorter.len() {
                assert(text[i] == shorter[i]);
            }
        }
    }
}

/// One hexadecimal digit as a text; `f` for a value above fifteen.
pub fn hex_digit_text(value: u32) -> (text: &'static str)
    ensures
        text@ == seq![hex_digit_char(value as int)],
{
    proof {
        reveal_strlit("0");
        reveal_strlit("1");
        reveal_strlit("2");
        reveal_strlit("3");
        reveal_strlit("4");
        reveal_strlit("5");
        reveal_strlit("6");
        reveal_strlit("7");
        reveal_strlit("8");
        reveal_strlit("9");
        reveal_strlit("a");
        reveal_strlit("b");
        reveal_strlit("c");
        reveal_strlit("d");
        reveal_strlit("e");
        reveal_strlit("f");
    }
    let text = if value == 0 {
        "0"
    } else if value == 1 {
        "1"
    } else if value == 2 {
        "2"
    } else if value == 3 {
        "3"
    } else if value == 4 {
        "4"
    } else if value == 5 {
        "5"
    } else if value == 6 {
        "6"
    } else if value == 7 {
        "7"
    } else if value == 8 {
        "8"
    } else if value == 9 {
        "9"
    } else if value == 10 {
        "a"
    } else if value == 11 {
        "b"
    } else if value == 12 {
        "c"
    } else if value == 13 {
        "d"
    } else if value == 14 {
        "e"
    } else {
        "f"
    };
    proof {
        assert(text@ =~= seq![hex_digit_char(value as int)]);
    }
    text
}

/// Writes a number in hexadecimal.
pub fn hex_string(number: u32) -> (text: String)
    ensures
        text@ == hex_text(number as nat),
    decreases number,
{
    if number < 16 {
        String::from_str(hex_digit_text(number))
    } else {
        let mut text = hex_string(number / 16);
        text.append(hex_digit_text(number % 16));
        proof {
            let digit = hex_digit_char((number % 16) as int);
            assert(hex_text((number / 16) as nat) + seq![digit] == hex_text(
                (number / 16) as nat,
            ).push(digit));
        }
        text
    }
}

} // verus!
