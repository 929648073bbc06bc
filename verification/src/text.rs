//! Hexadecimal text: what a string of digits spells, as a number and as
//! bytes.

use vstd::prelude::*;

verus! {

/// The value of the hexadecimal digit of either case with the code `n`:
/// `0` to `9`, `a` to `f`, `A` to `F`.
pub open spec fn hex_digit_code(n: int) -> Option<nat> {
    if 48 <= n <= 57 {
        Some((n - 48) as nat)
    } else if 97 <= n <= 102 {
        Some((n - 87) as nat)
    } else if 65 <= n <= 70 {
        Some((n - 55) as nat)
    } else {
        None
    }
}

/// The value of a hexadecimal digit of either case.
pub open spec fn hex_digit(c: char) -> Option<nat> {
    hex_digit_code(c as int)
}

/// Whether every character is a hexadecimal digit.
pub open spec fn all_hex(s: Seq<char>) -> bool {
    forall|i: int| 0 <= i < s.len() ==> (#[trigger] hex_digit(s[i])).is_some()
}

/// The number that the digits spell, most significant first.
pub open spec fn hex_value(s: Seq<char>) -> nat
    decreases s.len(),
{
    if s.len() == 0 {
        0
    } else {
        hex_value(s.drop_last()) * 16 + hex_digit(s.last()).unwrap_or(0)
    }
}

/// The text without one leading `0x`.
pub open spec fn strip_prefix(s: Seq<char>) -> Seq<char> {
    if s.len() >= 2 && s[0] == '0' && s[1] == 'x' {
        s.skip(2)
    } else {
        s
    }
}

/// The number that a field of the context spells: after one optional `0x`,
/// up to 64 hexadecimal digits.  The empty text spells zero.
pub open spec fn hex_number(s: Seq<char>) -> Option<nat> {
    let digits = strip_prefix(s);
    if digits.len() <= 64 && all_hex(digits) {
        Some(hex_value(digits))
    } else {
        None
    }
}

/// The bytes that a text of hexadecimal digits spells, two digits to a byte.
pub open spec fn hex_bytes(s: Seq<char>) -> Option<Seq<u8>> {
    if s.len() % 2 == 0 && all_hex(s) {
        Some(
            Seq::new(
                s.len() / 2,
                |i: int|
                    (hex_digit(s[2 * i]).unwrap_or(0) * 16 + hex_digit(s[2 * i + 1]).unwrap_or(
                        0,
                    )) as u8,
            ),
        )
    } else {
        None
    }
}

/// The sixteen lower-case digits.
pub open spec fn lower_digits() -> Seq<char> {
    seq!['0', '1', '2', '3', '4', '5', '6', '7', '8', '9', 'a', 'b', 'c', 'd', 'e', 'f']
}

/// `n` in lower-case hexadecimal digits, without leading zeros; `0` for zero.
pub open spec fn lower_hex(n: nat) -> Seq<char>
    decreases n,
{
    if n < 16 {
        seq![lower_digits()[n as int]]
    } else {
        lower_hex(n / 16).push(lower_digits()[(n % 16) as int])
    }
}

/// The value of the hexadecimal digit that a byte spells in ASCII.
pub fn digit_value(b: u8) -> (r: Option<u8>)
    ensures
        match r {
            Some(v) => hex_digit_code(b as int) == Some(v as nat),
            None => hex_digit_code(b as int).is_none(),
        },
{
    if 48 <= b && b <= 57 {
        Some(b - 48)
    } else if 97 <= b && b <= 102 {
        Some(b - 87)
    } else if 65 <= b && b <= 70 {
        Some(b - 55)
    } else {
        None
    }
}

/// The bytes that a text of hexadecimal digits spells, two digits of either
/// case to a byte.  `None` for a text of odd length or with any other
/// character.
pub fn decode(text: &str) -> (r: Option<Vec<u8>>)
    ensures
        match r {
            Some(v) => hex_bytes(text@) == Some(v@),
            None => hex_bytes(text@).is_none(),
        },
{
    broadcast use vstd::string::is_ascii_spec_bytes;

    if !text.is_ascii() {
        proof {
            let i = choose|i: int|
                0 <= i < text@.len() && !('\0' <= #[trigger] text@[i] <= '\u{7f}');
            assert(hex_digit(text@[i]).is_none());
        }
        return None;
    }
    let bytes = text.as_bytes();
    let n: usize = bytes.len();
    assert(n == text@.len());
    assert(forall|j: int| 0 <= j < n ==> bytes@[j] as int == #[trigger] text@[j] as int);
    if n % 2 != 0 {
        return None;
    }
    let mut out: Vec<u8> = Vec::new();
    let mut i: usize = 0;
    while i < n
        invariant
            i <= n,
            i % 2 == 0,
            n % 2 == 0,
            n == text@.len(),
            n == bytes@.len(),
            forall|j: int| 0 <= j < n ==> bytes@[j] as int == #[trigger] text@[j] as int,
            forall|j: int| 0 <= j < i ==> (#[trigger] hex_digit(text@[j])).is_some(),
            out@.len() == i / 2,
            forall|k: int|
                0 <= k < out@.len() ==> out@[k] == (hex_digit(text@[2 * k]).unwrap_or(0) * 16
                    + hex_digit(text@[2 * k + 1]).unwrap_or(0)) as u8,
        decreases n - i,
    {
        let high = digit_value(bytes[i]);
        let low = digit_value(bytes[i + 1]);
        assert(bytes@[i as int] as int == text@[i as int] as int);
        assert(bytes@[i + 1] as int == text@[i + 1] as int);
        match (high, low) {
            (Some(h), Some(l)) => {
                out.push(h * 16 + l);
            },
            _ => {
                assert(hex_digit(text@[i as int]).is_none() || hex_digit(
                    text@[i + 1],
                ).is_none());
                return None;
            },
        }
        i += 2;
    }
    assert(out@ =~= hex_bytes(text@).unwrap());
    Some(out)
}

} // verus!
