//! Verified rendering of numbers and bytes as text.

use vstd::prelude::*;

verus! {

/// The character for one decimal digit.
pub open spec fn spec_digit_char(d: int) -> char
    recommends
        0 <= d < 10,
{
    if d == 0 {
        '0'
    } else if d == 1 {
        '1'
    } else if d == 2 {
        '2'
    } else if d == 3 {
        '3'
    } else if d == 4 {
        '4'
    } else if d == 5 {
        '5'
    } else if d == 6 {
        '6'
    } else if d == 7 {
        '7'
    } else if d == 8 {
        '8'
    } else {
        '9'
    }
}

/// The decimal digits of a number, most significant first.
pub open spec fn spec_decimal(n: int) -> Seq<char>
    recommends
        n >= 0,
    decreases n,
{
    if n <= 0 {
        Seq::empty()
    } else {
        spec_decimal(n / 10).push(spec_digit_char(n % 10))
    }
}

/// The decimal rendering of a number: its digits, or "0" for zero.
pub open spec fn spec_decimal_string(n: int) -> Seq<char> {
    if n == 0 {
        seq!['0']
    } else {
        spec_decimal(n)
    }
}

/// The character for one hexadecimal digit.
pub open spec fn spec_hex_char(d: int) -> char
    recommends
        0 <= d < 16,
{
    if d < 10 {
        spec_digit_char(d)
    } else if d == 10 {
        'a'
    } else if d == 11 {
        'b'
    } else if d == 12 {
        'c'
    } else if d == 13 {
        'd'
    } else if d == 14 {
        'e'
    } else {
        'f'
    }
}

/// The two hexadecimal characters of one byte.
pub open spec fn spec_hex_byte(b: u8) -> Seq<char> {
    seq![spec_hex_char(b as int / 16), spec_hex_char(b as int % 16)]
}

/// The hexadecimal rendering of a byte string.
pub open spec fn spec_hex(bytes: Seq<u8>) -> Seq<char>
    decreases bytes.len(),
{
    if bytes.len() == 0 {
        Seq::empty()
    } else {
        spec_hex(bytes.drop_last()) + spec_hex_byte(bytes.last())
    }
}

/// Appends the character for one decimal digit.
fn push_digit_char(out: &mut String, d: u8)
    requires
        d < 10,
    ensures
        final(out)@ == old(out)@.push(spec_digit_char(d as int)),
{
    let s: &str = match d {
        0 => "0",
        1 => "1",
        2 => "2",
        3 => "3",
        4 => "4",
        5 => "5",
        6 => "6",
        7 => "7",
        8 => "8",
        _ => "9",
    };
    proof {
        reveal_strlit("0");
        reveal_strlit("1");
        reveal_strlit("2");
        reveal_strlit("3");
        reveal_strlit("4");
        reveal_strlit("5");
        reveal_strlit("6");
        reveal_strlit("7");
        reveal_strlit("8");
        reveal_strlit("9");
    }
    out.append(s);
    proof {
        assert(out@ =~= old(out)@.push(spec_digit_char(d as int)));
    }
}

/// Appends the character for one hexadecimal digit.
fn push_hex_char(out: &mut String, d: u8)
    requires
        d < 16,
    ensures
        final(out)@ == old(out)@.push(spec_hex_char(d as int)),
{
    if d < 10 {
        push_digit_char(out, d);
    } else {
        let s: &str = match d {
            10 => "a",
            11 => "b",
            12 => "c",
            13 => "d",
            14 => "e",
            _ => "f",
        };
        proof {
            reveal_strlit("a");
            reveal_strlit("b");
            reveal_strlit("c");
            reveal_strlit("d");
            reveal_strlit("e");
            reveal_strlit("f");
        }
        out.append(s);
        proof {
            assert(out@ =~= old(out)@.push(spec_hex_char(d as int)));
        }
    }
}

/// Appends the decimal rendering of a number.
pub fn append_decimal(out: &mut String, n: u64)
    ensures
        final(out)@ == old(out)@ + spec_decimal_string(n as int),
{
    if n == 0 {
        push_digit_char(out, 0);
        proof {
            assert(out@ =~= old(out)@ + spec_decimal_string(0));
        }
        return ;
    }
    let mut digits: Vec<u8> = Vec::new();
    let mut m: u64 = n;
    while m > 0
        invariant
            0 <= m <= n,
            forall|i: int| 0 <= i < digits@.len() ==> #[trigger] digits@[i] < 10,
            spec_decimal(n as int) == spec_decimal(m as int) + digits_chars_rev(digits@),
        decreases m,
    {
        let d: u8 = (m % 10) as u8;
        let ghost pre = digits@;
        digits.push(d);
        m = m / 10;
        proof {
            assert(digits@.drop_last() =~= pre);
            assert(digits_chars_rev(digits@) == seq![spec_digit_char(d as int)]
                + digits_chars_rev(pre));
            assert(spec_decimal((m * 10 + d) as int) == spec_decimal(m as int).push(
                spec_digit_char(d as int),
            ));
            assert(spec_decimal(m as int).push(spec_digit_char(d as int)) + digits_chars_rev(pre)
                =~= spec_decimal(m as int) + digits_chars_rev(digits@));
        }
    }
    proof {
        lemma_digits_chars_rev_props(digits@);
    }
    let n_digits = digits.len();
    let mut i: usize = n_digits;
    while i > 0
        invariant
            i <= n_digits,
            n_digits == digits@.len(),
            forall|k: int| 0 <= k < digits@.len() ==> #[trigger] digits@[k] < 10,
            digits_chars_rev(digits@).len() == digits@.len(),
            forall|k: int|
                0 <= k < digits@.len() ==> #[trigger] digits_chars_rev(digits@)[k]
                    == spec_digit_char(digits@[digits@.len() - 1 - k] as int),
            out@ == old(out)@ + digits_chars_rev(digits@).take((n_digits - i) as int),
        decreases i,
    {
        i = i - 1;
        push_digit_char(out, digits[i]);
        proof {
            let rv = digits_chars_rev(digits@);
            let pos = (n_digits - 1 - i) as int;
            assert(rv[pos] == spec_digit_char(digits@[i as int] as int));
            assert(rv.take(pos + 1) =~= rv.take(pos).push(rv[pos]));
            assert(out@ =~= old(out)@ + rv.take((n_digits - i) as int));
        }
    }
    proof {
        let rv = digits_chars_rev(digits@);
        assert(rv.take(rv.len() as int) =~= rv);
        assert(spec_decimal(0) + rv =~= rv);
        assert(out@ =~= old(out)@ + spec_decimal_string(n as int));
    }
}

/// The reversed digit characters have one character per digit, the last
/// digit first.
proof fn lemma_digits_chars_rev_props(digits: Seq<u8>)
    ensures
        digits_chars_rev(digits).len() == digits.len(),
        forall|k: int|
            0 <= k < digits.len() ==> #[trigger] digits_chars_rev(digits)[k] == spec_digit_char(
                digits[digits.len() - 1 - k] as int,
            ),
    decreases digits.len(),
{
    if digits.len() > 0 {
        lemma_digits_chars_rev_props(digits.drop_last());
        assert forall|k: int|
            0 <= k < digits.len() implies #[trigger] digits_chars_rev(digits)[k]
            == spec_digit_char(digits[digits.len() - 1 - k] as int) by {
            if k > 0 {
                assert(digits_chars_rev(digits)[k] == digits_chars_rev(digits.drop_last())[k - 1]);
            }
        }
    }
}

/// The characters of collected digits, read last to first.
pub open spec fn digits_chars_rev(digits: Seq<u8>) -> Seq<char>
    decreases digits.len(),
{
    if digits.len() == 0 {
        Seq::empty()
    } else {
        seq![spec_digit_char(digits.last() as int)] + digits_chars_rev(digits.drop_last())
    }
}


/// Appends the hexadecimal rendering of a byte string.
pub fn append_hex(out: &mut String, bytes: &Vec<u8>)
    ensures
        final(out)@ == old(out)@ + spec_hex(bytes@),
{
    let mut i: usize = 0;
    proof {
        assert(spec_hex(bytes@.take(0)) =~= Seq::<char>::empty());
        assert(out@ =~= old(out)@ + spec_hex(bytes@.take(0)));
    }
    while i < bytes.len()
        invariant
            i <= bytes@.len(),
            out@ == old(out)@ + spec_hex(bytes@.take(i as int)),
        decreases bytes@.len() - i,
    {
        let b = bytes[i];
        push_hex_char(out, b / 16);
        push_hex_char(out, b % 16);
        proof {
            assert(bytes@.take(i + 1).drop_last() =~= bytes@.take(i as int));
            assert(bytes@.take(i + 1).last() == bytes@[i as int]);
            assert(out@ =~= old(out)@ + spec_hex(bytes@.take(i + 1)));
        }
        i += 1;
    }
    proof {
        assert(bytes@.take(bytes@.len() as int) =~= bytes@);
    }
}

} // verus!
