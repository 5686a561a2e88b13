//! Lower-case hexadecimal text of bytes, as the `hex` crate writes and reads it.

use vstd::prelude::*;

verus! {

/// The hexadecimal digit of `n < 16`, lower case.
pub open spec fn hex_digit(n: int) -> char {
    if n < 10 {
        ((n + 48) as u32) as char
    } else {
        ((n + 87) as u32) as char
    }
}

/// The value of a hexadecimal digit of either case.
pub open spec fn hex_value(c: char) -> Option<int> {
    let u = c as u32;
    if 48 <= u <= 57 {
        Some(u - 48)
    } else if 97 <= u <= 102 {
        Some(u - 87)
    } else if 65 <= u <= 70 {
        Some(u - 55)
    } else {
        None
    }
}

/// The lower-case hexadecimal text of `b`: two digits per byte, high nibble first.
pub open spec fn hex_of(b: Seq<u8>) -> Seq<char>
    decreases b.len(),
{
    if b.len() == 0 {
        Seq::empty()
    } else {
        hex_of(b.drop_last()) + seq![hex_digit(b.last() as int / 16), hex_digit(b.last() as int % 16)]
    }
}

/// The bytes a hexadecimal text stands for: `None` unless it has an even number
/// of characters, each a hexadecimal digit of either case.
pub open spec fn hex_decoded(s: Seq<char>) -> Option<Seq<u8>>
    decreases s.len(),
{
    if s.len() % 2 != 0 {
        None
    } else if s.len() == 0 {
        Some(Seq::empty())
    } else {
        match (hex_decoded(s.subrange(0, s.len() - 2)), hex_value(s[s.len() - 2]), hex_value(s[s.len() - 1])) {
            (Some(front), Some(hi), Some(lo)) => Some(front.push((hi * 16 + lo) as u8)),
            _ => None,
        }
    }
}

proof fn lemma_digit_value(n: int)
    requires
        0 <= n < 16,
    ensures
        hex_value(hex_digit(n)) == Some(n),
{
    if n < 10 {
        assert(((n + 48) as u32) as char as u32 == (n + 48) as u32) by {
            vstd::utf8::char_u32_cast(((n + 48) as u32) as char, ((n + 48) as u32) as char as u32);
        }
    } else {
        assert(((n + 87) as u32) as char as u32 == (n + 87) as u32) by {
            vstd::utf8::char_u32_cast(((n + 87) as u32) as char, ((n + 87) as u32) as char as u32);
        }
    }
}

proof fn lemma_hex_len(b: Seq<u8>)
    ensures
        hex_of(b).len() == 2 * b.len(),
    decreases b.len(),
{
    if b.len() > 0 {
        lemma_hex_len(b.drop_last());
    }
}

/// Reading back the hexadecimal text of some bytes gives those bytes.
pub proof fn lemma_hex_roundtrip(b: Seq<u8>)
    ensures
        hex_decoded(hex_of(b)) == Some(b),
    decreases b.len(),
{
    if b.len() > 0 {
        let front = b.drop_last();
        let x = b.last();
        lemma_hex_roundtrip(front);
        lemma_hex_len(front);
        lemma_hex_len(b);
        let s = hex_of(b);
        assert(s.subrange(0, s.len() - 2) =~= hex_of(front));
        lemma_digit_value(x as int / 16);
        lemma_digit_value(x as int % 16);
        assert(s[s.len() - 2] == hex_digit(x as int / 16));
        assert(s[s.len() - 1] == hex_digit(x as int % 16));
        assert((x as int / 16) * 16 + x as int % 16 == x as int);
        assert(front.push(x) =~= b);
    } else {
        assert(hex_of(b) =~= Seq::<char>::empty());
    }
}

} // verus!
