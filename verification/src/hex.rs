//! Lower-case hexadecimal text for bytes, and its reading back.

use vstd::prelude::*;

verus! {

/// The hexadecimal digit of a nibble.
pub open spec fn nibble_char(v: u8) -> char {
    match v {
        0 => '0',
        1 => '1',
        2 => '2',
        3 => '3',
        4 => '4',
        5 => '5',
        6 => '6',
        7 => '7',
        8 => '8',
        9 => '9',
        10 => 'a',
        11 => 'b',
        12 => 'c',
        13 => 'd',
        14 => 'e',
        _ => 'f',
    }
}

/// The value of a hexadecimal digit (either case), where `c` is one.
pub open spec fn char_nibble(c: char) -> Option<u8> {
    match c {
        '0' => Some(0u8),
        '1' => Some(1u8),
        '2' => Some(2u8),
        '3' => Some(3u8),
        '4' => Some(4u8),
        '5' => Some(5u8),
        '6' => Some(6u8),
        '7' => Some(7u8),
        '8' => Some(8u8),
        '9' => Some(9u8),
        'a' | 'A' => Some(10u8),
        'b' | 'B' => Some(11u8),
        'c' | 'C' => Some(12u8),
        'd' | 'D' => Some(13u8),
        'e' | 'E' => Some(14u8),
        'f' | 'F' => Some(15u8),
        _ => None,
    }
}

/// Two lower-case hexadecimal digits per byte, high nibble first.
pub open spec fn hex_spec(bytes: Seq<u8>) -> Seq<char>
    decreases bytes.len(),
{
    if bytes.len() == 0 {
        Seq::empty()
    } else {
        let b = bytes.last();
        hex_spec(bytes.drop_last()).push(nibble_char(b / 16)).push(nibble_char(b % 16))
    }
}

/// The bytes that hexadecimal text stands for; none where its length is odd or
/// a character is not a hexadecimal digit.
pub open spec fn unhex_spec(text: Seq<char>) -> Option<Seq<u8>>
    decreases text.len(),
{
    if text.len() % 2 != 0 {
        None
    } else if text.len() == 0 {
        Some(Seq::empty())
    } else {
        let n = text.len();
        match (unhex_spec(text.subrange(0, n - 2)), char_nibble(text[n - 2]), char_nibble(text[n - 1])) {
            (Some(prefix), Some(high), Some(low)) => Some(prefix.push((high * 16 + low) as u8)),
            _ => None,
        }
    }
}

pub(crate) fn nibble_to_hex(v: u8) -> (c: char)
    requires
        v < 16,
    ensures
        c == nibble_char(v),
{
    match v {
        0 => '0',
        1 => '1',
        2 => '2',
        3 => '3',
        4 => '4',
        5 => '5',
        6 => '6',
        7 => '7',
        8 => '8',
        9 => '9',
        10 => 'a',
        11 => 'b',
        12 => 'c',
        13 => 'd',
        14 => 'e',
        _ => 'f',
    }
}

fn hex_to_nibble(c: char) -> (r: Option<u8>)
    ensures
        r == char_nibble(c),
        r matches Some(v) ==> v < 16,
{
    match c {
        '0' => Some(0),
        '1' => Some(1),
        '2' => Some(2),
        '3' => Some(3),
        '4' => Some(4),
        '5' => Some(5),
        '6' => Some(6),
        '7' => Some(7),
        '8' => Some(8),
        '9' => Some(9),
        'a' | 'A' => Some(10),
        'b' | 'B' => Some(11),
        'c' | 'C' => Some(12),
        'd' | 'D' => Some(13),
        'e' | 'E' => Some(14),
        'f' | 'F' => Some(15),
        _ => None,
    }
}

/// Lower-case hexadecimal text for `bytes`.
pub fn encode_hex(bytes: &[u8]) -> (r: String)
    ensures
        r@ == hex_spec(bytes@),
{
    let mut out = String::new();
    let mut i: usize = 0;
    while i < bytes.len()
        invariant
            i <= bytes@.len(),
            out@ == hex_spec(bytes@.subrange(0, i as int)),
        decreases bytes@.len() - i,
    {
        let b = bytes[i];
        let ghost pre = bytes@.subrange(0, i + 1);
        assert(pre.drop_last() == bytes@.subrange(0, i as int));
        assert(pre.last() == b);
        out.push(nibble_to_hex(b / 16));
        out.push(nibble_to_hex(b % 16));
        i = i + 1;
    }
    assert(bytes@.subrange(0, bytes@.len() as int) == bytes@);
    out
}

/// The bytes that hexadecimal text stands for.
pub fn decode_hex(text: &str) -> (r: Option<Vec<u8>>)
    ensures
        match r {
            Some(v) => unhex_spec(text@) == Some(v@),
            None => unhex_spec(text@) is None,
        },
{
    let n = text.unicode_len();
    if n % 2 != 0 {
        return None;
    }
    let mut out: Vec<u8> = Vec::new();
    let mut i: usize = 0;
    while i < n
        invariant
            n == text@.len(),
            n % 2 == 0,
            i % 2 == 0,
            i <= n,
            unhex_spec(text@.subrange(0, i as int)) == Some(out@),
        decreases n - i,
    {
        let ghost pre = text@.subrange(0, i + 2);
        assert(pre.subrange(0, i as int) == text@.subrange(0, i as int));
        assert(pre[i as int] == text@[i as int]);
        assert(pre[i + 1] == text@[i + 1]);
        let high = hex_to_nibble(text.get_char(i));
        let low = hex_to_nibble(text.get_char(i + 1));
        match (high, low) {
            (Some(h), Some(l)) => {
                out.push(h * 16 + l);
            },
            _ => {
                proof {
                    lemma_unhex_none_extends(text@, i as int);
                }
                return None;
            },
        }
        i = i + 2;
    }
    assert(text@.subrange(0, n as int) == text@);
    Some(out)
}

/// A bad pair of digits spoils the whole text.
pub proof fn lemma_unhex_none_extends(text: Seq<char>, i: int)
    requires
        0 <= i,
        i + 2 <= text.len(),
        i % 2 == 0,
        text.len() % 2 == 0,
        char_nibble(text[i]) is None || char_nibble(text[i + 1]) is None,
    ensures
        unhex_spec(text) is None,
    decreases text.len(),
{
    let n = text.len();
    if i + 2 == n {
        assert(text.subrange(0, n - 2).len() == n - 2);
    } else {
        let p = text.subrange(0, n - 2);
        assert(p[i] == text[i] && p[i + 1] == text[i + 1]);
        lemma_unhex_none_extends(p, i);
    }
}

/// Reading back what `encode_hex` wrote gives the bytes again.
pub proof fn law_hex_roundtrip(bytes: Seq<u8>)
    ensures
        unhex_spec(hex_spec(bytes)) == Some(bytes),
    decreases bytes.len(),
{
    if bytes.len() > 0 {
        let p = bytes.drop_last();
        let b = bytes.last();
        law_hex_roundtrip(p);
        let t = hex_spec(bytes);
        let n = t.len();
        lemma_hex_len(p);
        assert(t.subrange(0, n - 2) == hex_spec(p));
        assert(t[n - 2] == nibble_char(b / 16));
        assert(t[n - 1] == nibble_char(b % 16));
        lemma_nibble_roundtrip(b / 16);
        lemma_nibble_roundtrip(b % 16);
        assert(bytes == p.push(b));
    } else {
        assert(hex_spec(bytes) == Seq::<char>::empty());
    }
}

pub proof fn lemma_hex_len(bytes: Seq<u8>)
    ensures
        hex_spec(bytes).len() == 2 * bytes.len(),
    decreases bytes.len(),
{
    if bytes.len() > 0 {
        lemma_hex_len(bytes.drop_last());
    }
}

pub proof fn lemma_nibble_roundtrip(v: u8)
    requires
        v < 16,
    ensures
        char_nibble(nibble_char(v)) == Some(v),
{
}

/// A lower-case hexadecimal digit.
pub open spec fn is_lower_hex_digit(c: char) -> bool {
    ('0' <= c && c <= '9') || ('a' <= c && c <= 'f')
}

/// Every character `encode_hex` writes is a lower-case hexadecimal digit.
pub proof fn lemma_hex_digits(bytes: Seq<u8>)
    ensures
        forall|i: int| 0 <= i < hex_spec(bytes).len() ==> is_lower_hex_digit(#[trigger] hex_spec(bytes)[i]),
    decreases bytes.len(),
{
    if bytes.len() > 0 {
        let p = bytes.drop_last();
        let b = bytes.last();
        lemma_hex_digits(p);
        assert(is_lower_hex_digit(nibble_char(b / 16)));
        assert(is_lower_hex_digit(nibble_char(b % 16)));
        let t = hex_spec(bytes);
        assert forall|i: int| 0 <= i < t.len() implies is_lower_hex_digit(#[trigger] t[i]) by {
            if i < hex_spec(p).len() {
                assert(t[i] == hex_spec(p)[i]);
            }
        }
    }
}

} // verus!
