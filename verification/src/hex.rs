//! Hexadecimal text: decoding hash-list entries into raw digest bytes, and
//! encoding digest bytes back into lowercase hex for rendering.

use vstd::prelude::*;

verus! {

/// The numeric value of a hex digit; 16 marks a character that is no hex digit.
pub open spec fn hex_digit_value(c: char) -> nat {
    match c {
        '0' => 0,
        '1' => 1,
        '2' => 2,
        '3' => 3,
        '4' => 4,
        '5' => 5,
        '6' => 6,
        '7' => 7,
        '8' => 8,
        '9' => 9,
        'a' => 10,
        'b' => 11,
        'c' => 12,
        'd' => 13,
        'e' => 14,
        'f' => 15,
        'A' => 10,
        'B' => 11,
        'C' => 12,
        'D' => 13,
        'E' => 14,
        'F' => 15,
        _ => 16,
    }
}

pub open spec fn is_hex_digit(c: char) -> bool {
    hex_digit_value(c) < 16
}

/// A well-formed hex string: even length, hex digits throughout.
pub open spec fn is_hex_seq(s: Seq<char>) -> bool {
    &&& s.len() % 2 == 0
    &&& forall|i: int| 0 <= i < s.len() ==> is_hex_digit(#[trigger] s[i])
}

/// The bytes a well-formed hex string denotes: one byte per digit pair.
pub open spec fn hex_decode(s: Seq<char>) -> Seq<u8> {
    Seq::new(
        s.len() / 2,
        |k: int| (hex_digit_value(s[2 * k]) * 16 + hex_digit_value(s[2 * k + 1])) as u8,
    )
}

/// The lowercase hex digit for a value below 16.
pub open spec fn hex_digit_char(v: nat) -> char {
    if v == 0 {
        '0'
    } else if v == 1 {
        '1'
    } else if v == 2 {
        '2'
    } else if v == 3 {
        '3'
    } else if v == 4 {
        '4'
    } else if v == 5 {
        '5'
    } else if v == 6 {
        '6'
    } else if v == 7 {
        '7'
    } else if v == 8 {
        '8'
    } else if v == 9 {
        '9'
    } else if v == 10 {
        'a'
    } else if v == 11 {
        'b'
    } else if v == 12 {
        'c'
    } else if v == 13 {
        'd'
    } else if v == 14 {
        'e'
    } else {
        'f'
    }
}

/// Lowercase hex encoding of a byte sequence: two digits per byte.
pub open spec fn hex_encode(b: Seq<u8>) -> Seq<char> {
    Seq::new(
        2 * b.len(),
        |i: int|
            if i % 2 == 0 {
                hex_digit_char((b[i / 2] as nat) / 16)
            } else {
                hex_digit_char((b[i / 2] as nat) % 16)
            },
    )
}

/// Case folding restricted to the hex alphabet: uppercase digits become
/// lowercase, everything else is left alone.
pub open spec fn lower_hex_char(c: char) -> char {
    match c {
        'A' => 'a',
        'B' => 'b',
        'C' => 'c',
        'D' => 'd',
        'E' => 'e',
        'F' => 'f',
        _ => c,
    }
}

proof fn lemma_digit_round(c: char)
    requires
        is_hex_digit(c),
    ensures
        hex_digit_char(hex_digit_value(c)) == lower_hex_char(c),
{
}

/// Decoding a well-formed hex string and re-encoding it yields the original
/// string with its hex digits folded to lowercase.
pub proof fn lemma_hex_round_trip(s: Seq<char>)
    requires
        is_hex_seq(s),
    ensures
        hex_encode(hex_decode(s)) == s.map_values(|c: char| lower_hex_char(c)),
{
    let enc = hex_encode(hex_decode(s));
    let low = s.map_values(|c: char| lower_hex_char(c));
    assert(enc.len() == low.len());
    assert forall|i: int| 0 <= i < s.len() implies enc[i] == low[i] by {
        let k = i / 2;
        let v1 = hex_digit_value(s[2 * k]);
        let v2 = hex_digit_value(s[2 * k + 1]);
        assert(v1 < 16 && v2 < 16);
        let b = (v1 * 16 + v2) as u8;
        assert(hex_decode(s)[k] == b);
        assert((b as nat) / 16 == v1 && (b as nat) % 16 == v2) by (nonlinear_arith)
            requires
                v1 < 16,
                v2 < 16,
                b == (v1 * 16 + v2) as u8,
        ;
        if i % 2 == 0 {
            assert(2 * k == i);
            lemma_digit_round(s[i]);
        } else {
            assert(2 * k + 1 == i);
            lemma_digit_round(s[i]);
        }
    }
    assert(enc =~= low);
}

/// The numeric value of one hex digit character, `None` when the character is
/// not a hex digit.
pub fn hex_digit_val(c: char) -> (r: Option<u8>)
    ensures
        r is Some <==> is_hex_digit(c),
        r is Some ==> r->0 == hex_digit_value(c),
{
    match c {
        '0' => Some(0),
        '1' => Some(1),
        '2' => Some(2),
        '3' => Some(3),
        '4' => Some(4),
        '5' => Some(5),
        '6' => Some(6),
        '7' => Some(7),
        '8' => Some(8),
        '9' => Some(9),
        'a' => Some(10),
        'b' => Some(11),
        'c' => Some(12),
        'd' => Some(13),
        'e' => Some(14),
        'f' => Some(15),
        'A' => Some(10),
        'B' => Some(11),
        'C' => Some(12),
        'D' => Some(13),
        'E' => Some(14),
        'F' => Some(15),
        _ => None,
    }
}

/// Decodes a hex string into its bytes: succeeds exactly on even-length
/// strings of hex digits, and rejects everything else.
pub fn hex_to_bytes(s: &str) -> (r: Option<Vec<u8>>)
    ensures
        r is Some <==> is_hex_seq(s@),
        r is Some ==> r->0@ == hex_decode(s@),
{
    let n = s.unicode_len();
    if n % 2 != 0 {
        return None;
    }
    let mut out: Vec<u8> = Vec::new();
    let mut i: usize = 0;
    while i < n
        invariant
            n == s@.len(),
            n % 2 == 0,
            i % 2 == 0,
            i <= n,
            forall|j: int| 0 <= j < i ==> is_hex_digit(#[trigger] s@[j]),
            out@ == hex_decode(s@.subrange(0, i as int)),
        decreases n - i,
    {
        let c1 = s.get_char(i);
        let c2 = s.get_char(i + 1);
        let v1 = match hex_digit_val(c1) {
            Some(v) => v,
            None => {
                assert(!is_hex_digit(s@[i as int]));
                return None;
            },
        };
        let v2 = match hex_digit_val(c2) {
            Some(v) => v,
            None => {
                assert(!is_hex_digit(s@[i as int + 1]));
                return None;
            },
        };
        out.push(v1 * 16 + v2);
        proof {
            let pre = s@.subrange(0, i as int);
            let post = s@.subrange(0, i as int + 2);
            assert(post.len() / 2 == pre.len() / 2 + 1);
            assert forall|k: int| 0 <= k < post.len() / 2 implies hex_decode(post)[k] == out@[k] by {
                if k < pre.len() / 2 {
                    assert(hex_decode(pre)[k] == out@[k]);
                }
            }
            assert(out@ =~= hex_decode(post));
        }
        i = i + 2;
    }
    proof {
        assert(s@.subrange(0, n as int) =~= s@);
    }
    Some(out)
}

/// One lowercase hex digit as a string slice.
pub(crate) fn hex_char_str(v: u8) -> (r: &'static str)
    requires
        v < 16,
    ensures
        r@ =~= seq![hex_digit_char(v as nat)],
{
    proof {
        reveal_strlit("0");
        reveal_strlit("1");
        reveal_strlit("2");
        reveal_strlit("3");
        reveal_strlit("4");
        reveal_strlit("5");
        reveal_strlit("6");
        reveal_strlit("7");
        reveal_strlit("8");
        reveal_strlit("9");
        reveal_strlit("a");
        reveal_strlit("b");
        reveal_strlit("c");
        reveal_strlit("d");
        reveal_strlit("e");
        reveal_strlit("f");
    }
    match v {
        0 => "0",
        1 => "1",
        2 => "2",
        3 => "3",
        4 => "4",
        5 => "5",
        6 => "6",
        7 => "7",
        8 => "8",
        9 => "9",
        10 => "a",
        11 => "b",
        12 => "c",
        13 => "d",
        14 => "e",
        _ => "f",
    }
}

/// Encodes bytes as lowercase hex text, two digits per byte.
pub fn bytes_to_hex(bytes: &[u8]) -> (r: String)
    ensures
        r@ == hex_encode(bytes@),
{
    let mut out = String::new();
    let n = bytes.len();
    let mut i: usize = 0;
    while i < n
        invariant
            n == bytes@.len(),
            i <= n,
            out@ == hex_encode(bytes@.subrange(0, i as int)),
        decreases n - i,
    {
        let b = bytes[i];
        out.append(hex_char_str(b / 16));
        out.append(hex_char_str(b % 16));
        proof {
            let pre = bytes@.subrange(0, i as int);
            let post = bytes@.subrange(0, i as int + 1);
            assert forall|j: int| 0 <= j < 2 * post.len() implies hex_encode(post)[j] == out@[j] by {
                if j < 2 * pre.len() {
                    assert(hex_encode(pre)[j] == out@[j]);
                }
            }
            assert(out@ =~= hex_encode(post));
        }
        i = i + 1;
    }
    proof {
        assert(bytes@.subrange(0, n as int) =~= bytes@);
    }
    out
}

} // verus!
