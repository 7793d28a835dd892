use vstd::prelude::*;
use vstd::arithmetic::div_mod::{lemma_breakdown, lemma_small_mod};

use crate::error::Error;

verus! {

// A cursor is an opaque string that encodes exactly one record identifier:
// the 128-bit identifier written as 32 hexadecimal digits, most significant
// nibble first. The encoding itself is not part of the library's contract;
// only the round trip `decode(encode(id)) == id` is.

/// The numeric value of one hexadecimal digit, or `None` for any other character.
pub open spec fn hex_val(c: char) -> Option<u8> {
    match c {
        '0' => Some(0u8),
        '1' => Some(1u8),
        '2' => Some(2u8),
        '3' => Some(3u8),
        '4' => Some(4u8),
        '5' => Some(5u8),
        '6' => Some(6u8),
        '7' => Some(7u8),
        '8' => Some(8u8),
        '9' => Some(9u8),
        'a' => Some(10u8),
        'b' => Some(11u8),
        'c' => Some(12u8),
        'd' => Some(13u8),
        'e' => Some(14u8),
        'f' => Some(15u8),
        _ => None,
    }
}

/// The hexadecimal digit for a value below sixteen.
pub open spec fn hex_chr(d: int) -> char {
    if d == 0 {
        '0'
    } else if d == 1 {
        '1'
    } else if d == 2 {
        '2'
    } else if d == 3 {
        '3'
    } else if d == 4 {
        '4'
    } else if d == 5 {
        '5'
    } else if d == 6 {
        '6'
    } else if d == 7 {
        '7'
    } else if d == 8 {
        '8'
    } else if d == 9 {
        '9'
    } else if d == 10 {
        'a'
    } else if d == 11 {
        'b'
    } else if d == 12 {
        'c'
    } else if d == 13 {
        'd'
    } else if d == 14 {
        'e'
    } else {
        'f'
    }
}

/// Sixteen to the power `n`.
pub open spec fn pow16(n: nat) -> int
    decreases n,
{
    if n == 0 {
        1
    } else {
        16 * pow16((n - 1) as nat)
    }
}

/// The last `n` nibbles of `v`, written as hexadecimal digits, most
/// significant first.
pub open spec fn encode_n(v: int, n: nat) -> Seq<char>
    decreases n,
{
    if n == 0 {
        Seq::empty()
    } else {
        encode_n(v / 16, (n - 1) as nat).push(hex_chr(v % 16))
    }
}

/// The value of a sequence of hexadecimal digits, most significant first.
/// Characters that are not hexadecimal digits count as zero; `valid_cursor`
/// rules them out where it matters.
pub open spec fn decode_val(s: Seq<char>) -> int
    decreases s.len(),
{
    if s.len() == 0 {
        0
    } else {
        16 * decode_val(s.drop_last()) + (match hex_val(s.last()) {
            Some(d) => d as int,
            None => 0,
        })
    }
}

/// A well-formed cursor string: exactly 32 hexadecimal digits.
pub open spec fn valid_cursor(s: Seq<char>) -> bool {
    &&& s.len() == 32
    &&& forall|i: int| 0 <= i < s.len() ==> hex_val(#[trigger] s[i]) is Some
}

/// The cursor string that encodes a given identifier.
pub open spec fn spec_encode_cursor(id: u128) -> Seq<char> {
    encode_n(id as int, 32)
}

proof fn lemma_pow16_positive(n: nat)
    ensures
        pow16(n) >= 1,
    decreases n,
{
    if n > 0 {
        lemma_pow16_positive((n - 1) as nat);
    }
}

proof fn lemma_pow16_increases(m: nat, n: nat)
    requires
        m <= n,
    ensures
        pow16(m) <= pow16(n),
    decreases n,
{
    if m < n {
        lemma_pow16_increases(m, (n - 1) as nat);
        lemma_pow16_positive((n - 1) as nat);
    }
}

proof fn lemma_hex_chr_val(d: int)
    requires
        0 <= d < 16,
    ensures
        hex_val(hex_chr(d)) == Some(d as u8),
{
}

/// Encoding `n` nibbles of a nonnegative value gives `n` valid digits whose
/// value is the input reduced modulo sixteen to the `n`.
proof fn lemma_encode_decode(v: int, n: nat)
    requires
        v >= 0,
    ensures
        encode_n(v, n).len() == n,
        forall|i: int| 0 <= i < n ==> hex_val(#[trigger] encode_n(v, n)[i]) is Some,
        decode_val(encode_n(v, n)) == v % pow16(n),
    decreases n,
{
    if n == 0 {
        assert(v % 1 == 0) by (nonlinear_arith)
            requires v >= 0;
    } else {
        let q = v / 16;
        let r = v % 16;
        lemma_encode_decode(q, (n - 1) as nat);
        lemma_hex_chr_val(r);
        let s = encode_n(v, n);
        assert(s.drop_last() =~= encode_n(q, (n - 1) as nat));
        lemma_pow16_positive((n - 1) as nat);
        lemma_breakdown(v, 16, pow16((n - 1) as nat));
        assert(decode_val(s) == 16 * (q % pow16((n - 1) as nat)) + r);
        assert forall|i: int| 0 <= i < n implies hex_val(#[trigger] s[i]) is Some by {
            if i < n - 1 {
                assert(s[i] == encode_n(q, (n - 1) as nat)[i]);
            } else {
                assert(s[i] == hex_chr(r));
            }
        }
    }
}

proof fn lemma_pow16_32()
    ensures
        pow16(32) == 0x1_0000_0000_0000_0000_0000_0000_0000_0000,
{
    reveal_with_fuel(pow16, 33);
    assert(pow16(32) == 0x1_0000_0000_0000_0000_0000_0000_0000_0000);
}

/// Round trip: every identifier's encoding is a well-formed cursor, and
/// decoding it gives the identifier back.
pub proof fn lemma_cursor_round_trip(id: u128)
    ensures
        valid_cursor(spec_encode_cursor(id)),
        decode_val(spec_encode_cursor(id)) == id,
{
    lemma_encode_decode(id as int, 32);
    lemma_pow16_32();
    lemma_small_mod(id as nat, pow16(32) as nat);
}

/// One hexadecimal digit as a string slice.
fn hex_digit_str(d: u8) -> (s: &'static str)
    requires
        d < 16,
    ensures
        s@ == seq![hex_chr(d as int)],
{
    match d {
        0 => {
            proof { reveal_strlit("0"); }
            let s = "0";
            proof { assert(s@ =~= seq![hex_chr(0)]); }
            s
        },
        1 => {
            proof { reveal_strlit("1"); }
            let s = "1";
            proof { assert(s@ =~= seq![hex_chr(1)]); }
            s
        },
        2 => {
            proof { reveal_strlit("2"); }
            let s = "2";
            proof { assert(s@ =~= seq![hex_chr(2)]); }
            s
        },
        3 => {
            proof { reveal_strlit("3"); }
            let s = "3";
            proof { assert(s@ =~= seq![hex_chr(3)]); }
            s
        },
        4 => {
            proof { reveal_strlit("4"); }
            let s = "4";
            proof { assert(s@ =~= seq![hex_chr(4)]); }
            s
        },
        5 => {
            proof { reveal_strlit("5"); }
            let s = "5";
            proof { assert(s@ =~= seq![hex_chr(5)]); }
            s
        },
        6 => {
            proof { reveal_strlit("6"); }
            let s = "6";
            proof { assert(s@ =~= seq![hex_chr(6)]); }
            s
        },
        7 => {
            proof { reveal_strlit("7"); }
            let s = "7";
            proof { assert(s@ =~= seq![hex_chr(7)]); }
            s
        },
        8 => {
            proof { reveal_strlit("8"); }
            let s = "8";
            proof { assert(s@ =~= seq![hex_chr(8)]); }
            s
        },
        9 => {
            proof { reveal_strlit("9"); }
            let s = "9";
            proof { assert(s@ =~= seq![hex_chr(9)]); }
            s
        },
        10 => {
            proof { reveal_strlit("a"); }
            let s = "a";
            proof { assert(s@ =~= seq![hex_chr(10)]); }
            s
        },
        11 => {
            proof { reveal_strlit("b"); }
            let s = "b";
            proof { assert(s@ =~= seq![hex_chr(11)]); }
            s
        },
        12 => {
            proof { reveal_strlit("c"); }
            let s = "c";
            proof { assert(s@ =~= seq![hex_chr(12)]); }
            s
        },
        13 => {
            proof { reveal_strlit("d"); }
            let s = "d";
            proof { assert(s@ =~= seq![hex_chr(13)]); }
            s
        },
        14 => {
            proof { reveal_strlit("e"); }
            let s = "e";
            proof { assert(s@ =~= seq![hex_chr(14)]); }
            s
        },
        _ => {
            proof { reveal_strlit("f"); }
            let s = "f";
            proof { assert(s@ =~= seq![hex_chr(15)]); }
            s
        },
    }
}

/// The numeric value of one hexadecimal digit character.
fn hex_val_char(c: char) -> (r: Option<u8>)
    ensures
        r == hex_val(c),
{
    match c {
        '0' => Some(0),
        '1' => Some(1),
        '2' => Some(2),
        '3' => Some(3),
        '4' => Some(4),
        '5' => Some(5),
        '6' => Some(6),
        '7' => Some(7),
        '8' => Some(8),
        '9' => Some(9),
        'a' => Some(10),
        'b' => Some(11),
        'c' => Some(12),
        'd' => Some(13),
        'e' => Some(14),
        'f' => Some(15),
        _ => None,
    }
}

fn encode_rec(v: u128, n: u8) -> (s: String)
    ensures
        s@ == encode_n(v as int, n as nat),
    decreases n,
{
    if n == 0 {
        String::new()
    } else {
        let mut s = encode_rec(v / 16, n - 1);
        let d: u8 = (v % 16) as u8;
        s.append(hex_digit_str(d));
        proof {
            assert(s@ =~= encode_n(v as int / 16, (n - 1) as nat).push(hex_chr(v as int % 16)));
        }
        s
    }
}

/// Encode an identifier as an opaque cursor string.
///
/// Deterministic and total: every identifier has exactly one cursor, and
/// `decode_cursor` inverts it (`lemma_cursor_round_trip`).
pub fn encode_cursor(id: u128) -> (r: String)
    ensures
        r@ == spec_encode_cursor(id),
        valid_cursor(r@),
{
    let r = encode_rec(id, 32);
    proof {
        lemma_cursor_round_trip(id);
    }
    r
}

/// Decode an opaque cursor string back to the identifier it encodes.
///
/// Fails with `Error::InvalidCursor` exactly when the string is not a
/// well-formed cursor; a malformed string never decodes to a default.
pub fn decode_cursor(s: &str) -> (r: Result<u128, Error>)
    ensures
        r is Ok <==> valid_cursor(s@),
        r matches Ok(id) ==> id as int == decode_val(s@),
        r is Err ==> r == Err::<u128, Error>(Error::InvalidCursor),
{
    let len = s.unicode_len();
    if len != 32 {
        return Err(Error::InvalidCursor);
    }
    let mut acc: u128 = 0;
    let mut i: usize = 0;
    while i < 32
        invariant
            s@.len() == 32,
            0 <= i <= 32,
            forall|j: int| 0 <= j < i ==> hex_val(#[trigger] s@[j]) is Some,
            acc as int == decode_val(s@.subrange(0, i as int)),
            (acc as int) < pow16(i as nat),
        decreases 32 - i,
    {
        let c = s.get_char(i);
        match hex_val_char(c) {
            None => {
                return Err(Error::InvalidCursor);
            },
            Some(d) => {
                proof {
                    lemma_pow16_increases(i as nat, 31);
                    lemma_pow16_32();
                    assert(s@.subrange(0, i as int + 1).drop_last() =~= s@.subrange(0, i as int));
                    assert(s@.subrange(0, i as int + 1).last() == s@[i as int]);
                }
                acc = acc * 16 + (d as u128);
                i = i + 1;
            },
        }
    }
    proof {
        assert(s@.subrange(0, 32) =~= s@);
    }
    Ok(acc)
}

} // verus!
