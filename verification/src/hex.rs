//! Canonical hex form of commitments and its inverse.
//!
//! A commitment is an ordered sequence of exactly four 64-bit field-element
//! representatives. Its canonical text form is `"0x"` followed by each
//! element as 16 lowercase hex digits, most significant first. The parser
//! accepts an optional `"0x"` prefix followed by exactly 64 hex digits of
//! either case and yields the 32 bytes they denote, big-endian.

use vstd::prelude::*;

verus! {

/// Length of the canonical hex form: `"0x"` plus 16 digits per element.
pub const COMMITMENT_HEX_LENGTH: usize = 66;

/// The lowercase hex digit denoting `n`, for `n < 16`.
pub open spec fn hex_digit_char(n: u64) -> char {
    if n == 0 {
        '0'
    } else if n == 1 {
        '1'
    } else if n == 2 {
        '2'
    } else if n == 3 {
        '3'
    } else if n == 4 {
        '4'
    } else if n == 5 {
        '5'
    } else if n == 6 {
        '6'
    } else if n == 7 {
        '7'
    } else if n == 8 {
        '8'
    } else if n == 9 {
        '9'
    } else if n == 10 {
        'a'
    } else if n == 11 {
        'b'
    } else if n == 12 {
        'c'
    } else if n == 13 {
        'd'
    } else if n == 14 {
        'e'
    } else {
        'f'
    }
}

/// Whether `c` is a hex digit of either case.
pub open spec fn is_hex_digit(c: char) -> bool {
    let u = c as int;
    (('0' as int) <= u && u <= ('9' as int)) || (('a' as int) <= u && u <= ('f' as int)) || ((
    'A' as int) <= u && u <= ('F' as int))
}

/// The value a hex digit denotes; meaningful only where `is_hex_digit` holds.
pub open spec fn hex_val(c: char) -> u64 {
    let u = c as int;
    if ('0' as int) <= u && u <= ('9' as int) {
        (u - ('0' as int)) as u64
    } else if ('a' as int) <= u && u <= ('f' as int) {
        (u - ('a' as int) + 10) as u64
    } else if ('A' as int) <= u && u <= ('F' as int) {
        (u - ('A' as int) + 10) as u64
    } else {
        0
    }
}

/// The `i`-th nibble of `x`, most significant first, for `0 <= i < 16`.
pub open spec fn nibble(x: u64, i: int) -> u64 {
    (x >> (((15 - i) * 4) as u64)) & 0xf
}

/// The 16 lowercase hex digits of `x`, most significant first.
pub open spec fn hex_u64(x: u64) -> Seq<char> {
    Seq::new(16, |i: int| hex_digit_char(nibble(x, i)))
}

/// The canonical hex form of a four-element commitment.
pub open spec fn commitment_hex(els: Seq<u64>) -> Seq<char> {
    seq!['0', 'x'] + hex_u64(els[0]) + hex_u64(els[1]) + hex_u64(els[2]) + hex_u64(els[3])
}

/// `s` without its `"0x"` prefix, if it carries one.
pub open spec fn strip_hex_prefix(s: Seq<char>) -> Seq<char> {
    if s.len() >= 2 && s[0] == '0' && s[1] == 'x' {
        s.skip(2)
    } else {
        s
    }
}

/// Whether `s` denotes a 256-bit hash value: an optional `"0x"` prefix
/// followed by exactly 64 hex digits.
pub open spec fn valid_hash_str(s: Seq<char>) -> bool {
    let t = strip_hex_prefix(s);
    t.len() == 64 && (forall|i: int| 0 <= i < 64 ==> is_hex_digit(#[trigger] t[i]))
}

/// The 32 bytes a valid hash string denotes, big-endian.
pub open spec fn hash_bytes_of(s: Seq<char>) -> Seq<u8> {
    let t = strip_hex_prefix(s);
    Seq::new(32, |i: int| (hex_val(t[2 * i]) * 16 + hex_val(t[2 * i + 1])) as u8)
}

/// The 8 bytes of `x`, most significant first.
pub open spec fn u64_be_bytes(x: u64) -> Seq<u8> {
    Seq::new(8, |j: int| ((x >> (((7 - j) * 8) as u64)) & 0xff) as u8)
}

/// The 32 bytes of a four-element commitment, elements in order, each
/// big-endian.
pub open spec fn commitment_bytes(els: Seq<u64>) -> Seq<u8> {
    u64_be_bytes(els[0]) + u64_be_bytes(els[1]) + u64_be_bytes(els[2]) + u64_be_bytes(els[3])
}

/// Appends the lowercase hex digit denoting `d` to `out`.
fn push_hex_digit(out: &mut String, d: u64)
    requires
        d < 16,
    ensures
        final(out)@ == old(out)@.push(hex_digit_char(d)),
{
    if d == 0 {
        proof {
            reveal_strlit("0");
        }
        out.append("0");
    } else if d == 1 {
        proof {
            reveal_strlit("1");
        }
        out.append("1");
    } else if d == 2 {
        proof {
            reveal_strlit("2");
        }
        out.append("2");
    } else if d == 3 {
        proof {
            reveal_strlit("3");
        }
        out.append("3");
    } else if d == 4 {
        proof {
            reveal_strlit("4");
        }
        out.append("4");
    } else if d == 5 {
        proof {
            reveal_strlit("5");
        }
        out.append("5");
    } else if d == 6 {
        proof {
            reveal_strlit("6");
        }
        out.append("6");
    } else if d == 7 {
        proof {
            reveal_strlit("7");
        }
        out.append("7");
    } else if d == 8 {
        proof {
            reveal_strlit("8");
        }
        out.append("8");
    } else if d == 9 {
        proof {
            reveal_strlit("9");
        }
        out.append("9");
    } else if d == 10 {
        proof {
            reveal_strlit("a");
        }
        out.append("a");
    } else if d == 11 {
        proof {
            reveal_strlit("b");
        }
        out.append("b");
    } else if d == 12 {
        proof {
            reveal_strlit("c");
        }
        out.append("c");
    } else if d == 13 {
        proof {
            reveal_strlit("d");
        }
        out.append("d");
    } else if d == 14 {
        proof {
            reveal_strlit("e");
        }
        out.append("e");
    } else {
        proof {
            reveal_strlit("f");
        }
        out.append("f");
    }
    proof {
        assert(final(out)@ =~= old(out)@.push(hex_digit_char(d)));
    }
}

/// Appends the 16 lowercase hex digits of `x` to `out`.
fn push_hex_u64(out: &mut String, x: u64)
    ensures
        final(out)@ == old(out)@ + hex_u64(x),
{
    let mut i: usize = 0;
    while i < 16
        invariant
            i <= 16,
            out@ == old(out)@ + hex_u64(x).take(i as int),
        decreases 16 - i,
    {
        let sh: u64 = ((15 - i) * 4) as u64;
        let d: u64 = (x >> sh) & 0xf;
        proof {
            assert(d == nibble(x, i as int));
            assert(d < 16) by (bit_vector)
                requires
                    d == (x >> sh) & 0xf,
            ;
        }
        push_hex_digit(out, d);
        proof {
            assert(out@ =~= old(out)@ + hex_u64(x).take(i as int + 1));
        }
        i = i + 1;
    }
    proof {
        assert(hex_u64(x).take(16) =~= hex_u64(x));
    }
}

/// Turns a commitment into its canonical hex form: `"0x"` then each element
/// as 16 lowercase hex digits, in input order.
pub fn encode_commitment(els: &[u64; 4]) -> (r: String)
    ensures
        r@ == commitment_hex(els@),
        r@.len() == COMMITMENT_HEX_LENGTH,
{
    let mut out = String::new();
    proof {
        reveal_strlit("0x");
    }
    out.append("0x");
    proof {
        assert(out@ =~= seq!['0', 'x']);
    }
    push_hex_u64(&mut out, els[0]);
    push_hex_u64(&mut out, els[1]);
    push_hex_u64(&mut out, els[2]);
    push_hex_u64(&mut out, els[3]);
    proof {
        assert(out@ =~= commitment_hex(els@));
    }
    out
}

/// The hex digit of `d` is a hex digit and denotes `d` again, for `d < 16`.
pub proof fn lemma_hex_digit_char_val(d: u64)
    requires
        d < 16,
    ensures
        is_hex_digit(hex_digit_char(d)),
        hex_val(hex_digit_char(d)) == d,
{
}

/// Every nibble is below 16.
pub proof fn lemma_nibble_bound(x: u64, i: int)
    requires
        0 <= i < 16,
    ensures
        nibble(x, i) < 16,
{
    let sh: u64 = ((15 - i) * 4) as u64;
    assert((x >> sh) & 0xf < 16) by (bit_vector);
}

/// The `j`-th pair of hex digits of `x` denotes the `j`-th big-endian byte
/// of `x`.
proof fn lemma_hex_u64_bytes(x: u64, j: int)
    requires
        0 <= j < 8,
    ensures
        (hex_val(hex_u64(x)[2 * j]) * 16 + hex_val(hex_u64(x)[2 * j + 1])) as u8 == u64_be_bytes(
            x,
        )[j],
{
    let sh: u64 = ((7 - j) * 8) as u64;
    let sh4: u64 = ((15 - 2 * j) * 4) as u64;
    assert(sh4 == sh + 4);
    assert(((15 - (2 * j + 1)) * 4) as u64 == sh);
    lemma_nibble_bound(x, 2 * j);
    lemma_nibble_bound(x, 2 * j + 1);
    lemma_hex_digit_char_val(nibble(x, 2 * j));
    lemma_hex_digit_char_val(nibble(x, 2 * j + 1));
    assert(((x >> sh4) & 0xf) * 16 + ((x >> sh) & 0xf) == (x >> sh) & 0xff) by (bit_vector)
        requires
            sh <= 56 && sh4 == sh + 4,
    ;
}

/// Round trip: the canonical hex form of a commitment is a well-formed
/// 256-bit hash string, and parsing it back reconstructs exactly the
/// commitment's 32 big-endian bytes.
pub proof fn lemma_encode_parse_round_trip(els: Seq<u64>)
    requires
        els.len() == 4,
    ensures
        valid_hash_str(commitment_hex(els)),
        hash_bytes_of(commitment_hex(els)) == commitment_bytes(els),
{
    let s = commitment_hex(els);
    let t = hex_u64(els[0]) + hex_u64(els[1]) + hex_u64(els[2]) + hex_u64(els[3]);
    assert(strip_hex_prefix(s) =~= t);
    assert forall|m: int| 0 <= m < 64 implies #[trigger] t[m] == hex_digit_char(
        nibble(els[m / 16], m % 16),
    ) by {
        if m < 16 {
            vstd::arithmetic::div_mod::lemma_fundamental_div_mod_converse(m, 16, 0, m);
            assert(t[m] == hex_u64(els[0])[m]);
        } else if m < 32 {
            vstd::arithmetic::div_mod::lemma_fundamental_div_mod_converse(m, 16, 1, m - 16);
            assert(t[m] == hex_u64(els[1])[m - 16]);
        } else if m < 48 {
            vstd::arithmetic::div_mod::lemma_fundamental_div_mod_converse(m, 16, 2, m - 32);
            assert(t[m] == hex_u64(els[2])[m - 32]);
        } else {
            vstd::arithmetic::div_mod::lemma_fundamental_div_mod_converse(m, 16, 3, m - 48);
            assert(t[m] == hex_u64(els[3])[m - 48]);
        }
    };
    assert forall|m: int| 0 <= m < 64 implies is_hex_digit(#[trigger] t[m]) by {
        lemma_nibble_bound(els[m / 16], m % 16);
        lemma_hex_digit_char_val(nibble(els[m / 16], m % 16));
    };
    assert(valid_hash_str(s));
    assert forall|i: int| 0 <= i < 32 implies #[trigger] hash_bytes_of(s)[i] == commitment_bytes(
        els,
    )[i] by {
        let k = i / 8;
        let j = i % 8;
        vstd::arithmetic::div_mod::lemma_fundamental_div_mod(i, 8);
        assert(0 <= k < 4 && 0 <= j < 8);
        vstd::arithmetic::div_mod::lemma_fundamental_div_mod_converse(2 * i, 16, k, 2 * j);
        vstd::arithmetic::div_mod::lemma_fundamental_div_mod_converse(2 * i + 1, 16, k, 2 * j + 1);
        assert(t[2 * i] == hex_digit_char(nibble(els[k], 2 * j)));
        assert(t[2 * i + 1] == hex_digit_char(nibble(els[k], 2 * j + 1)));
        lemma_nibble_bound(els[k], 2 * j);
        lemma_nibble_bound(els[k], 2 * j + 1);
        lemma_hex_digit_char_val(nibble(els[k], 2 * j));
        lemma_hex_digit_char_val(nibble(els[k], 2 * j + 1));
        lemma_hex_u64_bytes(els[k], j);
        assert(commitment_bytes(els)[i] == u64_be_bytes(els[k])[j]);
    };
    assert(hash_bytes_of(s) =~= commitment_bytes(els));
}

/// Two 64-bit values with the same big-endian bytes are the same value.
proof fn lemma_u64_be_bytes_injective(x: u64, y: u64)
    requires
        u64_be_bytes(x) == u64_be_bytes(y),
    ensures
        x == y,
{
    assert(u64_be_bytes(x)[0] == ((x >> 56u64) & 0xff) as u8);
    assert(u64_be_bytes(x)[1] == ((x >> 48u64) & 0xff) as u8);
    assert(u64_be_bytes(x)[2] == ((x >> 40u64) & 0xff) as u8);
    assert(u64_be_bytes(x)[3] == ((x >> 32u64) & 0xff) as u8);
    assert(u64_be_bytes(x)[4] == ((x >> 24u64) & 0xff) as u8);
    assert(u64_be_bytes(x)[5] == ((x >> 16u64) & 0xff) as u8);
    assert(u64_be_bytes(x)[6] == ((x >> 8u64) & 0xff) as u8);
    assert(u64_be_bytes(x)[7] == ((x >> 0u64) & 0xff) as u8);
    assert(u64_be_bytes(y)[0] == ((y >> 56u64) & 0xff) as u8);
    assert(u64_be_bytes(y)[1] == ((y >> 48u64) & 0xff) as u8);
    assert(u64_be_bytes(y)[2] == ((y >> 40u64) & 0xff) as u8);
    assert(u64_be_bytes(y)[3] == ((y >> 32u64) & 0xff) as u8);
    assert(u64_be_bytes(y)[4] == ((y >> 24u64) & 0xff) as u8);
    assert(u64_be_bytes(y)[5] == ((y >> 16u64) & 0xff) as u8);
    assert(u64_be_bytes(y)[6] == ((y >> 8u64) & 0xff) as u8);
    assert(u64_be_bytes(y)[7] == ((y >> 0u64) & 0xff) as u8);
    assert(x == y) by (bit_vector)
        requires
            ((x >> 56u64) & 0xff) as u8 == ((y >> 56u64) & 0xff) as u8,
            ((x >> 48u64) & 0xff) as u8 == ((y >> 48u64) & 0xff) as u8,
            ((x >> 40u64) & 0xff) as u8 == ((y >> 40u64) & 0xff) as u8,
            ((x >> 32u64) & 0xff) as u8 == ((y >> 32u64) & 0xff) as u8,
            ((x >> 24u64) & 0xff) as u8 == ((y >> 24u64) & 0xff) as u8,
            ((x >> 16u64) & 0xff) as u8 == ((y >> 16u64) & 0xff) as u8,
            ((x >> 8u64) & 0xff) as u8 == ((y >> 8u64) & 0xff) as u8,
            ((x >> 0u64) & 0xff) as u8 == ((y >> 0u64) & 0xff) as u8,
    ;
}

/// The canonical hex form is injective: two commitments that differ in any
/// element have different hex strings.
pub proof fn lemma_commitment_hex_injective(a: Seq<u64>, b: Seq<u64>)
    requires
        a.len() == 4,
        b.len() == 4,
        commitment_hex(a) == commitment_hex(b),
    ensures
        a == b,
{
    lemma_encode_parse_round_trip(a);
    lemma_encode_parse_round_trip(b);
    assert(commitment_bytes(a) == commitment_bytes(b));
    assert forall|k: int| 0 <= k < 4 implies a[k] == b[k] by {
        assert forall|j: int| 0 <= j < 8 implies #[trigger] u64_be_bytes(a[k])[j] == u64_be_bytes(
            b[k],
        )[j] by {
            assert(commitment_bytes(a)[8 * k + j] == u64_be_bytes(a[k])[j]);
            assert(commitment_bytes(b)[8 * k + j] == u64_be_bytes(b[k])[j]);
        };
        assert(u64_be_bytes(a[k]) =~= u64_be_bytes(b[k]));
        lemma_u64_be_bytes_injective(a[k], b[k]);
    };
    assert(a =~= b);
}

/// The value of the hex digit `c`, or `None` where `c` is no hex digit.
fn hex_digit_value(c: char) -> (r: Option<u64>)
    ensures
        r is Some <==> is_hex_digit(c),
        r matches Some(v) ==> v == hex_val(c) && v < 16,
{
    let u = c as u32;
    if ('0' as u32) <= u && u <= ('9' as u32) {
        Some((u - ('0' as u32)) as u64)
    } else if ('a' as u32) <= u && u <= ('f' as u32) {
        Some((u - ('a' as u32) + 10) as u64)
    } else if ('A' as u32) <= u && u <= ('F' as u32) {
        Some((u - ('A' as u32) + 10) as u64)
    } else {
        None
    }
}

/// Parses a 256-bit hash value written in hex: an optional `"0x"` prefix
/// followed by exactly 64 hex digits of either case. Succeeds on exactly
/// those strings, and yields the 32 bytes the digits denote, big-endian.
pub fn parse_hash_bytes(s: &str) -> (r: Option<[u8; 32]>)
    ensures
        r is Some <==> valid_hash_str(s@),
        r matches Some(b) ==> b@ == hash_bytes_of(s@),
{
    let n = s.unicode_len();
    let prefixed = n >= 2 && s.get_char(0) == '0' && s.get_char(1) == 'x';
    let offset: usize = if prefixed {
        2
    } else {
        0
    };
    proof {
        assert(strip_hex_prefix(s@) =~= s@.skip(offset as int));
    }
    if n != offset + 64 {
        return None;
    }
    let mut bytes: [u8; 32] = [0u8; 32];
    let mut i: usize = 0;
    while i < 32
        invariant
            i <= 32,
            offset == 0 || offset == 2,
            n == s@.len(),
            n == offset + 64,
            strip_hex_prefix(s@) =~= s@.skip(offset as int),
            forall|j: int|
                0 <= j < 2 * i ==> is_hex_digit(#[trigger] strip_hex_prefix(s@)[j]),
            forall|j: int|
                0 <= j < i ==> #[trigger] bytes@[j] == (hex_val(strip_hex_prefix(s@)[2 * j]) * 16
                    + hex_val(strip_hex_prefix(s@)[2 * j + 1])) as u8,
        decreases 32 - i,
    {
        let hi = match hex_digit_value(s.get_char(offset + 2 * i)) {
            Some(v) => v,
            None => {
                proof {
                    assert(strip_hex_prefix(s@)[2 * (i as int)] == s@[offset as int + 2 * (
                    i as int)]);
                }
                return None;
            },
        };
        let lo = match hex_digit_value(s.get_char(offset + 2 * i + 1)) {
            Some(v) => v,
            None => {
                proof {
                    assert(strip_hex_prefix(s@)[2 * (i as int) + 1] == s@[offset as int + 2 * (
                    i as int) + 1]);
                }
                return None;
            },
        };
        bytes[i] = (hi * 16 + lo) as u8;
        i = i + 1;
    }
    proof {
        assert(valid_hash_str(s@));
        assert(bytes@ =~= hash_bytes_of(s@));
    }
    Some(bytes)
}

} // verus!
