//! Byte-level decoding helpers: hexadecimal strings and little-endian
//! integers.
//!
//! The server transmits tree states as hexadecimal strings; the engine
//! decodes them itself so that the decoding, and every property of the
//! bytes that the frontier parser relies on, is verified.

use vstd::prelude::*;

verus! {

/// Whether `b` is the ASCII code of a hexadecimal digit.
pub open spec fn is_hex_digit(b: u8) -> bool {
    (48 <= b <= 57) || (97 <= b <= 102) || (65 <= b <= 70)
}

/// The numeric value of the hexadecimal digit with ASCII code `b`.
pub open spec fn hex_digit_value(b: u8) -> u8 {
    if 48 <= b <= 57 {
        (b - 48) as u8
    } else if 97 <= b <= 102 {
        (b - 87) as u8
    } else {
        (b - 55) as u8
    }
}

/// Whether every byte of `s` is a hexadecimal digit.
pub open spec fn all_hex_digits(s: Seq<u8>) -> bool {
    forall|i: int| 0 <= i < s.len() ==> is_hex_digit(#[trigger] s[i])
}

/// The bytes a hexadecimal string of even length decodes to: two digits
/// per byte, high nibble first.
pub open spec fn hex_decoded(s: Seq<u8>) -> Seq<u8> {
    Seq::new(s.len() / 2, |i: int| (hex_digit_value(s[2 * i]) * 16 + hex_digit_value(s[2 * i + 1])) as u8)
}

/// Decodes a hexadecimal string given as its ASCII bytes.
///
/// Returns `None` exactly when the length is odd or some byte is not a
/// hexadecimal digit; otherwise the decoded bytes, two digits each.
pub fn decode_hex(s: &[u8]) -> (r: Option<Vec<u8>>)
    ensures
        r is Some <==> s@.len() % 2 == 0 && all_hex_digits(s@),
        r matches Some(v) ==> v@ == hex_decoded(s@),
{
    if s.len() % 2 != 0 {
        return None;
    }
    let mut out: Vec<u8> = Vec::new();
    let mut i: usize = 0;
    while i < s.len()
        invariant
            s@.len() % 2 == 0,
            i % 2 == 0,
            i <= s@.len(),
            all_hex_digits(s@.take(i as int)),
            out@ == hex_decoded(s@.take(i as int)),
        decreases s@.len() - i,
    {
        let hi = s[i];
        let lo = s[i + 1];
        let hv = match hex_nibble(hi) {
            Some(v) => v,
            None => {
                return None;
            },
        };
        let lv = match hex_nibble(lo) {
            Some(v) => v,
            None => {
                return None;
            },
        };
        out.push(hv * 16 + lv);
        i = i + 2;
        proof {
            assert(out@ =~= hex_decoded(s@.take(i as int)));
            assert forall|j: int| 0 <= j < i implies is_hex_digit(#[trigger] s@.take(i as int)[j]) by {
                assert(s@.take(i as int)[j] == s@[j]);
                if j < i - 2 {
                    assert(is_hex_digit(s@.take((i - 2) as int)[j]));
                }
            }
        }
    }
    proof {
        assert(s@.take(s@.len() as int) =~= s@);
    }
    Some(out)
}

/// Decodes one hexadecimal digit; `None` exactly on a non-digit.
fn hex_nibble(b: u8) -> (r: Option<u8>)
    ensures
        r is Some <==> is_hex_digit(b),
        r matches Some(v) ==> v == hex_digit_value(b) && v < 16,
{
    if 48 <= b && b <= 57 {
        Some(b - 48)
    } else if 97 <= b && b <= 102 {
        Some(b - 87)
    } else if 65 <= b && b <= 70 {
        Some(b - 55)
    } else {
        None
    }
}

/// The unsigned integer the first eight bytes of `s` spell in
/// little-endian order.
pub open spec fn le_u64(s: Seq<u8>) -> nat
    recommends
        s.len() >= 8,
{
    (s[0] + s[1] * 0x100 + s[2] * 0x1_0000 + s[3] * 0x100_0000 + s[4] * 0x1_0000_0000
        + s[5] * 0x100_0000_0000 + s[6] * 0x1_0000_0000_0000 + s[7] * 0x100_0000_0000_0000) as nat
}

/// Reads a little-endian 64-bit integer from the start of `s`.
pub fn read_le_u64(s: &[u8]) -> (r: u64)
    requires
        s@.len() >= 8,
    ensures
        r == le_u64(s@),
{
    (s[0] as u64) + (s[1] as u64) * 0x100 + (s[2] as u64) * 0x1_0000 + (s[3] as u64) * 0x100_0000
        + (s[4] as u64) * 0x1_0000_0000 + (s[5] as u64) * 0x100_0000_0000
        + (s[6] as u64) * 0x1_0000_0000_0000 + (s[7] as u64) * 0x100_0000_0000_0000
}

/// Byte-for-byte equality of two byte strings.
pub fn bytes_eq(a: &[u8], b: &[u8]) -> (r: bool)
    ensures
        r == (a@ == b@),
{
    if a.len() != b.len() {
        return false;
    }
    let mut i: usize = 0;
    while i < a.len()
        invariant
            a@.len() == b@.len(),
            i <= a@.len(),
            forall|j: int| 0 <= j < i ==> a@[j] == b@[j],
        decreases a@.len() - i,
    {
        if a[i] != b[i] {
            return false;
        }
        i = i + 1;
    }
    proof {
        assert(a@ =~= b@);
    }
    true
}

/// The eight bytes that spell `n` in little-endian order.
pub open spec fn u64_le_bytes(n: u64) -> Seq<u8> {
    seq![
        (n & 0xff) as u8,
        ((n >> 8) & 0xff) as u8,
        ((n >> 16) & 0xff) as u8,
        ((n >> 24) & 0xff) as u8,
        ((n >> 32) & 0xff) as u8,
        ((n >> 40) & 0xff) as u8,
        ((n >> 48) & 0xff) as u8,
        ((n >> 56) & 0xff) as u8,
    ]
}

/// The number of one bits in the binary representation of `n`.
pub open spec fn pop_count(n: nat) -> nat
    decreases n,
{
    if n == 0 {
        0
    } else {
        n % 2 + pop_count(n / 2)
    }
}

/// Counts the one bits of `n`.
pub fn count_ones_u64(n: u64) -> (r: u32)
    ensures
        r == pop_count(n as nat),
        r <= 64,
{
    let mut rest: u64 = n;
    let mut count: u32 = 0;
    proof {
        vstd::arithmetic::power2::lemma2_to64_rest();
        lemma_pop_count_bound(n as nat, 64);
    }
    while rest > 0
        invariant
            count + pop_count(rest as nat) == pop_count(n as nat),
            pop_count(n as nat) <= 64,
        decreases rest,
    {
        count = count + (rest % 2) as u32;
        rest = rest / 2;
    }
    count
}

/// The number of one bits of `n` is at most the number of binary digits
/// of `n`.
proof fn lemma_pop_count_bound(n: nat, digits: nat)
    requires
        n < vstd::arithmetic::power2::pow2(digits),
    ensures
        pop_count(n) <= digits,
    decreases n,
{
    if n == 0 {
    } else {
        assert(digits > 0) by {
            vstd::arithmetic::power2::lemma2_to64();
        }
        assert(n / 2 < vstd::arithmetic::power2::pow2((digits - 1) as nat)) by {
            vstd::arithmetic::power2::lemma_pow2_unfold(digits);
        }
        lemma_pop_count_bound(n / 2, (digits - 1) as nat);
    }
}

/// Computes two to the power `e`.
pub fn pow2_u128(e: u8) -> (r: u128)
    requires
        e <= 64,
    ensures
        r == vstd::arithmetic::power2::pow2(e as nat),
{
    let mut d: u8 = 0;
    let mut r: u128 = 1;
    proof {
        vstd::arithmetic::power2::lemma2_to64();
    }
    while d < e
        invariant
            d <= e <= 64,
            r == vstd::arithmetic::power2::pow2(d as nat),
        decreases e - d,
    {
        proof {
            if d + 1 < 64 {
                vstd::arithmetic::power2::lemma_pow2_strictly_increases((d + 1) as nat, 64);
            }
            vstd::arithmetic::power2::lemma2_to64_rest();
            vstd::arithmetic::power2::lemma_pow2_unfold((d + 1) as nat);
        }
        r = r * 2;
        d = d + 1;
    }
    r
}

} // verus!
