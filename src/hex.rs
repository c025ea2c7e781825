//! Lowercase hexadecimal encoding of byte strings.
use vstd::prelude::*;

verus! {

/// The ASCII character of a nibble (`0..16`) in lowercase hex.
pub open spec fn hex_digit(v: u8) -> u8 {
    if v < 10 {
        (48 + v) as u8
    } else {
        (87 + v) as u8
    }
}

/// Two lowercase hex characters per byte, high nibble first.
pub open spec fn hex_of(b: Seq<u8>) -> Seq<u8> {
    Seq::new(
        2 * b.len(),
        |k: int|
            if k % 2 == 0 {
                hex_digit(b[k / 2] / 16)
            } else {
                hex_digit(b[k / 2] % 16)
            },
    )
}

/// True when `c` is one of `0-9` or `a-f`.
pub open spec fn is_hex_char(c: u8) -> bool {
    (48 <= c <= 57) || (97 <= c <= 102)
}

/// A digest in hex: non-empty, and made of hex characters only.
pub open spec fn is_hex_digest(d: Seq<u8>) -> bool {
    d.len() > 0 && forall|k: int| 0 <= k < d.len() ==> #[trigger] is_hex_char(d[k])
}

/// Every character of an encoding is a hex digit, so in particular none is `.`.
pub proof fn lemma_hex_chars(b: Seq<u8>)
    ensures
        forall|k: int| 0 <= k < hex_of(b).len() ==> #[trigger] is_hex_char(hex_of(b)[k]),
{
}

fn nibble_char(v: u8) -> (c: u8)
    requires
        v < 16,
    ensures
        c == hex_digit(v),
{
    if v < 10 {
        48 + v
    } else {
        87 + v
    }
}

/// Encodes `bytes` as lowercase hex.
pub fn encode_hex(bytes: &[u8]) -> (r: Vec<u8>)
    ensures
        r@ == hex_of(bytes@),
{
    let mut out: Vec<u8> = Vec::new();
    let mut i: usize = 0;
    while i < bytes.len()
        invariant
            i <= bytes@.len(),
            out@ =~= hex_of(bytes@.subrange(0, i as int)),
        decreases bytes@.len() - i,
    {
        let b = bytes[i];
        out.push(nibble_char(b / 16));
        out.push(nibble_char(b % 16));
        proof {
            let pre = bytes@.subrange(0, i as int);
            let next = bytes@.subrange(0, i + 1);
            assert forall|k: int| 0 <= k < 2 * next.len() implies out@[k] == #[trigger] hex_of(
                next,
            )[k] by {
                if k < 2 * i {
                    assert(next[k / 2] == pre[k / 2]);
                    assert(out@[k] == hex_of(pre)[k]);
                } else {
                    assert(k / 2 == i);
                }
            }
        }
        i = i + 1;
    }
    assert(bytes@.subrange(0, bytes@.len() as int) =~= bytes@);
    out
}

} // verus!
