//! Bit strings of bytes, in the order in which USB puts them on the wire.
use vstd::prelude::*;

verus! {

/// Bit `i` of `b`, bit 0 being the least significant one.
pub open spec fn byte_bit(b: u8, i: int) -> bool {
    (b >> (i as u8)) & 1 == 1
}

/// The bits of `bytes`, each byte least significant bit first.
pub open spec fn bits_of(bytes: Seq<u8>) -> Seq<bool> {
    Seq::new((8 * bytes.len()) as nat, |i: int| byte_bit(bytes[i / 8], i % 8))
}

/// The byte whose bit `i` is `bits[from + i]`.
pub open spec fn byte_at(bits: Seq<bool>, from: int) -> u8 {
    byte_of(
        bits[from],
        bits[from + 1],
        bits[from + 2],
        bits[from + 3],
        bits[from + 4],
        bits[from + 5],
        bits[from + 6],
        bits[from + 7],
    )
}

/// The byte with the given bits, least significant first.
pub open spec fn byte_of(
    b0: bool,
    b1: bool,
    b2: bool,
    b3: bool,
    b4: bool,
    b5: bool,
    b6: bool,
    b7: bool,
) -> u8 {
    (if b0 { 0x01u8 } else { 0u8 }) | (if b1 { 0x02u8 } else { 0u8 }) | (if b2 { 0x04u8 } else { 0u8 })
        | (if b3 { 0x08u8 } else { 0u8 }) | (if b4 { 0x10u8 } else { 0u8 }) | (if b5 { 0x20u8 } else {
        0u8
    }) | (if b6 { 0x40u8 } else { 0u8 }) | (if b7 { 0x80u8 } else { 0u8 })
}

/// The whole bytes that a bit string holds, each least significant bit first.
pub open spec fn bytes_of(bits: Seq<bool>) -> Seq<u8> {
    Seq::new(bits.len() / 8, |i: int| byte_at(bits, 8 * i))
}

/// Grouping the bits of a byte string by eight gives the byte string back.
pub proof fn lemma_bytes_of_bits_of(bytes: Seq<u8>)
    ensures
        bytes_of(bits_of(bytes)) == bytes,
{
    let bits = bits_of(bytes);
    assert(bits.len() / 8 == bytes.len());
    assert forall|i: int| 0 <= i < bytes.len() implies byte_at(bits, 8 * i) == bytes[i] by {
        let b = bytes[i];
        assert forall|k: int| 0 <= k < 8 implies bits[8 * i + k] == byte_bit(b, k) by {
            assert((8 * i + k) / 8 == i);
            assert((8 * i + k) % 8 == k);
        }
        assert(bits[8 * i] == byte_bit(b, 0));
        lemma_byte_of_its_bits(b);
    }
    assert(bytes_of(bits) =~= bytes);
}

/// A byte is made of its eight bits.
pub proof fn lemma_byte_of_its_bits(b: u8)
    ensures
        b == byte_of(
            byte_bit(b, 0),
            byte_bit(b, 1),
            byte_bit(b, 2),
            byte_bit(b, 3),
            byte_bit(b, 4),
            byte_bit(b, 5),
            byte_bit(b, 6),
            byte_bit(b, 7),
        ),
{
    assert(b == (if (b >> 0u8) & 1 == 1 { 0x01u8 } else { 0u8 }) | (if (b >> 1u8) & 1 == 1 { 0x02u8 } else { 0u8 })
        | (if (b >> 2u8) & 1 == 1 { 0x04u8 } else { 0u8 }) | (if (b >> 3u8) & 1 == 1 { 0x08u8 } else { 0u8 })
        | (if (b >> 4u8) & 1 == 1 { 0x10u8 } else { 0u8 }) | (if (b >> 5u8) & 1 == 1 { 0x20u8 } else { 0u8 })
        | (if (b >> 6u8) & 1 == 1 { 0x40u8 } else { 0u8 }) | (if (b >> 7u8) & 1 == 1 { 0x80u8 } else { 0u8 }))
        by (bit_vector);
}

/// Appending a byte appends its eight bits.
pub proof fn lemma_bits_of_push(bytes: Seq<u8>, b: u8)
    ensures
        bits_of(bytes.push(b)) == bits_of(bytes).push(byte_bit(b, 0)).push(byte_bit(b, 1)).push(
            byte_bit(b, 2),
        ).push(byte_bit(b, 3)).push(byte_bit(b, 4)).push(byte_bit(b, 5)).push(byte_bit(b, 6)).push(
            byte_bit(b, 7),
        ),
{
    let l = bits_of(bytes.push(b));
    let n = bits_of(bytes).len();
    let r = bits_of(bytes).push(byte_bit(b, 0)).push(byte_bit(b, 1)).push(byte_bit(b, 2)).push(
        byte_bit(b, 3),
    ).push(byte_bit(b, 4)).push(byte_bit(b, 5)).push(byte_bit(b, 6)).push(byte_bit(b, 7));
    assert forall|i: int| 0 <= i < l.len() implies l[i] == r[i] by {
        if i < n {
            assert(bytes.push(b)[i / 8] == bytes[i / 8]);
        } else {
            assert(i / 8 == bytes.len());
            assert(i % 8 == i - n);
        }
    }
    assert(l =~= r);
}

} // verus!
