//! The key of a log row: its index as eight bytes, most significant first,
//! so that the engine's key order is the numeric order of the indices.

use vstd::prelude::*;
use crate::storage::order::{lex_lt, lex_lt_from};

verus! {

/// The byte of `x` that starts at bit `shift`.
pub open spec fn byte_of(x: u64, shift: u64) -> u8 {
    ((x >> shift) & 0xff) as u8
}

/// The eight bytes of `x`, most significant first.
pub open spec fn be_bytes(x: u64) -> Seq<u8> {
    seq![
        byte_of(x, 56),
        byte_of(x, 48),
        byte_of(x, 40),
        byte_of(x, 32),
        byte_of(x, 24),
        byte_of(x, 16),
        byte_of(x, 8),
        byte_of(x, 0),
    ]
}

/// The number whose eight bytes, most significant first, open `b`.
pub open spec fn be_value(b: Seq<u8>) -> u64
    recommends
        b.len() >= 8,
{
    ((b[0] as u64) << 56) | ((b[1] as u64) << 48) | ((b[2] as u64) << 40) | ((b[3] as u64) << 32) | (
    (b[4] as u64) << 24) | ((b[5] as u64) << 16) | ((b[6] as u64) << 8) | (b[7] as u64)
}

/// Decoding the key of an index gives the index.
pub proof fn lemma_be_round_trip(x: u64)
    ensures
        be_bytes(x).len() == 8,
        be_value(be_bytes(x)) == x,
{
    let b0 = byte_of(x, 56);
    let b1 = byte_of(x, 48);
    let b2 = byte_of(x, 40);
    let b3 = byte_of(x, 32);
    let b4 = byte_of(x, 24);
    let b5 = byte_of(x, 16);
    let b6 = byte_of(x, 8);
    let b7 = byte_of(x, 0);
    assert(((b0 as u64) << 56) | ((b1 as u64) << 48) | ((b2 as u64) << 40) | ((b3 as u64) << 32) | (
    (b4 as u64) << 24) | ((b5 as u64) << 16) | ((b6 as u64) << 8) | (b7 as u64) == x)
        by (bit_vector)
        requires
            b0 == ((x >> 56) & 0xff) as u8,
            b1 == ((x >> 48) & 0xff) as u8,
            b2 == ((x >> 40) & 0xff) as u8,
            b3 == ((x >> 32) & 0xff) as u8,
            b4 == ((x >> 24) & 0xff) as u8,
            b5 == ((x >> 16) & 0xff) as u8,
            b6 == ((x >> 8) & 0xff) as u8,
            b7 == ((x >> 0) & 0xff) as u8,
    ;
}

/// Eight bytes are the key of the number they decode to.
pub proof fn lemma_be_bytes_of_value(b: Seq<u8>)
    requires
        b.len() == 8,
    ensures
        be_bytes(be_value(b)) == b,
{
    let x = be_value(b);
    let b0 = b[0];
    let b1 = b[1];
    let b2 = b[2];
    let b3 = b[3];
    let b4 = b[4];
    let b5 = b[5];
    let b6 = b[6];
    let b7 = b[7];
    assert(((x >> 56) & 0xff) as u8 == b0 && ((x >> 48) & 0xff) as u8 == b1 && ((x >> 40) & 0xff) as u8
        == b2 && ((x >> 32) & 0xff) as u8 == b3 && ((x >> 24) & 0xff) as u8 == b4 && ((x >> 16)
        & 0xff) as u8 == b5 && ((x >> 8) & 0xff) as u8 == b6 && ((x >> 0) & 0xff) as u8 == b7)
        by (bit_vector)
        requires
            x == ((b0 as u64) << 56) | ((b1 as u64) << 48) | ((b2 as u64) << 40) | ((b3 as u64)
                << 32) | ((b4 as u64) << 24) | ((b5 as u64) << 16) | ((b6 as u64) << 8) | (
            b7 as u64),
    ;
    assert(be_bytes(x) =~= b);
}

/// The key order of two indices is their numeric order.
pub proof fn lemma_be_order(x: u64, y: u64)
    ensures
        lex_lt(be_bytes(x), be_bytes(y)) <==> x < y,
        be_bytes(x) == be_bytes(y) <==> x == y,
{
    reveal_with_fuel(lex_lt_from, 9);
    let a = be_bytes(x);
    let b = be_bytes(y);
    lemma_be_round_trip(x);
    lemma_be_round_trip(y);
    assert(byte_of(x, 56) != byte_of(y, 56) ==> (x < y <==> byte_of(x, 56) < byte_of(y, 56)))
        by (bit_vector);
    assert(byte_of(x, 56) == byte_of(y, 56) && byte_of(x, 48) != byte_of(y, 48) ==> (x < y
        <==> byte_of(x, 48) < byte_of(y, 48))) by (bit_vector);
    assert(byte_of(x, 56) == byte_of(y, 56) && byte_of(x, 48) == byte_of(y, 48) && byte_of(x, 40)
        != byte_of(y, 40) ==> (x < y <==> byte_of(x, 40) < byte_of(y, 40))) by (bit_vector);
    assert(byte_of(x, 56) == byte_of(y, 56) && byte_of(x, 48) == byte_of(y, 48) && byte_of(x, 40)
        == byte_of(y, 40) && byte_of(x, 32) != byte_of(y, 32) ==> (x < y <==> byte_of(x, 32)
        < byte_of(y, 32))) by (bit_vector);
    assert(byte_of(x, 56) == byte_of(y, 56) && byte_of(x, 48) == byte_of(y, 48) && byte_of(x, 40)
        == byte_of(y, 40) && byte_of(x, 32) == byte_of(y, 32) && byte_of(x, 24) != byte_of(y, 24)
        ==> (x < y <==> byte_of(x, 24) < byte_of(y, 24))) by (bit_vector);
    assert(byte_of(x, 56) == byte_of(y, 56) && byte_of(x, 48) == byte_of(y, 48) && byte_of(x, 40)
        == byte_of(y, 40) && byte_of(x, 32) == byte_of(y, 32) && byte_of(x, 24) == byte_of(y, 24)
        && byte_of(x, 16) != byte_of(y, 16) ==> (x < y <==> byte_of(x, 16) < byte_of(y, 16)))
        by (bit_vector);
    assert(byte_of(x, 56) == byte_of(y, 56) && byte_of(x, 48) == byte_of(y, 48) && byte_of(x, 40)
        == byte_of(y, 40) && byte_of(x, 32) == byte_of(y, 32) && byte_of(x, 24) == byte_of(y, 24)
        && byte_of(x, 16) == byte_of(y, 16) && byte_of(x, 8) != byte_of(y, 8) ==> (x < y
        <==> byte_of(x, 8) < byte_of(y, 8))) by (bit_vector);
    assert(byte_of(x, 56) == byte_of(y, 56) && byte_of(x, 48) == byte_of(y, 48) && byte_of(x, 40)
        == byte_of(y, 40) && byte_of(x, 32) == byte_of(y, 32) && byte_of(x, 24) == byte_of(y, 24)
        && byte_of(x, 16) == byte_of(y, 16) && byte_of(x, 8) == byte_of(y, 8) && byte_of(x, 0)
        != byte_of(y, 0) ==> (x < y <==> byte_of(x, 0) < byte_of(y, 0))) by (bit_vector);
    if a == b {
        assert(be_value(a) == be_value(b));
    } else {
        assert(x != y);
        if a[0] == b[0] && a[1] == b[1] && a[2] == b[2] && a[3] == b[3] && a[4] == b[4] && a[5]
            == b[5] && a[6] == b[6] && a[7] == b[7] {
            assert(a =~= b);
        }
    }
}

/// The key of a log index.
pub fn id_to_bin(id: u64) -> (buf: Vec<u8>)
    ensures
        buf@ == be_bytes(id),
{
    let mut buf: Vec<u8> = Vec::with_capacity(8);
    buf.push(((id >> 56) & 0xff) as u8);
    buf.push(((id >> 48) & 0xff) as u8);
    buf.push(((id >> 40) & 0xff) as u8);
    buf.push(((id >> 32) & 0xff) as u8);
    buf.push(((id >> 24) & 0xff) as u8);
    buf.push(((id >> 16) & 0xff) as u8);
    buf.push(((id >> 8) & 0xff) as u8);
    buf.push(((id >> 0) & 0xff) as u8);
    assert(buf@ =~= be_bytes(id));
    buf
}

/// The log index that the first eight bytes of `buf` hold.
pub fn bin_to_id(buf: &[u8]) -> (id: u64)
    requires
        buf@.len() >= 8,
    ensures
        id == be_value(buf@),
        buf@.len() == 8 ==> be_bytes(id) == buf@,
{
    proof {
        if buf@.len() == 8 {
            lemma_be_bytes_of_value(buf@);
        }
    }
    ((buf[0] as u64) << 56) | ((buf[1] as u64) << 48) | ((buf[2] as u64) << 40) | ((buf[3] as u64)
        << 32) | ((buf[4] as u64) << 24) | ((buf[5] as u64) << 16) | ((buf[6] as u64) << 8) | (
    buf[7] as u64)
}

} // verus!
