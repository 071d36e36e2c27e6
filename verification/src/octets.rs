//! Fixed-width byte strings and the byte order of integers in records.

use vstd::prelude::*;

verus! {

/// The order in which the bytes of an integer are laid out in a record.
///
/// Kernel and daemon run on one machine and share its native order, which only
/// the compiled program knows.
#[derive(Debug, Clone, Copy, PartialEq, Eq, Structural)]
pub enum ByteOrder {
    Little,
    Big,
}

/// `bytes` cut to `width`, or filled up to it with zeros.
pub open spec fn zero_padded(bytes: Seq<u8>, width: nat) -> Seq<u8> {
    Seq::new(width, |i: int| if i < bytes.len() { bytes[i] } else { 0u8 })
}

/// The part of `bytes` before its first zero, all of it when there is none.
pub open spec fn until_nul(bytes: Seq<u8>) -> Seq<u8> {
    match bytes.index_of_first(0u8) {
        Some(end) => bytes.take(end),
        None => bytes,
    }
}

/// The four bytes that stand for `value` in a record.
pub open spec fn u32_bytes(value: u32, order: ByteOrder) -> Seq<u8> {
    let low_first = seq![
        (value % 0x100) as u8,
        (value / 0x100 % 0x100) as u8,
        (value / 0x1_0000 % 0x100) as u8,
        (value / 0x100_0000) as u8,
    ];
    match order {
        ByteOrder::Little => low_first,
        ByteOrder::Big => low_first.reverse(),
    }
}

/// The number that the four bytes `b` stand for in a record.
pub open spec fn u32_value(b: Seq<u8>, order: ByteOrder) -> int {
    match order {
        ByteOrder::Little => b[0] + b[1] * 0x100 + b[2] * 0x1_0000 + b[3] * 0x100_0000,
        ByteOrder::Big => b[3] + b[2] * 0x100 + b[1] * 0x1_0000 + b[0] * 0x100_0000,
    }
}

/// Whether two byte slices hold the same bytes.
pub fn same_bytes(a: &[u8], b: &[u8]) -> (same: bool)
    ensures
        same == (a@ == b@),
{
    a.len() == b.len() && starts_with(a, b)
}

/// Whether `prefix` is where `bytes` starts.
pub fn starts_with(bytes: &[u8], prefix: &[u8]) -> (yes: bool)
    ensures
        yes == prefix@.is_prefix_of(bytes@),
        bytes@.len() == prefix@.len() ==> yes == (bytes@ == prefix@),
{
    if bytes.len() < prefix.len() {
        return false;
    }
    let mut i: usize = 0;
    while i < prefix.len()
        invariant
            i <= prefix@.len() <= bytes@.len(),
            forall|j: int| 0 <= j < i ==> bytes@[j] == prefix@[j],
        decreases prefix@.len() - i,
    {
        if bytes[i] != prefix[i] {
            assert(bytes@[i as int] != prefix@[i as int]);
            assert(!prefix@.is_prefix_of(bytes@)) by {
                if prefix@.is_prefix_of(bytes@) {
                    assert(bytes@.subrange(0, prefix@.len() as int)[i as int] == prefix@[i as int]);
                }
            }
            return false;
        }
        i = i + 1;
    }
    assert(prefix@ =~= bytes@.subrange(0, prefix@.len() as int));
    assert(bytes@.len() == prefix@.len() ==> bytes@ =~= prefix@);
    true
}

/// Where the first zero of `bytes` stands, or their number when there is none.
pub fn nul_position(bytes: &[u8]) -> (end: usize)
    ensures
        end <= bytes@.len(),
        bytes@.take(end as int) == until_nul(bytes@),
{
    let mut end: usize = 0;
    while end < bytes.len() && bytes[end] != 0
        invariant
            end <= bytes@.len(),
            forall|j: int| 0 <= j < end ==> bytes@[j] != 0,
        decreases bytes@.len() - end,
    {
        end = end + 1;
    }
    proof {
        lemma_until_nul(bytes@, end as int);
    }
    end
}

/// `until_nul` ends at the first zero, wherever that is known to stand.
pub proof fn lemma_until_nul(bytes: Seq<u8>, end: int)
    requires
        0 <= end <= bytes.len(),
        forall|j: int| 0 <= j < end ==> bytes[j] != 0,
        end < bytes.len() ==> bytes[end] == 0,
    ensures
        until_nul(bytes) == bytes.take(end),
{
    bytes.index_of_first_ensures(0u8);
    if end < bytes.len() {
        assert(bytes.contains(0u8));
        let at = bytes.index_of_first(0u8)->0;
        if at < end {
            assert(bytes[at] == 0);
        }
        if end < at {
            assert(bytes[end] != 0);
        }
    } else {
        assert(!bytes.contains(0u8));
        assert(bytes.take(end) =~= bytes);
    }
}

/// Reads the number that stands in `bytes` at `at`.
pub fn read_u32(bytes: &[u8], at: usize, order: ByteOrder) -> (value: u32)
    requires
        at + 4 <= bytes@.len(),
    ensures
        value == u32_value(bytes@.subrange(at as int, at + 4), order),
{
    let b0 = bytes[at] as u32;
    let b1 = bytes[at + 1] as u32;
    let b2 = bytes[at + 2] as u32;
    let b3 = bytes[at + 3] as u32;
    match order {
        ByteOrder::Little => b0 + b1 * 0x100 + b2 * 0x1_0000 + b3 * 0x100_0000,
        ByteOrder::Big => b3 + b2 * 0x100 + b1 * 0x1_0000 + b0 * 0x100_0000,
    }
}

/// Lays out `value` as four bytes.
pub fn write_u32(value: u32, order: ByteOrder) -> (bytes: [u8; 4])
    ensures
        bytes@ == u32_bytes(value, order),
{
    let b0 = (value % 0x100) as u8;
    let b1 = (value / 0x100 % 0x100) as u8;
    let b2 = (value / 0x1_0000 % 0x100) as u8;
    let b3 = (value / 0x100_0000) as u8;
    let bytes = match order {
        ByteOrder::Little => [b0, b1, b2, b3],
        ByteOrder::Big => [b3, b2, b1, b0],
    };
    assert(bytes@ =~= u32_bytes(value, order));
    bytes
}

/// Reading back a number that was laid out gives the number.
pub proof fn lemma_u32_round_trip(value: u32, order: ByteOrder)
    ensures
        u32_bytes(value, order).len() == 4,
        u32_value(u32_bytes(value, order), order) == value,
{
    assert(value == value % 0x100 + (value / 0x100 % 0x100) * 0x100 + (value / 0x1_0000 % 0x100)
        * 0x1_0000 + (value / 0x100_0000) * 0x100_0000) by (bit_vector);
    assert(value / 0x100_0000 < 0x100);
}

/// A field holds its bytes in their places and zeros behind them, and is as wide
/// as it should be.
pub proof fn law_padding_keeps_bytes(bytes: Seq<u8>, width: nat)
    ensures
        zero_padded(bytes, width).len() == width,
        forall|i: int|
            0 <= i < width && i < bytes.len() ==> #[trigger] zero_padded(bytes, width)[i]
                == bytes[i],
        forall|i: int|
            bytes.len() <= i < width ==> #[trigger] zero_padded(bytes, width)[i] == 0u8,
{
}

/// What stands before the first zero is where the bytes start, holds no zero, and
/// ends where the bytes do or at a zero.
pub proof fn law_ends_at_first_zero(bytes: Seq<u8>)
    ensures
        until_nul(bytes).len() <= bytes.len(),
        forall|i: int|
            0 <= i < until_nul(bytes).len() ==> #[trigger] until_nul(bytes)[i] == bytes[i]
                && bytes[i] != 0u8,
        until_nul(bytes).len() < bytes.len() ==> bytes[until_nul(bytes).len() as int] == 0u8,
{
    bytes.index_of_first_ensures(0u8);
    match bytes.index_of_first(0u8) {
        Some(end) => {
            assert forall|i: int| 0 <= i < end implies bytes[i] != 0u8 by {}
        },
        None => {
            assert forall|i: int| 0 <= i < bytes.len() implies bytes[i] != 0u8 by {
                assert(bytes.contains(bytes[i]));
            }
        },
    }
}

/// The low byte of a number comes first in one byte order and last in the other,
/// and each byte counts 256 times as much as the next lower one.
pub proof fn law_bytes_have_their_weights(value: u32, b: Seq<u8>)
    requires
        b.len() == 4,
    ensures
        u32_bytes(value, ByteOrder::Little).len() == 4,
        u32_bytes(value, ByteOrder::Big).len() == 4,
        ({
            let l = u32_bytes(value, ByteOrder::Little);
            value == l[0] + 256 * (l[1] + 256 * (l[2] + 256 * l[3]))
        }),
        ({
            let g = u32_bytes(value, ByteOrder::Big);
            value == g[3] + 256 * (g[2] + 256 * (g[1] + 256 * g[0]))
        }),
        u32_value(b, ByteOrder::Little) == b[0] + 256 * (b[1] + 256 * (b[2] + 256 * b[3])),
        u32_value(b, ByteOrder::Big) == b[3] + 256 * (b[2] + 256 * (b[1] + 256 * b[0])),
{
    lemma_u32_round_trip(value, ByteOrder::Little);
    lemma_u32_round_trip(value, ByteOrder::Big);
}

} // verus!
