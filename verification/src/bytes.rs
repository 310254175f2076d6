//! Integers as bytes: most significant byte first on the wire, least significant
//! byte first in capture files, and in the machine's order in the capture ring.

use vstd::prelude::*;

verus! {

/// The order in which the bytes of an integer lie in memory.
#[derive(Debug, Clone, Copy, PartialEq, Eq, Structural)]
pub enum ByteOrder {
    /// The least significant byte comes first.
    Little,
    /// The most significant byte comes first.
    Big,
}

/// A 16-bit integer, least significant byte first.
pub open spec fn le16(v: u16) -> Seq<u8> {
    seq![(v % 0x100) as u8, (v / 0x100) as u8]
}

/// A 16-bit integer, most significant byte first.
pub open spec fn be16(v: u16) -> Seq<u8> {
    seq![(v / 0x100) as u8, (v % 0x100) as u8]
}

/// A 32-bit integer, least significant byte first.
pub open spec fn le32(v: u32) -> Seq<u8> {
    seq![
        (v % 0x100) as u8,
        (v / 0x100 % 0x100) as u8,
        (v / 0x1_0000 % 0x100) as u8,
        (v / 0x100_0000) as u8,
    ]
}

/// A 32-bit integer, most significant byte first.
pub open spec fn be32(v: u32) -> Seq<u8> {
    seq![
        (v / 0x100_0000) as u8,
        (v / 0x1_0000 % 0x100) as u8,
        (v / 0x100 % 0x100) as u8,
        (v % 0x100) as u8,
    ]
}

/// The integer that four bytes stand for, most significant byte first.
pub open spec fn from_be32(b: Seq<u8>) -> u32
    recommends
        b.len() == 4,
{
    (b[0] * 0x100_0000 + b[1] * 0x1_0000 + b[2] * 0x100 + b[3]) as u32
}

/// The 16-bit integer at `at` in `mem`.
pub open spec fn u16_at(mem: Seq<u8>, at: int, order: ByteOrder) -> u16
    recommends
        0 <= at,
        at + 2 <= mem.len(),
{
    match order {
        ByteOrder::Little => (mem[at] + mem[at + 1] * 0x100) as u16,
        ByteOrder::Big => (mem[at] * 0x100 + mem[at + 1]) as u16,
    }
}

/// The 32-bit integer at `at` in `mem`.
pub open spec fn u32_at(mem: Seq<u8>, at: int, order: ByteOrder) -> u32
    recommends
        0 <= at,
        at + 4 <= mem.len(),
{
    match order {
        ByteOrder::Little => (mem[at] + mem[at + 1] * 0x100 + mem[at + 2] * 0x1_0000 + mem[at + 3]
            * 0x100_0000) as u32,
        ByteOrder::Big => (mem[at] * 0x100_0000 + mem[at + 1] * 0x1_0000 + mem[at + 2] * 0x100
            + mem[at + 3]) as u32,
    }
}

/// Appends `v`, most significant byte first.
pub fn push_be16(out: &mut Vec<u8>, v: u16)
    ensures
        final(out)@ == old(out)@ + be16(v),
{
    out.push((v / 0x100) as u8);
    out.push((v % 0x100) as u8);
    assert(out@ =~= old(out)@ + be16(v));
}

/// Appends `v`, most significant byte first.
pub fn push_be32(out: &mut Vec<u8>, v: u32)
    ensures
        final(out)@ == old(out)@ + be32(v),
{
    out.push((v / 0x100_0000) as u8);
    out.push((v / 0x1_0000 % 0x100) as u8);
    out.push((v / 0x100 % 0x100) as u8);
    out.push((v % 0x100) as u8);
    assert(out@ =~= old(out)@ + be32(v));
}

/// The integer that the four bytes from `at` on stand for, most significant byte
/// first.
pub fn read_be32(b: &[u8], at: usize) -> (r: u32)
    requires
        at + 4 <= b@.len(),
    ensures
        r == from_be32(b@.subrange(at as int, at + 4)),
{
    b[at] as u32 * 0x100_0000 + b[at + 1] as u32 * 0x1_0000 + b[at + 2] as u32 * 0x100 + b[at
        + 3] as u32
}

/// Reads a 16-bit integer out of memory.
pub fn read_u16_at(mem: &[u8], at: usize, order: ByteOrder) -> (r: u16)
    requires
        at + 2 <= mem@.len(),
    ensures
        r == u16_at(mem@, at as int, order),
{
    match order {
        ByteOrder::Little => mem[at] as u16 + mem[at + 1] as u16 * 0x100,
        ByteOrder::Big => mem[at] as u16 * 0x100 + mem[at + 1] as u16,
    }
}

/// Reads a 32-bit integer out of memory.
pub fn read_u32_at(mem: &[u8], at: usize, order: ByteOrder) -> (r: u32)
    requires
        at + 4 <= mem@.len(),
    ensures
        r == u32_at(mem@, at as int, order),
{
    match order {
        ByteOrder::Little => mem[at] as u32 + mem[at + 1] as u32 * 0x100 + mem[at + 2] as u32
            * 0x1_0000 + mem[at + 3] as u32 * 0x100_0000,
        ByteOrder::Big => mem[at] as u32 * 0x100_0000 + mem[at + 1] as u32 * 0x1_0000 + mem[at
            + 2] as u32 * 0x100 + mem[at + 3] as u32,
    }
}

/// A 32-bit integer reads back from the bytes that it was written as, and bytes
/// write back as what they read as.
pub proof fn law_be32_round_trip(v: u32, b: Seq<u8>)
    ensures
        from_be32(be32(v)) == v,
        b.len() == 4 ==> be32(from_be32(b)) == b,
{
    lemma_places(
        (v / 0x100_0000) as int,
        (v / 0x1_0000 % 0x100) as int,
        (v / 0x100 % 0x100) as int,
        (v % 0x100) as int,
    );
    if b.len() == 4 {
        lemma_places(b[0] as int, b[1] as int, b[2] as int, b[3] as int);
        assert(be32(from_be32(b)) =~= b);
    }
}

/// The places of a number with digits below 256.
proof fn lemma_places(a: int, b: int, c: int, d: int)
    requires
        0 <= a < 0x100,
        0 <= b < 0x100,
        0 <= c < 0x100,
        0 <= d < 0x100,
    ensures
        ({
            let v = a * 0x100_0000 + b * 0x1_0000 + c * 0x100 + d;
            &&& 0 <= v <= u32::MAX
            &&& v / 0x100_0000 == a
            &&& v / 0x1_0000 % 0x100 == b
            &&& v / 0x100 % 0x100 == c
            &&& v % 0x100 == d
        }),
{
    let v = a * 0x100_0000 + b * 0x1_0000 + c * 0x100 + d;
    let upper = a * 0x100 + b;
    let most = upper * 0x100 + c;
    vstd::arithmetic::div_mod::lemma_fundamental_div_mod_converse(v, 0x100, most, d);
    vstd::arithmetic::div_mod::lemma_fundamental_div_mod_converse(most, 0x100, upper, c);
    vstd::arithmetic::div_mod::lemma_fundamental_div_mod_converse(upper, 0x100, a, b);
    vstd::arithmetic::div_mod::lemma_fundamental_div_mod_converse(
        v,
        0x1_0000,
        upper,
        c * 0x100 + d,
    );
    vstd::arithmetic::div_mod::lemma_fundamental_div_mod_converse(
        v,
        0x100_0000,
        a,
        b * 0x1_0000 + c * 0x100 + d,
    );
}

/// A 32-bit integer reads back out of memory in either byte order.
pub proof fn law_memory_round_trip(v: u32)
    ensures
        u32_at(le32(v), 0, ByteOrder::Little) == v,
        u32_at(be32(v), 0, ByteOrder::Big) == v,
{
}

/// What the bytes of an integer weigh: on the wire the first byte counts most, in a
/// capture file the last.
pub proof fn law_bytes_weigh_by_place(v: u32, w: u16)
    ensures
        be32(v).len() == 4,
        v == be32(v)[0] * 0x100_0000 + be32(v)[1] * 0x1_0000 + be32(v)[2] * 0x100 + be32(v)[3],
        le32(v).len() == 4,
        v == le32(v)[3] * 0x100_0000 + le32(v)[2] * 0x1_0000 + le32(v)[1] * 0x100 + le32(v)[0],
        be16(w).len() == 2,
        w == be16(w)[0] * 0x100 + be16(w)[1],
        le16(w).len() == 2,
        w == le16(w)[1] * 0x100 + le16(w)[0],
{
}

/// Four bytes read as what they weigh, the first one most.
pub proof fn law_word_weighs_its_bytes(a: u8, b: u8, c: u8, d: u8)
    ensures
        from_be32(seq![a, b, c, d]) == a * 0x100_0000 + b * 0x1_0000 + c * 0x100 + d,
{
}

/// An integer that lies anywhere in memory, in either byte order, reads as itself, and
/// what lies around it does not matter.
pub proof fn law_memory_reads_what_lies_there(before: Seq<u8>, v: u32, w: u16, after: Seq<u8>)
    ensures
        u32_at(before + le32(v) + after, before.len() as int, ByteOrder::Little) == v,
        u32_at(before + be32(v) + after, before.len() as int, ByteOrder::Big) == v,
        u16_at(before + le16(w) + after, before.len() as int, ByteOrder::Little) == w,
        u16_at(before + be16(w) + after, before.len() as int, ByteOrder::Big) == w,
{
    let at = before.len() as int;
    let (a, b) = (before + le32(v) + after, before + be32(v) + after);
    assert(forall|i: int| 0 <= i < 4 ==> #[trigger] a[at + i] == le32(v)[i]);
    assert(a[at] == le32(v)[0] && a[at + 1] == le32(v)[1] && a[at + 2] == le32(v)[2] && a[at + 3]
        == le32(v)[3]);
    assert(b[at] == be32(v)[0] && b[at + 1] == be32(v)[1] && b[at + 2] == be32(v)[2] && b[at + 3]
        == be32(v)[3]);
    let (c, d) = (before + le16(w) + after, before + be16(w) + after);
    assert(c[at] == le16(w)[0] && c[at + 1] == le16(w)[1]);
    assert(d[at] == be16(w)[0] && d[at + 1] == be16(w)[1]);
}

} // verus!
