//! The wire protocol between the daemon and its clients.
//!
//! After one version byte, the two sides exchange big-endian 32-bit words. A word
//! is either a bare block index or the header of a typed message, which carries
//! the message's type and the length of the value that follows. How types and
//! lengths are packed into a word is the numbering's business; what is done with
//! them is decided here, for any numbering.

use vstd::prelude::*;

use crate::bytes;
use crate::bytes::{push_be32, read_be32};
use crate::client_error::Error;

verus! {

/// The version of the protocol.
pub const PROTOCOL_VERSION: u8 = 2;

/// Which way messages of a type travel.
#[derive(Debug, Clone, Copy, PartialEq, Eq, Structural)]
pub enum Category {
    ServerToClient,
    ClientToServer,
    /// Neither: no type that a side may send.
    Other,
}

/// A word off the wire and what the numbering makes of it.
#[derive(Debug, Clone, Copy, PartialEq, Eq, Structural)]
pub struct Header {
    /// The word itself.
    pub raw: u32,
    /// The type of the message.
    pub typ: u16,
    /// How many bytes of value follow.
    pub length: u16,
    /// Which way messages of that type travel.
    pub category: Category,
}

/// A numbering of the messages: the types, and the headers of the messages that
/// have a fixed length.
#[derive(Debug, Clone, Copy)]
pub struct Numbering {
    pub block_index: u16,
    pub fanout_size: u16,
    pub block_size: u16,
    pub num_blocks: u16,
    pub waiting_for_fanout_index: u16,
    /// The header of a fanout size of four bytes.
    pub fanout_size_header: u32,
    /// The header of a block size of four bytes.
    pub block_size_header: u32,
    /// The header of a number of blocks of four bytes.
    pub num_blocks_header: u32,
    /// The header of the request for a fanout index, which has no value.
    pub waiting_header: u32,
    /// The header of a fanout index of four bytes.
    pub fanout_index_header: u32,
}

/// Whether `decode`, which takes a word apart, and the numbering go together: the
/// fixed headers decode to their types and lengths, the types of the three sizes
/// and of the request differ, and a word whose top bit is not set is a block index.
pub open spec fn numbering_agrees(n: Numbering, decode: spec_fn(u32) -> Header) -> bool {
    let server = |raw: u32, typ: u16, length: u16|
        Header { raw, typ, length, category: Category::ServerToClient };
    &&& decode(n.fanout_size_header) == server(n.fanout_size_header, n.fanout_size, 4)
    &&& decode(n.block_size_header) == server(n.block_size_header, n.block_size, 4)
    &&& decode(n.num_blocks_header) == server(n.num_blocks_header, n.num_blocks, 4)
    &&& decode(n.waiting_header) == server(n.waiting_header, n.waiting_for_fanout_index, 0)
    &&& n.fanout_size != n.block_size
    &&& n.block_size != n.num_blocks
    &&& n.num_blocks != n.fanout_size
    &&& n.waiting_for_fanout_index != n.fanout_size
    &&& n.waiting_for_fanout_index != n.block_size
    &&& n.waiting_for_fanout_index != n.num_blocks
    &&& forall|raw: u32| #![trigger decode(raw)] decode(raw).raw == raw
    &&& forall|raw: u32|
        #![trigger decode(raw)]
        raw < 0x8000_0000 ==> decode(raw).typ == n.block_index
}

/// A message with a 32-bit value.
pub open spec fn tlv_u32_bytes(header: u32, v: u32) -> Seq<u8> {
    bytes::be32(header) + bytes::be32(v)
}

/// A message with a 32-bit value.
pub fn tlv_u32(header: u32, v: u32) -> (r: Vec<u8>)
    ensures
        r@ == tlv_u32_bytes(header, v),
{
    let mut out: Vec<u8> = Vec::new();
    push_be32(&mut out, header);
    push_be32(&mut out, v);
    assert(out@ =~= tlv_u32_bytes(header, v));
    out
}

/// A message without a value.
pub fn tlv_empty(header: u32) -> (r: Vec<u8>)
    ensures
        r@ == bytes::be32(header),
{
    let mut out: Vec<u8> = Vec::new();
    push_be32(&mut out, header);
    assert(out@ =~= bytes::be32(header));
    out
}

/// What the server sends first: the version, the three sizes, and the request for
/// a fanout index.
pub open spec fn greeting_bytes(
    n: Numbering,
    fanout_size: u32,
    block_size: u32,
    num_blocks: u32,
) -> Seq<u8> {
    seq![PROTOCOL_VERSION] + tlv_u32_bytes(n.fanout_size_header, fanout_size) + tlv_u32_bytes(
        n.block_size_header,
        block_size,
    ) + tlv_u32_bytes(n.num_blocks_header, num_blocks) + bytes::be32(n.waiting_header)
}

/// What a value is read as: a 32-bit number, if it has four bytes.
pub open spec fn strict_u32(typ: u16, val: Seq<u8>) -> Result<u32, Error> {
    if val.len() == 4 {
        Ok(bytes::from_be32(val))
    } else {
        Err(
            Error::UnexpectedTlvLength {
                typ,
                got_length: (val.len() % 0x1_0000) as u16,
                want_length: 4,
            },
        )
    }
}

/// Reads the value of a message as a 32-bit number.
pub fn parse_u32_strict(typ: u16, val: &[u8]) -> (r: Result<u32, Error>)
    ensures
        r == strict_u32(typ, val@),
{
    if val.len() != 4 {
        return Err(
            Error::UnexpectedTlvLength {
                typ,
                got_length: (val.len() % 0x1_0000) as u16,
                want_length: 4,
            },
        );
    }
    assert(val@.subrange(0, 4) =~= val@);
    Ok(read_be32(val, 0))
}

/// A number that is sent as a value reads back as itself.
pub proof fn law_value_round_trip(header: u32, typ: u16, v: u32)
    ensures
        strict_u32(typ, tlv_u32_bytes(header, v).skip(4)) == Ok::<u32, Error>(v),
{
    bytes::law_be32_round_trip(v, bytes::be32(v));
    assert(tlv_u32_bytes(header, v).skip(4) =~= bytes::be32(v));
}

/// Where everything lies in the greeting: the version, which is 2, then three times a
/// header and the size that it announces, then the header of the request for an index.
pub proof fn law_greeting_layout(n: Numbering, fanout_size: u32, block_size: u32, num_blocks: u32)
    ensures
        ({
            let g = greeting_bytes(n, fanout_size, block_size, num_blocks);
            &&& g.len() == 29
            &&& g[0] == 2
            &&& bytes::from_be32(g.subrange(1, 5)) == n.fanout_size_header
            &&& bytes::from_be32(g.subrange(5, 9)) == fanout_size
            &&& bytes::from_be32(g.subrange(9, 13)) == n.block_size_header
            &&& bytes::from_be32(g.subrange(13, 17)) == block_size
            &&& bytes::from_be32(g.subrange(17, 21)) == n.num_blocks_header
            &&& bytes::from_be32(g.subrange(21, 25)) == num_blocks
            &&& bytes::from_be32(g.subrange(25, 29)) == n.waiting_header
        }),
{
    let g = greeting_bytes(n, fanout_size, block_size, num_blocks);
    bytes::law_be32_round_trip(n.fanout_size_header, seq![]);
    bytes::law_be32_round_trip(fanout_size, seq![]);
    bytes::law_be32_round_trip(n.block_size_header, seq![]);
    bytes::law_be32_round_trip(block_size, seq![]);
    bytes::law_be32_round_trip(n.num_blocks_header, seq![]);
    bytes::law_be32_round_trip(num_blocks, seq![]);
    bytes::law_be32_round_trip(n.waiting_header, seq![]);
    assert(g.subrange(1, 5) =~= bytes::be32(n.fanout_size_header));
    assert(g.subrange(5, 9) =~= bytes::be32(fanout_size));
    assert(g.subrange(9, 13) =~= bytes::be32(n.block_size_header));
    assert(g.subrange(13, 17) =~= bytes::be32(block_size));
    assert(g.subrange(17, 21) =~= bytes::be32(n.num_blocks_header));
    assert(g.subrange(21, 25) =~= bytes::be32(num_blocks));
    assert(g.subrange(25, 29) =~= bytes::be32(n.waiting_header));
}

/// A message with a value is eight bytes: the header, then the value, each with the byte
/// that counts most first.
pub proof fn law_message_layout(header: u32, v: u32)
    ensures
        ({
            let m = tlv_u32_bytes(header, v);
            &&& m.len() == 8
            &&& header == m[0] * 0x100_0000 + m[1] * 0x1_0000 + m[2] * 0x100 + m[3]
            &&& v == m[4] * 0x100_0000 + m[5] * 0x1_0000 + m[6] * 0x100 + m[7]
        }),
{
    bytes::law_bytes_weigh_by_place(header, 0);
    bytes::law_bytes_weigh_by_place(v, 0);
}

/// Only a value of four bytes is a number, and it is the number that its bytes weigh. Any
/// other is refused, and the error says how long it was.
pub proof fn law_values_are_four_bytes(typ: u16, val: Seq<u8>)
    ensures
        strict_u32(typ, val) is Ok <==> val.len() == 4,
        val.len() == 4 ==> strict_u32(typ, val)->Ok_0 == val[0] * 0x100_0000 + val[1] * 0x1_0000
            + val[2] * 0x100 + val[3],
        val.len() != 4 && val.len() <= 0xffff ==> (strict_u32(typ, val) matches Err(
            Error::UnexpectedTlvLength { typ: t, got_length, want_length },
        ) && t == typ && got_length == val.len() && want_length == 4),
        val.len() > 0xffff ==> (strict_u32(typ, val) matches Err(
            Error::UnexpectedTlvLength { typ: t, got_length, want_length },
        ) && t == typ && got_length == val.len() % 0x1_0000 && want_length == 4),
{
    if val.len() == 4 {
        bytes::law_word_weighs_its_bytes(val[0], val[1], val[2], val[3]);
        assert(val =~= seq![val[0], val[1], val[2], val[3]]);
    }
}

} // verus!
