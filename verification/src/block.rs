//! A block of the ring as a client sees it, and the packets in it.
//!
//! A block begins with a header: its version at byte 0, its status at byte 8, how
//! many packets it has at byte 12, and where the first one lies at byte 16. A packet
//! has a header too: how far it is to the next packet at byte 0, when it came at
//! bytes 4 and 8, how much of it was captured at byte 12, how long it was at byte 16,
//! and where its data lie at byte 24. All are in the machine's byte order.
//!
//! Where a packet lies is what the packets before it say, be it in the block or not: a
//! block comes with all of the ring that follows it. Nothing is read but what lies there.

use vstd::prelude::*;
use vstd::slice::slice_subrange;

use crate::bytes;
use crate::bytes::{push_be32, read_u16_at, read_u32_at, ByteOrder};

verus! {

/// How much of a block's header is read.
pub const BLOCK_HEADER: usize = 20;

/// How much of a packet's header is read.
pub const PACKET_HEADER: usize = 26;

/// How much of a packet's header is read to find the next packet.
pub const PACKET_LINK: usize = 4;

/// A block that the server handed out.
#[derive(Debug)]
pub struct Block<'c> {
    mem: &'c [u8],
    order: ByteOrder,
    index: u32,
    offset: usize,
    block_size: u32,
    returned: bool,
}

/// What is known of a block.
pub struct BlockView {
    /// The bytes of the ring from the beginning of the block on.
    pub mem: Seq<u8>,
    pub order: ByteOrder,
    pub index: u32,
    /// Where it lies in the ring.
    pub offset: usize,
    pub block_size: u32,
    /// Whether it was returned.
    pub returned: bool,
}

impl BlockView {
    /// Whether the block's header lies in the ring.
    pub open spec fn has_header(self) -> bool {
        self.mem.len() >= BLOCK_HEADER
    }

    /// How many packets the block has.
    pub open spec fn num_pkts(self) -> u32 {
        bytes::u32_at(self.mem, 12, self.order)
    }

    /// Where the first packet lies, counted from the beginning of the block.
    pub open spec fn first_pkt(self) -> u32 {
        bytes::u32_at(self.mem, 16, self.order)
    }

    /// Where packet `k` lies, counted from the beginning of the block.
    pub open spec fn packet_at(self, k: nat) -> nat
        decreases k,
    {
        if k == 0 {
            self.first_pkt() as nat
        } else {
            let before = self.packet_at((k - 1) as nat);
            before + bytes::u32_at(self.mem, before as int, self.order) as nat
        }
    }

    /// Packet `k`.
    pub open spec fn packet(self, k: nat) -> PacketView {
        PacketView { mem: self.mem, order: self.order, at: self.packet_at(k) as int }
    }

    /// Whether packet `k` says where the next one lies.
    pub open spec fn has_link(self, k: nat) -> bool {
        self.packet_at(k) + PACKET_LINK <= self.mem.len()
    }

    /// Whether every packet but the last says where the next one lies.
    pub open spec fn links_fit(self) -> bool {
        forall|k: nat| k + 1 < self.num_pkts() ==> #[trigger] self.has_link(k)
    }
}

impl<'c> View for Block<'c> {
    type V = BlockView;

    closed spec fn view(&self) -> BlockView {
        BlockView {
            mem: self.mem@,
            order: self.order,
            index: self.index,
            offset: self.offset,
            block_size: self.block_size,
            returned: self.returned,
        }
    }
}

impl<'c> Block<'c> {
    /// A ring is no longer than memory can be.
    pub proof fn lemma_len(&self)
        ensures
            self@.mem.len() <= usize::MAX,
    {
        assert(self.mem.len() == self.mem@.len());
    }

    /// Block `index` of the ring, of `block_size` bytes, which lies at `offset`; `mem`
    /// is the ring from there on.
    pub fn new(
        mem: &'c [u8],
        order: ByteOrder,
        index: u32,
        offset: usize,
        block_size: u32,
    ) -> (r: Block<'c>)
        ensures
            r@ == (BlockView { mem: mem@, order, index, offset, block_size, returned: false }),
    {
        Block { mem, order, index, offset, block_size, returned: false }
    }

    pub fn index(&self) -> (r: u32)
        ensures
            r == self@.index,
    {
        self.index
    }

    /// Where the block lies in the ring.
    pub fn raw_offset(&self) -> (r: usize)
        ensures
            r == self@.offset,
    {
        self.offset
    }

    pub fn block_size(&self) -> (r: u32)
        ensures
            r == self@.block_size,
    {
        self.block_size
    }

    /// Whether the block's header lies in the ring.
    pub fn has_header(&self) -> (r: bool)
        ensures
            r == self@.has_header(),
    {
        self.mem.len() >= BLOCK_HEADER
    }

    /// How many packets the block has.
    pub fn num_pkts(&self) -> (r: u32)
        requires
            self@.mem.len() >= 16,
        ensures
            r == self@.num_pkts(),
    {
        read_u32_at(self.mem, 12, self.order)
    }

    /// Where the first packet lies, counted from the beginning of the block.
    pub fn offset_to_first_pkt(&self) -> (r: u32)
        requires
            self@.has_header(),
        ensures
            r == self@.first_pkt(),
    {
        read_u32_at(self.mem, 16, self.order)
    }

    /// Returns the block: the message to the server.
    pub fn return_block(&mut self) -> (r: Vec<u8>)
        ensures
            r@ == bytes::be32(old(self)@.index),
            final(self)@ == (BlockView { returned: true, ..old(self)@ }),
    {
        self.returned = true;
        let mut out: Vec<u8> = Vec::new();
        push_be32(&mut out, self.index);
        assert(out@ =~= bytes::be32(old(self)@.index));
        out
    }

    /// The message to the server when the block is given up: it is returned then,
    /// if it was not before.
    pub fn give_up(&mut self) -> (r: Option<Vec<u8>>)
        ensures
            match r {
                Some(m) => !old(self)@.returned && m@ == bytes::be32(old(self)@.index),
                None => old(self)@.returned,
            },
            final(self)@ == (BlockView { returned: true, ..old(self)@ }),
    {
        if self.returned {
            return None;
        }
        Some(self.return_block())
    }

    /// Begins to walk through the packets.
    pub fn iter_packets(&self) -> (r: PacketIter<'c>)
        requires
            self@.has_header(),
        ensures
            r@ == WalkView::start(self@),
    {
        PacketIter {
            mem: self.mem,
            order: self.order,
            current: None,
            left: self.num_pkts(),
            offset_first: self.offset_to_first_pkt(),
        }
    }
}

/// A walk through the packets of a block.
#[derive(Debug)]
pub struct PacketIter<'b> {
    mem: &'b [u8],
    order: ByteOrder,
    /// Where the packet lies that was handed out last.
    current: Option<u128>,
    /// How many packets are left.
    left: u32,
    offset_first: u32,
}

/// What is known of a walk.
pub struct WalkView {
    pub mem: Seq<u8>,
    pub order: ByteOrder,
    pub current: Option<u128>,
    pub left: u32,
    pub first: u32,
}

impl WalkView {
    /// The walk through the packets of a block at its start.
    pub open spec fn start(b: BlockView) -> WalkView {
        WalkView {
            mem: b.mem,
            order: b.order,
            current: None,
            left: b.num_pkts(),
            first: b.first_pkt(),
        }
    }

    /// Where the next packet lies.
    pub open spec fn next_at(self) -> nat {
        match self.current {
            None => self.first as nat,
            Some(at) => at as nat + bytes::u32_at(self.mem, at as int, self.order) as nat,
        }
    }

    /// Whether the walk can go on: no packet is left, or it can be found where the next
    /// one lies.
    pub open spec fn can_go_on(self) -> bool {
        self.left > 0 ==> (self.current matches Some(at) ==> at + PACKET_LINK <= self.mem.len())
    }

    /// Whether the walk through the packets of a block has handed out `k` of them.
    pub open spec fn is_at(self, b: BlockView, k: nat) -> bool {
        &&& self.mem == b.mem
        &&& self.order == b.order
        &&& self.first == b.first_pkt()
        &&& k + self.left == b.num_pkts()
        &&& match self.current {
            None => k == 0,
            Some(at) => k > 0 && at == b.packet_at((k - 1) as nat),
        }
    }

    /// The walk after the next packet; the same walk where none is left.
    pub open spec fn next(self) -> WalkView {
        if self.left > 0 {
            WalkView {
                current: Some(self.next_at() as u128),
                left: (self.left - 1) as u32,
                ..self
            }
        } else {
            self
        }
    }
}

impl<'b> View for PacketIter<'b> {
    type V = WalkView;

    closed spec fn view(&self) -> WalkView {
        WalkView {
            mem: self.mem@,
            order: self.order,
            current: self.current,
            left: self.left,
            first: self.offset_first,
        }
    }
}

impl<'b> PacketIter<'b> {
    /// Whether the walk can go on.
    pub fn can_go_on(&self) -> (r: bool)
        ensures
            r == self@.can_go_on(),
    {
        match self.current {
            Some(at) => self.left == 0 || self.mem.len() >= PACKET_LINK && at <= (self.mem.len()
                - PACKET_LINK) as u128,
            None => true,
        }
    }

    /// The next packet, while one is left.
    pub fn next(&mut self) -> (r: Option<Packet<'b>>)
        requires
            old(self)@.can_go_on(),
        ensures
            final(self)@ == old(self)@.next(),
            match r {
                Some(p) => old(self)@.left > 0 && p@ == (PacketView {
                    mem: old(self)@.mem,
                    order: old(self)@.order,
                    at: old(self)@.next_at() as int,
                }),
                None => old(self)@.left == 0,
            },
    {
        if self.left == 0 {
            return None;
        }
        let size: usize = self.mem.len();
        let at: u128 = match self.current {
            None => self.offset_first as u128,
            Some(at) => {
                assert(at + PACKET_LINK <= size);
                at + read_u32_at(self.mem, at as usize, self.order) as u128
            },
        };
        self.left = self.left - 1;
        self.current = Some(at);
        Some(Packet { mem: self.mem, order: self.order, at })
    }
}

/// A packet of a block.
#[derive(Debug, Clone, Copy)]
pub struct Packet<'b> {
    mem: &'b [u8],
    order: ByteOrder,
    at: u128,
}

/// What is known of a packet.
pub struct PacketView {
    /// The bytes of the ring from the beginning of its block on.
    pub mem: Seq<u8>,
    pub order: ByteOrder,
    /// Where its header lies in them.
    pub at: int,
}

impl PacketView {
    /// Whether the first `n` bytes of the packet's header lie in the ring.
    pub open spec fn holds(self, n: int) -> bool {
        self.at + n <= self.mem.len()
    }

    /// How much of the packet was captured.
    pub open spec fn snaplen(self) -> u32 {
        bytes::u32_at(self.mem, self.at + 12, self.order)
    }

    /// How long the packet was.
    pub open spec fn original_len(self) -> u32 {
        bytes::u32_at(self.mem, self.at + 16, self.order)
    }

    /// When the packet came, in nanoseconds.
    pub open spec fn nanos(self) -> int {
        bytes::u32_at(self.mem, self.at + 4, self.order) * 1_000_000_000 + bytes::u32_at(
            self.mem,
            self.at + 8,
            self.order,
        )
    }

    /// Where the packet's data lie, counted from the beginning of the block.
    pub open spec fn data_at(self) -> int {
        self.at + bytes::u16_at(self.mem, self.at + 24, self.order)
    }

    /// Whether the packet's header and its data lie in the ring.
    pub open spec fn has_data(self) -> bool {
        self.holds(PACKET_HEADER as int) && self.data_at() + self.snaplen() <= self.mem.len()
    }

    /// The packet's data.
    pub open spec fn data(self) -> Seq<u8> {
        self.mem.subrange(self.data_at(), self.data_at() + self.snaplen())
    }
}

impl<'b> View for Packet<'b> {
    type V = PacketView;

    closed spec fn view(&self) -> PacketView {
        PacketView { mem: self.mem@, order: self.order, at: self.at as int }
    }
}

impl<'b> Packet<'b> {
    /// The packet whose header lies at `at`.
    pub fn new(mem: &'b [u8], order: ByteOrder, at: usize) -> (r: Packet<'b>)
        ensures
            r@ == (PacketView { mem: mem@, order, at: at as int }),
    {
        Packet { mem, order, at: at as u128 }
    }

    /// Where the packet's header lies, counted from the beginning of the block.
    pub fn raw_offset(&self) -> (r: u128)
        ensures
            r == self@.at,
    {
        self.at
    }

    /// Whether the packet's header lies in the ring.
    pub fn has_header(&self) -> (r: bool)
        ensures
            r == self@.holds(PACKET_HEADER as int),
    {
        self.mem.len() >= PACKET_HEADER && self.at <= (self.mem.len() - PACKET_HEADER) as u128
    }

    /// How much of the packet was captured.
    pub fn snaplen(&self) -> (r: u32)
        requires
            self@.holds(16),
        ensures
            r == self@.snaplen(),
    {
        let size: usize = self.mem.len();
        assert(self.at + 16 <= size);
        read_u32_at(self.mem, self.at as usize + 12, self.order)
    }

    /// How long the packet was.
    pub fn original_len(&self) -> (r: u32)
        requires
            self@.holds(20),
        ensures
            r == self@.original_len(),
            r == bytes::u32_at(self@.mem, self@.at + 16, self@.order),
    {
        let size: usize = self.mem.len();
        assert(self.at + 20 <= size);
        read_u32_at(self.mem, self.at as usize + 16, self.order)
    }

    /// When the packet came, in nanoseconds.
    pub fn nanos(&self) -> (r: i64)
        requires
            self@.holds(12),
        ensures
            r == self@.nanos(),
    {
        let size: usize = self.mem.len();
        assert(self.at + 12 <= size);
        let sec: u32 = read_u32_at(self.mem, self.at as usize + 4, self.order);
        let nsec: u32 = read_u32_at(self.mem, self.at as usize + 8, self.order);
        sec as i64 * 1_000_000_000 + nsec as i64
    }

    /// Where the packet's data lie, counted from the beginning of the block.
    pub fn data_offset(&self) -> (r: u128)
        requires
            self@.holds(PACKET_HEADER as int),
        ensures
            r == self@.data_at(),
    {
        let size: usize = self.mem.len();
        assert(self.at + PACKET_HEADER <= size);
        let mac: u16 = read_u16_at(self.mem, self.at as usize + 24, self.order);
        self.at + mac as u128
    }

    /// Whether the packet's header and its data lie in the ring.
    pub fn has_data(&self) -> (r: bool)
        ensures
            r == self@.has_data(),
    {
        if !self.has_header() {
            return false;
        }
        let size: usize = self.mem.len();
        assert(self.at + PACKET_HEADER <= size);
        self.data_offset() + self.snaplen() as u128 <= size as u128
    }

    /// The packet's data.
    pub fn data(&self) -> (r: &'b [u8])
        requires
            self@.has_data(),
        ensures
            r@ == self@.data(),
    {
        let size: usize = self.mem.len();
        let len: u32 = self.snaplen();
        let start: u128 = self.data_offset();
        assert(start + len <= size);
        slice_subrange(self.mem, start as usize, start as usize + len as usize)
    }
}

/// Where the packets lie that a walk hands out while it can go on.
pub open spec fn walk(w: WalkView) -> Seq<nat>
    decreases w.left,
{
    if w.left > 0 && w.can_go_on() {
        seq![w.next_at()] + walk(w.next())
    } else {
        seq![]
    }
}

/// A walk hands out every packet of a block once and in order, wherever the packets lie,
/// if every packet but the last says where the next one lies.
pub proof fn law_walk_finds_all_packets(b: BlockView)
    requires
        b.links_fit(),
        b.mem.len() <= usize::MAX,
    ensures
        walk(WalkView::start(b)) == Seq::new(b.num_pkts() as nat, |k: int| b.packet_at(k as nat)),
{
    lemma_walk_from(b, WalkView::start(b), 0);
    assert(walk(WalkView::start(b)) =~= Seq::new(
        b.num_pkts() as nat,
        |k: int| b.packet_at(k as nat),
    ));
}

proof fn lemma_walk_from(b: BlockView, w: WalkView, k: nat)
    requires
        b.links_fit(),
        b.mem.len() <= usize::MAX,
        w.is_at(b, k),
    ensures
        walk(w) == Seq::new((b.num_pkts() - k) as nat, |i: int| b.packet_at((k + i) as nat)),
    decreases w.left,
{
    let expected = Seq::new((b.num_pkts() - k) as nat, |i: int| b.packet_at((k + i) as nat));
    if w.left > 0 {
        lemma_goes_on(b, w, k);
        lemma_walk_from(b, w.next(), k + 1);
        assert(walk(w) =~= expected);
    } else {
        assert(walk(w) =~= expected);
    }
}

/// A walk goes from packet to packet.
pub(crate) proof fn lemma_goes_on(b: BlockView, w: WalkView, k: nat)
    requires
        w.is_at(b, k),
        w.left > 0,
        b.mem.len() <= usize::MAX,
    ensures
        w.can_go_on() <==> (k > 0 ==> b.has_link((k - 1) as nat)),
        w.next_at() == b.packet_at(k),
        w.can_go_on() ==> w.next().is_at(b, k + 1),
{
}

/// What a packet's header says, wherever the packet lies and in either byte order: where
/// the next packet lies at byte 0, the seconds at byte 4, the nanoseconds at byte 8, how
/// much was captured at byte 12, how long the packet was at byte 16, and where the data lie
/// at byte 24, counted from the header. So data that lie where the header says are the
/// packet's data.
pub proof fn law_packet_has_the_data_laid_there(
    p: PacketView,
    next: u32,
    sec: u32,
    nsec: u32,
    length: u32,
    mac: u16,
    payload: Seq<u8>,
)
    requires
        0 <= p.at,
        p.at + PACKET_HEADER <= p.mem.len(),
        payload.len() <= u32::MAX,
        p.at + mac + payload.len() <= p.mem.len(),
        p.order is Little,
        p.mem.subrange(p.at, p.at + 4) == bytes::le32(next),
        p.mem.subrange(p.at + 4, p.at + 8) == bytes::le32(sec),
        p.mem.subrange(p.at + 8, p.at + 12) == bytes::le32(nsec),
        p.mem.subrange(p.at + 12, p.at + 16) == bytes::le32(payload.len() as u32),
        p.mem.subrange(p.at + 16, p.at + 20) == bytes::le32(length),
        p.mem.subrange(p.at + 24, p.at + 26) == bytes::le16(mac),
        p.mem.subrange(p.at + mac, p.at + mac + payload.len()) == payload,
    ensures
        p.has_data(),
        p.snaplen() == payload.len(),
        p.data_at() == p.at + mac,
        p.data() == payload,
        p.nanos() == sec * 1_000_000_000 + nsec,
        p.original_len() == length,
{
    lemma_reads_le(p.mem, p.at, next);
    lemma_reads_le(p.mem, p.at + 4, sec);
    lemma_reads_le(p.mem, p.at + 8, nsec);
    lemma_reads_le(p.mem, p.at + 12, payload.len() as u32);
    lemma_reads_le(p.mem, p.at + 16, length);
    let b = p.mem.subrange(p.at + 24, p.at + 26);
    assert(b[0] == p.mem[p.at + 24] && b[1] == p.mem[p.at + 25]);
    bytes::law_bytes_weigh_by_place(0, mac);
}

/// The same in the other byte order.
pub proof fn law_packet_has_the_data_laid_there_big(
    p: PacketView,
    next: u32,
    sec: u32,
    nsec: u32,
    length: u32,
    mac: u16,
    payload: Seq<u8>,
)
    requires
        0 <= p.at,
        p.at + PACKET_HEADER <= p.mem.len(),
        payload.len() <= u32::MAX,
        p.at + mac + payload.len() <= p.mem.len(),
        p.order is Big,
        p.mem.subrange(p.at, p.at + 4) == bytes::be32(next),
        p.mem.subrange(p.at + 4, p.at + 8) == bytes::be32(sec),
        p.mem.subrange(p.at + 8, p.at + 12) == bytes::be32(nsec),
        p.mem.subrange(p.at + 12, p.at + 16) == bytes::be32(payload.len() as u32),
        p.mem.subrange(p.at + 16, p.at + 20) == bytes::be32(length),
        p.mem.subrange(p.at + 24, p.at + 26) == bytes::be16(mac),
        p.mem.subrange(p.at + mac, p.at + mac + payload.len()) == payload,
    ensures
        p.has_data(),
        p.snaplen() == payload.len(),
        p.data_at() == p.at + mac,
        p.data() == payload,
        p.nanos() == sec * 1_000_000_000 + nsec,
        p.original_len() == length,
{
    lemma_reads_be(p.mem, p.at, next);
    lemma_reads_be(p.mem, p.at + 4, sec);
    lemma_reads_be(p.mem, p.at + 8, nsec);
    lemma_reads_be(p.mem, p.at + 12, payload.len() as u32);
    lemma_reads_be(p.mem, p.at + 16, length);
    let b = p.mem.subrange(p.at + 24, p.at + 26);
    assert(b[0] == p.mem[p.at + 24] && b[1] == p.mem[p.at + 25]);
    bytes::law_bytes_weigh_by_place(0, mac);
}

/// What is read past the end of the ring is no data: a packet has its data exactly if its
/// header and all that was captured of it lie in the ring.
pub proof fn law_data_lie_in_the_ring(p: PacketView)
    requires
        0 <= p.at,
    ensures
        p.has_data() <==> p.at + 26 <= p.mem.len() && p.data_at() + p.snaplen() <= p.mem.len(),
        p.has_data() ==> p.data().len() == p.snaplen(),
        forall|n: int| #[trigger] p.holds(n) <==> p.at + n <= p.mem.len(),
        BLOCK_HEADER == 20,
        PACKET_HEADER == 26,
        PACKET_LINK == 4,
{
}

/// What a block's header says: how many packets there are at byte 12 and where the first
/// one lies at byte 16, in either byte order.
pub proof fn law_block_header_layout(b: BlockView, packets: u32, first: u32)
    requires
        b.mem.len() >= 20,
        b.order is Little ==> b.mem.subrange(12, 16) == bytes::le32(packets) && b.mem.subrange(
            16,
            20,
        ) == bytes::le32(first),
        b.order is Big ==> b.mem.subrange(12, 16) == bytes::be32(packets) && b.mem.subrange(16, 20)
            == bytes::be32(first),
    ensures
        b.has_header(),
        b.num_pkts() == packets,
        b.first_pkt() == first,
        b.packet_at(0) == first,
{
    if b.order is Little {
        lemma_reads_le(b.mem, 12, packets);
        lemma_reads_le(b.mem, 16, first);
    } else {
        lemma_reads_be(b.mem, 12, packets);
        lemma_reads_be(b.mem, 16, first);
    }
}

/// Each packet but the first lies as far behind the one before it as that one's header
/// says.
pub proof fn law_packets_are_linked(b: BlockView, k: nat, distance: u32)
    requires
        b.packet_at(k) + 4 <= b.mem.len(),
        b.order is Little ==> b.mem.subrange(b.packet_at(k) as int, b.packet_at(k) as int + 4)
            == bytes::le32(distance),
        b.order is Big ==> b.mem.subrange(b.packet_at(k) as int, b.packet_at(k) as int + 4)
            == bytes::be32(distance),
    ensures
        b.has_link(k),
        b.packet_at(k + 1) == b.packet_at(k) + distance,
        b.packet(k).at == b.packet_at(k),
        b.packet(k).mem == b.mem,
        b.packet(k).order == b.order,
{
    if b.order is Little {
        lemma_reads_le(b.mem, b.packet_at(k) as int, distance);
    } else {
        lemma_reads_be(b.mem, b.packet_at(k) as int, distance);
    }
}

/// A walk begins before the first packet, with all packets to come. With each step it is
/// one packet further, and one fewer is to come; with none to come it stays where it is.
pub proof fn law_walk_steps(b: BlockView, w: WalkView)
    ensures
        WalkView::start(b).left == b.num_pkts(),
        WalkView::start(b).next_at() == b.packet_at(0),
        WalkView::start(b).can_go_on(),
        w.left == 0 ==> w.next() == w && w.can_go_on(),
        w.left > 0 ==> w.next().left == w.left - 1,
        w.left > 0 && w.next_at() <= u128::MAX ==> w.next().current == Some(w.next_at() as u128),
        w.left > 0 && w.current is Some ==> (w.can_go_on() <==> w.current->0 + 4 <= w.mem.len()),
        w.next().mem == w.mem && w.next().order == w.order && w.next().first == w.first,
{
}

proof fn lemma_reads_le(mem: Seq<u8>, at: int, v: u32)
    requires
        0 <= at,
        at + 4 <= mem.len(),
        mem.subrange(at, at + 4) == bytes::le32(v),
    ensures
        bytes::u32_at(mem, at, ByteOrder::Little) == v,
{
    let (before, after) = (mem.take(at), mem.skip(at + 4));
    assert(before + bytes::le32(v) + after =~= mem) by {
        assert(mem =~= mem.take(at) + mem.subrange(at, at + 4) + mem.skip(at + 4));
    }
    bytes::law_memory_reads_what_lies_there(before, v, 0, after);
}

proof fn lemma_reads_be(mem: Seq<u8>, at: int, v: u32)
    requires
        0 <= at,
        at + 4 <= mem.len(),
        mem.subrange(at, at + 4) == bytes::be32(v),
    ensures
        bytes::u32_at(mem, at, ByteOrder::Big) == v,
{
    let (before, after) = (mem.take(at), mem.skip(at + 4));
    assert(before + bytes::be32(v) + after =~= mem) by {
        assert(mem =~= mem.take(at) + mem.subrange(at, at + 4) + mem.skip(at + 4));
    }
    bytes::law_memory_reads_what_lies_there(before, v, 0, after);
}

} // verus!
