//! What the C interface keeps for each connection, and what its calls decide. The
//! pointers that C passes in become addresses and bytes before they come here.

use vstd::prelude::*;

use crate::block::{WalkView, BLOCK_HEADER, PACKET_LINK};
use crate::bytes;
use crate::bytes::{read_u32_at, ByteOrder};
use crate::client::Conn;
use crate::client_error::Error;
use crate::text;
use crate::text::push_decimal;

verus! {

/// How many bytes there are for the description of an error.
pub const TESTIMONY_ERRBUF_SIZE: usize = 256;

/// The error numbers that the calls return.
#[derive(Debug, Clone, Copy, PartialEq, Eq, Structural)]
pub enum Errno {
    /// The number that the operating system gave.
    Os(i32),
    Already,
    Canceled,
    Invalid,
    Io,
    Overflow,
    Protocol,
    ProtocolNotSupported,
    TimedOut,
}

/// The number of a failed call, or of an I/O error where it has none.
pub open spec fn os_number(code: Option<i32>) -> Errno {
    match code {
        Some(n) => Errno::Os(n),
        None => Errno::Io,
    }
}

/// The number of an error.
pub open spec fn errno_of(e: Error) -> Errno {
    match e {
        Error::Connect { source, .. } => os_number(source.code),
        Error::Read { source, .. } => os_number(source.code),
        Error::Write { source, .. } => os_number(source.code),
        Error::Mmap { source, .. } => os_number(source.code),
        Error::Poll(source) => os_number(source.code),
        Error::RecvFd(source) => os_number(source.code),
        Error::PeerClosed { .. } => Errno::Canceled,
        Error::UnexpectedVersion { .. } => Errno::ProtocolNotSupported,
        Error::UnexpectedTlvCategory { .. } => Errno::Protocol,
        Error::UnexpectedTlvLength { .. } => Errno::Protocol,
        Error::MissingHandshakeFields { .. } => Errno::Protocol,
        Error::BlockIndexOutOfRange { .. } => Errno::Protocol,
        Error::NoFdInCmsg => Errno::Protocol,
        Error::RecvFdBytes { .. } => Errno::Protocol,
        Error::RingSizeOverflow { .. } => Errno::Overflow,
        Error::AlreadyInitialized => Errno::Already,
        Error::NotInitialized => Errno::Invalid,
        Error::Timeout => Errno::TimedOut,
        Error::InvalidSocketName(_) => Errno::Invalid,
        Error::Internal(_) => Errno::Io,
    }
}

fn number(code: Option<i32>) -> (r: Errno)
    ensures
        r == os_number(code),
{
    match code {
        Some(n) => Errno::Os(n),
        None => Errno::Io,
    }
}

/// The number of an error.
pub fn err_neg(e: &Error) -> (r: Errno)
    ensures
        r == errno_of(*e),
{
    match e {
        Error::Connect { source, .. } => number(source.code),
        Error::Read { source, .. } => number(source.code),
        Error::Write { source, .. } => number(source.code),
        Error::Mmap { source, .. } => number(source.code),
        Error::Poll(source) => number(source.code),
        Error::RecvFd(source) => number(source.code),
        Error::PeerClosed { .. } => Errno::Canceled,
        Error::UnexpectedVersion { .. } => Errno::ProtocolNotSupported,
        Error::UnexpectedTlvCategory { .. } => Errno::Protocol,
        Error::UnexpectedTlvLength { .. } => Errno::Protocol,
        Error::MissingHandshakeFields { .. } => Errno::Protocol,
        Error::BlockIndexOutOfRange { .. } => Errno::Protocol,
        Error::NoFdInCmsg => Errno::Protocol,
        Error::RecvFdBytes { .. } => Errno::Protocol,
        Error::RingSizeOverflow { .. } => Errno::Overflow,
        Error::AlreadyInitialized => Errno::Already,
        Error::NotInitialized => Errno::Invalid,
        Error::Timeout => Errno::TimedOut,
        Error::InvalidSocketName(_) => Errno::Invalid,
        Error::Internal(_) => Errno::Io,
    }
}

/// What a C program sees of a connection.
#[derive(Debug, Clone, Copy, PartialEq, Eq, Structural)]
#[allow(non_camel_case_types)]
pub struct testimony_connection {
    pub fanout_size: i32,
    pub block_size: usize,
    pub block_nr: usize,
    /// Which capture socket to use; the program sets it before it initializes.
    pub fanout_index: i32,
}

/// A connection of a C program.
#[derive(Debug)]
#[allow(non_camel_case_types)]
pub struct testimony_internal {
    pub conn_view: testimony_connection,
    pub conn: Conn,
    /// How many packets of each block are not yet returned.
    pub counts: Vec<u32>,
    /// The description of the last error, which ends with a zero byte.
    pub errbuf: Vec<u8>,
}

/// The buffer after `message` is written to it: as much of it as fits, and a zero
/// byte.
pub open spec fn described(errbuf: Seq<u8>, message: Seq<u8>) -> Seq<u8> {
    let n = if message.len() < TESTIMONY_ERRBUF_SIZE {
        message.len() as int
    } else {
        TESTIMONY_ERRBUF_SIZE - 1
    };
    message.take(n) + seq![0u8] + errbuf.skip(n + 1)
}

/// The block at an address, in a ring of `count` blocks of `size` bytes at `base`;
/// `None` where the ring is not mapped or no block begins at the address.
pub open spec fn block_at(base: int, size: int, count: int, addr: int) -> Option<int> {
    if base != 0 && exists|i: int| 0 <= i < count && #[trigger] (base + i * size) == addr {
        Some((addr - base) / size)
    } else {
        None
    }
}

/// A count of zero for each block.
fn zeros(n: u32) -> (r: Vec<u32>)
    ensures
        r@ == Seq::new(n as nat, |i: int| 0u32),
{
    let mut v: Vec<u32> = Vec::new();
    let mut i: u32 = 0;
    while i < n
        invariant
            i <= n,
            v@ =~= Seq::new(i as nat, |k: int| 0u32),
        decreases n - i,
    {
        v.push(0);
        i = i + 1;
    }
    v
}

/// How long to wait for a block: no limit where the number is negative.
pub fn timeout_of(timeout_millis: i32) -> (r: Option<u128>)
    ensures
        r == (if timeout_millis < 0 {
            None
        } else {
            Some(timeout_millis as u128)
        }),
{
    if timeout_millis < 0 {
        None
    } else {
        Some(timeout_millis as u128)
    }
}

/// Makes the C program's view of a connection.
pub fn testimony_connect(conn: Conn) -> (r: testimony_internal)
    requires
        conn.wf(),
    ensures
        r.wf(),
        r.conn == conn,
        r.counts@ == Seq::new(conn@.num_blocks as nat, |i: int| 0u32),
        r.errbuf@ == Seq::new(TESTIMONY_ERRBUF_SIZE as nat, |i: int| 0u8),
        r.conn_view == (testimony_connection {
            fanout_size: conn@.fanout_size as i32,
            block_size: conn@.block_size as usize,
            block_nr: conn@.num_blocks as usize,
            fanout_index: 0,
        }),
{
    let counts: Vec<u32> = zeros(conn.num_blocks());
    let mut errbuf: Vec<u8> = Vec::new();
    let mut i: usize = 0;
    while i < TESTIMONY_ERRBUF_SIZE
        invariant
            i <= TESTIMONY_ERRBUF_SIZE,
            errbuf@ =~= Seq::new(i as nat, |k: int| 0u8),
        decreases TESTIMONY_ERRBUF_SIZE - i,
    {
        errbuf.push(0);
        i = i + 1;
    }
    let conn_view = testimony_connection {
        fanout_size: conn.fanout_size() as i32,
        block_size: conn.block_size() as usize,
        block_nr: conn.num_blocks() as usize,
        fanout_index: 0,
    };
    assert(errbuf@[0] == 0);
    testimony_internal { conn_view, conn, counts, errbuf }
}

impl testimony_internal {
    /// Each block has its count, and the description of the last error ends with a
    /// zero byte.
    pub open spec fn wf(self) -> bool {
        &&& self.conn.wf()
        &&& self.counts@.len() == self.conn@.num_blocks
        &&& self.errbuf@.len() == TESTIMONY_ERRBUF_SIZE
        &&& self.errbuf@.contains(0)
    }

    /// The connection with another description of the last error.
    pub open spec fn same_but_error(self, other: testimony_internal) -> bool {
        &&& self.conn_view == other.conn_view
        &&& self.conn == other.conn
        &&& self.counts == other.counts
    }

    /// Describes an error.
    pub fn set_err_str(&mut self, msg: &str)
        requires
            old(self).wf(),
        ensures
            final(self).wf(),
            final(self).same_but_error(*old(self)),
            final(self).errbuf@ == described(
                old(self).errbuf@,
                vstd::utf8::encode_utf8(msg@),
            ),
    {
        let message: &[u8] = msg.as_bytes();
        let n: usize = if message.len() < TESTIMONY_ERRBUF_SIZE {
            message.len()
        } else {
            TESTIMONY_ERRBUF_SIZE - 1
        };
        let ghost before = self.errbuf@;
        let mut i: usize = 0;
        while i < n
            invariant
                i <= n <= message@.len(),
                n < TESTIMONY_ERRBUF_SIZE,
                before.len() == TESTIMONY_ERRBUF_SIZE,
                self.same_but_error(*old(self)),
                self.errbuf@ =~= message@.take(i as int) + before.skip(i as int),
            decreases n - i,
        {
            self.errbuf.set(i, message[i]);
            i = i + 1;
        }
        self.errbuf.set(n, 0);
        assert(self.errbuf@ =~= described(before, message@));
        assert(self.errbuf@[n as int] == 0);
    }

    /// Describes an error and gives its number.
    pub fn set_err(&mut self, e: &Error) -> (r: Errno)
        requires
            old(self).wf(),
        ensures
            final(self).wf(),
            final(self).same_but_error(*old(self)),
            final(self).errbuf@ == described(
                old(self).errbuf@,
                vstd::utf8::encode_utf8(e.text()),
            ),
            r == errno_of(*e),
    {
        let msg: String = e.message();
        self.set_err_str(msg.as_str());
        err_neg(e)
    }

    /// Which capture socket the program asks for.
    pub fn chosen_index(&self) -> (r: u32)
        ensures
            r == self.conn_view.fanout_index as u32,
    {
        self.conn_view.fanout_index as u32
    }

    /// Ends initializing the connection: nothing of any block is out.
    pub fn testimony_init(&mut self, done: Result<(), Error>) -> (r: Result<(), Errno>)
        requires
            old(self).wf(),
        ensures
            final(self).wf(),
            final(self).conn == old(self).conn,
            match done {
                Ok(()) => r == Ok::<(), Errno>(()) && final(self).errbuf == old(self).errbuf
                    && final(self).counts@ == Seq::new(
                    old(self).conn@.num_blocks as nat,
                    |i: int| 0u32,
                ) && final(self).conn_view == (testimony_connection {
                    block_size: old(self).conn@.block_size as usize,
                    block_nr: old(self).conn@.num_blocks as usize,
                    ..old(self).conn_view
                }),
                Err(e) => r == Err::<(), Errno>(errno_of(e)) && final(self).same_but_error(
                    *old(self),
                ) && final(self).errbuf@ == described(
                    old(self).errbuf@,
                    vstd::utf8::encode_utf8(e.text()),
                ),
            },
    {
        match done {
            Ok(()) => {
                self.counts = zeros(self.conn.num_blocks());
                self.conn_view.block_size = self.conn.block_size() as usize;
                self.conn_view.block_nr = self.conn.num_blocks() as usize;
                Ok(())
            },
            Err(e) => Err(self.set_err(&e)),
        }
    }

    /// Notes that the program got block `idx`, which has so many packets.
    pub fn testimony_get_block(&mut self, idx: u32, num_pkts: u32) -> (r: Result<(), Errno>)
        requires
            old(self).wf(),
        ensures
            final(self).wf(),
            final(self).conn == old(self).conn,
            final(self).conn_view == old(self).conn_view,
            if idx < old(self).counts@.len() {
                r == Ok::<(), Errno>(()) && final(self).counts@ == old(self).counts@.update(
                    idx as int,
                    num_pkts,
                ) && final(self).errbuf == old(self).errbuf
            } else {
                r == Err::<(), Errno>(Errno::Io) && final(self).counts == old(self).counts
                    && final(self).errbuf@ == described(
                    old(self).errbuf@,
                    vstd::utf8::encode_utf8(
                        "internal: block "@ + text::decimal(idx as nat)
                            + " returned by next_block but counts has only "@ + text::decimal(
                            old(self).counts@.len(),
                        ) + " slots"@,
                    ),
                )
            },
    {
        if idx as usize >= self.counts.len() {
            let mut s = "internal: block ".to_owned();
            push_decimal(&mut s, idx as u128);
            s.append(" returned by next_block but counts has only ");
            push_decimal(&mut s, self.counts.len() as u128);
            s.append(" slots");
            self.set_err_str(s.as_str());
            return Err(Errno::Io);
        }
        self.counts.set(idx as usize, num_pkts);
        Ok(())
    }

    /// The block that begins at an address.
    pub fn block_index_of(&self, addr: usize) -> (r: Option<u32>)
        requires
            self.wf(),
        ensures
            match r {
                Some(i) => block_at(
                    self.conn@.ring_ptr as int,
                    self.conn@.block_size as int,
                    self.conn@.num_blocks as int,
                    addr as int,
                ) == Some(i as int) && i < self.conn@.num_blocks,
                None => block_at(
                    self.conn@.ring_ptr as int,
                    self.conn@.block_size as int,
                    self.conn@.num_blocks as int,
                    addr as int,
                ) is None,
            },
    {
        let base: usize = self.conn.ring_base_for_ffi();
        let size: usize = self.conn.block_size() as usize;
        let count: usize = self.conn.num_blocks() as usize;
        proof {
            self.conn.lemma_wf();
            lemma_block_at(base as int, size as int, count as int, addr as int);
        }
        if base == 0 || addr < base {
            return None;
        }
        let diff: usize = addr - base;
        if size == 0 || diff % size != 0 {
            return None;
        }
        let i: usize = diff / size;
        if i >= count {
            return None;
        }
        Some(i as u32)
    }

    /// Returns a block whole. The result is the block to tell the server of.
    pub fn testimony_return_block(&mut self, addr: usize) -> (r: Result<u32, Errno>)
        requires
            old(self).wf(),
        ensures
            final(self).wf(),
            final(self).conn == old(self).conn,
            final(self).conn_view == old(self).conn_view,
            match block_at(
                old(self).conn@.ring_ptr as int,
                old(self).conn@.block_size as int,
                old(self).conn@.num_blocks as int,
                addr as int,
            ) {
                Some(i) => r == Ok::<u32, Errno>(i as u32) && 0 <= i < old(self).conn@.num_blocks
                    && final(self).counts@ == old(self).counts@.update(i, 0) && final(self).errbuf
                    == old(self).errbuf,
                None => r == Err::<u32, Errno>(Errno::Invalid) && final(self).same_but_error(
                    *old(self),
                ) && final(self).errbuf@ == described(
                    old(self).errbuf@,
                    vstd::utf8::encode_utf8(
                        "block does not appear to have come from this testimony instance (out of ring range or misaligned to block_size)"@,
                    ),
                ),
            },
    {
        match self.block_index_of(addr) {
            Some(i) => {
                self.counts.set(i as usize, 0);
                Ok(i)
            },
            None => {
                self.set_err_str(
                    "block does not appear to have come from this testimony instance (out of ring range or misaligned to block_size)",
                );
                Err(Errno::Invalid)
            },
        }
    }

    /// Returns some packets of a block. The result is the block to tell the server
    /// of, where none of its packets is left.
    pub fn testimony_return_packets(&mut self, addr: usize, packets: u32) -> (r: Result<
        Option<u32>,
        Errno,
    >)
        requires
            old(self).wf(),
        ensures
            final(self).wf(),
            final(self).conn == old(self).conn,
            final(self).conn_view == old(self).conn_view,
            match block_at(
                old(self).conn@.ring_ptr as int,
                old(self).conn@.block_size as int,
                old(self).conn@.num_blocks as int,
                addr as int,
            ) {
                Some(i) => {
                    let left = old(self).counts@[i];
                    &&& 0 <= i < old(self).conn@.num_blocks
                    &&& if packets <= left {
                        &&& final(self).counts@ == old(self).counts@.update(
                            i,
                            (left - packets) as u32,
                        )
                        &&& final(self).errbuf == old(self).errbuf
                        &&& r == Ok::<Option<u32>, Errno>(
                            if left == packets {
                                Some(i as u32)
                            } else {
                                None
                            },
                        )
                    } else {
                        &&& final(self).same_but_error(*old(self))
                        &&& r == Err::<Option<u32>, Errno>(Errno::Invalid)
                        &&& final(self).errbuf@ == described(
                            old(self).errbuf@,
                            vstd::utf8::encode_utf8(too_many(packets, i as u32, left)),
                        )
                    }
                },
                None => r == Err::<Option<u32>, Errno>(Errno::Invalid)
                    && final(self).same_but_error(*old(self)) && final(self).errbuf@ == described(
                    old(self).errbuf@,
                    vstd::utf8::encode_utf8(
                        "block does not appear to have come from this testimony instance"@,
                    ),
                ),
            },
    {
        let i: u32 = match self.block_index_of(addr) {
            Some(i) => i,
            None => {
                self.set_err_str("block does not appear to have come from this testimony instance");
                return Err(Errno::Invalid);
            },
        };
        let left: u32 = self.counts[i as usize];
        if left < packets {
            let mut s = "return_packets: caller wants to return ".to_owned();
            push_decimal(&mut s, packets as u128);
            s.append(" packets but block ");
            push_decimal(&mut s, i as u128);
            s.append(" only has ");
            push_decimal(&mut s, left as u128);
            s.append(" remaining");
            self.set_err_str(s.as_str());
            return Err(Errno::Invalid);
        }
        let next: u32 = left - packets;
        self.counts.set(i as usize, next);
        if next == 0 {
            Ok(Some(i))
        } else {
            Ok(None)
        }
    }
}

/// What is said when more packets are returned than are left.
pub open spec fn too_many(packets: u32, idx: u32, left: u32) -> Seq<char> {
    "return_packets: caller wants to return "@ + text::decimal(packets as nat)
        + " packets but block "@ + text::decimal(idx as nat) + " only has "@ + text::decimal(
        left as nat,
    ) + " remaining"@
}

/// What is left of `left` packets after they are returned in portions; `None` where
/// a portion is refused.
pub open spec fn left_after(left: u32, portions: Seq<u32>) -> Option<u32>
    decreases portions.len(),
{
    if portions.len() == 0 {
        Some(left)
    } else {
        match left_after(left, portions.drop_last()) {
            Some(n) if portions.last() <= n => Some((n - portions.last()) as u32),
            _ => None,
        }
    }
}

/// All packets of the portions.
pub open spec fn total(portions: Seq<u32>) -> nat
    decreases portions.len(),
{
    if portions.len() == 0 {
        0
    } else {
        total(portions.drop_last()) + portions.last() as nat
    }
}

/// Packets can be returned in any portions that come to no more than there are, and
/// the block is returned with the portion that leaves none: where portions are not
/// empty, with the last packet and not before.
pub proof fn law_packets_are_counted(left: u32, portions: Seq<u32>)
    requires
        total(portions) <= left,
    ensures
        left_after(left, portions) == Some((left - total(portions)) as u32),
        left_after(left, portions) == Some(0u32) <==> total(portions) == left,
    decreases portions.len(),
{
    if portions.len() > 0 {
        law_packets_are_counted(left, portions.drop_last());
    }
}

/// A C program's walk through the packets of a block.
#[derive(Debug, Clone, Copy, PartialEq, Eq, Structural)]
#[allow(non_camel_case_types)]
pub struct testimony_iter_internal {
    /// Where the packet lies that was handed out last, counted from the beginning of the
    /// block.
    pub pkt: Option<u128>,
    /// How many packets are left.
    pub left: i64,
}

impl testimony_iter_internal {
    /// Where the next packet of the block lies.
    pub open spec fn next_at(self, block: Seq<u8>, order: ByteOrder) -> int {
        match self.pkt {
            None => bytes::u32_at(block, 16, order) as int,
            Some(at) => at + bytes::u32_at(block, at as int, order),
        }
    }

    /// How many bytes, from the beginning of the block on, are read to find the next
    /// packet.
    pub open spec fn reads(self) -> int {
        if self.left <= 0 {
            0
        } else {
            match self.pkt {
                None => BLOCK_HEADER as int,
                Some(at) => at + PACKET_LINK,
            }
        }
    }

    /// How many bytes, from the beginning of the block on, are read to find the next
    /// packet; `None` where there is no such number of bytes.
    pub fn next_read(&self) -> (r: Option<usize>)
        ensures
            match r {
                Some(n) => n == self.reads(),
                None => self.reads() > usize::MAX,
            },
    {
        if self.left <= 0 {
            return Some(0);
        }
        match self.pkt {
            None => Some(BLOCK_HEADER),
            Some(at) => if at <= (usize::MAX - PACKET_LINK) as u128 {
                Some(at as usize + PACKET_LINK)
            } else {
                None
            },
        }
    }

    /// A walk that is not begun.
    pub fn testimony_iter_init() -> (r: testimony_iter_internal)
        ensures
            r == (testimony_iter_internal { pkt: None, left: 0 }),
    {
        testimony_iter_internal { pkt: None, left: 0 }
    }

    /// Begins to walk through the packets of a block, which must be one of the third
    /// version of the packet ring; `v3` is the number of that version.
    pub fn testimony_iter_reset(&mut self, block: &[u8], order: ByteOrder, v3: u32) -> (r: Result<
        (),
        Errno,
    >)
        requires
            block@.len() >= 16,
        ensures
            if bytes::u32_at(block@, 0, order) == v3 {
                r == Ok::<(), Errno>(()) && *final(self) == (testimony_iter_internal {
                    pkt: None,
                    left: bytes::u32_at(block@, 12, order) as i64,
                })
            } else {
                r == Err::<(), Errno>(Errno::ProtocolNotSupported) && *final(self) == *old(self)
            },
    {
        if read_u32_at(block, 0, order) != v3 {
            return Err(Errno::ProtocolNotSupported);
        }
        self.pkt = None;
        self.left = read_u32_at(block, 12, order) as i64;
        Ok(())
    }

    /// Where the next packet lies, counted from the beginning of the block, while one is
    /// left. `block` is memory from the beginning of the block on.
    pub fn testimony_iter_next(&mut self, block: &[u8], order: ByteOrder) -> (r: Option<u128>)
        requires
            old(self).reads() <= block@.len(),
        ensures
            if old(self).left > 0 {
                r == Some(old(self).next_at(block@, order) as u128) && old(self).next_at(
                    block@,
                    order,
                ) <= u128::MAX && *final(self) == (testimony_iter_internal {
                    pkt: r,
                    left: (old(self).left - 1) as i64,
                })
            } else {
                r is None && *final(self) == *old(self)
            },
    {
        if self.left <= 0 {
            return None;
        }
        let size: usize = block.len();
        let at: u128 = match self.pkt {
            None => read_u32_at(block, 16, order) as u128,
            Some(at) => {
                assert(at + PACKET_LINK <= size);
                at + read_u32_at(block, at as usize, order) as u128
            },
        };
        self.left = self.left - 1;
        self.pkt = Some(at);
        self.pkt
    }
}

/// A C program's walk is the walk of any other client: from where it has come it finds
/// the same packet next, and reads no further for it.
pub proof fn law_one_walk(it: testimony_iter_internal, w: WalkView)
    requires
        it.pkt == w.current,
        it.left == w.left,
        w.first == bytes::u32_at(w.mem, 16, w.order),
        w.mem.len() >= BLOCK_HEADER,
    ensures
        it.next_at(w.mem, w.order) == w.next_at(),
        it.reads() <= w.mem.len() <==> w.can_go_on(),
{
}

/// What a block at an address comes to in terms of division.
proof fn lemma_block_at(base: int, size: int, count: int, addr: int)
    requires
        size > 0,
    ensures
        block_at(base, size, count, addr) == (if base != 0 && addr >= base && (addr - base) % size
            == 0 && (addr - base) / size < count {
            Some((addr - base) / size)
        } else {
            None
        }),
{
    let diff = addr - base;
    if diff >= 0 && diff % size == 0 && diff / size < count {
        let i = diff / size;
        vstd::arithmetic::div_mod::lemma_fundamental_div_mod(diff, size);
        assert(size * i == i * size) by (nonlinear_arith);
        assert(0 <= i) by (nonlinear_arith)
            requires
                diff >= 0,
                size > 0,
                i == diff / size,
        ;
        assert(base + i * size == addr);
    }
    if exists|i: int| 0 <= i < count && #[trigger] (base + i * size) == addr {
        let i = choose|i: int| 0 <= i < count && #[trigger] (base + i * size) == addr;
        assert(i * size >= 0) by (nonlinear_arith)
            requires
                i >= 0,
                size > 0,
        ;
        vstd::arithmetic::div_mod::lemma_fundamental_div_mod_converse(diff, size, i, 0);
    }
}

/// The numbers of errors: what the operating system failed at has the number that it gave,
/// or that of an I/O error where it gave none, and every other error has its own.
pub proof fn law_numbers_of_errors(e: Error)
    ensures
        e.cause() matches Some(c) ==> errno_of(e) == (match c.code {
            Some(n) => Errno::Os(n),
            None => Errno::Io,
        }),
        e is PeerClosed ==> errno_of(e) is Canceled,
        e is UnexpectedVersion ==> errno_of(e) is ProtocolNotSupported,
        e is UnexpectedTlvCategory || e is UnexpectedTlvLength || e is MissingHandshakeFields
            || e is BlockIndexOutOfRange || e is NoFdInCmsg || e is RecvFdBytes
            ==> errno_of(e) is Protocol,
        e is RingSizeOverflow ==> errno_of(e) is Overflow,
        e is AlreadyInitialized ==> errno_of(e) is Already,
        e is NotInitialized || e is InvalidSocketName ==> errno_of(e) is Invalid,
        e is Timeout ==> errno_of(e) is TimedOut,
        e is Internal ==> errno_of(e) is Io,
{
}

/// A description is as much of the message as fits before a zero byte, and what lies behind
/// the zero byte is left alone. The buffer keeps its length of 256 bytes.
pub proof fn law_descriptions_end(errbuf: Seq<u8>, message: Seq<u8>, i: int)
    requires
        errbuf.len() == 256,
    ensures
        ({
            let d = described(errbuf, message);
            let n = if message.len() <= 255 {
                message.len() as int
            } else {
                255
            };
            &&& TESTIMONY_ERRBUF_SIZE == 256
            &&& d.len() == 256
            &&& 0 <= i < n ==> d[i] == message[i]
            &&& d[n] == 0
            &&& n < i < 256 ==> d[i] == errbuf[i]
        }),
{
}

/// A block is known by its address exactly if the ring is mapped and the address is where
/// a block of the ring begins, and then it is that block.
pub proof fn law_blocks_by_address(base: int, size: int, count: int, i: int, addr: int)
    requires
        size > 0,
        0 <= i < count,
    ensures
        base != 0 ==> block_at(base, size, count, base + i * size) == Some(i),
        block_at(0, size, count, addr) is None,
        block_at(base, size, count, addr) matches Some(k) ==> base != 0 && 0 <= k < count && base
            + k * size == addr,
        (forall|k: int| 0 <= k < count ==> #[trigger] (base + k * size) != addr) ==> block_at(
            base,
            size,
            count,
            addr,
        ) is None,
{
    assert(base + i * size == base + i * size);
    vstd::arithmetic::div_mod::lemma_fundamental_div_mod_converse(i * size, size, i, 0);
    if block_at(base, size, count, addr) is Some {
        let k = choose|k: int| 0 <= k < count && #[trigger] (base + k * size) == addr;
        vstd::arithmetic::div_mod::lemma_fundamental_div_mod_converse(k * size, size, k, 0);
    }
}

/// What is said when more packets are returned than are left.
pub proof fn law_what_is_said_of_too_many(packets: u32, idx: u32, left: u32)
    ensures
        too_many(packets, idx, left) == "return_packets: caller wants to return "@ + text::decimal(
            packets as nat,
        ) + " packets but block "@ + text::decimal(idx as nat) + " only has "@ + text::decimal(
            left as nat,
        ) + " remaining"@,
{
}

/// A walk that has no packets left reads nothing.
pub proof fn law_a_walk_that_is_over_reads_nothing(it: testimony_iter_internal)
    ensures
        it.left <= 0 ==> it.reads() == 0,
        it.left > 0 && it.pkt is None ==> it.reads() == 20,
        it.left > 0 && it.pkt is Some ==> it.reads() == it.pkt->0 + 4,
{
}

/// To describe an error leaves everything but the description as it was.
pub proof fn law_descriptions_change_nothing_else(a: testimony_internal, b: testimony_internal)
    requires
        a.same_but_error(b),
    ensures
        a.conn_view == b.conn_view,
        a.conn == b.conn,
        a.counts@ == b.counts@,
{
}

} // verus!
