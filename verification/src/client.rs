//! The client's side of a connection: the handshake, the ring and the exchange of
//! blocks. What is read, written, mapped and polled is done by the caller, who
//! hands in what came of it and learns what to do next.

use vstd::prelude::*;

use crate::accept;
use crate::bytes;
use crate::bytes::push_be32;
use crate::client_error::{
    Error, STAGE_TLV_HEADER, STAGE_TLV_VALUE, STAGE_VERSION,
};
use crate::os_error::{OsError, PollEvent};
use crate::protocol;
use crate::protocol::{parse_u32_strict, tlv_u32, Category, Header, Numbering, PROTOCOL_VERSION};
use crate::text::contains_char;
use crate::writer;

verus! {

/// What the handshake has to read next.
#[derive(Debug, Clone, Copy, PartialEq, Eq, Structural)]
pub enum ConnectStep {
    /// The version byte.
    Version,
    /// The header of a message.
    Header,
    /// The value of a message.
    Value { typ: u16, length: u16 },
    /// Nothing: the server waits for the fanout index.
    Done,
}

/// A handshake under way: the sizes announced so far and what to read next.
#[derive(Debug, Clone, Copy, PartialEq, Eq, Structural)]
pub struct Handshake {
    pub fanout_size: u32,
    pub block_size: u32,
    pub num_blocks: u32,
    pub step: ConnectStep,
}

impl Handshake {
    /// The handshake at its start.
    pub open spec fn start() -> Handshake {
        Handshake { fanout_size: 0, block_size: 0, num_blocks: 0, step: ConnectStep::Version }
    }

    /// The handshake with another next step.
    pub open spec fn at(self, step: ConnectStep) -> Handshake {
        Handshake { step, ..self }
    }

    /// What becomes of the handshake on the version byte.
    pub open spec fn after_version(self, v: u8) -> Result<Handshake, Error> {
        if v == PROTOCOL_VERSION {
            Ok(self.at(ConnectStep::Header))
        } else {
            Err(Error::UnexpectedVersion { got: v, want: PROTOCOL_VERSION })
        }
    }

    /// What becomes of the handshake on the header of a message.
    pub open spec fn after_header(self, n: Numbering, h: Header) -> Result<Handshake, Error> {
        if h.category != Category::ServerToClient {
            Err(Error::UnexpectedTlvCategory { typ: h.typ, length: h.length })
        } else if h.typ != n.waiting_for_fanout_index || h.length != 0 {
            Ok(self.at(ConnectStep::Value { typ: h.typ, length: h.length }))
        } else if self.fanout_size == 0 || self.block_size == 0 || self.num_blocks == 0 {
            Err(
                Error::MissingHandshakeFields {
                    fanout_size: self.fanout_size,
                    block_size: self.block_size,
                    num_blocks: self.num_blocks,
                },
            )
        } else {
            Ok(self.at(ConnectStep::Done))
        }
    }

    /// What becomes of the handshake on the value of a message of type `typ`.
    /// Messages of unknown types are passed over.
    pub open spec fn after_value(self, n: Numbering, typ: u16, val: Seq<u8>) -> Result<
        Handshake,
        Error,
    > {
        let next = self.at(ConnectStep::Header);
        if typ != n.fanout_size && typ != n.block_size && typ != n.num_blocks {
            Ok(next)
        } else {
            match protocol::strict_u32(typ, val) {
                Err(e) => Err(e),
                Ok(v) => Ok(
                    if typ == n.fanout_size {
                        Handshake { fanout_size: v, ..next }
                    } else if typ == n.block_size {
                        Handshake { block_size: v, ..next }
                    } else {
                        Handshake { num_blocks: v, ..next }
                    },
                ),
            }
        }
    }

    /// Takes the version byte.
    pub fn on_version(self, v: u8) -> (r: Result<Handshake, Error>)
        ensures
            r == self.after_version(v),
    {
        if v != PROTOCOL_VERSION {
            return Err(Error::UnexpectedVersion { got: v, want: PROTOCOL_VERSION });
        }
        Ok(Handshake { step: ConnectStep::Header, ..self })
    }

    /// Takes the header of a message.
    pub fn on_header(self, n: &Numbering, h: Header) -> (r: Result<Handshake, Error>)
        ensures
            r == self.after_header(*n, h),
    {
        if h.category != Category::ServerToClient {
            return Err(Error::UnexpectedTlvCategory { typ: h.typ, length: h.length });
        }
        if h.typ == n.waiting_for_fanout_index && h.length == 0 {
            if self.fanout_size == 0 || self.block_size == 0 || self.num_blocks == 0 {
                return Err(
                    Error::MissingHandshakeFields {
                        fanout_size: self.fanout_size,
                        block_size: self.block_size,
                        num_blocks: self.num_blocks,
                    },
                );
            }
            return Ok(Handshake { step: ConnectStep::Done, ..self });
        }
        Ok(Handshake { step: ConnectStep::Value { typ: h.typ, length: h.length }, ..self })
    }

    /// Takes the value of a message of type `typ`.
    pub fn on_value(self, n: &Numbering, typ: u16, val: &[u8]) -> (r: Result<Handshake, Error>)
        ensures
            r == self.after_value(*n, typ, val@),
    {
        let mut next = Handshake { step: ConnectStep::Header, ..self };
        if typ == n.fanout_size {
            match parse_u32_strict(typ, val) {
                Ok(v) => next.fanout_size = v,
                Err(e) => return Err(e),
            }
        } else if typ == n.block_size {
            match parse_u32_strict(typ, val) {
                Ok(v) => next.block_size = v,
                Err(e) => return Err(e),
            }
        } else if typ == n.num_blocks {
            match parse_u32_strict(typ, val) {
                Ok(v) => next.num_blocks = v,
                Err(e) => return Err(e),
            }
        }
        Ok(next)
    }

    /// How many bytes the next step reads.
    pub open spec fn wants(self) -> nat {
        match self.step {
            ConnectStep::Version => 1,
            ConnectStep::Header => 4,
            ConnectStep::Value { length, .. } => length as nat,
            ConnectStep::Done => 0,
        }
    }

    /// How many bytes the next step reads, and the name of the stage for errors.
    pub fn next_read(&self) -> (r: (usize, &'static str))
        ensures
            r.0 == self.wants(),
            r.1@ == (match self.step {
                ConnectStep::Version => STAGE_VERSION@,
                ConnectStep::Header => STAGE_TLV_HEADER@,
                _ => STAGE_TLV_VALUE@,
            }),
    {
        match self.step {
            ConnectStep::Version => (1, STAGE_VERSION),
            ConnectStep::Header => (4, STAGE_TLV_HEADER),
            ConnectStep::Value { length, .. } => (length as usize, STAGE_TLV_VALUE),
            ConnectStep::Done => (0, STAGE_TLV_VALUE),
        }
    }

    /// What a handshake comes to on the bytes of `stream`, where `decode` is what
    /// the numbering makes of a header; `None` where it waits for more bytes.
    pub open spec fn run(
        self,
        n: Numbering,
        decode: spec_fn(u32) -> Header,
        stream: Seq<u8>,
    ) -> Option<Result<Handshake, Error>>
        decreases stream.len(), (if self.step is Value { 1int } else { 0 }),
    {
        let piece = stream.take(self.wants() as int);
        let rest = stream.skip(self.wants() as int);
        if self.step is Done {
            Some(Ok(self))
        } else if stream.len() < self.wants() {
            None
        } else {
            let next = match self.step {
                ConnectStep::Version => self.after_version(piece[0]),
                ConnectStep::Header => self.after_header(n, decode(bytes::from_be32(piece))),
                ConnectStep::Value { typ, .. } => self.after_value(n, typ, piece),
                ConnectStep::Done => Ok(self),
            };
            match next {
                Err(e) => Some(Err(e)),
                Ok(h) => h.run(n, decode, rest),
            }
        }
    }
}

/// A client that reads what a server sends first comes to know the server's sizes:
/// the handshake ends well, with exactly the sizes that were announced, whatever
/// follows the greeting.
pub proof fn law_greeting_is_understood(
    n: Numbering,
    decode: spec_fn(u32) -> Header,
    fanout_size: u32,
    block_size: u32,
    num_blocks: u32,
    rest: Seq<u8>,
)
    requires
        protocol::numbering_agrees(n, decode),
        fanout_size > 0,
        block_size > 0,
        num_blocks > 0,
    ensures
        Handshake::start().run(
            n,
            decode,
            protocol::greeting_bytes(n, fanout_size, block_size, num_blocks) + rest,
        ) == Some(
            Ok::<Handshake, Error>(
                Handshake { fanout_size, block_size, num_blocks, step: ConnectStep::Done },
            ),
        ),
{
    let s4 = bytes::be32(n.waiting_header) + rest;
    let s3 = protocol::tlv_u32_bytes(n.num_blocks_header, num_blocks) + s4;
    let s2 = protocol::tlv_u32_bytes(n.block_size_header, block_size) + s3;
    let s1 = protocol::tlv_u32_bytes(n.fanout_size_header, fanout_size) + s2;
    let s0 = seq![PROTOCOL_VERSION] + s1;
    let h0 = Handshake::start();
    let h1 = h0.at(ConnectStep::Header);
    let h2 = Handshake { fanout_size, ..h1 };
    let h3 = Handshake { block_size, ..h2 };
    let h4 = Handshake { num_blocks, ..h3 };
    let end = h4.at(ConnectStep::Done);
    assert(protocol::greeting_bytes(n, fanout_size, block_size, num_blocks) + rest =~= s0) by {
        lemma_regroup(
            seq![PROTOCOL_VERSION],
            protocol::tlv_u32_bytes(n.fanout_size_header, fanout_size),
            protocol::tlv_u32_bytes(n.block_size_header, block_size),
            protocol::tlv_u32_bytes(n.num_blocks_header, num_blocks),
            bytes::be32(n.waiting_header),
            rest,
        );
    }
    assert(h0.run(n, decode, s0) == h1.run(n, decode, s1)) by {
        assert(s0.take(1) =~= seq![PROTOCOL_VERSION]);
        assert(s0.skip(1) =~= s1);
    }
    lemma_read_size(h1, n, decode, n.fanout_size_header, n.fanout_size, fanout_size, s2);
    lemma_read_size(h2, n, decode, n.block_size_header, n.block_size, block_size, s3);
    lemma_read_size(h3, n, decode, n.num_blocks_header, n.num_blocks, num_blocks, s4);
    assert(h4.run(n, decode, s4) == end.run(n, decode, rest)) by {
        bytes::law_be32_round_trip(n.waiting_header, seq![]);
        assert(s4.take(4) =~= bytes::be32(n.waiting_header));
        assert(s4.skip(4) =~= rest);
    }
}

proof fn lemma_regroup(
    a: Seq<u8>,
    b: Seq<u8>,
    c: Seq<u8>,
    d: Seq<u8>,
    e: Seq<u8>,
    f: Seq<u8>,
)
    ensures
        a + b + c + d + e + f == a + (b + (c + (d + (e + f)))),
{
    assert(a + b + c + d + e + f =~= a + (b + (c + (d + (e + f)))));
}

/// The handshake reads one of the three sizes.
proof fn lemma_read_size(
    h: Handshake,
    n: Numbering,
    decode: spec_fn(u32) -> Header,
    header: u32,
    typ: u16,
    v: u32,
    rest: Seq<u8>,
)
    requires
        h.step is Header,
        decode(header) == (Header {
            raw: header,
            typ,
            length: 4,
            category: Category::ServerToClient,
        }),
        typ == n.fanout_size || typ == n.block_size || typ == n.num_blocks,
    ensures
        h.run(n, decode, protocol::tlv_u32_bytes(header, v) + rest) == (if typ == n.fanout_size {
            Handshake { fanout_size: v, ..h }
        } else if typ == n.block_size {
            Handshake { block_size: v, ..h }
        } else {
            Handshake { num_blocks: v, ..h }
        }).run(n, decode, rest),
{
    bytes::law_be32_round_trip(header, seq![]);
    bytes::law_be32_round_trip(v, seq![]);
    let stream = protocol::tlv_u32_bytes(header, v) + rest;
    let tail = bytes::be32(v) + rest;
    assert(stream.take(4) =~= bytes::be32(header));
    assert(stream.skip(4) =~= tail);
    assert(tail.take(4) =~= bytes::be32(v));
    assert(tail.skip(4) =~= rest);
    let mid = h.at(ConnectStep::Value { typ, length: 4 });
    assert(h.run(n, decode, stream) == mid.run(n, decode, tail));
}

/// What is known of a connection: the server's sizes, where the ring is mapped (at zero
/// while it is not), and the descriptor of the capture socket that it was mapped from.
pub struct ConnView {
    pub fanout_size: u32,
    pub block_size: u32,
    pub num_blocks: u32,
    pub pkt_fd: Option<i32>,
    pub ring_ptr: usize,
    pub ring_len: usize,
}

impl ConnView {
    /// Whether the connection is initialized: it has a capture socket.
    pub open spec fn initialized(self) -> bool {
        self.pkt_fd is Some
    }

    /// How many bytes the ring has.
    pub open spec fn ring_bytes(self) -> int {
        self.block_size * self.num_blocks
    }

    /// The message that asks for a fanout index; `None` where the connection is
    /// initialized already.
    pub open spec fn request(self, n: Numbering, fanout_index: u32) -> Option<Seq<u8>> {
        if self.initialized() {
            None
        } else {
            Some(protocol::tlv_u32_bytes(n.fanout_index_header, fanout_index))
        }
    }

    /// What initializing comes to when the ring is mapped so.
    pub open spec fn init_result(self, mapped: Result<usize, OsError>) -> Result<(), Error> {
        if self.ring_bytes() > usize::MAX {
            Err(
                Error::RingSizeOverflow {
                    block_size: self.block_size,
                    num_blocks: self.num_blocks,
                },
            )
        } else {
            match mapped {
                Ok(_) => Ok(()),
                Err(source) => Err(Error::Mmap { len: self.ring_bytes() as usize, source }),
            }
        }
    }

    /// The connection after the ring of the capture socket `fd` was mapped so. Only
    /// where that went well is it another.
    pub open spec fn after_init(self, fd: i32, mapped: Result<usize, OsError>) -> ConnView {
        match mapped {
            Ok(addr) if self.init_result(mapped) is Ok => ConnView {
                pkt_fd: Some(fd),
                ring_ptr: addr,
                ring_len: self.ring_bytes() as usize,
                ..self
            },
            _ => self,
        }
    }

    /// What waiting for a block comes to on a header: a block index ends the wait, a
    /// message of the server is passed over, and anything else is an error.
    pub open spec fn after_header(self, n: Numbering, h: Header) -> Result<WaitStep, Error> {
        if h.typ == n.block_index {
            if h.raw < self.num_blocks {
                Ok(WaitStep::Block { index: h.raw, offset: (h.raw * self.block_size) as usize })
            } else {
                Err(Error::BlockIndexOutOfRange { idx: h.raw, num_blocks: self.num_blocks })
            }
        } else if h.category == Category::ServerToClient {
            Ok(WaitStep::Drain(h.length))
        } else {
            Err(Error::UnexpectedTlvCategory { typ: h.typ, length: h.length })
        }
    }
}

/// A connection after its handshake.
#[derive(Debug)]
pub struct Conn {
    fanout_size: u32,
    block_size: u32,
    num_blocks: u32,
    pkt_fd: Option<i32>,
    ring_ptr: usize,
    ring_len: usize,
}

impl View for Conn {
    type V = ConnView;

    closed spec fn view(&self) -> ConnView {
        ConnView {
            fanout_size: self.fanout_size,
            block_size: self.block_size,
            num_blocks: self.num_blocks,
            pkt_fd: self.pkt_fd,
            ring_ptr: self.ring_ptr,
            ring_len: self.ring_len,
        }
    }
}

/// What waiting for a block has to do next.
#[derive(Debug, Clone, Copy, PartialEq, Eq, Structural)]
pub enum WaitStep {
    /// Poll the socket for so many milliseconds.
    Poll(i32),
    /// Read a header.
    ReadHeader,
    /// Read and forget the value of a message.
    Drain(u16),
    /// Give up: nothing came in time.
    TimedOut,
    /// Hand out the block, which begins so many bytes into the ring.
    Block { index: u32, offset: usize },
}

/// How long to poll for a timeout in milliseconds: no longer than the call can say.
pub open spec fn poll_millis(timeout: u128) -> i32 {
    if timeout > i32::MAX {
        i32::MAX
    } else {
        timeout as i32
    }
}

/// How waiting begins: with a poll where there is a timeout.
pub open spec fn wait_start(timeout: Option<u128>) -> WaitStep {
    match timeout {
        Some(t) => WaitStep::Poll(poll_millis(t)),
        None => WaitStep::ReadHeader,
    }
}

/// How waiting goes on after a poll.
pub open spec fn after_poll(timeout: Option<u128>, event: PollEvent) -> Result<WaitStep, Error> {
    match event {
        PollEvent::Ready => Ok(WaitStep::ReadHeader),
        PollEvent::TimedOut => Ok(WaitStep::TimedOut),
        PollEvent::Interrupted => Ok(wait_start(timeout)),
        PollEvent::Failed(e) => Err(Error::Poll(e)),
    }
}

impl Conn {
    /// The sizes are positive, the ring of a capture socket holds all its blocks, and
    /// where there is no capture socket no ring is mapped.
    pub closed spec fn wf(&self) -> bool {
        &&& self.fanout_size > 0
        &&& self.block_size > 0
        &&& self.num_blocks > 0
        &&& self.pkt_fd is Some ==> self.ring_len == self.block_size * self.num_blocks
        &&& self.pkt_fd is None ==> self.ring_ptr == 0 && self.ring_len == 0
    }

    /// What well-formedness says of the view.
    pub proof fn lemma_wf(&self)
        requires
            self.wf(),
        ensures
            self@.fanout_size > 0,
            self@.block_size > 0,
            self@.num_blocks > 0,
            self@.initialized() ==> self@.ring_len == self@.ring_bytes(),
            !self@.initialized() ==> self@.ring_ptr == 0 && self@.ring_len == 0,
    {
    }

    /// Begins to connect: refuses a name that no socket can have.
    pub fn connect(socket_name: &str) -> (r: Result<(), Error>)
        ensures
            match r {
                Ok(()) => !socket_name@.contains('\0'),
                Err(e) => socket_name@.contains('\0') && (e matches Error::InvalidSocketName(name)
                    && name@ == socket_name@),
            },
    {
        if contains_char(socket_name, '\0') {
            return Err(Error::InvalidSocketName(socket_name.to_owned()));
        }
        Ok(())
    }

    /// Goes on with what came of connecting: with the handshake, if it went well.
    pub fn connected(socket_name: &str, done: Result<(), OsError>) -> (r: Result<Handshake, Error>)
        ensures
            match done {
                Ok(()) => r == Ok::<Handshake, Error>(Handshake::start()),
                Err(cause) => r matches Err(Error::Connect { path, source }) && path@
                    == socket_name@ && source == cause,
            },
    {
        match done {
            Ok(()) => Ok(
                Handshake {
                    fanout_size: 0,
                    block_size: 0,
                    num_blocks: 0,
                    step: ConnectStep::Version,
                },
            ),
            Err(source) => Err(Error::Connect { path: socket_name.to_owned(), source }),
        }
    }

    /// The connection that a handshake makes; `None` before it is done.
    pub fn established(h: Handshake) -> (r: Option<Conn>)
        ensures
            match r {
                Some(c) => h.step is Done && c.wf() && c@ == (ConnView {
                    fanout_size: h.fanout_size,
                    block_size: h.block_size,
                    num_blocks: h.num_blocks,
                    pkt_fd: None,
                    ring_ptr: 0,
                    ring_len: 0,
                }),
                None => h.step !is Done || h.fanout_size == 0 || h.block_size == 0 || h.num_blocks
                    == 0,
            },
    {
        if h.step != ConnectStep::Done || h.fanout_size == 0 || h.block_size == 0 || h.num_blocks
            == 0 {
            return None;
        }
        Some(
            Conn {
                fanout_size: h.fanout_size,
                block_size: h.block_size,
                num_blocks: h.num_blocks,
                pkt_fd: None,
                ring_ptr: 0,
                ring_len: 0,
            },
        )
    }

    pub fn fanout_size(&self) -> (r: u32)
        ensures
            r == self@.fanout_size,
    {
        self.fanout_size
    }

    pub fn block_size(&self) -> (r: u32)
        ensures
            r == self@.block_size,
    {
        self.block_size
    }

    pub fn num_blocks(&self) -> (r: u32)
        ensures
            r == self@.num_blocks,
    {
        self.num_blocks
    }

    /// Where the ring is mapped; zero while it is not.
    pub fn ring_base_for_ffi(&self) -> (r: usize)
        ensures
            r == self@.ring_ptr,
    {
        self.ring_ptr
    }

    /// The length of the mapped ring; zero while it is not mapped.
    pub fn ring_len(&self) -> (r: usize)
        ensures
            r == self@.ring_len,
    {
        self.ring_len
    }

    /// Begins to initialize: the message that asks for a fanout index. A connection
    /// is initialized only once.
    pub fn init(&self, n: &Numbering, fanout_index: u32) -> (r: Result<Vec<u8>, Error>)
        ensures
            match r {
                Ok(m) => self@.request(*n, fanout_index) == Some(m@),
                Err(e) => self@.request(*n, fanout_index) is None && e
                    == Error::AlreadyInitialized,
            },
    {
        if self.pkt_fd.is_some() {
            return Err(Error::AlreadyInitialized);
        }
        Ok(tlv_u32(n.fanout_index_header, fanout_index))
    }

    /// How many bytes of ring to map.
    pub fn ring_bytes(&self) -> (r: Result<usize, Error>)
        ensures
            match r {
                Ok(len) => len == self@.ring_bytes(),
                Err(e) => self@.ring_bytes() > usize::MAX && e == (Error::RingSizeOverflow {
                    block_size: self@.block_size,
                    num_blocks: self@.num_blocks,
                }),
            },
    {
        match (self.block_size as usize).checked_mul(self.num_blocks as usize) {
            Some(len) => Ok(len),
            None => Err(
                Error::RingSizeOverflow {
                    block_size: self.block_size,
                    num_blocks: self.num_blocks,
                },
            ),
        }
    }

    /// Ends initializing with what came of mapping the ring of the capture socket `fd`,
    /// which is kept where that went well. A failure leaves the connection as it was.
    pub fn finish_init(&mut self, fd: i32, mapped: Result<usize, OsError>) -> (r: Result<(), Error>)
        requires
            old(self).wf(),
            !old(self)@.initialized(),
        ensures
            final(self).wf(),
            r == old(self)@.init_result(mapped),
            final(self)@ == old(self)@.after_init(fd, mapped),
            final(self)@.initialized() <==> r is Ok,
    {
        let len: usize = match self.ring_bytes() {
            Ok(len) => len,
            Err(e) => return Err(e),
        };
        match mapped {
            Err(source) => Err(Error::Mmap { len, source }),
            Ok(addr) => {
                self.pkt_fd = Some(fd);
                self.ring_ptr = addr;
                self.ring_len = len;
                Ok(())
            },
        }
    }

    /// The descriptor of the capture socket, while its ring is mapped. A descriptor that
    /// was received and is not kept is to be closed.
    pub fn pkt_fd(&self) -> (r: Option<i32>)
        ensures
            r == self@.pkt_fd,
    {
        self.pkt_fd
    }

    /// Begins to wait for a block, for at most `timeout` milliseconds where there
    /// is a timeout.
    pub fn next_block(&self, timeout: Option<u128>) -> (r: Result<WaitStep, Error>)
        ensures
            match r {
                Ok(step) => self@.initialized() && step == wait_start(timeout) && match timeout {
                    Some(t) => step matches WaitStep::Poll(m) && (t <= i32::MAX ==> m == t) && (t
                        > i32::MAX ==> m == i32::MAX),
                    None => step is ReadHeader,
                },
                Err(e) => !self@.initialized() && e == Error::NotInitialized,
            },
    {
        if self.pkt_fd.is_none() {
            return Err(Error::NotInitialized);
        }
        Ok(Conn::start_waiting(timeout))
    }

    fn start_waiting(timeout: Option<u128>) -> (r: WaitStep)
        ensures
            r == wait_start(timeout),
    {
        match timeout {
            Some(t) => if t > i32::MAX as u128 {
                WaitStep::Poll(i32::MAX)
            } else {
                WaitStep::Poll(t as i32)
            },
            None => WaitStep::ReadHeader,
        }
    }

    /// Goes on waiting after a poll.
    pub fn on_poll(&self, timeout: Option<u128>, event: PollEvent) -> (r: Result<WaitStep, Error>)
        ensures
            r == after_poll(timeout, event),
    {
        match event {
            PollEvent::Ready => Ok(WaitStep::ReadHeader),
            PollEvent::TimedOut => Ok(WaitStep::TimedOut),
            PollEvent::Interrupted => Ok(Conn::start_waiting(timeout)),
            PollEvent::Failed(e) => Err(Error::Poll(e)),
        }
    }

    /// Goes on waiting after a header: a block index ends the wait, a message of the
    /// server is passed over, and anything else is an error.
    pub fn on_header(&self, n: &Numbering, h: Header) -> (r: Result<WaitStep, Error>)
        requires
            self.wf(),
            self@.initialized(),
        ensures
            r == self@.after_header(*n, h),
            r matches Ok(WaitStep::Block { index, offset }) ==> offset == index * self@.block_size
                && offset + self@.block_size <= self@.ring_len,
    {
        if h.typ == n.block_index {
            if h.raw >= self.num_blocks {
                return Err(
                    Error::BlockIndexOutOfRange { idx: h.raw, num_blocks: self.num_blocks },
                );
            }
            let (i, size, count) = (h.raw, self.block_size, self.num_blocks);
            assert(i * size + size <= size * count) by (nonlinear_arith)
                requires
                    0 <= i < count,
                    0 <= size,
            ;
            assert(0 <= i * size) by (nonlinear_arith)
                requires
                    0 <= i,
                    0 <= size,
            ;
            return Ok(WaitStep::Block { index: i, offset: i as usize * size as usize });
        }
        if h.category != Category::ServerToClient {
            return Err(Error::UnexpectedTlvCategory { typ: h.typ, length: h.length });
        }
        Ok(WaitStep::Drain(h.length))
    }

    /// Goes on waiting after the value of a message was passed over.
    pub fn on_drained(&self, timeout: Option<u128>) -> (r: WaitStep)
        ensures
            r == wait_start(timeout),
    {
        Conn::start_waiting(timeout)
    }

    /// Where the ring is mapped and how long it is, to unmap it when the connection
    /// is given up; `None` where there is nothing to unmap.
    pub fn release(&mut self) -> (r: Option<(usize, usize)>)
        requires
            old(self).wf(),
        ensures
            final(self).wf(),
            if old(self)@.ring_ptr != 0 && old(self)@.ring_len > 0 {
                r == Some((old(self)@.ring_ptr, old(self)@.ring_len)) && final(self)@ == (ConnView {
                    pkt_fd: None,
                    ring_ptr: 0,
                    ring_len: 0,
                    ..old(self)@
                })
            } else {
                r is None && final(self)@ == old(self)@
            },
    {
        if self.ring_ptr != 0 && self.ring_len > 0 {
            let region: (usize, usize) = (self.ring_ptr, self.ring_len);
            self.pkt_fd = None;
            self.ring_ptr = 0;
            self.ring_len = 0;
            return Some(region);
        }
        None
    }

    /// The message that returns a block to the server.
    pub fn return_block_index_pub(&self, idx: u32) -> (r: Vec<u8>)
        ensures
            r@ == bytes::be32(idx),
    {
        let mut out: Vec<u8> = Vec::new();
        push_be32(&mut out, idx);
        assert(out@ =~= bytes::be32(idx));
        out
    }
}

/// How receiving the capture socket went.
#[derive(Debug)]
pub enum RecvEvent {
    /// So many bytes came, with control messages; each is the descriptor that it
    /// passes, or `None` where it passes none.
    Received { bytes: isize, rights: Vec<Option<i32>> },
    Interrupted,
    Failed(OsError),
}

/// Whether the first control message that passes a descriptor passes `fd`.
pub open spec fn first_right(rights: Seq<Option<i32>>, fd: i32) -> bool {
    exists|i: int|
        0 <= i < rights.len() && #[trigger] rights[i] == Some(fd) && forall|j: int|
            0 <= j < i ==> rights[j] is None
}

fn first_fd(rights: &Vec<Option<i32>>) -> (r: Option<i32>)
    ensures
        match r {
            Some(fd) => first_right(rights@, fd),
            None => forall|i: int| 0 <= i < rights@.len() ==> rights@[i] is None,
        },
{
    let mut i: usize = 0;
    while i < rights.len()
        invariant
            i <= rights.len(),
            forall|j: int| 0 <= j < i ==> rights@[j] is None,
        decreases rights.len() - i,
    {
        if let Some(fd) = rights[i] {
            assert(rights@[i as int] == Some(fd));
            return Some(fd);
        }
        i = i + 1;
    }
    None
}

/// The descriptor that was received; `None` where receiving was interrupted and is
/// to be tried again.
pub fn recv_fd(event: RecvEvent) -> (r: Result<Option<i32>, Error>)
    ensures
        match event {
            RecvEvent::Interrupted => r == Ok::<Option<i32>, Error>(None),
            RecvEvent::Failed(e) => r == Err::<Option<i32>, Error>(Error::RecvFd(e)),
            RecvEvent::Received { bytes, rights } => if bytes != 1 {
                r == Err::<Option<i32>, Error>(Error::RecvFdBytes { got: bytes, want: 1 })
            } else {
                match r {
                    Ok(Some(fd)) => first_right(rights@, fd),
                    Ok(None) => false,
                    Err(e) => e == Error::NoFdInCmsg && forall|i: int|
                        0 <= i < rights@.len() ==> rights@[i] is None,
                }
            },
        },
{
    match event {
        RecvEvent::Interrupted => Ok(None),
        RecvEvent::Failed(e) => Err(Error::RecvFd(e)),
        RecvEvent::Received { bytes, rights } => {
            if bytes != 1 {
                return Err(Error::RecvFdBytes { got: bytes, want: 1 });
            }
            match first_fd(&rights) {
                Some(fd) => Ok(Some(fd)),
                None => Err(Error::NoFdInCmsg),
            }
        },
    }
}

/// What came of an attempt to initialize a connection that is not initialized: nothing,
/// where asking for the capture socket or receiving it failed, or else the descriptor
/// that was received and what came of mapping its ring.
pub type Attempt = Option<(i32, Result<usize, OsError>)>;

/// The connection after an attempt. One that is initialized refuses, and stays as it is.
pub open spec fn after_attempt(c: ConnView, attempt: Attempt) -> ConnView {
    match attempt {
        Some((fd, mapped)) if !c.initialized() => c.after_init(fd, mapped),
        _ => c,
    }
}

/// Whether an attempt goes well.
pub open spec fn succeeds(c: ConnView, attempt: Attempt) -> bool {
    match attempt {
        Some((_, mapped)) => !c.initialized() && c.init_result(mapped) is Ok,
        None => false,
    }
}

/// The connection after a history of attempts.
pub open spec fn after_attempts(c: ConnView, attempts: Seq<Attempt>) -> ConnView
    decreases attempts.len(),
{
    if attempts.len() == 0 {
        c
    } else {
        after_attempt(after_attempts(c, attempts.drop_last()), attempts.last())
    }
}

/// A connection is initialized once. Until an attempt goes well, the connection is as it
/// was and asks for a capture socket again, and no descriptor is kept. From then on it
/// asks for nothing, and keeps that attempt's descriptor and ring, all of it, whatever is
/// attempted.
pub proof fn law_initialized_once(
    c: ConnView,
    attempts: Seq<Attempt>,
    n: Numbering,
    fanout_index: u32,
)
    requires
        !c.initialized(),
    ensures
        ({
            let end = after_attempts(c, attempts);
            let well = |k: int| succeeds(after_attempts(c, attempts.take(k)), attempts[k]);
            if end.initialized() {
                &&& end.request(n, fanout_index) is None
                &&& exists|k: int|
                    0 <= k < attempts.len() && #[trigger] well(k) && attempts[k] == Some(
                        (end.pkt_fd->0, Ok::<usize, OsError>(end.ring_ptr)),
                    ) && forall|j: int|
                        0 <= j < attempts.len() && j != k ==> !#[trigger] well(j)
                &&& end.ring_len == c.ring_bytes()
                &&& end == (ConnView {
                    pkt_fd: end.pkt_fd,
                    ring_ptr: end.ring_ptr,
                    ring_len: end.ring_len,
                    ..c
                })
            } else {
                &&& end == c
                &&& end.request(n, fanout_index) is Some
                &&& forall|k: int| 0 <= k < attempts.len() ==> !#[trigger] well(k)
            }
        }),
    decreases attempts.len(),
{
    let end = after_attempts(c, attempts);
    let well = |k: int| succeeds(after_attempts(c, attempts.take(k)), attempts[k]);
    if attempts.len() > 0 {
        let past = attempts.drop_last();
        let before = after_attempts(c, past);
        let last = attempts.len() - 1;
        law_initialized_once(c, past, n, fanout_index);
        let went_well = |k: int| succeeds(after_attempts(c, past.take(k)), past[k]);
        assert forall|k: int| 0 <= k < past.len() implies #[trigger] well(k) == went_well(k) by {
            assert(past.take(k) =~= attempts.take(k));
        }
        assert(attempts.take(last) =~= past);
        assert(well(last) == succeeds(before, attempts[last]));
        if before.initialized() {
            assert(end == before);
            let k = choose|k: int|
                0 <= k < past.len() && #[trigger] went_well(k) && past[k] == Some(
                    (before.pkt_fd->0, Ok::<usize, OsError>(before.ring_ptr)),
                ) && forall|j: int| 0 <= j < past.len() && j != k ==> !#[trigger] went_well(j);
            assert(well(k));
            assert forall|j: int| 0 <= j < attempts.len() && j != k implies !#[trigger] well(j) by {
                if j < last {
                    assert(!went_well(j));
                }
            }
        } else {
            assert forall|j: int| 0 <= j < past.len() implies !#[trigger] well(j) by {
                assert(!went_well(j));
            }
        }
    }
}

/// The blocks that a client gets, one wait after another, when the server sends the bytes
/// of `stream` and they come in time: for each its index, and where it begins in the
/// ring. `decode` is what the numbering makes of a header.
pub open spec fn got(
    c: ConnView,
    n: Numbering,
    decode: spec_fn(u32) -> Header,
    timeout: Option<u128>,
    step: WaitStep,
    stream: Seq<u8>,
) -> Seq<(u32, usize)>
    decreases stream.len(), rank(step),
{
    match step {
        WaitStep::Poll(_) => match after_poll(timeout, PollEvent::Ready) {
            Ok(WaitStep::ReadHeader) => got(c, n, decode, timeout, WaitStep::ReadHeader, stream),
            _ => seq![],
        },
        WaitStep::ReadHeader => if stream.len() < 4 {
            seq![]
        } else {
            match c.after_header(n, decode(bytes::from_be32(stream.take(4)))) {
                Ok(next) => got(c, n, decode, timeout, next, stream.skip(4)),
                Err(_) => seq![],
            }
        },
        WaitStep::Drain(length) => if stream.len() < length {
            seq![]
        } else {
            got(c, n, decode, timeout, wait_start(timeout), stream.skip(length as int))
        },
        WaitStep::TimedOut => seq![],
        WaitStep::Block { index, offset } => seq![(index, offset)] + got(
            c,
            n,
            decode,
            timeout,
            wait_start(timeout),
            stream,
        ),
    }
}

/// How far a step is from the next header.
pub open spec fn rank(step: WaitStep) -> nat {
    match step {
        WaitStep::Drain(_) => 3,
        WaitStep::Block { .. } => 3,
        WaitStep::Poll(_) => 2,
        WaitStep::ReadHeader => 1,
        WaitStep::TimedOut => 0,
    }
}

/// The blocks, each with where it begins in the ring.
pub open spec fn placed(c: ConnView, blocks: Seq<u32>) -> Seq<(u32, usize)> {
    blocks.map_values(|i: u32| (i, (i * c.block_size) as usize))
}

/// The blocks that a server announces are the blocks that the client gets, all of them
/// and in order, whether it waits with a timeout or without.
pub proof fn law_announced_blocks_are_understood(
    c: ConnView,
    n: Numbering,
    decode: spec_fn(u32) -> Header,
    timeout: Option<u128>,
    blocks: Seq<u32>,
)
    requires
        protocol::numbering_agrees(n, decode),
        forall|k: int|
            0 <= k < blocks.len() ==> blocks[k] < c.num_blocks && blocks[k] < 0x8000_0000,
    ensures
        got(c, n, decode, timeout, wait_start(timeout), writer::words(blocks)) == placed(c, blocks),
    decreases blocks.len(),
{
    let stream = writer::words(blocks);
    let start = wait_start(timeout);
    reveal_with_fuel(got, 4);
    if blocks.len() == 0 {
        assert(got(c, n, decode, timeout, start, stream) =~= placed(c, blocks));
    } else {
        let (i, rest) = (blocks.first(), blocks.drop_first());
        law_announced_blocks_are_understood(c, n, decode, timeout, rest);
        writer::lemma_words_first(blocks);
        bytes::law_be32_round_trip(i, seq![]);
        assert(stream.take(4) =~= bytes::be32(i));
        assert(stream.skip(4) =~= writer::words(rest));
        assert(decode(i).raw == i);
        let at = (i * c.block_size) as usize;
        assert(got(c, n, decode, timeout, start, stream) == seq![(i, at)] + got(
            c,
            n,
            decode,
            timeout,
            start,
            writer::words(rest),
        ));
        assert(got(c, n, decode, timeout, start, stream) =~= placed(c, blocks));
    }
}

/// What a daemon's writer writes is what its client gets: from all that was written and
/// is still to be written, the client gets exactly the blocks that were announced, in
/// order, whatever else the writer was told in between.
pub proof fn law_written_blocks_are_understood(
    c: ConnView,
    n: Numbering,
    decode: spec_fn(u32) -> Header,
    timeout: Option<u128>,
    events: Seq<writer::WriterEvent>,
)
    requires
        protocol::numbering_agrees(n, decode),
        c.num_blocks <= 0x8000_0000,
        writer::possible(writer::WriterView::start(c.num_blocks), events),
    ensures
        ({
            let w = writer::WriterView::start(c.num_blocks);
            got(
                c,
                n,
                decode,
                timeout,
                wait_start(timeout),
                writer::written(w, events) + writer::run(w, events).batch,
            ) == placed(c, writer::announced(w, events))
        }),
{
    let w = writer::WriterView::start(c.num_blocks);
    writer::law_announced_once(w, events);
    writer::law_announced_blocks_are_of_the_ring(w, events);
    law_announced_blocks_are_understood(c, n, decode, timeout, writer::announced(w, events));
}

/// Whatever else a server may send is passed over: the client gets nothing but what
/// follows.
pub proof fn law_server_messages_are_passed_over(
    c: ConnView,
    n: Numbering,
    decode: spec_fn(u32) -> Header,
    timeout: Option<u128>,
    header: u32,
    value: Seq<u8>,
    rest: Seq<u8>,
)
    requires
        decode(header).typ != n.block_index,
        decode(header).category == Category::ServerToClient,
        decode(header).length == value.len(),
    ensures
        got(c, n, decode, timeout, wait_start(timeout), bytes::be32(header) + value + rest) == got(
            c,
            n,
            decode,
            timeout,
            wait_start(timeout),
            rest,
        ),
{
    let stream = bytes::be32(header) + value + rest;
    reveal_with_fuel(got, 4);
    bytes::law_be32_round_trip(header, seq![]);
    assert(stream.take(4) =~= bytes::be32(header));
    assert(stream.skip(4) =~= value + rest);
    assert((value + rest).skip(value.len() as int) =~= rest);
}

/// A handshake begins with the version, which must be 2, and then reads headers. No size
/// is known yet.
pub proof fn law_version_is_two(v: u8)
    ensures
        ({
            let h = Handshake::start();
            &&& h.step is Version
            &&& h.wants() == 1
            &&& h.fanout_size == 0 && h.block_size == 0 && h.num_blocks == 0
            &&& h.after_version(v) is Ok <==> v == 2
            &&& h.after_version(v) matches Ok(next) ==> next.step is Header && next.wants() == 4
                && next.fanout_size == 0 && next.block_size == 0 && next.num_blocks == 0
            &&& h.after_version(v) matches Err(e) ==> (e matches Error::UnexpectedVersion {
                got,
                want,
            } && got == v && want == 2)
        }),
{
}

/// What a header in the handshake means. One of a type that servers do not send is an
/// error. The request for an index, which has no value, ends the handshake if all three
/// sizes are known, and is an error if one is not. Any other is followed by a value of the
/// length that it says. No header changes a size.
pub proof fn law_headers_in_the_handshake(h: Handshake, n: Numbering, header: Header)
    ensures
        ({
            let from_server = header.category is ServerToClient;
            let request = header.typ == n.waiting_for_fanout_index && header.length == 0;
            let known = h.fanout_size > 0 && h.block_size > 0 && h.num_blocks > 0;
            let r = h.after_header(n, header);
            &&& r is Err <==> !from_server || (request && !known)
            &&& !from_server ==> (r matches Err(Error::UnexpectedTlvCategory { typ, length })
                && typ == header.typ && length == header.length)
            &&& from_server && request && !known ==> (r matches Err(
                Error::MissingHandshakeFields { fanout_size, block_size, num_blocks },
            ) && fanout_size == h.fanout_size && block_size == h.block_size && num_blocks
                == h.num_blocks)
            &&& r matches Ok(next) ==> {
                &&& next.fanout_size == h.fanout_size
                &&& next.block_size == h.block_size
                &&& next.num_blocks == h.num_blocks
                &&& request ==> next.step is Done
                &&& !request ==> next.wants() == header.length && (next.step matches
                    ConnectStep::Value { typ, length } && typ == header.typ && length
                    == header.length)
            }
        }),
{
}

/// What a value in the handshake means: one of four bytes that belongs to a size sets
/// that size, to what the bytes weigh, and no other; one of another length is an error;
/// and a value of any other type, whatever its length, changes nothing. A header follows.
pub proof fn law_values_in_the_handshake(h: Handshake, n: Numbering, typ: u16, val: Seq<u8>)
    requires
        n.fanout_size != n.block_size,
        n.block_size != n.num_blocks,
        n.num_blocks != n.fanout_size,
    ensures
        ({
            let size = typ == n.fanout_size || typ == n.block_size || typ == n.num_blocks;
            let v = val[0] * 0x100_0000 + val[1] * 0x1_0000 + val[2] * 0x100 + val[3];
            let r = h.after_value(n, typ, val);
            &&& r is Err <==> size && val.len() != 4
            &&& r matches Err(e) ==> (e matches Error::UnexpectedTlvLength {
                typ: t,
                got_length,
                want_length,
            } && t == typ && got_length == val.len() % 0x1_0000 && want_length == 4)
            &&& r matches Ok(next) ==> {
                &&& next.step is Header
                &&& next.fanout_size == if typ == n.fanout_size {
                    v
                } else {
                    h.fanout_size as int
                }
                &&& next.block_size == if typ == n.block_size {
                    v
                } else {
                    h.block_size as int
                }
                &&& next.num_blocks == if typ == n.num_blocks {
                    v
                } else {
                    h.num_blocks as int
                }
            }
        }),
{
    protocol::law_values_are_four_bytes(typ, val);
}

/// A client asks for the capture socket that it was told to ask for: whatever the index,
/// the daemon reads exactly that index out of the request, and grants it if there is such
/// a capture socket. A connection that is initialized asks for nothing.
pub proof fn law_request_asks_for_the_index(
    c: ConnView,
    n: Numbering,
    fanout_index: u32,
    slots: u32,
)
    ensures
        c.request(n, fanout_index) is None <==> c.pkt_fd is Some,
        c.pkt_fd is None ==> {
            let m = c.request(n, fanout_index)->0;
            &&& m.len() == 8
            &&& fanout_index < slots ==> accept::choice(n, m, slots) == Some(fanout_index)
            &&& fanout_index >= slots ==> accept::choice(n, m, slots) is None
            &&& n.fanout_index_header == m[0] * 0x100_0000 + m[1] * 0x1_0000 + m[2] * 0x100 + m[3]
            &&& fanout_index == m[4] * 0x100_0000 + m[5] * 0x1_0000 + m[6] * 0x100 + m[7]
        },
{
    accept::law_choice_is_honoured(n, fanout_index, slots);
    protocol::law_message_layout(n.fanout_index_header, fanout_index);
}

/// A ring is mapped whole: it is as long as all its blocks together. A connection is
/// initialized by a mapping that went well, and only by one; then it has the descriptor,
/// the address and the length, and the sizes that it had. Anything else leaves it alone,
/// and the error says why.
pub proof fn law_ring_is_mapped_whole(c: ConnView, fd: i32, mapped: Result<usize, OsError>)
    requires
        c.pkt_fd is None,
    ensures
        ({
            let bytes = c.block_size * c.num_blocks;
            let after = c.after_init(fd, mapped);
            let r = c.init_result(mapped);
            &&& c.ring_bytes() == bytes
            &&& !c.initialized()
            &&& r is Ok <==> bytes <= usize::MAX && mapped is Ok
            &&& after.initialized() <==> r is Ok
            &&& r is Ok ==> after.pkt_fd == Some(fd) && after.ring_ptr == mapped->Ok_0
                && after.ring_len == bytes
            &&& r is Err ==> after == c
            &&& after.fanout_size == c.fanout_size
            &&& after.block_size == c.block_size
            &&& after.num_blocks == c.num_blocks
            &&& bytes > usize::MAX ==> (r matches Err(
                Error::RingSizeOverflow { block_size, num_blocks },
            ) && block_size == c.block_size && num_blocks == c.num_blocks)
            &&& bytes <= usize::MAX && mapped is Err ==> (r matches Err(
                Error::Mmap { len, source },
            ) && len == bytes && source == mapped->Err_0)
        }),
{
}

/// How long a client waits: for as many milliseconds as it was told, or the longest time
/// that a poll can be told where that is more; without a timeout it does not poll but
/// reads. So it never waits less for being told more, and being told nothing is not being
/// told zero.
pub proof fn law_waits_as_long_as_told(t: u128, more: u128)
    requires
        t <= more,
    ensures
        wait_start(None) is ReadHeader,
        wait_start(Some(t)) matches WaitStep::Poll(m) && m >= 0 && (m == t || m == i32::MAX) && m
            <= t,
        t <= i32::MAX ==> wait_start(Some(t)) == WaitStep::Poll(t as i32),
        t > i32::MAX ==> wait_start(Some(t)) == WaitStep::Poll(0x7fff_ffff),
        wait_start(Some(t))->Poll_0 <= wait_start(Some(more))->Poll_0,
{
}

/// What a poll tells: that there is something to read, that nothing came in time, that the
/// wait has to begin again, for as long as before, or that it failed.
pub proof fn law_what_a_poll_tells(timeout: Option<u128>, e: OsError)
    ensures
        after_poll(timeout, PollEvent::Ready) == Ok::<WaitStep, Error>(WaitStep::ReadHeader),
        after_poll(timeout, PollEvent::TimedOut) == Ok::<WaitStep, Error>(WaitStep::TimedOut),
        after_poll(timeout, PollEvent::Failed(e)) == Err::<WaitStep, Error>(Error::Poll(e)),
        timeout matches Some(t) ==> (after_poll(timeout, PollEvent::Interrupted) matches Ok(
            WaitStep::Poll(m),
        ) && (t <= i32::MAX ==> m == t) && (t > i32::MAX ==> m == i32::MAX)),
        timeout is None ==> after_poll(timeout, PollEvent::Interrupted) == Ok::<WaitStep, Error>(
            WaitStep::ReadHeader,
        ),
{
}

/// What a header means to a client that waits for a block. An index of the ring is that
/// block, which begins after all the blocks before it; an index that is none of the ring
/// is an error. A message of the server is passed over, all of it, and any other is an
/// error.
pub proof fn law_headers_while_waiting(c: ConnView, n: Numbering, h: Header)
    requires
        c.block_size * c.num_blocks <= usize::MAX,
    ensures
        ({
            let r = c.after_header(n, h);
            let index = h.typ == n.block_index;
            let from_server = h.category is ServerToClient;
            &&& index && h.raw < c.num_blocks ==> (r matches Ok(
                WaitStep::Block { index: i, offset },
            ) && i == h.raw && offset == h.raw * c.block_size)
            &&& index && h.raw >= c.num_blocks ==> (r matches Err(
                Error::BlockIndexOutOfRange { idx, num_blocks },
            ) && idx == h.raw && num_blocks == c.num_blocks)
            &&& !index && from_server ==> (r matches Ok(WaitStep::Drain(len)) && len == h.length)
            &&& !index && !from_server ==> (r matches Err(
                Error::UnexpectedTlvCategory { typ, length },
            ) && typ == h.typ && length == h.length)
        }),
{
    let (i, size, count) = (h.raw, c.block_size, c.num_blocks);
    if i < count {
        assert(0 <= i * size <= size * count) by (nonlinear_arith)
            requires
                0 <= i < count,
                0 <= size,
        ;
    }
}

/// Of the control messages that came, the first that passes a descriptor decides: there is
/// at most one such descriptor, it was passed, and nothing before it passes one.
pub proof fn law_first_descriptor_counts(before: Seq<Option<i32>>, fd: i32, other: i32)
    requires
        forall|i: int| 0 <= i < before.len() ==> before[i] is None,
    ensures
        forall|after: Seq<Option<i32>>| #[trigger]
            first_right(before.push(Some(fd)) + after, fd),
        forall|after: Seq<Option<i32>>|
            other != fd ==> !#[trigger] first_right(before.push(Some(fd)) + after, other),
        !first_right(before, fd),
{
    let n = before.len() as int;
    assert forall|after: Seq<Option<i32>>| #[trigger]
        first_right(before.push(Some(fd)) + after, fd) by {
        let all = before.push(Some(fd)) + after;
        assert(all[n] == Some(fd));
        assert(forall|j: int| 0 <= j < n ==> all[j] == before[j]);
    }
    assert forall|after: Seq<Option<i32>>| other != fd implies !#[trigger] first_right(
        before.push(Some(fd)) + after,
        other,
    ) by {
        let all = before.push(Some(fd)) + after;
        assert(all[n] == Some(fd));
        assert(forall|j: int| 0 <= j < n ==> all[j] == before[j]);
    }
}

} // verus!
