//! The daemon's reading side of a connection: it hears which blocks the client
//! returns and tells the writer.

use vstd::prelude::*;

use crate::bytes;
use crate::protocol;
use crate::protocol::{Category, Header, Numbering};
use crate::writer;
use crate::writer::WriterMsg;

verus! {

/// What the reader wants done.
#[derive(Debug, Clone, Copy, PartialEq, Eq, Structural)]
pub enum ReaderStep {
    /// See whether the daemon stops.
    CheckShutdown,
    /// Read a word.
    ReadWord,
    /// Read and forget the value of a message.
    Drain(u16),
    /// Tell the writer that the client returned the block.
    Forward(u32),
    /// Tell the writer that the client is gone.
    Close,
    /// Nothing more.
    Stop,
}

/// What came of it.
#[derive(Debug, Clone, Copy, PartialEq, Eq, Structural)]
pub enum ReaderEvent {
    ShutdownSet(bool),
    Word(Header),
    Drained,
    /// The stream ended or failed.
    ReadFailed,
    /// The writer was told.
    Told,
    /// The writer is gone.
    WriterGone,
}

/// The reading side of a connection.
#[derive(Debug, Clone, Copy, PartialEq, Eq, Structural)]
pub struct Reader {
    pub num_blocks: u32,
    pub step: ReaderStep,
}

/// What a word asks for, in a ring of `num_blocks` blocks. A word whose top bit is
/// not set returns a block; any other is the header of a message, which is passed
/// over if a client may send it.
pub open spec fn asks_for(num_blocks: u32, h: Header) -> ReaderStep {
    if h.raw < 0x8000_0000 {
        if h.raw < num_blocks {
            ReaderStep::Forward(h.raw)
        } else {
            ReaderStep::Close
        }
    } else if h.category != Category::ClientToServer {
        ReaderStep::Close
    } else if h.length > 0 {
        ReaderStep::Drain(h.length)
    } else {
        ReaderStep::CheckShutdown
    }
}

impl Reader {
    /// Whether the event can come of what the reader wants done.
    pub open spec fn expects(self, event: ReaderEvent) -> bool {
        match self.step {
            ReaderStep::CheckShutdown => event is ShutdownSet,
            ReaderStep::ReadWord => event is Word || event is ReadFailed,
            ReaderStep::Drain(_) => event is Drained || event is ReadFailed,
            ReaderStep::Forward(_) => event is Told || event is WriterGone,
            ReaderStep::Close => event is Told || event is WriterGone,
            ReaderStep::Stop => false,
        }
    }

    /// What the reader wants done after an event.
    pub open spec fn next(self, event: ReaderEvent) -> ReaderStep {
        match (self.step, event) {
            (ReaderStep::CheckShutdown, ReaderEvent::ShutdownSet(set)) => if set {
                ReaderStep::Close
            } else {
                ReaderStep::ReadWord
            },
            (ReaderStep::ReadWord, ReaderEvent::Word(h)) => asks_for(self.num_blocks, h),
            (ReaderStep::Drain(_), ReaderEvent::Drained) => ReaderStep::CheckShutdown,
            (ReaderStep::Forward(_), ReaderEvent::Told) => ReaderStep::CheckShutdown,
            (_, ReaderEvent::ReadFailed) => ReaderStep::Close,
            _ => ReaderStep::Stop,
        }
    }

    /// Takes what came of what the reader wanted done.
    pub fn advance(&mut self, event: ReaderEvent)
        requires
            old(self).expects(event),
        ensures
            *final(self) == (Reader { step: old(self).next(event), ..*old(self) }),
    {
        self.step = match event {
            ReaderEvent::ShutdownSet(set) => if set {
                ReaderStep::Close
            } else {
                ReaderStep::ReadWord
            },
            ReaderEvent::Word(h) => self.on_word(h),
            ReaderEvent::Drained => ReaderStep::CheckShutdown,
            ReaderEvent::ReadFailed => ReaderStep::Close,
            ReaderEvent::Told => match self.step {
                ReaderStep::Forward(_) => ReaderStep::CheckShutdown,
                _ => ReaderStep::Stop,
            },
            ReaderEvent::WriterGone => ReaderStep::Stop,
        };
    }

    fn on_word(&self, h: Header) -> (r: ReaderStep)
        ensures
            r == asks_for(self.num_blocks, h),
    {
        let raw: u32 = h.raw;
        assert(raw & 0x8000_0000 == 0 <==> raw < 0x8000_0000) by (bit_vector);
        if raw & 0x8000_0000 == 0 {
            if raw >= self.num_blocks {
                return ReaderStep::Close;
            }
            return ReaderStep::Forward(raw);
        }
        if h.category != Category::ClientToServer {
            return ReaderStep::Close;
        }
        if h.length > 0 {
            return ReaderStep::Drain(h.length);
        }
        ReaderStep::CheckShutdown
    }

    /// The message to the writer, when the reader wants one sent.
    pub open spec fn tells(self) -> Option<WriterMsg> {
        match self.step {
            ReaderStep::Forward(i) => Some(WriterMsg::Returned(i)),
            ReaderStep::Close => Some(WriterMsg::PeerClosed),
            _ => None,
        }
    }

    /// The message to the writer, when the reader wants one sent.
    pub fn message(&self) -> (r: Option<WriterMsg>)
        ensures
            r == self.tells(),
    {
        match self.step {
            ReaderStep::Forward(i) => Some(WriterMsg::Returned(i)),
            ReaderStep::Close => Some(WriterMsg::PeerClosed),
            _ => None,
        }
    }
}

/// Begins to read, for a ring of `num_blocks` blocks.
pub fn reader_loop(num_blocks: u32) -> (r: Reader)
    ensures
        r == (Reader { num_blocks, step: ReaderStep::CheckShutdown }),
{
    Reader { num_blocks, step: ReaderStep::CheckShutdown }
}

/// What the writer is told when the client sends the bytes of `stream` and closes,
/// while the daemon runs on and the writer listens; `decode` is what the numbering
/// makes of a word.
pub open spec fn heard(r: Reader, decode: spec_fn(u32) -> Header, stream: Seq<u8>) -> Seq<WriterMsg>
    decreases stream.len(), rank(r.step),
{
    let at = |step: ReaderStep| Reader { step, ..r };
    match r.step {
        ReaderStep::CheckShutdown => heard(
            at(r.next(ReaderEvent::ShutdownSet(false))),
            decode,
            stream,
        ),
        ReaderStep::ReadWord => if stream.len() < 4 {
            heard(at(r.next(ReaderEvent::ReadFailed)), decode, stream)
        } else {
            heard(
                at(r.next(ReaderEvent::Word(decode(bytes::from_be32(stream.take(4)))))),
                decode,
                stream.skip(4),
            )
        },
        ReaderStep::Drain(n) => if stream.len() < n {
            heard(at(r.next(ReaderEvent::ReadFailed)), decode, stream)
        } else {
            heard(at(r.next(ReaderEvent::Drained)), decode, stream.skip(n as int))
        },
        ReaderStep::Forward(_) => seq![r.tells()->0] + heard(
            at(r.next(ReaderEvent::Told)),
            decode,
            stream,
        ),
        ReaderStep::Close => seq![r.tells()->0],
        ReaderStep::Stop => seq![],
    }
}

/// How far a step is from the next word.
pub open spec fn rank(step: ReaderStep) -> nat {
    match step {
        ReaderStep::Drain(_) => 4,
        ReaderStep::Forward(_) => 4,
        ReaderStep::CheckShutdown => 3,
        ReaderStep::ReadWord => 2,
        ReaderStep::Close => 1,
        ReaderStep::Stop => 0,
    }
}

/// The blocks that a client returns are the blocks that the writer hears of, in
/// order, and then that the client is gone.
pub proof fn law_returned_blocks_are_heard(
    num_blocks: u32,
    n: Numbering,
    decode: spec_fn(u32) -> Header,
    blocks: Seq<u32>,
)
    requires
        protocol::numbering_agrees(n, decode),
        forall|k: int| 0 <= k < blocks.len() ==> blocks[k] < num_blocks && blocks[k] < 0x8000_0000,
    ensures
        heard(
            Reader { num_blocks, step: ReaderStep::CheckShutdown },
            decode,
            writer::words(blocks),
        ) == blocks.map_values(|i: u32| WriterMsg::Returned(i)).push(WriterMsg::PeerClosed),
    decreases blocks.len(),
{
    let r = Reader { num_blocks, step: ReaderStep::CheckShutdown };
    let told = |i: u32| WriterMsg::Returned(i);
    let stream = writer::words(blocks);
    reveal_with_fuel(heard, 4);
    if blocks.len() == 0 {
        assert(heard(r, decode, stream) =~= blocks.map_values(told).push(WriterMsg::PeerClosed));
    } else {
        let (i, rest) = (blocks.first(), blocks.drop_first());
        law_returned_blocks_are_heard(num_blocks, n, decode, rest);
        writer::lemma_words_first(blocks);
        bytes::law_be32_round_trip(i, seq![]);
        assert(stream.take(4) =~= bytes::be32(i));
        assert(stream.skip(4) =~= writer::words(rest));
        assert(decode(i).raw == i);
        assert(heard(r, decode, stream) == seq![WriterMsg::Returned(i)] + heard(
            r,
            decode,
            writer::words(rest),
        ));
        assert(heard(r, decode, stream) =~= blocks.map_values(told).push(WriterMsg::PeerClosed));
    }
}

/// Whatever else a client may send is passed over: the writer hears of nothing but
/// what follows.
pub proof fn law_client_messages_are_passed_over(
    num_blocks: u32,
    n: Numbering,
    decode: spec_fn(u32) -> Header,
    header: u32,
    value: Seq<u8>,
    rest: Seq<u8>,
)
    requires
        protocol::numbering_agrees(n, decode),
        header >= 0x8000_0000,
        decode(header).category == Category::ClientToServer,
        decode(header).length == value.len(),
    ensures
        ({
            let r = Reader { num_blocks, step: ReaderStep::CheckShutdown };
            heard(r, decode, bytes::be32(header) + value + rest) == heard(r, decode, rest)
        }),
{
    let r = Reader { num_blocks, step: ReaderStep::CheckShutdown };
    let stream = bytes::be32(header) + value + rest;
    reveal_with_fuel(heard, 4);
    bytes::law_be32_round_trip(header, seq![]);
    assert(stream.take(4) =~= bytes::be32(header));
    assert(stream.skip(4) =~= value + rest);
    assert((value + rest).skip(value.len() as int) =~= rest);
    assert(decode(header).raw == header);
    if value.len() == 0 {
        assert(value + rest =~= rest);
    }
}

/// What a word from the client means. Below the top bit it is a block that the client
/// returns, which the writer is told of exactly if it is one of the ring; otherwise it is
/// a message, which is passed over, value and all, if clients may send it. Everything else
/// ends the connection.
pub proof fn law_what_a_word_means(num_blocks: u32, h: Header)
    ensures
        ({
            let step = Reader { num_blocks, step: ReaderStep::ReadWord }.next(
                ReaderEvent::Word(h),
            );
            let message = h.raw >= 0x8000_0000;
            let allowed = h.category is ClientToServer;
            &&& !message && h.raw < num_blocks ==> step == ReaderStep::Forward(h.raw)
            &&& !message && h.raw >= num_blocks ==> step is Close
            &&& message && !allowed ==> step is Close
            &&& message && allowed && h.length > 0 ==> step == ReaderStep::Drain(h.length)
            &&& message && allowed && h.length == 0 ==> step is CheckShutdown
        }),
{
}

/// How a reader goes on. It reads a word only while the daemon is to run on; it tells the
/// writer of each block, by its number, and goes on; it tells it that the client is gone
/// when the daemon stops or reading fails, and then ends; and it ends when the writer is
/// gone.
pub proof fn law_how_a_reader_goes_on(num_blocks: u32, set: bool, i: u32, length: u16)
    ensures
        ({
            let at = |step: ReaderStep| Reader { num_blocks, step };
            &&& at(ReaderStep::CheckShutdown).next(ReaderEvent::ShutdownSet(set)) is Close <==> set
            &&& at(ReaderStep::CheckShutdown).next(ReaderEvent::ShutdownSet(set)) is ReadWord
                <==> !set
            &&& at(ReaderStep::ReadWord).next(ReaderEvent::ReadFailed) is Close
            &&& at(ReaderStep::Drain(length)).next(ReaderEvent::Drained) is CheckShutdown
            &&& at(ReaderStep::Drain(length)).next(ReaderEvent::ReadFailed) is Close
            &&& at(ReaderStep::Forward(i)).tells() == Some(WriterMsg::Returned(i))
            &&& at(ReaderStep::Forward(i)).next(ReaderEvent::Told) is CheckShutdown
            &&& at(ReaderStep::Forward(i)).next(ReaderEvent::WriterGone) is Stop
            &&& at(ReaderStep::Close).tells() == Some(WriterMsg::PeerClosed)
            &&& at(ReaderStep::Close).next(ReaderEvent::Told) is Stop
            &&& at(ReaderStep::Close).next(ReaderEvent::WriterGone) is Stop
            &&& at(ReaderStep::CheckShutdown).tells() is None
            &&& at(ReaderStep::ReadWord).tells() is None
            &&& at(ReaderStep::Drain(length)).tells() is None
            &&& at(ReaderStep::Stop).tells() is None
        }),
{
}

} // verus!
