//! The daemon's writing side of a connection: it tells the client which blocks are
//! ready and keeps the references to them until the client returns them.
//!
//! Blocks that are ready at the same time are announced in one write. The caller
//! receives and writes; the writer says what to do and takes what came of it.

use vstd::prelude::*;

use crate::bytes;
use crate::bytes::push_be32;
use crate::capture::BlockTicket;

verus! {

/// A message to the writer.
#[derive(Debug, PartialEq, Eq, Structural)]
pub enum WriterMsg {
    /// A block is ready.
    NewBlock(BlockTicket),
    /// The client returned a block.
    Returned(u32),
    /// The client is gone.
    PeerClosed,
    /// The daemon stops.
    Shutdown,
}

/// What the writer wants done.
#[derive(Debug, Clone, Copy, PartialEq, Eq, Structural)]
pub enum WriterStep {
    /// Wait for a message.
    Receive,
    /// Take a message if there is one.
    TryReceive,
    /// Write the batch to the client.
    Write,
    /// See whether the daemon stops.
    CheckShutdown,
    /// Nothing more: give up the references that are left.
    Stop,
}

/// What came of it.
#[derive(Debug, PartialEq, Eq, Structural)]
pub enum WriterEvent {
    Message(WriterMsg),
    /// No message: none will come, or, where the writer did not wait, none is there.
    NoMessage,
    Written,
    WriteFailed,
    ShutdownSet(bool),
}

/// What is known of a writer.
pub struct WriterView {
    /// For each block, whether the client has it.
    pub held: Seq<bool>,
    /// The announcements that are not yet written.
    pub batch: Seq<u8>,
    /// The message to act on once the batch is written.
    pub waiting: Option<WriterMsg>,
    pub step: WriterStep,
}

impl WriterView {
    /// A writer for a ring of so many blocks.
    pub open spec fn start(num_blocks: u32) -> WriterView {
        WriterView {
            held: Seq::new(num_blocks as nat, |i: int| false),
            batch: seq![],
            waiting: None,
            step: WriterStep::Receive,
        }
    }

    /// Whether the event can come of what the writer wants done.
    pub open spec fn expects(self, event: WriterEvent) -> bool {
        match self.step {
            WriterStep::Receive => event is Message || event is NoMessage,
            WriterStep::TryReceive => event is Message || event is NoMessage,
            WriterStep::Write => event is Written || event is WriteFailed,
            WriterStep::CheckShutdown => event is ShutdownSet,
            WriterStep::Stop => false,
        }
    }

    /// Whether the block can be announced: it is one of the ring's, and the client
    /// does not have it.
    pub open spec fn free(self, i: u32) -> bool {
        i < self.held.len() && !self.held[i as int]
    }

    /// Whether the client has the block.
    pub open spec fn has(self, i: u32) -> bool {
        i < self.held.len() && self.held[i as int]
    }

    /// What becomes of the writer on a block that is ready. A block that cannot be
    /// announced ends the connection.
    pub open spec fn after_block(self, i: u32) -> WriterView {
        if self.free(i) {
            WriterView {
                held: self.held.update(i as int, true),
                batch: self.batch + bytes::be32(i),
                step: WriterStep::TryReceive,
                ..self
            }
        } else {
            WriterView { step: WriterStep::Stop, ..self }
        }
    }

    /// What becomes of the writer on another message. A block comes back only where
    /// the client has it; all else ends the connection.
    pub open spec fn after_other(self, msg: WriterMsg) -> WriterView {
        match msg {
            WriterMsg::Returned(i) if self.has(i) => WriterView {
                held: self.held.update(i as int, false),
                waiting: None,
                step: WriterStep::CheckShutdown,
                ..self
            },
            _ => WriterView { waiting: None, step: WriterStep::Stop, ..self },
        }
    }

    /// What becomes of the writer on an event.
    pub open spec fn next(self, event: WriterEvent) -> WriterView {
        match self.step {
            WriterStep::Receive => match event {
                WriterEvent::Message(WriterMsg::NewBlock(t)) => self.after_block(t.block()),
                WriterEvent::Message(msg) => self.after_other(msg),
                _ => WriterView { step: WriterStep::Stop, ..self },
            },
            WriterStep::TryReceive => match event {
                WriterEvent::Message(WriterMsg::NewBlock(t)) => self.after_block(t.block()),
                WriterEvent::Message(msg) => WriterView {
                    waiting: Some(msg),
                    step: WriterStep::Write,
                    ..self
                },
                _ => WriterView { step: WriterStep::Write, ..self },
            },
            WriterStep::Write => match event {
                WriterEvent::Written => {
                    let sent = WriterView { batch: seq![], ..self };
                    match self.waiting {
                        Some(msg) => sent.after_other(msg),
                        None => WriterView { step: WriterStep::CheckShutdown, ..sent },
                    }
                },
                _ => WriterView { step: WriterStep::Stop, ..self },
            },
            WriterStep::CheckShutdown => WriterView {
                step: if event == WriterEvent::ShutdownSet(true) {
                    WriterStep::Stop
                } else {
                    WriterStep::Receive
                },
                ..self
            },
            WriterStep::Stop => self,
        }
    }

    /// The message that the writer acts on at the event, where it acts on one other
    /// than a block.
    pub open spec fn acts_on(self, event: WriterEvent) -> Option<WriterMsg> {
        match self.step {
            WriterStep::Receive => match event {
                WriterEvent::Message(msg) => Some(msg),
                _ => None,
            },
            WriterStep::Write => if event is Written {
                self.waiting
            } else {
                None
            },
            _ => None,
        }
    }

    /// The reference that the writer gives up at the event: to a block that it
    /// refuses, or to one that the client returns.
    pub open spec fn gives_up(self, event: WriterEvent) -> Option<u32> {
        match event {
            WriterEvent::Message(WriterMsg::NewBlock(t)) => if self.free(t.block()) {
                None
            } else {
                Some(t.block())
            },
            _ => match self.acts_on(event) {
                Some(WriterMsg::Returned(i)) if self.has(i) => Some(i),
                _ => None,
            },
        }
    }

    /// The block that the writer announces at the event.
    pub open spec fn announces(self, event: WriterEvent) -> Option<u32> {
        match event {
            WriterEvent::Message(WriterMsg::NewBlock(t)) => if self.free(t.block()) {
                Some(t.block())
            } else {
                None
            },
            _ => None,
        }
    }

    /// The bytes that are written at the event.
    pub open spec fn writes(self, event: WriterEvent) -> Seq<u8> {
        if self.step is Write && event is Written {
            self.batch
        } else {
            seq![]
        }
    }

    /// The message that waits for the batch is no block, and there is none
    /// elsewhere; a batch is written only where there is one, and between batches
    /// there is none.
    pub open spec fn inv(self) -> bool {
        &&& self.waiting matches Some(msg) ==> msg !is NewBlock
        &&& (self.step is Receive || self.step is TryReceive || self.step is CheckShutdown)
            ==> self.waiting is None
        &&& (self.step is TryReceive || self.step is Write) ==> self.batch.len() > 0
        &&& (self.step is Receive || self.step is CheckShutdown) ==> self.batch.len() == 0
    }
}

/// The writing side of a connection.
#[derive(Debug)]
pub struct Writer {
    /// The references to the blocks that the client has.
    outstanding: Vec<Option<BlockTicket>>,
    batch: Vec<u8>,
    waiting: Option<WriterMsg>,
    step: WriterStep,
}

impl View for Writer {
    type V = WriterView;

    closed spec fn view(&self) -> WriterView {
        WriterView {
            held: Seq::new(self.outstanding@.len(), |i: int| self.outstanding@[i] is Some),
            batch: self.batch@,
            waiting: self.waiting,
            step: self.step,
        }
    }
}

/// Each reference that is kept is to its own block.
spec fn in_place(outstanding: Seq<Option<BlockTicket>>) -> bool {
    forall|i: int|
        0 <= i < outstanding.len() ==> (#[trigger] outstanding[i] matches Some(t) ==> t.block()
            == i)
}

/// Acts on a message that is no block: whether to go on, and the reference that is
/// given up.
fn handle_non_newblock(
    msg: WriterMsg,
    outstanding: &mut Vec<Option<BlockTicket>>,
) -> (r: (bool, Option<BlockTicket>))
    requires
        in_place(old(outstanding)@),
    ensures
        in_place(final(outstanding)@),
        final(outstanding)@.len() == old(outstanding)@.len(),
        match msg {
            WriterMsg::Returned(i) if i < old(outstanding)@.len() && old(
                outstanding,
            )@[i as int] is Some => {
                &&& final(outstanding)@ == old(outstanding)@.update(i as int, None)
                &&& r.0
                &&& r.1 == old(outstanding)@[i as int]
            },
            WriterMsg::NewBlock(t) => {
                &&& final(outstanding)@ == old(outstanding)@
                &&& r == (false, Some(t))
            },
            _ => {
                &&& final(outstanding)@ == old(outstanding)@
                &&& r == (false, None::<BlockTicket>)
            },
        },
{
    match msg {
        WriterMsg::Returned(i) => {
            if i as usize >= outstanding.len() {
                return (false, None);
            }
            let ghost before = outstanding@;
            let t: Option<BlockTicket> = outstanding[i as usize].take();
            match t {
                Some(ticket) => {
                    assert(outstanding@ =~= before.update(i as int, None));
                    (true, Some(ticket))
                },
                None => {
                    assert(outstanding@ =~= before);
                    (false, None)
                },
            }
        },
        WriterMsg::PeerClosed => (false, None),
        WriterMsg::Shutdown => (false, None),
        WriterMsg::NewBlock(t) => (false, Some(t)),
    }
}

impl Writer {
    pub closed spec fn wf(&self) -> bool {
        &&& in_place(self.outstanding@)
        &&& self@.inv()
    }

    /// What well-formedness says of the view.
    pub proof fn lemma_wf(&self)
        requires
            self.wf(),
        ensures
            self@.inv(),
    {
    }

    /// What the writer wants done.
    pub fn wants(&self) -> (r: WriterStep)
        ensures
            r == self@.step,
    {
        self.step
    }

    /// The bytes to write, when the writer wants them written.
    pub fn batch(&self) -> (r: &[u8])
        ensures
            r@ == self@.batch,
    {
        self.batch.as_slice()
    }

    /// How many blocks the client has.
    pub fn in_flight(&self) -> (r: usize)
        ensures
            r == self@.held.filter(|b: bool| b).len(),
    {
        let mut n: usize = 0;
        let mut i: usize = 0;
        let ghost is_held = |b: bool| b;
        assert(self@.held.take(0).filter(is_held).len() == 0) by {
            reveal(Seq::filter);
        }
        while i < self.outstanding.len()
            invariant
                i <= self.outstanding@.len(),
                n == self@.held.take(i as int).filter(is_held).len(),
                n <= i,
                is_held == (|b: bool| b),
            decreases self.outstanding@.len() - i,
        {
            proof {
                let upto = self@.held.take(i as int + 1);
                assert(upto.drop_last() =~= self@.held.take(i as int));
                reveal(Seq::filter);
            }
            if self.outstanding[i].is_some() {
                n = n + 1;
            }
            i = i + 1;
        }
        assert(self@.held.take(i as int) =~= self@.held);
        n
    }

    fn take_block(&mut self, ticket: BlockTicket) -> (r: Option<BlockTicket>)
        requires
            in_place(old(self).outstanding@),
        ensures
            in_place(final(self).outstanding@),
            final(self)@ == old(self)@.after_block(ticket.block()),
            r == (if old(self)@.free(ticket.block()) {
                None
            } else {
                Some(ticket)
            }),
    {
        let i: u32 = ticket.index();
        if i as usize >= self.outstanding.len() {
            self.step = WriterStep::Stop;
            assert(self@.held =~= old(self)@.held);
            return Some(ticket);
        }
        if self.outstanding[i as usize].is_some() {
            self.step = WriterStep::Stop;
            assert(self@.held =~= old(self)@.held);
            return Some(ticket);
        }
        push_be32(&mut self.batch, i);
        self.outstanding.set(i as usize, Some(ticket));
        self.step = WriterStep::TryReceive;
        assert(self@.held =~= old(self)@.held.update(i as int, true));
        None
    }

    fn take_other(&mut self, msg: WriterMsg) -> (r: Option<BlockTicket>)
        requires
            in_place(old(self).outstanding@),
            msg !is NewBlock,
            old(self).waiting is None,
        ensures
            in_place(final(self).outstanding@),
            final(self)@ == old(self)@.after_other(msg),
            match r {
                Some(t) => msg == WriterMsg::Returned(t.block()) && old(self)@.has(t.block()),
                None => msg matches WriterMsg::Returned(i) ==> !old(self)@.has(i),
            },
    {
        let (go_on, given_up) = handle_non_newblock(msg, &mut self.outstanding);
        self.step = if go_on {
            WriterStep::CheckShutdown
        } else {
            WriterStep::Stop
        };
        assert(self@.held =~= old(self)@.after_other(msg).held);
        given_up
    }

    /// Takes what came of what the writer wanted done. The result is the reference
    /// that is given up, where one is.
    pub fn advance(&mut self, event: WriterEvent) -> (r: Option<BlockTicket>)
        requires
            old(self).wf(),
            old(self)@.expects(event),
        ensures
            final(self).wf(),
            final(self)@ == old(self)@.next(event),
            match r {
                Some(t) => old(self)@.gives_up(event) == Some(t.block()),
                None => old(self)@.gives_up(event) is None,
            },
    {
        match self.step {
            WriterStep::Receive => match event {
                WriterEvent::Message(WriterMsg::NewBlock(t)) => self.take_block(t),
                WriterEvent::Message(msg) => self.take_other(msg),
                _ => {
                    self.step = WriterStep::Stop;
                    assert(self@.held =~= old(self)@.held);
                    None
                },
            },
            WriterStep::TryReceive => match event {
                WriterEvent::Message(WriterMsg::NewBlock(t)) => self.take_block(t),
                WriterEvent::Message(msg) => {
                    self.waiting = Some(msg);
                    self.step = WriterStep::Write;
                    assert(self@.held =~= old(self)@.held);
                    None
                },
                _ => {
                    self.step = WriterStep::Write;
                    assert(self@.held =~= old(self)@.held);
                    None
                },
            },
            WriterStep::Write => match event {
                WriterEvent::Written => {
                    self.batch.clear();
                    let msg: Option<WriterMsg> = self.waiting.take();
                    assert(self@.held =~= old(self)@.held);
                    assert(self@.batch =~= seq![]);
                    match msg {
                        Some(msg) => {
                            assert(self@.after_other(msg) == (WriterView {
                                waiting: Some(msg),
                                ..self@
                            }).after_other(msg));
                            self.take_other(msg)
                        },
                        None => {
                            self.step = WriterStep::CheckShutdown;
                            assert(self@.held =~= old(self)@.held);
                            None
                        },
                    }
                },
                _ => {
                    self.step = WriterStep::Stop;
                    assert(self@.held =~= old(self)@.held);
                    None
                },
            },
            WriterStep::CheckShutdown => {
                self.step = match event {
                    WriterEvent::ShutdownSet(true) => WriterStep::Stop,
                    _ => WriterStep::Receive,
                };
                assert(self@.held =~= old(self)@.held);
                None
            },
            WriterStep::Stop => None,
        }
    }

    /// Ends the connection: gives up the references that are left, one for each
    /// block that the client has, in the order of the blocks.
    pub fn finish(self) -> (r: Vec<BlockTicket>)
        requires
            self.wf(),
        ensures
            forall|k: int|
                0 <= k < r@.len() ==> self@.has(#[trigger] r@[k].block()),
            forall|j: int, k: int|
                0 <= j < k < r@.len() ==> #[trigger] r@[j].block() < #[trigger] r@[k].block(),
            forall|i: u32|
                #![trigger self@.has(i)]
                self@.has(i) ==> exists|k: int| 0 <= k < r@.len() && #[trigger] r@[k].block() == i,
    {
        let mut rest = self.outstanding;
        let ghost held = self@.held;
        let mut out: Vec<BlockTicket> = Vec::new();
        let mut i: usize = 0;
        while i < rest.len()
            invariant
                i <= rest@.len(),
                rest@.len() == held.len(),
                in_place(rest@),
                forall|k: int| i <= k < rest@.len() ==> (#[trigger] rest@[k] is Some <==> held[k]),
                forall|k: int|
                    0 <= k < out@.len() ==> (#[trigger] out@[k]).block() < i
                        && held[out@[k].block() as int],
                forall|j: int, k: int|
                    0 <= j < k < out@.len() ==> #[trigger] out@[j].block() < #[trigger] out@[k].block(),
                forall|b: u32|
                    #![trigger held[b as int]]
                    b < i && held[b as int] ==> exists|k: int|
                        0 <= k < out@.len() && #[trigger] out@[k].block() == b,
            decreases rest@.len() - i,
        {
            let ghost before = rest@;
            let ghost listed = out@;
            let t: Option<BlockTicket> = rest[i].take();
            assert(rest@ =~= before.update(i as int, None));
            if let Some(ticket) = t {
                assert(ticket.block() == i);
                out.push(ticket);
                assert(out@[out@.len() - 1].block() == i);
            }
            assert forall|b: u32|
                #![trigger held[b as int]]
                b < i + 1 && held[b as int] implies exists|k: int|
                0 <= k < out@.len() && #[trigger] out@[k].block() == b by {
                if b < i {
                    let k = choose|k: int| 0 <= k < listed.len() && #[trigger] listed[k].block() == b;
                    assert(out@[k].block() == b);
                }
            }
            i = i + 1;
        }
        assert forall|b: u32| #![trigger self@.has(b)] self@.has(b) implies exists|k: int|
            0 <= k < out@.len() && #[trigger] out@[k].block() == b by {
            assert(held[b as int]);
        }
        out
    }
}

/// A writer for a ring of `num_blocks` blocks: the client has none of them.
pub fn writer_loop(num_blocks: u32) -> (r: Writer)
    ensures
        r.wf(),
        r@ == WriterView::start(num_blocks),
{
    let mut outstanding: Vec<Option<BlockTicket>> = Vec::new();
    let mut i: u32 = 0;
    while i < num_blocks
        invariant
            i <= num_blocks,
            outstanding@.len() == i,
            forall|k: int| 0 <= k < i ==> outstanding@[k] is None,
        decreases num_blocks - i,
    {
        outstanding.push(None);
        i = i + 1;
    }
    let w = Writer { outstanding, batch: Vec::new(), waiting: None, step: WriterStep::Receive };
    assert(w@.held =~= WriterView::start(num_blocks).held);
    assert(w@.batch =~= WriterView::start(num_blocks).batch);
    w
}

/// The words in big-endian order, one after another.
pub open spec fn words(blocks: Seq<u32>) -> Seq<u8>
    decreases blocks.len(),
{
    if blocks.len() == 0 {
        seq![]
    } else {
        words(blocks.drop_last()) + bytes::be32(blocks.last())
    }
}

/// The words begin with the first one.
pub(crate) proof fn lemma_words_first(blocks: Seq<u32>)
    requires
        blocks.len() > 0,
    ensures
        words(blocks) == bytes::be32(blocks.first()) + words(blocks.drop_first()),
    decreases blocks.len(),
{
    if blocks.len() == 1 {
        assert(blocks.drop_last() =~= seq![]);
        assert(blocks.drop_first() =~= seq![]);
        assert(words(seq![]) =~= seq![]);
        assert(words(blocks) =~= bytes::be32(blocks.first()) + words(
            blocks.drop_first(),
        ));
    } else {
        lemma_words_first(blocks.drop_last());
        assert(blocks.drop_last().drop_first() =~= blocks.drop_first().drop_last());
        assert(words(blocks) =~= bytes::be32(blocks.first()) + words(
            blocks.drop_first(),
        ));
    }
}

/// A writer after a history of events.
pub open spec fn run(w: WriterView, events: Seq<WriterEvent>) -> WriterView
    decreases events.len(),
{
    if events.len() == 0 {
        w
    } else {
        run(w, events.drop_last()).next(events.last())
    }
}

/// Whether a history can happen: each event comes of what the writer wanted done.
pub open spec fn possible(w: WriterView, events: Seq<WriterEvent>) -> bool
    decreases events.len(),
{
    events.len() > 0 ==> {
        &&& possible(w, events.drop_last())
        &&& run(w, events.drop_last()).expects(events.last())
    }
}

/// All that was written in the course of a history.
pub open spec fn written(w: WriterView, events: Seq<WriterEvent>) -> Seq<u8>
    decreases events.len(),
{
    if events.len() == 0 {
        seq![]
    } else {
        written(w, events.drop_last()) + run(w, events.drop_last()).writes(events.last())
    }
}

/// The blocks that were announced in the course of a history.
pub open spec fn announced(w: WriterView, events: Seq<WriterEvent>) -> Seq<u32>
    decreases events.len(),
{
    if events.len() == 0 {
        seq![]
    } else {
        let before = announced(w, events.drop_last());
        match run(w, events.drop_last()).announces(events.last()) {
            Some(i) => before.push(i),
            None => before,
        }
    }
}

/// How many references to block `i` the writer was given.
pub open spec fn given(events: Seq<WriterEvent>, i: u32) -> nat
    decreases events.len(),
{
    if events.len() == 0 {
        0
    } else {
        given(events.drop_last(), i) + match events.last() {
            WriterEvent::Message(WriterMsg::NewBlock(t)) if t.block() == i => 1nat,
            _ => 0nat,
        }
    }
}

/// How many references to block `i` the writer gave up.
pub open spec fn gave_up(w: WriterView, events: Seq<WriterEvent>, i: u32) -> nat
    decreases events.len(),
{
    if events.len() == 0 {
        0
    } else {
        gave_up(w, events.drop_last(), i) + if run(w, events.drop_last()).gives_up(events.last())
            == Some(i) {
            1nat
        } else {
            0nat
        }
    }
}

/// Every announcement is written once and in order: what was written, followed by
/// what is still to be written, is exactly the announced blocks. Nothing is written
/// twice, however messages come in between.
pub proof fn law_announced_once(w: WriterView, events: Seq<WriterEvent>)
    requires
        w.batch.len() == 0,
        possible(w, events),
    ensures
        written(w, events) + run(w, events).batch == words(announced(w, events)),
    decreases events.len(),
{
    if events.len() == 0 {
        assert(written(w, events) + run(w, events).batch =~= words(announced(w, events)));
    } else {
        let (past, event) = (events.drop_last(), events.last());
        law_announced_once(w, past);
        let v = run(w, past);
        let done = written(w, past);
        match v.announces(event) {
            Some(i) => {
                let blocks = announced(w, past);
                assert(blocks.push(i).drop_last() =~= blocks);
                assert(done + v.writes(event) + (v.batch + bytes::be32(i)) =~= done + v.batch
                    + bytes::be32(i));
            },
            None => {
                assert(done + v.writes(event) + v.next(event).batch =~= done + v.batch);
            },
        }
    }
}

/// Only blocks of the ring are announced.
pub proof fn law_announced_blocks_are_of_the_ring(w: WriterView, events: Seq<WriterEvent>)
    ensures
        forall|k: int|
            0 <= k < announced(w, events).len() ==> #[trigger] announced(w, events)[k]
                < w.held.len(),
        run(w, events).held.len() == w.held.len(),
    decreases events.len(),
{
    if events.len() > 0 {
        let past = events.drop_last();
        law_announced_blocks_are_of_the_ring(w, past);
        assert forall|k: int| 0 <= k < announced(w, events).len() implies #[trigger] announced(
            w,
            events,
        )[k] < w.held.len() by {
            if k < announced(w, past).len() {
                assert(announced(w, events)[k] == announced(w, past)[k]);
            }
        }
    }
}

/// The writer keeps its invariant.
pub proof fn law_writer_keeps_invariant(w: WriterView, events: Seq<WriterEvent>)
    requires
        w.inv(),
        possible(w, events),
    ensures
        run(w, events).inv(),
        run(w, events).held.len() == w.held.len(),
    decreases events.len(),
{
    if events.len() > 0 {
        law_writer_keeps_invariant(w, events.drop_last());
    }
}

/// No reference is lost and none is given up twice: of the references to a block
/// that the writer was given, all are given up but the one for the client, where
/// the client has the block.
pub proof fn law_references_balance(num_blocks: u32, events: Seq<WriterEvent>, i: u32)
    requires
        possible(WriterView::start(num_blocks), events),
    ensures
        given(events, i) == gave_up(WriterView::start(num_blocks), events, i) + if run(
            WriterView::start(num_blocks),
            events,
        ).has(i) {
            1nat
        } else {
            0nat
        },
    decreases events.len(),
{
    let w = WriterView::start(num_blocks);
    if events.len() > 0 {
        let past = events.drop_last();
        law_references_balance(num_blocks, past, i);
        law_writer_keeps_invariant(w, past);
    }
}

/// A block is announced only while the client does not have it, and from then on
/// the client has it: it is announced again only after it was returned.
pub proof fn law_announced_while_free(w: WriterView, event: WriterEvent, i: u32)
    requires
        w.expects(event),
        w.announces(event) == Some(i),
    ensures
        !w.has(i),
        w.next(event).has(i),
{
}

/// A writer that listens and is given a block of the ring that the client does not have
/// gives it to the client: from then on the client has that block, and no other more than
/// before, and the block's number, with the byte that counts most first, is appended to
/// what is to be written. Nothing is given up. A block that is none of the ring, or that
/// the client has, ends the connection, and the reference to it is given up.
pub proof fn law_what_a_block_does(w: WriterView, t: BlockTicket)
    requires
        w.step is Receive || w.step is TryReceive,
    ensures
        ({
            let event = WriterEvent::Message(WriterMsg::NewBlock(t));
            let i = t.block();
            let next = w.next(event);
            &&& w.expects(event)
            &&& next.held.len() == w.held.len()
            &&& next.waiting == w.waiting
            &&& if i < w.held.len() && !w.held[i as int] {
                &&& next.step is TryReceive
                &&& forall|j: int|
                    0 <= j < w.held.len() ==> #[trigger] next.held[j] == (w.held[j] || j == i)
                &&& next.batch.len() == w.batch.len() + 4
                &&& next.batch.take(w.batch.len() as int) == w.batch
                &&& bytes::from_be32(next.batch.skip(w.batch.len() as int)) == i
                &&& w.gives_up(event) is None
                &&& w.announces(event) == Some(i)
            } else {
                &&& next.step is Stop
                &&& next.held == w.held
                &&& next.batch == w.batch
                &&& w.gives_up(event) == Some(i)
                &&& w.announces(event) is None
            }
        }),
{
    let i = t.block();
    let next = w.next(WriterEvent::Message(WriterMsg::NewBlock(t)));
    if i < w.held.len() && !w.held[i as int] {
        bytes::law_be32_round_trip(i, seq![]);
        assert(next.batch.take(w.batch.len() as int) =~= w.batch);
        assert(next.batch.skip(w.batch.len() as int) =~= bytes::be32(i));
    }
}

/// A block that the client returns is given up if the client has it, exactly that one, and
/// the connection goes on. To return one that it does not have ends the connection, and so
/// do a client that is gone, a daemon that stops, and that no message can come any more;
/// none of these gives up a reference by itself.
pub proof fn law_what_other_messages_do(w: WriterView, i: u32)
    requires
        w.step is Receive,
    ensures
        ({
            let returned = WriterEvent::Message(WriterMsg::Returned(i));
            let gone = WriterEvent::Message(WriterMsg::PeerClosed);
            let stop = WriterEvent::Message(WriterMsg::Shutdown);
            let next = w.next(returned);
            &&& if i < w.held.len() && w.held[i as int] {
                &&& next.step is CheckShutdown
                &&& next.held.len() == w.held.len()
                &&& forall|j: int|
                    0 <= j < w.held.len() ==> #[trigger] next.held[j] == (w.held[j] && j != i)
                &&& w.gives_up(returned) == Some(i)
            } else {
                &&& next.step is Stop
                &&& next.held == w.held
                &&& w.gives_up(returned) is None
            }
            &&& next.batch == w.batch
            &&& w.next(gone).step is Stop && w.next(gone).held == w.held
            &&& w.next(stop).step is Stop && w.next(stop).held == w.held
            &&& w.next(WriterEvent::NoMessage).step is Stop
            &&& w.next(WriterEvent::NoMessage).held == w.held
            &&& w.gives_up(gone) is None
            &&& w.gives_up(stop) is None
            &&& w.gives_up(WriterEvent::NoMessage) is None
            &&& w.expects(returned) && w.expects(gone) && w.expects(stop)
            &&& w.expects(WriterEvent::NoMessage)
        }),
{
}

/// A batch is written as soon as no more blocks are at hand, and before any other message
/// is acted on: the message waits for it. Nothing else changes meanwhile.
pub proof fn law_batch_goes_first(w: WriterView, msg: WriterMsg)
    requires
        w.step is TryReceive,
        w.waiting is None,
        msg !is NewBlock,
    ensures
        ({
            let other = w.next(WriterEvent::Message(msg));
            let none = w.next(WriterEvent::NoMessage);
            &&& other.step is Write && other.waiting == Some(msg)
            &&& other.held == w.held && other.batch == w.batch
            &&& none.step is Write && none.waiting is None
            &&& none.held == w.held && none.batch == w.batch
            &&& w.gives_up(WriterEvent::Message(msg)) is None
            &&& w.gives_up(WriterEvent::NoMessage) is None
        }),
{
}

/// Writing writes the batch, all of it, and leaves none. Then the message that waited is
/// acted on as if it came just then. A batch that could not be written ends the
/// connection. A daemon that stops ends it too, and otherwise the writer listens.
pub proof fn law_what_writing_does(w: WriterView, set: bool)
    ensures
        w.step is Write ==> {
            let next = w.next(WriterEvent::Written);
            &&& w.expects(WriterEvent::Written) && w.expects(WriterEvent::WriteFailed)
            &&& w.writes(WriterEvent::Written) == w.batch
            &&& w.writes(WriterEvent::WriteFailed).len() == 0
            &&& next.batch.len() == 0
            &&& next.waiting is None
            &&& w.waiting is None ==> next.step is CheckShutdown && next.held == w.held
                && w.gives_up(WriterEvent::Written) is None
            &&& w.waiting matches Some(msg) ==> (msg !is NewBlock ==> {
                let then = WriterView {
                    step: WriterStep::Receive,
                    waiting: None,
                    batch: seq![],
                    ..w
                };
                &&& next.held == then.next(WriterEvent::Message(msg)).held
                &&& next.step == then.next(WriterEvent::Message(msg)).step
                &&& w.gives_up(WriterEvent::Written) == then.gives_up(WriterEvent::Message(msg))
            })
            &&& w.next(WriterEvent::WriteFailed).step is Stop
            &&& w.next(WriterEvent::WriteFailed).held == w.held
            &&& w.gives_up(WriterEvent::WriteFailed) is None
        },
        w.step is CheckShutdown ==> {
            let next = w.next(WriterEvent::ShutdownSet(set));
            &&& w.expects(WriterEvent::ShutdownSet(set))
            &&& next.step is Stop <==> set
            &&& next.step is Receive <==> !set
            &&& next.held == w.held && next.batch == w.batch && next.waiting == w.waiting
            &&& w.gives_up(WriterEvent::ShutdownSet(set)) is None
        },
{
}

/// A writer begins with a client that has none of the ring's blocks, with nothing to
/// write, and listens.
pub proof fn law_writer_begins_empty(num_blocks: u32, i: u32)
    ensures
        ({
            let w = WriterView::start(num_blocks);
            &&& w.held.len() == num_blocks
            &&& !w.has(i)
            &&& i < num_blocks <==> w.free(i)
            &&& w.batch.len() == 0
            &&& w.waiting is None
            &&& w.step is Receive
        }),
{
}

/// The client has a block, or can be given it, only if it is one of the ring; and of each
/// block of the ring it is one or the other.
pub proof fn law_has_or_can_have(w: WriterView, i: u32)
    ensures
        i < w.held.len() ==> (w.has(i) <==> w.held[i as int]) && (w.free(i) <==> !w.held[i as int]),
        i >= w.held.len() ==> !w.has(i) && !w.free(i),
{
}

} // verus!
