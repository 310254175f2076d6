//! Accepting clients, and welcoming each: the daemon greets the client with the
//! sizes of the ring, learns which capture socket it wants, passes it, and then
//! serves it until it is gone.

use vstd::prelude::*;

use crate::bytes;
use crate::bytes::read_be32;
use crate::protocol;
use crate::protocol::{tlv_empty, tlv_u32, Numbering, PROTOCOL_VERSION};

verus! {

/// What accepting clients wants done.
#[derive(Debug, Clone, Copy, PartialEq, Eq, Structural)]
pub enum AcceptStep {
    /// See whether the daemon is to stop.
    CheckShutdown,
    /// Take a client if there is one.
    Accept,
    /// Start a thread for the client.
    SpawnConnection,
    /// Wait a little: there is no client.
    Pause,
    /// Something is wrong: stop the whole daemon.
    Abort,
    /// Nothing more.
    Stop,
}

/// What came of it.
#[derive(Debug, Clone, Copy, PartialEq, Eq, Structural)]
pub enum AcceptEvent {
    ShutdownSet(bool),
    Accepted,
    WouldBlock,
    AcceptFailed,
    /// Whether the thread was started.
    Spawned(bool),
    Paused,
}

/// How long to wait where there is no client, in milliseconds.
pub const ACCEPT_PAUSE_MILLIS: u64 = 100;

impl AcceptStep {
    /// Whether the event can come of the step.
    pub open spec fn expects(self, event: AcceptEvent) -> bool {
        match self {
            AcceptStep::CheckShutdown => event is ShutdownSet,
            AcceptStep::Accept => event is Accepted || event is WouldBlock || event is AcceptFailed,
            AcceptStep::SpawnConnection => event is Spawned,
            AcceptStep::Pause => event is Paused,
            AcceptStep::Abort => false,
            AcceptStep::Stop => false,
        }
    }

    /// What follows the event: a failure to accept a client or to start its thread
    /// stops the daemon, and that there is no client does not.
    pub open spec fn next(self, event: AcceptEvent) -> AcceptStep {
        match event {
            AcceptEvent::ShutdownSet(true) => AcceptStep::Stop,
            AcceptEvent::ShutdownSet(false) => AcceptStep::Accept,
            AcceptEvent::Accepted => AcceptStep::SpawnConnection,
            AcceptEvent::WouldBlock => AcceptStep::Pause,
            AcceptEvent::AcceptFailed => AcceptStep::Abort,
            AcceptEvent::Spawned(true) => AcceptStep::CheckShutdown,
            AcceptEvent::Spawned(false) => AcceptStep::Abort,
            AcceptEvent::Paused => AcceptStep::CheckShutdown,
        }
    }

    /// Takes what came of the step.
    pub fn advance(self, event: AcceptEvent) -> (r: AcceptStep)
        requires
            self.expects(event),
        ensures
            r == self.next(event),
    {
        match event {
            AcceptEvent::ShutdownSet(set) => if set {
                AcceptStep::Stop
            } else {
                AcceptStep::Accept
            },
            AcceptEvent::Accepted => AcceptStep::SpawnConnection,
            AcceptEvent::WouldBlock => AcceptStep::Pause,
            AcceptEvent::AcceptFailed => AcceptStep::Abort,
            AcceptEvent::Spawned(ok) => if ok {
                AcceptStep::CheckShutdown
            } else {
                AcceptStep::Abort
            },
            AcceptEvent::Paused => AcceptStep::CheckShutdown,
        }
    }
}

/// Begins to accept clients.
pub fn accept_loop() -> (r: AcceptStep)
    ensures
        r == AcceptStep::CheckShutdown,
{
    AcceptStep::CheckShutdown
}

/// The name of a client's thread.
pub fn connection_thread_name(socket_name: &str) -> (r: String)
    ensures
        r@ == "conn-"@ + socket_name@,
{
    let mut s = "conn-".to_owned();
    s.append(socket_name);
    s
}

/// A part of the greeting.
#[derive(Debug, Clone, Copy, PartialEq, Eq, Structural)]
pub enum Part {
    Version,
    FanoutSize,
    BlockSize,
    NumBlocks,
    WaitingForFanoutIndex,
}

/// What welcoming a client wants done.
#[derive(Debug, Clone, Copy, PartialEq, Eq, Structural)]
pub enum WelcomeStep {
    /// Make the connection blocking.
    SetBlocking,
    /// Send a part of the greeting.
    Send(Part),
    /// Read the eight bytes of the client's choice.
    ReadChoice,
    /// Pass the capture socket.
    PassSocket,
    /// Register the client with the capture socket.
    Register,
    /// Make a handle of the connection for the reader.
    CloneForReader,
    /// Make a handle by which to stop the reader.
    CloneForStop,
    /// Start the reader.
    SpawnReader,
    /// Run the writer.
    RunWriter,
    /// Make the reader's reads end.
    StopReader,
    /// Wait for the reader to end.
    JoinReader,
    /// Unregister the client.
    Unregister,
    /// Nothing more.
    Finished,
}

/// What came of it.
#[derive(Debug)]
pub enum WelcomeEvent {
    Done,
    Failed,
    /// The client's choice.
    Choice(Vec<u8>),
}

/// A client that is being welcomed.
#[derive(Debug, Clone, Copy, PartialEq, Eq, Structural)]
pub struct Welcome {
    /// How many capture sockets there are to choose from.
    pub slots: u32,
    pub block_size: u32,
    pub num_blocks: u32,
    /// The capture socket that the client chose; zero before.
    pub slot: u32,
    pub step: WelcomeStep,
}

/// The bytes of a part of the greeting.
pub open spec fn part_bytes(w: Welcome, n: Numbering, part: Part) -> Seq<u8> {
    match part {
        Part::Version => seq![PROTOCOL_VERSION],
        Part::FanoutSize => protocol::tlv_u32_bytes(n.fanout_size_header, w.slots),
        Part::BlockSize => protocol::tlv_u32_bytes(n.block_size_header, w.block_size),
        Part::NumBlocks => protocol::tlv_u32_bytes(n.num_blocks_header, w.num_blocks),
        Part::WaitingForFanoutIndex => bytes::be32(n.waiting_header),
    }
}

/// The capture socket that a client chooses with the eight bytes that it sends,
/// where there are `slots`; `None` where the bytes are no choice, or there is no
/// such capture socket.
pub open spec fn choice(n: Numbering, reply: Seq<u8>, slots: u32) -> Option<u32> {
    let header = bytes::from_be32(reply.take(4));
    let index = bytes::from_be32(reply.skip(4));
    if header == n.fanout_index_header && index < slots {
        Some(index)
    } else {
        None
    }
}

impl Welcome {
    /// Whether the event can come of the step.
    pub open spec fn expects(self, event: WelcomeEvent) -> bool {
        match self.step {
            WelcomeStep::ReadChoice => event is Failed || (event matches WelcomeEvent::Choice(c)
                && c@.len() == 8),
            WelcomeStep::Register => event is Done,
            WelcomeStep::RunWriter => event is Done,
            WelcomeStep::JoinReader => event is Done,
            WelcomeStep::Unregister => event is Done,
            WelcomeStep::Finished => false,
            _ => event is Done || event is Failed,
        }
    }

    pub open spec fn at(self, step: WelcomeStep) -> Welcome {
        Welcome { step, ..self }
    }

    /// What follows a step that went well.
    pub open spec fn after(self) -> WelcomeStep {
        match self.step {
            WelcomeStep::SetBlocking => WelcomeStep::Send(Part::Version),
            WelcomeStep::Send(Part::Version) => WelcomeStep::Send(Part::FanoutSize),
            WelcomeStep::Send(Part::FanoutSize) => WelcomeStep::Send(Part::BlockSize),
            WelcomeStep::Send(Part::BlockSize) => WelcomeStep::Send(Part::NumBlocks),
            WelcomeStep::Send(Part::NumBlocks) => WelcomeStep::Send(Part::WaitingForFanoutIndex),
            WelcomeStep::Send(Part::WaitingForFanoutIndex) => WelcomeStep::ReadChoice,
            WelcomeStep::ReadChoice => WelcomeStep::PassSocket,
            WelcomeStep::PassSocket => WelcomeStep::Register,
            WelcomeStep::Register => WelcomeStep::CloneForReader,
            WelcomeStep::CloneForReader => WelcomeStep::CloneForStop,
            WelcomeStep::CloneForStop => WelcomeStep::SpawnReader,
            WelcomeStep::SpawnReader => WelcomeStep::RunWriter,
            WelcomeStep::RunWriter => WelcomeStep::StopReader,
            WelcomeStep::StopReader => WelcomeStep::JoinReader,
            WelcomeStep::JoinReader => WelcomeStep::Unregister,
            WelcomeStep::Unregister => WelcomeStep::Finished,
            WelcomeStep::Finished => WelcomeStep::Finished,
        }
    }

    /// What follows a step that failed: before the client is registered, the end;
    /// while it is, it is unregistered first. To stop the reader is tried only.
    pub open spec fn after_failure(self) -> WelcomeStep {
        match self.step {
            WelcomeStep::CloneForReader => WelcomeStep::Unregister,
            WelcomeStep::CloneForStop => WelcomeStep::Unregister,
            WelcomeStep::SpawnReader => WelcomeStep::Unregister,
            WelcomeStep::StopReader => WelcomeStep::JoinReader,
            _ => WelcomeStep::Finished,
        }
    }

    /// What becomes of the welcome on an event.
    pub open spec fn next(self, n: Numbering, event: WelcomeEvent) -> Welcome {
        match event {
            WelcomeEvent::Done => self.at(self.after()),
            WelcomeEvent::Failed => self.at(self.after_failure()),
            WelcomeEvent::Choice(reply) => match choice(n, reply@, self.slots) {
                Some(slot) => Welcome { slot, step: WelcomeStep::PassSocket, ..self },
                None => self.at(WelcomeStep::Finished),
            },
        }
    }

    /// Takes what came of the step.
    pub fn advance(self, n: &Numbering, event: WelcomeEvent) -> (r: Welcome)
        requires
            self.expects(event),
        ensures
            r == self.next(*n, event),
    {
        match event {
            WelcomeEvent::Choice(reply) => {
                assert(reply@.subrange(0, 4) =~= reply@.take(4));
                assert(reply@.subrange(4, 8) =~= reply@.skip(4));
                let header: u32 = read_be32(reply.as_slice(), 0);
                let index: u32 = read_be32(reply.as_slice(), 4);
                if header != n.fanout_index_header || index >= self.slots {
                    return Welcome { step: WelcomeStep::Finished, ..self };
                }
                Welcome { slot: index, step: WelcomeStep::PassSocket, ..self }
            },
            WelcomeEvent::Done => Welcome {
                step: match self.step {
                    WelcomeStep::SetBlocking => WelcomeStep::Send(Part::Version),
                    WelcomeStep::Send(part) => match part {
                        Part::Version => WelcomeStep::Send(Part::FanoutSize),
                        Part::FanoutSize => WelcomeStep::Send(Part::BlockSize),
                        Part::BlockSize => WelcomeStep::Send(Part::NumBlocks),
                        Part::NumBlocks => WelcomeStep::Send(Part::WaitingForFanoutIndex),
                        Part::WaitingForFanoutIndex => WelcomeStep::ReadChoice,
                    },
                    WelcomeStep::ReadChoice => WelcomeStep::PassSocket,
                    WelcomeStep::PassSocket => WelcomeStep::Register,
                    WelcomeStep::Register => WelcomeStep::CloneForReader,
                    WelcomeStep::CloneForReader => WelcomeStep::CloneForStop,
                    WelcomeStep::CloneForStop => WelcomeStep::SpawnReader,
                    WelcomeStep::SpawnReader => WelcomeStep::RunWriter,
                    WelcomeStep::RunWriter => WelcomeStep::StopReader,
                    WelcomeStep::StopReader => WelcomeStep::JoinReader,
                    WelcomeStep::JoinReader => WelcomeStep::Unregister,
                    WelcomeStep::Unregister => WelcomeStep::Finished,
                    WelcomeStep::Finished => WelcomeStep::Finished,
                },
                ..self
            },
            WelcomeEvent::Failed => Welcome {
                step: match self.step {
                    WelcomeStep::CloneForReader => WelcomeStep::Unregister,
                    WelcomeStep::CloneForStop => WelcomeStep::Unregister,
                    WelcomeStep::SpawnReader => WelcomeStep::Unregister,
                    WelcomeStep::StopReader => WelcomeStep::JoinReader,
                    _ => WelcomeStep::Finished,
                },
                ..self
            },
        }
    }

    /// The bytes of a part of the greeting.
    pub fn message(&self, n: &Numbering, part: Part) -> (r: Vec<u8>)
        ensures
            r@ == part_bytes(*self, *n, part),
    {
        match part {
            Part::Version => {
                let mut v: Vec<u8> = Vec::new();
                v.push(PROTOCOL_VERSION);
                assert(v@ =~= seq![PROTOCOL_VERSION]);
                v
            },
            Part::FanoutSize => tlv_u32(n.fanout_size_header, self.slots),
            Part::BlockSize => tlv_u32(n.block_size_header, self.block_size),
            Part::NumBlocks => tlv_u32(n.num_blocks_header, self.num_blocks),
            Part::WaitingForFanoutIndex => tlv_empty(n.waiting_header),
        }
    }

    /// Whether the client is registered while the step is done.
    pub open spec fn registered(self) -> bool {
        match self.step {
            WelcomeStep::CloneForReader => true,
            WelcomeStep::CloneForStop => true,
            WelcomeStep::SpawnReader => true,
            WelcomeStep::RunWriter => true,
            WelcomeStep::StopReader => true,
            WelcomeStep::JoinReader => true,
            WelcomeStep::Unregister => true,
            _ => false,
        }
    }
}

/// Begins to welcome a client.
pub fn handle_new_connection(slots: u32, block_size: u32, num_blocks: u32) -> (r: Welcome)
    ensures
        r == (Welcome {
            slots,
            block_size,
            num_blocks,
            slot: 0,
            step: WelcomeStep::SetBlocking,
        }),
{
    Welcome { slots, block_size, num_blocks, slot: 0, step: WelcomeStep::SetBlocking }
}

/// The state after a history of events.
pub open spec fn run(w: Welcome, n: Numbering, events: Seq<WelcomeEvent>) -> Welcome
    decreases events.len(),
{
    if events.len() == 0 {
        w
    } else {
        run(w, n, events.drop_last()).next(n, events.last())
    }
}

/// Whether a history can happen.
pub open spec fn possible(w: Welcome, n: Numbering, events: Seq<WelcomeEvent>) -> bool
    decreases events.len(),
{
    events.len() > 0 ==> {
        &&& possible(w, n, events.drop_last())
        &&& run(w, n, events.drop_last()).expects(events.last())
    }
}

/// The steps that were done, well or not, in the course of a history.
pub open spec fn done(w: Welcome, n: Numbering, events: Seq<WelcomeEvent>) -> Seq<WelcomeStep>
    decreases events.len(),
{
    if events.len() == 0 {
        seq![]
    } else {
        done(w, n, events.drop_last()).push(run(w, n, events.drop_last()).step)
    }
}

/// A client is unregistered as often as it was registered: whatever goes wrong, no
/// client is left behind when the welcome is finished.
pub proof fn law_no_client_left_behind(w: Welcome, n: Numbering, events: Seq<WelcomeEvent>)
    requires
        w.step is SetBlocking,
        possible(w, n, events),
    ensures
        ({
            let steps = done(w, n, events);
            let registered = steps.filter(|s: WelcomeStep| s is Register).len();
            let unregistered = steps.filter(|s: WelcomeStep| s is Unregister).len();
            &&& registered == unregistered + if run(w, n, events).registered() {
                1int
            } else {
                0
            }
        }),
    decreases events.len(),
{
    let reg = |s: WelcomeStep| s is Register;
    let unreg = |s: WelcomeStep| s is Unregister;
    reveal(Seq::filter);
    if events.len() > 0 {
        let past = events.drop_last();
        law_no_client_left_behind(w, n, past);
        let before = done(w, n, past);
        let step = run(w, n, past).step;
        assert(before.push(step).drop_last() =~= before);
    }
}

/// The parts of the greeting are, one after another, the greeting that a client
/// understands.
pub proof fn law_parts_make_the_greeting(w: Welcome, n: Numbering)
    ensures
        part_bytes(w, n, Part::Version) + part_bytes(w, n, Part::FanoutSize) + part_bytes(
            w,
            n,
            Part::BlockSize,
        ) + part_bytes(w, n, Part::NumBlocks) + part_bytes(w, n, Part::WaitingForFanoutIndex)
            == protocol::greeting_bytes(n, w.slots, w.block_size, w.num_blocks),
{
}

/// A client that asks for a capture socket gets that one, and no other, if there is
/// such a one; if there is none it gets nothing.
pub proof fn law_choice_is_honoured(n: Numbering, index: u32, slots: u32)
    ensures
        choice(n, protocol::tlv_u32_bytes(n.fanout_index_header, index), slots) == if index
            < slots {
            Some(index)
        } else {
            None
        },
{
    let m = protocol::tlv_u32_bytes(n.fanout_index_header, index);
    bytes::law_be32_round_trip(n.fanout_index_header, seq![]);
    bytes::law_be32_round_trip(index, seq![]);
    assert(m.take(4) =~= bytes::be32(n.fanout_index_header));
    assert(m.skip(4) =~= bytes::be32(index));
}

/// What accepting clients does after each thing that can happen: it ends in silence only
/// when the daemon is to stop, every client that comes gets a thread, that there is none
/// is waited out, and every failure stops the daemon.
pub proof fn law_accepting_goes_on(set: bool, started: bool)
    ensures
        AcceptStep::CheckShutdown.expects(AcceptEvent::ShutdownSet(set)),
        AcceptStep::CheckShutdown.next(AcceptEvent::ShutdownSet(set)) is Stop <==> set,
        AcceptStep::CheckShutdown.next(AcceptEvent::ShutdownSet(set)) is Accept <==> !set,
        AcceptStep::Accept.expects(AcceptEvent::Accepted),
        AcceptStep::Accept.next(AcceptEvent::Accepted) is SpawnConnection,
        AcceptStep::Accept.expects(AcceptEvent::WouldBlock),
        AcceptStep::Accept.next(AcceptEvent::WouldBlock) is Pause,
        AcceptStep::Accept.expects(AcceptEvent::AcceptFailed),
        AcceptStep::Accept.next(AcceptEvent::AcceptFailed) is Abort,
        AcceptStep::SpawnConnection.expects(AcceptEvent::Spawned(started)),
        AcceptStep::SpawnConnection.next(AcceptEvent::Spawned(started)) is CheckShutdown
            <==> started,
        AcceptStep::SpawnConnection.next(AcceptEvent::Spawned(started)) is Abort <==> !started,
        AcceptStep::Pause.expects(AcceptEvent::Paused),
        AcceptStep::Pause.next(AcceptEvent::Paused) is CheckShutdown,
        ACCEPT_PAUSE_MILLIS == 100,
{
}

/// Of eight bytes that a client sends, the first four must be the header of a fanout
/// index; the other four are the index, the first of them counting most. It is the
/// client's choice exactly if there is such a capture socket.
pub proof fn law_choice_reads_the_bytes(
    n: Numbering,
    a: u8,
    b: u8,
    c: u8,
    d: u8,
    e: u8,
    f: u8,
    g: u8,
    h: u8,
    slots: u32,
)
    ensures
        ({
            let header = a * 0x100_0000 + b * 0x1_0000 + c * 0x100 + d;
            let index = e * 0x100_0000 + f * 0x1_0000 + g * 0x100 + h;
            let got = choice(n, seq![a, b, c, d, e, f, g, h], slots);
            &&& got is Some <==> header == n.fanout_index_header && index < slots
            &&& got is Some ==> got->0 == index
        }),
{
    let reply = seq![a, b, c, d, e, f, g, h];
    bytes::law_word_weighs_its_bytes(a, b, c, d);
    bytes::law_word_weighs_its_bytes(e, f, g, h);
    assert(reply.take(4) =~= seq![a, b, c, d]);
    assert(reply.skip(4) =~= seq![e, f, g, h]);
}

/// The steps that were done and the one at hand, where every step goes well and the client
/// chooses with `reply`.
pub open spec fn welcomed(w: Welcome, n: Numbering, reply: Vec<u8>, most: nat) -> Seq<WelcomeStep>
    decreases most,
{
    if most == 0 || w.step is Finished {
        seq![w.step]
    } else {
        let event = if w.step is ReadChoice {
            WelcomeEvent::Choice(reply)
        } else {
            WelcomeEvent::Done
        };
        seq![w.step] + welcomed(w.next(n, event), n, reply, (most - 1) as nat)
    }
}

/// The order in which a client is welcomed and served: it is told all the sizes before
/// its choice is read, gets the capture socket before it is registered, is served while
/// it is registered, and is unregistered last, after its reader has ended.
pub proof fn law_welcome_order(w: Welcome, n: Numbering, reply: Vec<u8>)
    requires
        w.step is SetBlocking,
        choice(n, reply@, w.slots) is Some,
    ensures
        welcomed(w, n, reply, 17) == seq![
            WelcomeStep::SetBlocking,
            WelcomeStep::Send(Part::Version),
            WelcomeStep::Send(Part::FanoutSize),
            WelcomeStep::Send(Part::BlockSize),
            WelcomeStep::Send(Part::NumBlocks),
            WelcomeStep::Send(Part::WaitingForFanoutIndex),
            WelcomeStep::ReadChoice,
            WelcomeStep::PassSocket,
            WelcomeStep::Register,
            WelcomeStep::CloneForReader,
            WelcomeStep::CloneForStop,
            WelcomeStep::SpawnReader,
            WelcomeStep::RunWriter,
            WelcomeStep::StopReader,
            WelcomeStep::JoinReader,
            WelcomeStep::Unregister,
            WelcomeStep::Finished,
        ],
{
    reveal_with_fuel(welcomed, 18);
    assert(welcomed(w, n, reply, 17) =~= seq![
        WelcomeStep::SetBlocking,
        WelcomeStep::Send(Part::Version),
        WelcomeStep::Send(Part::FanoutSize),
        WelcomeStep::Send(Part::BlockSize),
        WelcomeStep::Send(Part::NumBlocks),
        WelcomeStep::Send(Part::WaitingForFanoutIndex),
        WelcomeStep::ReadChoice,
        WelcomeStep::PassSocket,
        WelcomeStep::Register,
        WelcomeStep::CloneForReader,
        WelcomeStep::CloneForStop,
        WelcomeStep::SpawnReader,
        WelcomeStep::RunWriter,
        WelcomeStep::StopReader,
        WelcomeStep::JoinReader,
        WelcomeStep::Unregister,
        WelcomeStep::Finished,
    ]);
}

/// A step that goes wrong ends the welcome at once before the client is registered; while
/// it is registered, the client is unregistered next. That the reader could not be stopped
/// keeps nobody from waiting for it.
pub proof fn law_failure_ends_the_welcome(w: Welcome, n: Numbering)
    ensures
        ({
            let after = w.next(n, WelcomeEvent::Failed);
            &&& w.step is SetBlocking ==> after.step is Finished
            &&& w.step is Send ==> after.step is Finished
            &&& w.step is ReadChoice ==> after.step is Finished
            &&& w.step is PassSocket ==> after.step is Finished
            &&& w.step is CloneForReader ==> after.step is Unregister
            &&& w.step is CloneForStop ==> after.step is Unregister
            &&& w.step is SpawnReader ==> after.step is Unregister
            &&& w.step is StopReader ==> after.step is JoinReader
            &&& after.slot == w.slot
        }),
{
}

/// The client is served from the capture socket that it chose, to the end: the choice is
/// taken from its bytes, a choice of none ends the welcome, and no later step changes
/// anything but the step itself.
pub proof fn law_chosen_slot_is_kept(w: Welcome, n: Numbering, index: u32, event: WelcomeEvent)
    requires
        event matches WelcomeEvent::Choice(reply) ==> reply@ == protocol::tlv_u32_bytes(
            n.fanout_index_header,
            index,
        ),
    ensures
        ({
            let after = w.next(n, event);
            &&& after.slots == w.slots
            &&& after.block_size == w.block_size
            &&& after.num_blocks == w.num_blocks
            &&& event !is Choice ==> after.slot == w.slot
            &&& event is Choice && index < w.slots ==> after.slot == index
                && after.step is PassSocket
            &&& event is Choice && index >= w.slots ==> after.slot == w.slot
                && after.step is Finished
        }),
{
    law_choice_is_honoured(n, index, w.slots);
}

/// Each part of the greeting announces the number of the kind that it is named after.
pub proof fn law_parts_announce_their_numbers(w: Welcome, n: Numbering)
    ensures
        part_bytes(w, n, Part::Version).len() == 1,
        part_bytes(w, n, Part::Version)[0] == 2,
        bytes::from_be32(part_bytes(w, n, Part::FanoutSize).take(4)) == n.fanout_size_header,
        bytes::from_be32(part_bytes(w, n, Part::FanoutSize).skip(4)) == w.slots,
        bytes::from_be32(part_bytes(w, n, Part::BlockSize).take(4)) == n.block_size_header,
        bytes::from_be32(part_bytes(w, n, Part::BlockSize).skip(4)) == w.block_size,
        bytes::from_be32(part_bytes(w, n, Part::NumBlocks).take(4)) == n.num_blocks_header,
        bytes::from_be32(part_bytes(w, n, Part::NumBlocks).skip(4)) == w.num_blocks,
        bytes::from_be32(part_bytes(w, n, Part::WaitingForFanoutIndex)) == n.waiting_header,
        part_bytes(w, n, Part::FanoutSize).len() == 8,
        part_bytes(w, n, Part::BlockSize).len() == 8,
        part_bytes(w, n, Part::NumBlocks).len() == 8,
        part_bytes(w, n, Part::WaitingForFanoutIndex).len() == 4,
{
    lemma_message_parts(n.fanout_size_header, w.slots);
    lemma_message_parts(n.block_size_header, w.block_size);
    lemma_message_parts(n.num_blocks_header, w.num_blocks);
    bytes::law_be32_round_trip(n.waiting_header, seq![]);
}

proof fn lemma_message_parts(header: u32, v: u32)
    ensures
        bytes::from_be32(protocol::tlv_u32_bytes(header, v).take(4)) == header,
        bytes::from_be32(protocol::tlv_u32_bytes(header, v).skip(4)) == v,
        protocol::tlv_u32_bytes(header, v).len() == 8,
{
    let m = protocol::tlv_u32_bytes(header, v);
    bytes::law_be32_round_trip(header, seq![]);
    bytes::law_be32_round_trip(v, seq![]);
    assert(m.take(4) =~= bytes::be32(header));
    assert(m.skip(4) =~= bytes::be32(v));
}

} // verus!
