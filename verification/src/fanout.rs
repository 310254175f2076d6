//! Handing a block to the clients of a capture socket: each client is offered a
//! reference of its own, and the dispatcher holds one until all have been asked.

use vstd::prelude::*;

use crate::capture;
use crate::capture::{BlockTicket, CaptureSocket, CaptureView, Release};
use crate::clients::{is_snapshot, FanoutSlot};

verus! {

/// What is known of a block that is being handed out.
pub struct FanOutView<T> {
    pub block: u32,
    /// The clients that were not offered a reference yet.
    pub rest: Seq<T>,
}

impl<T> FanOutView<T> {
    /// The client whose turn it is.
    pub open spec fn turn(self) -> T {
        self.rest.last()
    }

    /// What is left once that client was offered its reference.
    pub open spec fn after_offer(self) -> FanOutView<T> {
        FanOutView { rest: self.rest.drop_last(), ..self }
    }
}

/// A block that is being handed out: the dispatcher's own reference to it, and the
/// clients that were not offered one yet.
#[derive(Debug)]
pub struct FanOut<T> {
    anchor: BlockTicket,
    rest: Vec<T>,
}

impl<T> View for FanOut<T> {
    type V = FanOutView<T>;

    closed spec fn view(&self) -> FanOutView<T> {
        FanOutView { block: self.anchor.block(), rest: self.rest@ }
    }
}

/// What is known of a capture socket after a reference to block `i` is taken.
pub open spec fn with_taken(sock: CaptureView, i: u32) -> CaptureView {
    CaptureView { refs: capture::taken(sock.refs, i as int), ..sock }
}

/// What is known of a capture socket after a reference to block `i` is given up.
pub open spec fn with_given_up(sock: CaptureView, i: u32) -> CaptureView {
    CaptureView { refs: capture::given_up(sock.refs, i as int), ..sock }
}

/// Begins to hand block `idx` to the clients of the moment: takes a reference to it, so
/// that it stays in place meanwhile. `None` where there is no such block.
pub fn fan_out<T: Clone>(sock: &mut CaptureSocket, slot: &FanoutSlot<T>, idx: u32) -> (r: Option<
    FanOut<T>,
>)
    ensures
        old(sock).wf() ==> final(sock).wf(),
        match r {
            Some(f) => idx < old(sock)@.refs.len() && f@.block == idx && is_snapshot(
                slot@.clients,
                f@.rest,
            ) && final(sock)@ == with_taken(old(sock)@, idx),
            None => idx >= old(sock)@.refs.len() && final(sock)@ == old(sock)@,
        },
{
    match BlockTicket::new(sock, idx) {
        Some(anchor) => {
            let mut rest: Vec<T> = Vec::new();
            slot.snapshot_clients_into(&mut rest);
            Some(FanOut { anchor, rest })
        },
        None => None,
    }
}

impl<T> FanOut<T> {
    /// The next client, and the reference to offer it; `None` once every client has had
    /// its turn. There is no reference where the socket has no such block.
    pub fn offer(&mut self, sock: &mut CaptureSocket) -> (r: Option<(T, Option<BlockTicket>)>)
        ensures
            old(sock).wf() ==> final(sock).wf(),
            match r {
                Some((client, ticket)) => old(self)@.rest.len() > 0 && client == old(self)@.turn()
                    && final(self)@ == old(self)@.after_offer() && match ticket {
                    Some(t) => old(self)@.block < old(sock)@.refs.len() && t.block() == old(
                        self,
                    )@.block && final(sock)@ == with_taken(old(sock)@, old(self)@.block),
                    None => old(self)@.block >= old(sock)@.refs.len() && final(sock)@ == old(
                        sock,
                    )@,
                },
                None => old(self)@.rest.len() == 0 && final(self)@ == old(self)@ && final(sock)@
                    == old(sock)@,
            },
    {
        match self.rest.pop() {
            Some(client) => {
                let ticket = BlockTicket::new(sock, self.anchor.index());
                Some((client, ticket))
            },
            None => None,
        }
    }

    /// Takes a client's answer to what it was offered: a reference that it refuses is
    /// given up, and what that asks for is the result; one that it takes is its own.
    pub fn answered(&self, sock: &mut CaptureSocket, refused: Option<BlockTicket>) -> (r: Option<
        Release,
    >)
        ensures
            old(sock).wf() ==> final(sock).wf(),
            match refused {
                Some(t) => if t.block() < old(sock)@.refs.len() {
                    final(sock)@ == with_given_up(old(sock)@, t.block()) && r == Some(
                        capture::release_of(old(sock)@.refs[t.block() as int]),
                    )
                } else {
                    final(sock)@ == old(sock)@ && r == Some(Release::NoSuchBlock)
                },
                None => final(sock)@ == old(sock)@ && r is None,
            },
    {
        match refused {
            Some(t) => Some(sock.release(t)),
            None => None,
        }
    }

    /// Gives up the dispatcher's own reference, once every client has had its turn.
    pub fn finish(self, sock: &mut CaptureSocket) -> (r: Release)
        requires
            self@.rest.len() == 0,
        ensures
            old(sock).wf() ==> final(sock).wf(),
            if self@.block < old(sock)@.refs.len() {
                final(sock)@ == with_given_up(old(sock)@, self@.block) && r == capture::release_of(
                    old(sock)@.refs[self@.block as int],
                )
            } else {
                final(sock)@ == old(sock)@ && r == Release::NoSuchBlock
            },
    {
        sock.release(self.anchor)
    }
}

/// What happens to a block that is handed out.
pub enum FanOutEvent {
    /// The next client is offered a reference.
    Offered,
    /// A client refuses the reference that it was offered.
    Refused,
    /// A client that took its reference returns the block.
    Returned,
    /// The dispatcher gives up its own reference.
    Finished,
}

/// How far the handing out of a block has come.
pub struct Course<T> {
    pub fan: FanOutView<T>,
    /// The clients that were offered a reference, the latest first.
    pub served: Seq<T>,
    /// How many references were offered and are not given up.
    pub out: int,
    /// Whether the dispatcher has its own reference.
    pub held: bool,
    /// The references to all blocks of the ring.
    pub sock: CaptureView,
    /// How many times the block was given back to the kernel.
    pub cleared: nat,
}

impl<T> Course<T> {
    /// Handing out begins, on a socket as it was before.
    pub open spec fn start(fan: FanOutView<T>, sock: CaptureView) -> Course<T> {
        Course {
            fan,
            served: seq![],
            out: 0,
            held: true,
            sock: with_taken(sock, fan.block),
            cleared: 0,
        }
    }

    /// Whether the event can happen now.
    pub open spec fn expects(self, event: FanOutEvent) -> bool {
        match event {
            FanOutEvent::Offered => self.held && self.fan.rest.len() > 0,
            FanOutEvent::Refused => self.out > 0,
            FanOutEvent::Returned => self.out > 0,
            FanOutEvent::Finished => self.held && self.fan.rest.len() == 0,
        }
    }

    /// The course after a reference is given up.
    pub open spec fn after_release(self) -> Course<T> {
        let release = capture::release_of(self.sock.refs[self.fan.block as int]);
        Course {
            sock: with_given_up(self.sock, self.fan.block),
            cleared: self.cleared + if release is ClearBlock {
                1nat
            } else {
                0nat
            },
            ..self
        }
    }

    /// What becomes of the course on an event.
    pub open spec fn next(self, event: FanOutEvent) -> Course<T> {
        match event {
            FanOutEvent::Offered => Course {
                fan: self.fan.after_offer(),
                served: seq![self.fan.turn()] + self.served,
                out: self.out + 1,
                sock: with_taken(self.sock, self.fan.block),
                ..self
            },
            FanOutEvent::Refused | FanOutEvent::Returned => Course {
                out: self.out - 1,
                ..self.after_release()
            },
            FanOutEvent::Finished => Course { held: false, ..self.after_release() },
        }
    }
}

/// The course after a history of events.
pub open spec fn run<T>(c: Course<T>, events: Seq<FanOutEvent>) -> Course<T>
    decreases events.len(),
{
    if events.len() == 0 {
        c
    } else {
        run(c, events.drop_last()).next(events.last())
    }
}

/// Whether a history can happen.
pub open spec fn possible<T>(c: Course<T>, events: Seq<FanOutEvent>) -> bool
    decreases events.len(),
{
    events.len() > 0 ==> {
        &&& possible(c, events.drop_last())
        &&& run(c, events.drop_last()).expects(events.last())
    }
}

/// Every client is offered exactly one reference to the block, whatever the others do
/// with theirs: those that had their turn and those that wait for it are at all times
/// the clients that were there, and when the dispatcher gives up its own reference all
/// have had their turn. No reference is lost: the block's count is what was offered and
/// not given up, with the dispatcher's own while it has it. And the block goes back to
/// the kernel exactly once, when the last reference to it is given up. The other blocks
/// are left alone.
pub proof fn law_fan_out<T>(fan: FanOutView<T>, sock: CaptureView, events: Seq<FanOutEvent>)
    requires
        fan.block < sock.refs.len(),
        sock.refs[fan.block as int] == 0,
        fan.rest.len() < u32::MAX,
        possible(Course::start(fan, sock), events),
    ensures
        ({
            let c = run(Course::start(fan, sock), events);
            let count = c.out + if c.held {
                1int
            } else {
                0int
            };
            &&& c.fan.block == fan.block
            &&& c.fan.rest + c.served == fan.rest
            &&& !c.held ==> c.fan.rest.len() == 0 && c.served == fan.rest
            &&& 0 <= c.out <= c.served.len()
            &&& c.sock == (CaptureView {
                refs: sock.refs.update(fan.block as int, count as u32),
                ..sock
            })
            &&& c.cleared == if count == 0 {
                1nat
            } else {
                0nat
            }
        }),
    decreases events.len(),
{
    let c = run(Course::start(fan, sock), events);
    if events.len() == 0 {
        assert(c.fan.rest + c.served =~= fan.rest);
    } else {
        law_fan_out(fan, sock, events.drop_last());
        let before = run(Course::start(fan, sock), events.drop_last());
        assert(before.fan.rest.len() + before.served.len() == fan.rest.len());
        if events.last() is Offered {
            assert(c.fan.rest + c.served =~= before.fan.rest + before.served);
        }
        let count = c.out + if c.held {
            1int
        } else {
            0int
        };
        assert(c.sock.refs =~= sock.refs.update(fan.block as int, count as u32));
    }
}

} // verus!
