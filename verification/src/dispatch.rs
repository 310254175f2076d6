//! Handing out blocks: the dispatcher goes round the ring, waits until the block at
//! hand is ready, and has every client offered a reference to it.

use vstd::prelude::*;

verus! {

/// What the dispatcher wants done.
#[derive(Debug, Clone, Copy, PartialEq, Eq, Structural)]
pub enum DispatchStep {
    /// See whether the daemon is to stop.
    CheckShutdown,
    /// Look at the block: its references and its status.
    Look,
    /// Wait until the ring changes.
    Wait,
    /// Begin to hand out the block: take a reference to it, and see which clients
    /// there are.
    FanOut,
    /// Offer the next client a reference, and take its answer.
    Offer,
    /// Give up the first reference.
    Finish,
    /// Something is wrong: stop the whole daemon.
    Abort,
    /// Nothing more.
    Stop,
}

/// What came of it.
#[derive(Debug, Clone, Copy, PartialEq, Eq, Structural)]
pub enum DispatchEvent {
    ShutdownSet(bool),
    /// How many references there are, or `None` where there is no such block, and
    /// the block's status.
    Seen { refs: Option<u32>, status: u32 },
    /// Whether waiting went well.
    Waited(bool),
    /// Whether there was a reference to take.
    FannedOut(bool),
    /// Whether there was a client left to offer one.
    Offered(bool),
    Finished,
}

/// A dispatcher: the size of its ring, and the block at hand.
#[derive(Debug, Clone, Copy, PartialEq, Eq, Structural)]
pub struct Dispatcher {
    pub num_blocks: u32,
    pub idx: u32,
    pub step: DispatchStep,
}

/// Whether a block is ready to be handed out: nobody has it any more, and the
/// kernel has filled it.
pub open spec fn is_ready(refs: u32, status: u32) -> bool {
    refs == 0 && status != 0
}

/// The block after `idx` in a ring of `n`.
pub open spec fn block_after(idx: u32, n: u32) -> u32 {
    ((idx + 1) % (n as int)) as u32
}

impl Dispatcher {
    /// The dispatcher of a ring that has blocks has one of them at hand.
    pub open spec fn wf(self) -> bool {
        self.step is Abort || self.step is Stop || self.idx < self.num_blocks
    }

    /// Whether the event can come of what the dispatcher wants done.
    pub open spec fn expects(self, event: DispatchEvent) -> bool {
        match self.step {
            DispatchStep::CheckShutdown => event is ShutdownSet,
            DispatchStep::Look => event is Seen,
            DispatchStep::Wait => event is Waited,
            DispatchStep::FanOut => event is FannedOut,
            DispatchStep::Offer => event is Offered,
            DispatchStep::Finish => event is Finished,
            DispatchStep::Abort => false,
            DispatchStep::Stop => false,
        }
    }

    pub open spec fn at(self, step: DispatchStep) -> Dispatcher {
        Dispatcher { step, ..self }
    }

    /// What becomes of the dispatcher on an event.
    pub open spec fn next(self, event: DispatchEvent) -> Dispatcher {
        match event {
            DispatchEvent::ShutdownSet(set) => self.at(
                if set {
                    DispatchStep::Stop
                } else {
                    DispatchStep::Look
                },
            ),
            DispatchEvent::Seen { refs: None, .. } => self.at(DispatchStep::Abort),
            DispatchEvent::Seen { refs: Some(refs), status } => self.at(
                if is_ready(refs, status) {
                    DispatchStep::FanOut
                } else {
                    DispatchStep::Wait
                },
            ),
            DispatchEvent::Waited(ok) => self.at(
                if ok {
                    DispatchStep::CheckShutdown
                } else {
                    DispatchStep::Abort
                },
            ),
            DispatchEvent::FannedOut(ok) => self.at(
                if ok {
                    DispatchStep::Offer
                } else {
                    DispatchStep::Abort
                },
            ),
            DispatchEvent::Offered(any) => self.at(
                if any {
                    DispatchStep::Offer
                } else {
                    DispatchStep::Finish
                },
            ),
            DispatchEvent::Finished => Dispatcher {
                idx: block_after(self.idx, self.num_blocks),
                step: DispatchStep::CheckShutdown,
                ..self
            },
        }
    }

    /// Takes what came of what the dispatcher wanted done.
    pub fn advance(self, event: DispatchEvent) -> (r: Dispatcher)
        requires
            self.wf(),
            self.expects(event),
        ensures
            r.wf(),
            r == self.next(event),
    {
        match event {
            DispatchEvent::ShutdownSet(set) => Dispatcher {
                step: if set {
                    DispatchStep::Stop
                } else {
                    DispatchStep::Look
                },
                ..self
            },
            DispatchEvent::Seen { refs: None, .. } => Dispatcher {
                step: DispatchStep::Abort,
                ..self
            },
            DispatchEvent::Seen { refs: Some(refs), status } => Dispatcher {
                step: if refs == 0 && status != 0 {
                    DispatchStep::FanOut
                } else {
                    DispatchStep::Wait
                },
                ..self
            },
            DispatchEvent::Waited(ok) => Dispatcher {
                step: if ok {
                    DispatchStep::CheckShutdown
                } else {
                    DispatchStep::Abort
                },
                ..self
            },
            DispatchEvent::FannedOut(ok) => Dispatcher {
                step: if ok {
                    DispatchStep::Offer
                } else {
                    DispatchStep::Abort
                },
                ..self
            },
            DispatchEvent::Offered(any) => Dispatcher {
                step: if any {
                    DispatchStep::Offer
                } else {
                    DispatchStep::Finish
                },
                ..self
            },
            DispatchEvent::Finished => Dispatcher {
                idx: (self.idx + 1) % self.num_blocks,
                step: DispatchStep::CheckShutdown,
                ..self
            },
        }
    }
}

/// Begins to hand out the blocks of a ring. A ring without blocks is an error.
pub fn dispatch_loop(num_blocks: u32) -> (r: Dispatcher)
    ensures
        r.wf(),
        r == (Dispatcher {
            num_blocks,
            idx: 0,
            step: if num_blocks == 0 {
                DispatchStep::Abort
            } else {
                DispatchStep::CheckShutdown
            },
        }),
{
    let step = if num_blocks == 0 {
        DispatchStep::Abort
    } else {
        DispatchStep::CheckShutdown
    };
    Dispatcher { num_blocks, idx: 0, step }
}

/// The dispatcher after a history of events.
pub open spec fn run(d: Dispatcher, events: Seq<DispatchEvent>) -> Dispatcher
    decreases events.len(),
{
    if events.len() == 0 {
        d
    } else {
        run(d, events.drop_last()).next(events.last())
    }
}

/// Whether a history can happen.
pub open spec fn possible(d: Dispatcher, events: Seq<DispatchEvent>) -> bool
    decreases events.len(),
{
    events.len() > 0 ==> {
        &&& possible(d, events.drop_last())
        &&& run(d, events.drop_last()).expects(events.last())
    }
}

/// How many blocks were handed out in the course of a history.
pub open spec fn handed_out(events: Seq<DispatchEvent>) -> nat
    decreases events.len(),
{
    if events.len() == 0 {
        0
    } else {
        handed_out(events.drop_last()) + if events.last() is Finished {
            1nat
        } else {
            0nat
        }
    }
}

/// The blocks are handed out in the order of the ring, round and round: the block
/// at hand is the number of blocks handed out so far, modulo the size of the ring.
pub proof fn law_ring_order(num_blocks: u32, events: Seq<DispatchEvent>)
    requires
        num_blocks > 0,
        possible(Dispatcher { num_blocks, idx: 0, step: DispatchStep::CheckShutdown }, events),
    ensures
        run(
            Dispatcher { num_blocks, idx: 0, step: DispatchStep::CheckShutdown },
            events,
        ).idx == handed_out(events) % (num_blocks as nat),
        run(
            Dispatcher { num_blocks, idx: 0, step: DispatchStep::CheckShutdown },
            events,
        ).num_blocks == num_blocks,
    decreases events.len(),
{
    let d = Dispatcher { num_blocks, idx: 0, step: DispatchStep::CheckShutdown };
    let n = num_blocks as int;
    if events.len() == 0 {
        assert(0int % n == 0) by (nonlinear_arith)
            requires
                n > 0,
        ;
    } else {
        law_ring_order(num_blocks, events.drop_last());
        let k = handed_out(events.drop_last()) as int;
        assert((k + 1) % n == (k % n + 1) % n) by {
            vstd::arithmetic::div_mod::lemma_add_mod_noop_right(1, k, n);
        }
        vstd::arithmetic::div_mod::lemma_mod_bound(k + 1, n);
    }
}

/// A block is handed out only when nobody has it and the kernel has filled it.
pub proof fn law_only_ready_blocks_are_handed_out(d: Dispatcher, event: DispatchEvent)
    requires
        d.expects(event),
        d.next(event).step is FanOut,
    ensures
        event matches DispatchEvent::Seen { refs: Some(refs), status } && is_ready(refs, status),
{
}

/// Once a block is being handed out, clients are offered it until none is left, and
/// only then is the first reference given up and the next block looked at.
pub proof fn law_every_client_has_its_turn(d: Dispatcher, event: DispatchEvent)
    requires
        d.expects(event),
        d.step is FanOut || d.step is Offer || d.step is Finish,
    ensures
        d.next(event).step is Offer <==> event == DispatchEvent::FannedOut(true) || event
            == DispatchEvent::Offered(true),
        d.next(event).step is Finish <==> event == DispatchEvent::Offered(false),
        d.next(event).step is CheckShutdown <==> d.step is Finish,
        d.next(event).step is Abort <==> event == DispatchEvent::FannedOut(false),
        d.step !is Finish ==> d.next(event).idx == d.idx,
{
}

/// A dispatcher does not end in silence: it stops only because the daemon is to stop,
/// and any other end stops the daemon.
pub proof fn law_no_silent_end(d: Dispatcher, events: Seq<DispatchEvent>)
    requires
        d.step is CheckShutdown,
        possible(d, events),
        run(d, events).step is Stop,
    ensures
        events.last() == DispatchEvent::ShutdownSet(true),
{
}

/// A block is handed out exactly when it has no references and its status is not zero,
/// that is when nobody holds it any more and the kernel has filled it. While anybody holds
/// it, or the kernel has not filled it, the dispatcher waits, and then looks at the same
/// block again.
pub proof fn law_only_free_and_filled_blocks(d: Dispatcher, refs: u32, status: u32)
    requires
        d.step is Look,
    ensures
        ({
            let seen = DispatchEvent::Seen { refs: Some(refs), status };
            let next = d.next(seen);
            &&& d.expects(seen)
            &&& next.step is FanOut <==> refs == 0 && status != 0
            &&& next.step is Wait <==> refs > 0 || status == 0
            &&& refs > 0 ==> next.step is Wait
            &&& next.idx == d.idx
            &&& next.num_blocks == d.num_blocks
        }),
{
}

/// How a dispatcher goes on after each thing that can happen: it looks at a block only
/// while the daemon is to run on; after a wait that went well it begins again with the same
/// block; a block that is not there and a wait that failed stop the daemon; and after a
/// block that was handed out it goes to the next one, or to the first one after the last.
pub proof fn law_how_a_dispatcher_goes_on(d: Dispatcher, yes: bool, status: u32)
    requires
        d.idx < d.num_blocks,
    ensures
        d.step is CheckShutdown ==> {
            let next = d.next(DispatchEvent::ShutdownSet(yes));
            &&& d.expects(DispatchEvent::ShutdownSet(yes))
            &&& next.step is Stop <==> yes
            &&& next.step is Look <==> !yes
            &&& next.idx == d.idx && next.num_blocks == d.num_blocks
        },
        d.step is Look ==> {
            let lost = DispatchEvent::Seen { refs: None, status };
            &&& d.expects(lost)
            &&& d.next(lost).step is Abort
        },
        d.step is Wait ==> {
            let next = d.next(DispatchEvent::Waited(yes));
            &&& d.expects(DispatchEvent::Waited(yes))
            &&& next.step is CheckShutdown <==> yes
            &&& next.step is Abort <==> !yes
            &&& next.idx == d.idx && next.num_blocks == d.num_blocks
        },
        d.step is FanOut ==> {
            let next = d.next(DispatchEvent::FannedOut(yes));
            &&& d.expects(DispatchEvent::FannedOut(yes))
            &&& next.step is Offer <==> yes
            &&& next.step is Abort <==> !yes
            &&& next.idx == d.idx && next.num_blocks == d.num_blocks
        },
        d.step is Offer ==> {
            let next = d.next(DispatchEvent::Offered(yes));
            &&& d.expects(DispatchEvent::Offered(yes))
            &&& next.step is Offer <==> yes
            &&& next.step is Finish <==> !yes
            &&& next.idx == d.idx && next.num_blocks == d.num_blocks
        },
        d.step is Finish ==> {
            let next = d.next(DispatchEvent::Finished);
            &&& d.expects(DispatchEvent::Finished)
            &&& next.step is CheckShutdown
            &&& d.idx + 1 < d.num_blocks ==> next.idx == d.idx + 1
            &&& d.idx + 1 == d.num_blocks ==> next.idx == 0
            &&& next.num_blocks == d.num_blocks
        },
{
    let (i, n) = (d.idx as int, d.num_blocks as int);
    if i + 1 < n {
        vstd::arithmetic::div_mod::lemma_small_mod((i + 1) as nat, n as nat);
    } else {
        vstd::arithmetic::div_mod::lemma_mod_self_0(n);
    }
}

} // verus!
