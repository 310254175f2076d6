//! A capture socket: how it is brought up, step by step, and its ring of blocks
//! with a count of references to each.

use vstd::prelude::*;

use crate::afpacket::{AfpacketError, CaptureConfig};
use crate::os_error::{OsError, PollEvent};
use crate::text::contains_char;

verus! {

/// Where the status of a block lies, counted from the beginning of the block.
pub const BLOCK_STATUS_OFFSET: usize = 8;

/// How many instructions a filter may have.
pub const MAX_FILTER: usize = 65535;

/// A mapped region: its address and its length.
#[derive(Debug, PartialEq, Eq, Structural)]
pub struct MmapRing {
    pub ptr: usize,
    pub len: usize,
}

impl MmapRing {
    /// The address of the region.
    pub fn as_ptr(&self) -> (r: usize)
        ensures
            r == self.ptr,
    {
        self.ptr
    }

    pub fn len(&self) -> (r: usize)
        ensures
            r == self.len,
    {
        self.len
    }

    pub fn is_empty(&self) -> (r: bool)
        ensures
            r == (self.len == 0),
    {
        self.len == 0
    }

    /// The region to unmap when the ring is given up, which leaves the ring empty;
    /// `None` where nothing is mapped.
    pub fn release(&mut self) -> (r: Option<MmapRing>)
        ensures
            if old(self).ptr != 0 && old(self).len > 0 {
                r == Some(*old(self)) && *final(self) == (MmapRing { ptr: 0, len: 0 })
            } else {
                r is None && *final(self) == *old(self)
            },
    {
        if self.ptr != 0 && self.len > 0 {
            let region = MmapRing { ptr: self.ptr, len: self.len };
            self.ptr = 0;
            self.len = 0;
            return Some(region);
        }
        None
    }
}

/// A step in bringing up a capture socket.
#[derive(Debug, Clone, Copy, PartialEq, Eq, Structural)]
pub enum SetupAction {
    /// Open a raw packet socket for all protocols.
    OpenSocket,
    /// Choose the third version of the packet ring.
    SetVersion,
    /// Attach the filter, of so many instructions.
    AttachFilter { len: u16 },
    /// Lock the filter.
    LockFilter,
    /// Ask for a ring of blocks, each of one frame.
    RequestRing { block_size: u32, frame_size: u32, block_nr: u32, frame_nr: u32, timeout_ms: u32 },
    /// Map the ring.
    MapRing { len: usize },
    /// Look up the index of the interface.
    LookUpInterface,
    /// Bind to the interface.
    Bind { ifindex: u32 },
    /// Join the fanout group.
    SetFanout { value: i32 },
    /// Nothing: the socket is up.
    Ready,
}

/// What came of a step.
#[derive(Debug)]
pub enum SetupEvent {
    Done,
    /// The ring is mapped at the address.
    Mapped(usize),
    /// The interface has the index.
    Index(u32),
    /// There is no such interface. `last` is the error that was reported, and
    /// `no_device` the one to give where that says nothing.
    NoInterface { last: OsError, no_device: OsError },
    Failed(OsError),
}

/// A capture socket that is being brought up.
#[derive(Debug, Clone, Copy, PartialEq, Eq, Structural)]
pub struct CaptureSetup {
    /// What to do next.
    pub action: SetupAction,
    /// Where the ring is mapped; zero before.
    pub ring_ptr: usize,
    /// How long the mapped ring is; zero before.
    pub ring_len: usize,
}

/// The argument that joins a fanout group: the group in the low half, the way of
/// distributing packets in the high half, as a signed number.
pub open spec fn fanout_value(id: u16, typ: u16) -> int {
    let v = id + typ * 0x1_0000;
    if v >= 0x8000_0000 {
        v - 0x1_0000_0000
    } else {
        v
    }
}

/// The ring that a configuration asks for.
pub open spec fn ring_request(cfg: CaptureConfig) -> SetupAction {
    SetupAction::RequestRing {
        block_size: cfg.block_size,
        frame_size: cfg.block_size,
        block_nr: cfg.num_blocks,
        frame_nr: cfg.num_blocks,
        timeout_ms: cfg.block_timeout_ms,
    }
}

fn ring_request_of(cfg: &CaptureConfig) -> (r: SetupAction)
    ensures
        r == ring_request(*cfg),
{
    SetupAction::RequestRing {
        block_size: cfg.block_size,
        frame_size: cfg.block_size,
        block_nr: cfg.num_blocks,
        frame_nr: cfg.num_blocks,
        timeout_ms: cfg.block_timeout_ms,
    }
}

fn fanout_value_of(id: u16, typ: u16) -> (r: i32)
    ensures
        r == fanout_value(id, typ),
{
    let v: i64 = id as i64 + typ as i64 * 0x1_0000;
    if v >= 0x8000_0000 {
        (v - 0x1_0000_0000) as i32
    } else {
        v as i32
    }
}

impl CaptureSetup {
    /// Whether the event can come of the step.
    pub open spec fn expects(self, event: SetupEvent) -> bool {
        match self.action {
            SetupAction::MapRing { .. } => event is Mapped || event is Failed,
            SetupAction::LookUpInterface => event is Index || event is NoInterface,
            SetupAction::Ready => false,
            _ => event is Done || event is Failed,
        }
    }

    pub open spec fn at(self, action: SetupAction) -> CaptureSetup {
        CaptureSetup { action, ..self }
    }

    /// What follows the choice of the version: the filter where there is one.
    pub open spec fn after_version(self, cfg: CaptureConfig) -> Result<
        CaptureSetup,
        AfpacketError,
    > {
        match cfg.bpf_filter {
            None => Ok(self.at(ring_request(cfg))),
            Some(f) => if f@.len() > MAX_FILTER {
                Err(AfpacketError::BpfTooLarge(f@.len() as usize))
            } else {
                Ok(self.at(SetupAction::AttachFilter { len: f@.len() as u16 }))
            },
        }
    }

    /// What follows a step that went well.
    pub open spec fn after(self, cfg: CaptureConfig, event: SetupEvent) -> Result<
        CaptureSetup,
        AfpacketError,
    > {
        match self.action {
            SetupAction::OpenSocket => Ok(self.at(SetupAction::SetVersion)),
            SetupAction::SetVersion => self.after_version(cfg),
            SetupAction::AttachFilter { .. } => Ok(self.at(SetupAction::LockFilter)),
            SetupAction::LockFilter => Ok(self.at(ring_request(cfg))),
            SetupAction::RequestRing { .. } => if cfg.block_size * cfg.num_blocks > usize::MAX {
                Err(
                    AfpacketError::RingSizeOverflow {
                        block_size: cfg.block_size,
                        num_blocks: cfg.num_blocks,
                    },
                )
            } else {
                Ok(
                    self.at(
                        SetupAction::MapRing { len: (cfg.block_size * cfg.num_blocks) as usize },
                    ),
                )
            },
            SetupAction::MapRing { len } => if cfg.iface@.contains('\0') {
                Err(AfpacketError::InterfaceNameInvalid { iface: cfg.iface })
            } else {
                Ok(
                    CaptureSetup {
                        action: SetupAction::LookUpInterface,
                        ring_ptr: event->Mapped_0,
                        ring_len: len,
                    },
                )
            },
            SetupAction::LookUpInterface => Ok(
                self.at(SetupAction::Bind { ifindex: event->Index_0 }),
            ),
            SetupAction::Bind { .. } => if cfg.fanout_size != 1 {
                Ok(
                    self.at(
                        SetupAction::SetFanout {
                            value: fanout_value(cfg.fanout_id, cfg.fanout_type) as i32,
                        },
                    ),
                )
            } else {
                Ok(self.at(SetupAction::Ready))
            },
            SetupAction::SetFanout { .. } => Ok(self.at(SetupAction::Ready)),
            SetupAction::Ready => Ok(self),
        }
    }

    /// What a step that failed is reported as.
    pub open spec fn failure(self, cfg: CaptureConfig, event: SetupEvent) -> AfpacketError {
        let source = match event {
            SetupEvent::NoInterface { last, no_device } => if last.code == Some(0i32) {
                no_device
            } else {
                last
            },
            SetupEvent::Failed(e) => e,
            _ => arbitrary(),
        };
        match self.action {
            SetupAction::OpenSocket => AfpacketError::SocketCreate(source),
            SetupAction::SetVersion => AfpacketError::Setsockopt { name: "PACKET_VERSION", source },
            SetupAction::AttachFilter { .. } => AfpacketError::Setsockopt {
                name: "SO_ATTACH_FILTER",
                source,
            },
            SetupAction::LockFilter => AfpacketError::Setsockopt { name: "SO_LOCK_FILTER", source },
            SetupAction::RequestRing { .. } => AfpacketError::Setsockopt {
                name: "PACKET_RX_RING",
                source,
            },
            SetupAction::MapRing { len } => AfpacketError::MmapRing { len, source },
            SetupAction::LookUpInterface => AfpacketError::InterfaceNotFound {
                iface: cfg.iface,
                source,
            },
            SetupAction::Bind { ifindex } => AfpacketError::Bind {
                iface: cfg.iface,
                ifindex,
                source,
            },
            _ => AfpacketError::Setsockopt { name: "PACKET_FANOUT", source },
        }
    }

    /// What becomes of the setup on an event.
    pub open spec fn next(self, cfg: CaptureConfig, event: SetupEvent) -> Result<
        CaptureSetup,
        AfpacketError,
    > {
        if event is Failed || event is NoInterface {
            Err(self.failure(cfg, event))
        } else {
            self.after(cfg, event)
        }
    }

    /// The first step.
    pub open spec fn first() -> CaptureSetup {
        CaptureSetup { action: SetupAction::OpenSocket, ring_ptr: 0, ring_len: 0 }
    }

    /// Takes what came of the step and finds the next one.
    pub fn advance(self, cfg: &CaptureConfig, event: SetupEvent) -> (r: Result<
        CaptureSetup,
        AfpacketError,
    >)
        requires
            self.expects(event),
        ensures
            r == self.next(*cfg, event),
    {
        let source: OsError = match event {
            SetupEvent::Failed(e) => e,
            SetupEvent::NoInterface { last, no_device } => match last.code {
                Some(0) => no_device,
                _ => last,
            },
            _ => return self.go_on(cfg, event),
        };
        Err(
            match self.action {
                SetupAction::OpenSocket => AfpacketError::SocketCreate(source),
                SetupAction::SetVersion => AfpacketError::Setsockopt {
                    name: "PACKET_VERSION",
                    source,
                },
                SetupAction::AttachFilter { .. } => AfpacketError::Setsockopt {
                    name: "SO_ATTACH_FILTER",
                    source,
                },
                SetupAction::LockFilter => AfpacketError::Setsockopt {
                    name: "SO_LOCK_FILTER",
                    source,
                },
                SetupAction::RequestRing { .. } => AfpacketError::Setsockopt {
                    name: "PACKET_RX_RING",
                    source,
                },
                SetupAction::MapRing { len } => AfpacketError::MmapRing { len, source },
                SetupAction::LookUpInterface => AfpacketError::InterfaceNotFound {
                    iface: cfg.iface.clone(),
                    source,
                },
                SetupAction::Bind { ifindex } => AfpacketError::Bind {
                    iface: cfg.iface.clone(),
                    ifindex,
                    source,
                },
                _ => AfpacketError::Setsockopt { name: "PACKET_FANOUT", source },
            },
        )
    }

    fn go_on(self, cfg: &CaptureConfig, event: SetupEvent) -> (r: Result<
        CaptureSetup,
        AfpacketError,
    >)
        requires
            self.expects(event),
            event !is Failed,
            event !is NoInterface,
        ensures
            r == self.after(*cfg, event),
    {
        let action = match self.action {
            SetupAction::OpenSocket => SetupAction::SetVersion,
            SetupAction::SetVersion => match &cfg.bpf_filter {
                None => ring_request_of(cfg),
                Some(f) => {
                    if f.len() > MAX_FILTER {
                        return Err(AfpacketError::BpfTooLarge(f.len()));
                    }
                    SetupAction::AttachFilter { len: f.len() as u16 }
                },
            },
            SetupAction::AttachFilter { .. } => SetupAction::LockFilter,
            SetupAction::LockFilter => ring_request_of(cfg),
            SetupAction::RequestRing { .. } => {
                match (cfg.block_size as usize).checked_mul(cfg.num_blocks as usize) {
                    Some(len) => SetupAction::MapRing { len },
                    None => return Err(
                        AfpacketError::RingSizeOverflow {
                            block_size: cfg.block_size,
                            num_blocks: cfg.num_blocks,
                        },
                    ),
                }
            },
            SetupAction::MapRing { len } => {
                if contains_char(cfg.iface.as_str(), '\0') {
                    return Err(AfpacketError::InterfaceNameInvalid { iface: cfg.iface.clone() });
                }
                let ring_ptr: usize = match event {
                    SetupEvent::Mapped(p) => p,
                    _ => 0,
                };
                return Ok(
                    CaptureSetup {
                        action: SetupAction::LookUpInterface,
                        ring_ptr,
                        ring_len: len,
                    },
                );
            },
            SetupAction::LookUpInterface => {
                let ifindex: u32 = match event {
                    SetupEvent::Index(i) => i,
                    _ => 0,
                };
                SetupAction::Bind { ifindex }
            },
            SetupAction::Bind { .. } => if cfg.fanout_size != 1 {
                SetupAction::SetFanout { value: fanout_value_of(cfg.fanout_id, cfg.fanout_type) }
            } else {
                SetupAction::Ready
            },
            SetupAction::SetFanout { .. } => SetupAction::Ready,
            SetupAction::Ready => SetupAction::Ready,
        };
        Ok(CaptureSetup { action, ..self })
    }
}

/// Begins to bring up a capture socket.
pub fn create_capture_socket() -> (r: CaptureSetup)
    ensures
        r == CaptureSetup::first(),
{
    CaptureSetup { action: SetupAction::OpenSocket, ring_ptr: 0, ring_len: 0 }
}

/// The event by which a step goes well, on a machine that maps the ring at `ptr`
/// and gives the interface the index `ifindex`.
pub open spec fn success(action: SetupAction, ptr: usize, ifindex: u32) -> SetupEvent {
    match action {
        SetupAction::MapRing { .. } => SetupEvent::Mapped(ptr),
        SetupAction::LookUpInterface => SetupEvent::Index(ifindex),
        _ => SetupEvent::Done,
    }
}

/// The steps from `setup` on, and where they lead, when every step goes well;
/// `None` where the configuration is refused on the way or the steps are more than
/// `most`.
pub open spec fn steps(
    setup: CaptureSetup,
    cfg: CaptureConfig,
    ptr: usize,
    ifindex: u32,
    most: nat,
) -> Option<(Seq<SetupAction>, CaptureSetup)>
    decreases most,
{
    if setup.action is Ready {
        Some((seq![], setup))
    } else if most == 0 {
        None
    } else {
        match setup.next(cfg, success(setup.action, ptr, ifindex)) {
            Err(_) => None,
            Ok(s) => match steps(s, cfg, ptr, ifindex, (most - 1) as nat) {
                None => None,
                Some((rest, end)) => Some((seq![setup.action] + rest, end)),
            },
        }
    }
}

/// The order in which a capture socket is brought up: the filter is attached and
/// locked before there is a ring, the ring is mapped before the socket is bound,
/// and the fanout group is joined last, and only where the fanout is not one.
pub proof fn law_setup_order(cfg: CaptureConfig, ptr: usize, ifindex: u32)
    requires
        cfg.block_size * cfg.num_blocks <= usize::MAX,
        !cfg.iface@.contains('\0'),
        cfg.bpf_filter matches Some(f) ==> f@.len() <= MAX_FILTER,
    ensures
        ({
            let len = (cfg.block_size * cfg.num_blocks) as usize;
            let filter = match cfg.bpf_filter {
                Some(f) => seq![
                    SetupAction::AttachFilter { len: f@.len() as u16 },
                    SetupAction::LockFilter,
                ],
                None => seq![],
            };
            let fanout = if cfg.fanout_size != 1 {
                seq![
                    SetupAction::SetFanout {
                        value: fanout_value(cfg.fanout_id, cfg.fanout_type) as i32,
                    },
                ]
            } else {
                seq![]
            };
            steps(CaptureSetup::first(), cfg, ptr, ifindex, 9) == Some(
                (
                    seq![SetupAction::OpenSocket, SetupAction::SetVersion] + filter + seq![
                        ring_request(cfg),
                        SetupAction::MapRing { len },
                        SetupAction::LookUpInterface,
                        SetupAction::Bind { ifindex },
                    ] + fanout,
                    CaptureSetup { action: SetupAction::Ready, ring_ptr: ptr, ring_len: len },
                ),
            )
        }),
{
    reveal_with_fuel(steps, 10);
    let len = (cfg.block_size * cfg.num_blocks) as usize;
    let all = steps(CaptureSetup::first(), cfg, ptr, ifindex, 9)->Some_0.0;
    let filter = match cfg.bpf_filter {
        Some(f) => seq![
            SetupAction::AttachFilter { len: f@.len() as u16 },
            SetupAction::LockFilter,
        ],
        None => seq![],
    };
    let fanout = if cfg.fanout_size != 1 {
        seq![
            SetupAction::SetFanout { value: fanout_value(cfg.fanout_id, cfg.fanout_type) as i32 },
        ]
    } else {
        seq![]
    };
    assert(all =~= seq![SetupAction::OpenSocket, SetupAction::SetVersion] + filter + seq![
        ring_request(cfg),
        SetupAction::MapRing { len },
        SetupAction::LookUpInterface,
        SetupAction::Bind { ifindex },
    ] + fanout);
}

/// What the kernel counted since the counters were last read.
#[derive(Debug, Clone, Copy, PartialEq, Eq, Structural)]
pub struct CaptureStats {
    pub packets: u32,
    pub drops: u32,
}

/// What is known of a capture socket.
pub struct CaptureView {
    pub fd: i32,
    pub ring_ptr: usize,
    pub ring_len: usize,
    pub block_size: u32,
    pub num_blocks: u32,
    /// How many references to each block there are.
    pub refs: Seq<u32>,
}

/// A capture socket that is up: its descriptor, its ring, and how many references
/// to each block there are.
#[derive(Debug)]
pub struct CaptureSocket {
    ring: MmapRing,
    fd: i32,
    block_size: u32,
    num_blocks: u32,
    refcounts: Vec<u32>,
}

impl View for CaptureSocket {
    type V = CaptureView;

    closed spec fn view(&self) -> CaptureView {
        CaptureView {
            fd: self.fd,
            ring_ptr: self.ring.ptr,
            ring_len: self.ring.len,
            block_size: self.block_size,
            num_blocks: self.num_blocks,
            refs: self.refcounts@,
        }
    }
}

/// A reference to a block. While there is one, the block is not given back to the
/// kernel.
#[derive(Debug, PartialEq, Eq, Structural)]
pub struct BlockTicket {
    index: u32,
}

impl BlockTicket {
    /// The block that the ticket is for.
    pub closed spec fn block(self) -> u32 {
        self.index
    }

    /// The block that the ticket is for.
    pub fn index(&self) -> (r: u32)
        ensures
            r == self.block(),
    {
        self.index
    }

    /// Takes a reference to block `index` of `sock`; `None` where there is no such
    /// block.
    pub fn new(sock: &mut CaptureSocket, index: u32) -> (r: Option<BlockTicket>)
        ensures
            old(sock).wf() ==> final(sock).wf(),
            match r {
                Some(t) => index < old(sock)@.refs.len() && t.block() == index && final(sock)@ == (
                CaptureView { refs: taken(old(sock)@.refs, index as int), ..old(sock)@ }),
                None => index >= old(sock)@.refs.len() && final(sock)@ == old(sock)@,
            },
    {
        let i: usize = index as usize;
        if i >= sock.refcounts.len() {
            return None;
        }
        let n: u32 = sock.refcounts[i].wrapping_add(1);
        sock.refcounts.set(i, n);
        Some(BlockTicket { index })
    }

    /// A ticket that counts nowhere, for exercising the writer without a socket.
    pub fn for_test(index: u32) -> (r: BlockTicket)
        ensures
            r.block() == index,
    {
        BlockTicket { index }
    }
}

/// What to do when a reference is given up.
#[derive(Debug, Clone, Copy, PartialEq, Eq, Structural)]
pub enum Release {
    /// It was the last one: give the block back to the kernel.
    ClearBlock,
    /// There are others.
    Keep,
    /// There was none to give up.
    Unmatched,
    /// There is no such block.
    NoSuchBlock,
}

/// One more than `v`; zero after the largest number.
pub open spec fn up(v: u32) -> u32 {
    if v == u32::MAX {
        0
    } else {
        (v + 1) as u32
    }
}

/// One less than `v`; the largest number before zero.
pub open spec fn down(v: u32) -> u32 {
    if v == 0 {
        u32::MAX
    } else {
        (v - 1) as u32
    }
}

/// The reference counts after a reference to block `i` is taken.
pub open spec fn taken(refs: Seq<u32>, i: int) -> Seq<u32> {
    refs.update(i, up(refs[i]))
}

/// The reference counts after a reference to block `i` is given up.
pub open spec fn given_up(refs: Seq<u32>, i: int) -> Seq<u32> {
    refs.update(i, down(refs[i]))
}

/// What to do when a reference is given up and there were `count`.
pub open spec fn release_of(count: u32) -> Release {
    if count == 1 {
        Release::ClearBlock
    } else if count == 0 {
        Release::Unmatched
    } else {
        Release::Keep
    }
}

impl CaptureSocket {
    /// The ring holds all its blocks, and each block has a reference count.
    pub closed spec fn wf(&self) -> bool {
        &&& self.ring.len == self.block_size * self.num_blocks
        &&& self.refcounts@.len() == self.num_blocks
    }

    /// What well-formedness says of the view.
    pub proof fn lemma_wf(&self)
        requires
            self.wf(),
        ensures
            self@.ring_len == self@.block_size * self@.num_blocks,
            self@.refs.len() == self@.num_blocks,
    {
    }

    /// The socket that a finished setup makes, with no references to its blocks;
    /// `None` before the setup is finished.
    pub fn from_setup(setup: CaptureSetup, cfg: &CaptureConfig, fd: i32) -> (r: Option<
        CaptureSocket,
    >)
        ensures
            match r {
                Some(s) => setup.action is Ready && setup.ring_len == cfg.block_size
                    * cfg.num_blocks && s.wf() && s@ == (CaptureView {
                    fd,
                    ring_ptr: setup.ring_ptr,
                    ring_len: setup.ring_len,
                    block_size: cfg.block_size,
                    num_blocks: cfg.num_blocks,
                    refs: Seq::new(cfg.num_blocks as nat, |i: int| 0u32),
                }),
                None => setup.action !is Ready || setup.ring_len != cfg.block_size
                    * cfg.num_blocks,
            },
    {
        if setup.action != SetupAction::Ready {
            return None;
        }
        let fits: bool = match (cfg.block_size as usize).checked_mul(cfg.num_blocks as usize) {
            Some(len) => len == setup.ring_len,
            None => false,
        };
        if !fits {
            return None;
        }
        let mut refcounts: Vec<u32> = Vec::new();
        let mut i: u32 = 0;
        while i < cfg.num_blocks
            invariant
                i <= cfg.num_blocks,
                refcounts@ =~= Seq::new(i as nat, |k: int| 0u32),
            decreases cfg.num_blocks - i,
        {
            refcounts.push(0);
            i = i + 1;
        }
        Some(
            CaptureSocket {
                ring: MmapRing { ptr: setup.ring_ptr, len: setup.ring_len },
                fd,
                block_size: cfg.block_size,
                num_blocks: cfg.num_blocks,
                refcounts,
            },
        )
    }

    pub fn raw_fd(&self) -> (r: i32)
        ensures
            r == self@.fd,
    {
        self.fd
    }

    pub fn block_size(&self) -> (r: u32)
        ensures
            r == self@.block_size,
    {
        self.block_size
    }

    pub fn num_blocks(&self) -> (r: u32)
        ensures
            r == self@.num_blocks,
    {
        self.num_blocks
    }

    /// The address of the ring.
    pub fn ring_ptr(&self) -> (r: usize)
        ensures
            r == self@.ring_ptr,
    {
        self.ring.as_ptr()
    }

    pub fn ring_len(&self) -> (r: usize)
        ensures
            r == self@.ring_len,
    {
        self.ring.len()
    }

    /// Where block `i` begins, counted from the beginning of the ring.
    pub fn block_ptr(&self, i: u32) -> (r: Result<usize, AfpacketError>)
        requires
            self.wf(),
        ensures
            match r {
                Ok(off) => i < self@.num_blocks && off == i * self@.block_size && off
                    + self@.block_size <= self@.ring_len,
                Err(e) => i >= self@.num_blocks && e == (AfpacketError::BlockIndexOutOfRange {
                    idx: i,
                    num_blocks: self@.num_blocks,
                }),
            },
    {
        if i >= self.num_blocks {
            return Err(
                AfpacketError::BlockIndexOutOfRange { idx: i, num_blocks: self.num_blocks },
            );
        }
        let (size, count) = (self.block_size, self.num_blocks);
        assert(0 <= i * size && i * size + size <= size * count) by (nonlinear_arith)
            requires
                0 <= i < count,
                0 <= size,
        ;
        Ok(i as usize * size as usize)
    }

    /// Where the status of block `i` lies, counted from the beginning of the ring;
    /// `None` where there is no such block. A block whose status is zero is the
    /// kernel's, and setting it to zero gives the block back.
    pub fn status_offset(&self, i: u32) -> (r: Option<u64>)
        requires
            self.wf(),
        ensures
            match r {
                Some(at) => i < self@.num_blocks && at == i * self@.block_size
                    + BLOCK_STATUS_OFFSET,
                None => i >= self@.num_blocks,
            },
    {
        match self.block_ptr(i) {
            Ok(off) => {
                let (size, count) = (self.block_size, self.num_blocks);
                assert(i * size <= 0xffff_ffff * 0xffff_ffff) by (nonlinear_arith)
                    requires
                        0 <= i <= 0xffff_ffff,
                        0 <= size <= 0xffff_ffff,
                ;
                Some(off as u64 + BLOCK_STATUS_OFFSET as u64)
            },
            Err(_) => None,
        }
    }

    /// How many references to block `i` there are; `None` where there is no such
    /// block.
    pub fn refs(&self, i: u32) -> (r: Option<u32>)
        ensures
            match r {
                Some(n) => i < self@.refs.len() && n == self@.refs[i as int],
                None => i >= self@.refs.len(),
            },
    {
        if (i as usize) < self.refcounts.len() {
            Some(self.refcounts[i as usize])
        } else {
            None
        }
    }

    /// What came of waiting for the ring to change: an interruption is no failure.
    pub fn wait_for_blocks(&self, event: PollEvent) -> (r: Result<(), AfpacketError>)
        ensures
            r == (match event {
                PollEvent::Failed(e) => Err::<(), AfpacketError>(AfpacketError::Poll(e)),
                _ => Ok::<(), AfpacketError>(()),
            }),
    {
        match event {
            PollEvent::Failed(e) => Err(AfpacketError::Poll(e)),
            _ => Ok(()),
        }
    }

    /// What came of reading the counters.
    pub fn stats(&self, got: Result<CaptureStats, OsError>) -> (r: Result<
        CaptureStats,
        AfpacketError,
    >)
        ensures
            r == (match got {
                Ok(s) => Ok::<CaptureStats, AfpacketError>(s),
                Err(e) => Err::<CaptureStats, AfpacketError>(AfpacketError::Stats(e)),
            }),
    {
        match got {
            Ok(s) => Ok(s),
            Err(e) => Err(AfpacketError::Stats(e)),
        }
    }

    /// Gives up a reference.
    pub fn release(&mut self, ticket: BlockTicket) -> (r: Release)
        ensures
            old(self).wf() ==> final(self).wf(),
            if ticket.block() < old(self)@.refs.len() {
                final(self)@ == (CaptureView {
                    refs: given_up(old(self)@.refs, ticket.block() as int),
                    ..old(self)@
                }) && r == release_of(old(self)@.refs[ticket.block() as int])
            } else {
                final(self)@ == old(self)@ && r == Release::NoSuchBlock
            },
    {
        let i: usize = ticket.index as usize;
        if i >= self.refcounts.len() {
            return Release::NoSuchBlock;
        }
        let prev: u32 = self.refcounts[i];
        self.refcounts.set(i, prev.wrapping_sub(1));
        if prev == 1 {
            Release::ClearBlock
        } else if prev == 0 {
            Release::Unmatched
        } else {
            Release::Keep
        }
    }
}

/// What happens to the references to one block.
#[derive(Debug, Clone, Copy, PartialEq, Eq, Structural)]
pub enum RefOp {
    Take,
    GiveUp,
}

/// How many references are taken, less how many are given up.
pub open spec fn balance(ops: Seq<RefOp>) -> int
    decreases ops.len(),
{
    if ops.len() == 0 {
        0
    } else {
        balance(ops.drop_last()) + if ops.last() is Take {
            1int
        } else {
            -1int
        }
    }
}

/// The count of references after the operations, from `count` on.
pub open spec fn count_after(count: u32, ops: Seq<RefOp>) -> u32
    decreases ops.len(),
{
    if ops.len() == 0 {
        count
    } else {
        let before = count_after(count, ops.drop_last());
        if ops.last() is Take {
            up(before)
        } else {
            down(before)
        }
    }
}

/// A block is given back to the kernel when its last reference is given up, and at
/// no other time: while no more references are given up than were taken, the count
/// is what is taken and not given up, and giving one up clears the block exactly
/// where none is left.
pub proof fn law_cleared_with_last_reference(ops: Seq<RefOp>)
    requires
        forall|n: int| 0 <= n <= ops.len() ==> 0 <= balance(#[trigger] ops.take(n)) <= u32::MAX,
    ensures
        count_after(0, ops) == balance(ops),
        ops.len() > 0 && ops.last() is GiveUp ==> (release_of(count_after(0, ops.drop_last()))
            is ClearBlock <==> balance(ops) == 0),
        ops.len() > 0 && ops.last() is GiveUp ==> release_of(count_after(0, ops.drop_last()))
            !is Unmatched,
    decreases ops.len(),
{
    assert(ops.take(ops.len() as int) =~= ops);
    if ops.len() > 0 {
        let before = ops.drop_last();
        assert forall|n: int| 0 <= n <= before.len() implies 0 <= balance(#[trigger] before.take(n))
            <= u32::MAX by {
            assert(before.take(n) =~= ops.take(n));
        }
        law_cleared_with_last_reference(before);
    }
}

/// While another reference is held, giving one up does not clear the block: what a
/// dispatcher hands out under a reference of its own stays in place until it is
/// done.
pub proof fn law_held_block_stays(refs: Seq<u32>, i: int)
    requires
        0 <= i < refs.len(),
        1 <= refs[i] < u32::MAX,
    ensures
        release_of(taken(refs, i)[i]) is Keep,
        given_up(taken(refs, i), i) == refs,
{
    assert(given_up(taken(refs, i), i) =~= refs);
}

/// The ring that is asked for, in every bring-up: after the version is chosen where there
/// is no filter, and after the filter is locked where there is one. Its blocks are those
/// of the configuration, in size, in number and in timeout; each block is one frame, so
/// the frames fill the blocks; and the length that is mapped next is that of all blocks.
pub proof fn law_ring_is_as_configured(s: CaptureSetup, cfg: CaptureConfig)
    requires
        s.action is SetVersion && cfg.bpf_filter is None || s.action is LockFilter,
    ensures
        s.expects(SetupEvent::Done),
        ({
            let next = s.next(cfg, SetupEvent::Done);
            &&& next matches Ok(t) && (t.action matches SetupAction::RequestRing {
                block_size,
                frame_size,
                block_nr,
                frame_nr,
                timeout_ms,
            } && {
                &&& block_size == cfg.block_size
                &&& frame_size == cfg.block_size
                &&& block_nr == cfg.num_blocks
                &&& frame_nr == cfg.num_blocks
                &&& timeout_ms == cfg.block_timeout_ms
                &&& frame_size > 0 ==> block_nr * (block_size / frame_size) == frame_nr
                &&& block_size * block_nr <= usize::MAX ==> (t.next(cfg, SetupEvent::Done) matches
                    Ok(u) && (u.action matches SetupAction::MapRing { len } && len == block_size
                    * block_nr))
            })
        }),
{
    let (size, count) = (cfg.block_size as int, cfg.num_blocks as int);
    if size > 0 {
        assert(size / size == 1) by (nonlinear_arith)
            requires
                size > 0,
        ;
        assert(count * 1 == count);
    }
}

/// What follows each step of a bring-up that goes well, and what is refused on the way: a
/// filter of more than 65535 instructions, a ring that memory cannot hold, and an interface
/// name with a zero character. The fanout group is joined exactly where the fanout is not
/// one. Where the ring was mapped is kept to the end.
pub proof fn law_bring_up_goes_on(s: CaptureSetup, cfg: CaptureConfig, ptr: usize, ifindex: u32)
    ensures
        s.action is OpenSocket ==> (s.next(cfg, SetupEvent::Done) matches Ok(t)
            && t.action is SetVersion && t.ring_ptr == s.ring_ptr && t.ring_len == s.ring_len),
        s.action is SetVersion && cfg.bpf_filter is Some ==> {
            let n = cfg.bpf_filter->0@.len();
            &&& n > 65535 ==> (s.next(cfg, SetupEvent::Done) matches Err(
                AfpacketError::BpfTooLarge(m),
            ) && m == n)
            &&& n <= 65535 ==> (s.next(cfg, SetupEvent::Done) matches Ok(t) && (t.action matches
                SetupAction::AttachFilter { len } && len == n))
        },
        s.action is AttachFilter ==> (s.next(cfg, SetupEvent::Done) matches Ok(t)
            && t.action is LockFilter),
        s.action is RequestRing && cfg.block_size * cfg.num_blocks > usize::MAX ==> (s.next(
            cfg,
            SetupEvent::Done,
        ) matches Err(AfpacketError::RingSizeOverflow { block_size, num_blocks }) && block_size
            == cfg.block_size && num_blocks == cfg.num_blocks),
        s.action matches SetupAction::MapRing { len } ==> {
            let next = s.next(cfg, SetupEvent::Mapped(ptr));
            &&& next is Ok <==> !cfg.iface@.contains('\0')
            &&& next matches Ok(t) ==> t.action is LookUpInterface && t.ring_ptr == ptr
                && t.ring_len == len
            &&& next matches Err(e) ==> (e matches AfpacketError::InterfaceNameInvalid { iface }
                && iface == cfg.iface)
        },
        s.action is LookUpInterface ==> (s.next(cfg, SetupEvent::Index(ifindex)) matches Ok(t)
            && t.action == (SetupAction::Bind { ifindex }) && t.ring_ptr == s.ring_ptr
            && t.ring_len == s.ring_len),
        s.action is Bind ==> (s.next(cfg, SetupEvent::Done) matches Ok(t) && (t.action is Ready
            <==> cfg.fanout_size == 1) && (t.action is SetFanout <==> cfg.fanout_size != 1)
            && t.ring_ptr == s.ring_ptr && t.ring_len == s.ring_len),
        s.action is SetFanout ==> (s.next(cfg, SetupEvent::Done) matches Ok(t)
            && t.action is Ready && t.ring_ptr == s.ring_ptr && t.ring_len == s.ring_len),
        CaptureSetup::first().action is OpenSocket,
{
    if let Some(f) = cfg.bpf_filter {
        assert(f.len() == f@.len());
    }
}

/// The fanout group that a socket joins: read as 32 bits, the argument has the group in
/// its low half and the way of distributing packets in its high half.
pub proof fn law_fanout_halves(s: CaptureSetup, cfg: CaptureConfig)
    requires
        s.action is Bind,
        cfg.fanout_size != 1,
    ensures
        ({
            let next = s.next(cfg, SetupEvent::Done);
            &&& next matches Ok(t) && (t.action matches SetupAction::SetFanout { value } && {
                let bits = if value < 0 {
                    value + 0x1_0000_0000
                } else {
                    value as int
                };
                bits % 0x1_0000 == cfg.fanout_id && bits / 0x1_0000 == cfg.fanout_type
            })
        }),
{
    let (id, typ) = (cfg.fanout_id as int, cfg.fanout_type as int);
    vstd::arithmetic::div_mod::lemma_fundamental_div_mod_converse(
        id + typ * 0x1_0000,
        0x1_0000,
        typ,
        id,
    );
}

/// Each step that fails is reported as itself, with what the operating system said. Of an
/// interface that is not there the operating system may say nothing: then that there is no
/// such device is reported.
pub proof fn law_failures_are_told_apart(
    s: CaptureSetup,
    cfg: CaptureConfig,
    e: OsError,
    last: OsError,
    no_device: OsError,
)
    ensures
        ({
            let r = s.next(cfg, SetupEvent::Failed(e));
            &&& s.action is OpenSocket ==> (r matches Err(AfpacketError::SocketCreate(c)) && c == e)
            &&& s.action is SetVersion ==> (r matches Err(AfpacketError::Setsockopt {
                name,
                source,
            }) && name@ == "PACKET_VERSION"@ && source == e)
            &&& s.action is AttachFilter ==> (r matches Err(AfpacketError::Setsockopt {
                name,
                source,
            }) && name@ == "SO_ATTACH_FILTER"@ && source == e)
            &&& s.action is LockFilter ==> (r matches Err(AfpacketError::Setsockopt {
                name,
                source,
            }) && name@ == "SO_LOCK_FILTER"@ && source == e)
            &&& s.action is RequestRing ==> (r matches Err(AfpacketError::Setsockopt {
                name,
                source,
            }) && name@ == "PACKET_RX_RING"@ && source == e)
            &&& s.action is SetFanout ==> (r matches Err(AfpacketError::Setsockopt {
                name,
                source,
            }) && name@ == "PACKET_FANOUT"@ && source == e)
            &&& s.action matches SetupAction::MapRing { len } ==> (r matches Err(
                AfpacketError::MmapRing { len: l, source },
            ) && l == len && source == e)
            &&& s.action matches SetupAction::Bind { ifindex } ==> (r matches Err(
                AfpacketError::Bind { iface, ifindex: i, source },
            ) && iface == cfg.iface && i == ifindex && source == e)
        }),
        s.action is LookUpInterface ==> (s.next(
            cfg,
            SetupEvent::NoInterface { last, no_device },
        ) matches Err(AfpacketError::InterfaceNotFound { iface, source }) && iface == cfg.iface
            && (last.code == Some(0i32) ==> source == no_device) && (last.code != Some(0i32)
            ==> source == last)),
{
}

/// Taking a reference adds one to the count of that block, giving one up takes one away,
/// and no other block's count changes. Only the reference that was the last one gives the
/// block back, and one that nobody holds cannot be given up.
pub proof fn law_counting_references(refs: Seq<u32>, i: int, j: int)
    requires
        0 <= i < refs.len(),
        0 <= j < refs.len(),
    ensures
        taken(refs, i).len() == refs.len(),
        given_up(refs, i).len() == refs.len(),
        refs[i] < u32::MAX ==> taken(refs, i)[i] == refs[i] + 1,
        refs[i] == u32::MAX ==> taken(refs, i)[i] == 0,
        refs[i] > 0 ==> given_up(refs, i)[i] == refs[i] - 1,
        refs[i] == 0 ==> given_up(refs, i)[i] == u32::MAX,
        i != j ==> taken(refs, i)[j] == refs[j] && given_up(refs, i)[j] == refs[j],
        release_of(refs[i]) is ClearBlock <==> refs[i] == 1,
        release_of(refs[i]) is Unmatched <==> refs[i] == 0,
        release_of(refs[i]) is Keep <==> refs[i] > 1,
        BLOCK_STATUS_OFFSET == 8,
        MAX_FILTER == 65535,
{
}

} // verus!
