//! Bringing up the daemon: for each socket its filter, its capture sockets with
//! their threads, and its listener, and then waiting until the daemon is to stop.

use vstd::prelude::*;

use crate::afpacket::{AfpacketError, CaptureConfig, SockFilter};
use crate::config;
use crate::config::{assign_fanout_ids, check_socket_names, load, ConfigFile, SocketConfig};
use crate::daemon_error::DaemonError;
use crate::os_error::OsError;

verus! {

/// What the daemon is to serve: the sockets, and a fanout identifier for each.
#[derive(Debug)]
pub struct Plan {
    pub cfgs: Vec<SocketConfig>,
    pub fanout_ids: Vec<u16>,
}

impl Plan {
    /// Each socket has its fanout identifier.
    pub open spec fn wf(self) -> bool {
        self.cfgs@.len() == self.fanout_ids@.len()
    }
}

/// Whether the configuration can be served: it loads, there is something to serve,
/// no two sockets have one name or one fanout identifier, and there are identifiers
/// for all.
pub open spec fn can_serve(file: ConfigFile) -> bool {
    file matches ConfigFile::Parsed(cfgs) && {
        &&& 0 < cfgs@.len() <= 65535
        &&& forall|i: int| 0 <= i < cfgs@.len() ==> config::fault(#[trigger] cfgs@[i]) is None
        &&& forall|j: int| 0 <= j < cfgs@.len() ==> !#[trigger] config::repeats_name(cfgs@, j)
        &&& config::no_repeated_id(config::asked(cfgs@))
    }
}

/// Whether `e` says what keeps the configuration from being served. What comes
/// first counts: reading, then the faults of the sockets, then that there are none,
/// then names, then fanout identifiers.
pub open spec fn is_obstacle(path: Seq<char>, file: ConfigFile, e: DaemonError) -> bool {
    match file {
        ConfigFile::Unreadable(source) => e matches DaemonError::ConfigRead { path: p, source: s }
            && p@ == path && s == source,
        ConfigFile::Unparsable(why) => e matches DaemonError::ConfigParse { path: p, reason }
            && p@ == path && reason == why,
        ConfigFile::Parsed(cfgs) => {
            let ids = config::asked(cfgs@);
            if exists|i: int| config::first_fault(cfgs@, i) {
                e matches DaemonError::ConfigValidate(s) && exists|i: int| #[trigger]
                    config::first_fault(cfgs@, i) && s@ == cfgs@[i].socket_name@ + config::fault(
                        cfgs@[i],
                    )->0
            } else if cfgs@.len() == 0 {
                e matches DaemonError::ConfigValidate(s) && s@
                    == "config is empty \u{2014} no sockets to serve"@
            } else if exists|j: int| config::first_repeated_name(cfgs@, j) {
                e matches DaemonError::DuplicateSocketName(s) && exists|j: int| #[trigger]
                    config::first_repeated_name(cfgs@, j) && s@ == cfgs@[j].socket_name@
            } else if exists|j: int| config::first_repeated_id(ids, j) {
                e matches DaemonError::DuplicateFanoutId(id) && exists|j: int| #[trigger]
                    config::first_repeated_id(ids, j) && id == ids[j]
            } else {
                e == DaemonError::FanoutIdsExhausted
            }
        },
    }
}

/// Raising fanouts of zero changes neither names nor identifiers.
proof fn lemma_same_claims(cfgs: Seq<SocketConfig>, raised: Seq<SocketConfig>)
    requires
        raised == cfgs.map_values(|c: SocketConfig| config::with_fanout(c)),
    ensures
        config::asked(raised) == config::asked(cfgs),
        forall|j: int|
            0 <= j < cfgs.len() ==> #[trigger] config::repeats_name(raised, j)
                == config::repeats_name(cfgs, j),
        forall|j: int|
            #[trigger] config::first_repeated_name(raised, j) == config::first_repeated_name(
                cfgs,
                j,
            ),
{
    assert(config::asked(raised) =~= config::asked(cfgs));
    assert forall|j: int| 0 <= j < cfgs.len() implies #[trigger] config::repeats_name(raised, j)
        == config::repeats_name(cfgs, j) by {
        if config::repeats_name(raised, j) {
            let i = choose|i: int|
                0 <= i < j && #[trigger] raised[i].socket_name@ == raised[j].socket_name@;
            assert(cfgs[i].socket_name@ == cfgs[j].socket_name@);
        }
        if config::repeats_name(cfgs, j) {
            let i = choose|i: int|
                0 <= i < j && #[trigger] cfgs[i].socket_name@ == cfgs[j].socket_name@;
            assert(raised[i].socket_name@ == raised[j].socket_name@);
        }
    }
    assert forall|j: int|
        #[trigger] config::first_repeated_name(raised, j) == config::first_repeated_name(
            cfgs,
            j,
        ) by {
        if config::first_repeated_name(raised, j) {
            assert(config::repeats_name(cfgs, j));
            assert forall|i: int| 0 <= i < j implies !#[trigger] config::repeats_name(cfgs, i) by {
                assert(!config::repeats_name(raised, i));
            }
        }
        if config::first_repeated_name(cfgs, j) {
            assert(config::repeats_name(raised, j));
            assert forall|i: int| 0 <= i < j implies !#[trigger] config::repeats_name(
                raised,
                i,
            ) by {
                assert(!config::repeats_name(cfgs, i));
            }
        }
    }
}

/// Plans what to serve, from what came of reading the configuration at `path`.
pub fn run(path: &str, file: ConfigFile) -> (r: Result<Plan, DaemonError>)
    ensures
        match r {
            Ok(plan) => can_serve(file) && plan.wf() && plan.cfgs@
                == file->Parsed_0@.map_values(|c: SocketConfig| config::with_fanout(c))
                && config::assigned(config::asked(file->Parsed_0@), plan.fanout_ids@),
            Err(e) => !can_serve(file) && is_obstacle(path@, file, e),
        },
{
    let ghost sockets = file->Parsed_0@;
    let cfgs: Vec<SocketConfig> = match load(path, file) {
        Ok(cfgs) => cfgs,
        Err(e) => {
            return Err(e);
        },
    };
    assert(forall|i: int| !config::first_fault(sockets, i));
    if cfgs.len() == 0 {
        return Err(
            DaemonError::ConfigValidate(
                "config is empty \u{2014} no sockets to serve".to_owned(),
            ),
        );
    }
    proof {
        lemma_same_claims(sockets, cfgs@);
    }
    if let Err(e) = check_socket_names(cfgs.as_slice()) {
        proof {
            let j = choose|j: int| #[trigger] config::first_repeated_name(cfgs@, j) && (e matches
                DaemonError::DuplicateSocketName(s) && s@ == cfgs@[j].socket_name@);
            assert(config::first_repeated_name(sockets, j));
            assert(config::repeats_name(sockets, j));
        }
        return Err(e);
    }
    assert forall|j: int| 0 <= j < sockets.len() implies !#[trigger] config::repeats_name(
        sockets,
        j,
    ) by {
        assert(!config::repeats_name(cfgs@, j));
    }
    assert(forall|j: int| !config::first_repeated_name(sockets, j));
    match assign_fanout_ids(cfgs.as_slice()) {
        Ok(fanout_ids) => Ok(Plan { cfgs, fanout_ids }),
        Err(e) => {
            proof {
                let ids = config::asked(sockets);
                if e is DuplicateFanoutId {
                    let j = choose|j: int| #[trigger] config::first_repeated_id(ids, j)
                        && e->DuplicateFanoutId_0 == cfgs@[j].fanout_id;
                    assert(config::first_repeated_id(ids, j));
                    assert(config::repeats_id(ids, j));
                    assert(ids[j] == cfgs@[j].fanout_id);
                } else {
                    assert(forall|j: int| !config::first_repeated_id(ids, j));
                }
            }
            Err(e)
        },
    }
}

/// A step in bringing up the daemon.
#[derive(Debug, Clone, Copy, PartialEq, Eq, Structural)]
pub enum ServeStep {
    /// See whether the daemon is to stop before the next socket is brought up.
    CheckShutdown,
    /// Compile the socket's filter.
    CompileFilter,
    /// Bring up a capture socket.
    OpenCapture,
    /// Start the thread that hands out the blocks of the capture socket.
    SpawnDispatcher,
    /// Start the thread that reports on the capture socket.
    SpawnStats,
    /// Remove what an earlier run may have left at the socket's path.
    RemoveStale,
    /// Bind the listener. From then on the path is removed at the end.
    Bind,
    /// Give the socket to its user and group.
    SetPermissions,
    /// Make the listener non-blocking.
    SetNonblocking,
    /// Start the thread that accepts clients.
    SpawnAccept,
    /// All is up: see whether the daemon is to stop, and if not, again a while later.
    Wait,
    /// The daemon is to stop.
    Stop,
}

/// What came of a step.
#[derive(Debug)]
pub enum ServeEvent {
    ShutdownSet(bool),
    Compiled(Result<Vec<SockFilter>, AfpacketError>),
    Opened(Result<(), AfpacketError>),
    Spawned(Result<(), OsError>),
    Removed,
    Bound(Result<(), OsError>),
    Permitted(Result<(), DaemonError>),
    Nonblocking(Result<(), OsError>),
}

/// The daemon while it is brought up.
#[derive(Debug)]
pub struct Bringup {
    /// The socket at hand.
    pub socket: usize,
    /// How many of its capture sockets are up, with their threads.
    pub up: u16,
    /// Its filter, where it has one.
    pub filter: Option<Vec<SockFilter>>,
    pub step: ServeStep,
}

/// The configuration of a capture socket of `cfg`.
pub open spec fn capture_of(
    cfg: SocketConfig,
    fanout_id: u16,
    filter: Option<Vec<SockFilter>>,
    c: CaptureConfig,
) -> bool {
    &&& c.iface == cfg.interface
    &&& c.block_size == cfg.block_size
    &&& c.num_blocks == cfg.num_blocks
    &&& c.block_timeout_ms == cfg.block_timeout_millis
    &&& c.fanout_id == fanout_id
    &&& c.fanout_size == cfg.fanout_size
    &&& c.fanout_type == cfg.fanout_type
    &&& match (filter, c.bpf_filter) {
        (Some(a), Some(b)) => a@ == b@,
        (None, None) => true,
        _ => false,
    }
}

/// A copy of a filter.
fn copy_filter(filter: &Vec<SockFilter>) -> (r: Vec<SockFilter>)
    ensures
        r@ == filter@,
{
    let mut out: Vec<SockFilter> = Vec::new();
    let mut i: usize = 0;
    while i < filter.len()
        invariant
            i <= filter@.len(),
            out@ =~= filter@.take(i as int),
        decreases filter@.len() - i,
    {
        out.push(filter[i]);
        i = i + 1;
    }
    assert(filter@.take(i as int) =~= filter@);
    out
}

impl Bringup {
    pub open spec fn first() -> Bringup {
        Bringup { socket: 0, up: 0, filter: None, step: ServeStep::CheckShutdown }
    }

    /// Whether the state is one of bringing up the plan: while a socket is brought
    /// up it is one of the plan's, and a capture socket is brought up only while
    /// some of the fanout are not.
    pub open spec fn wf(self, plan: Plan) -> bool {
        &&& plan.wf()
        &&& !(self.step is Wait || self.step is Stop) ==> self.socket < plan.cfgs@.len()
        &&& (self.step is OpenCapture || self.step is SpawnDispatcher || self.step is SpawnStats)
            ==> self.up < plan.cfgs@[self.socket as int].fanout_size
    }

    /// Whether the event can come of the step.
    pub open spec fn expects(self, event: ServeEvent) -> bool {
        match self.step {
            ServeStep::CheckShutdown => event is ShutdownSet,
            ServeStep::CompileFilter => event is Compiled,
            ServeStep::OpenCapture => event is Opened,
            ServeStep::SpawnDispatcher => event is Spawned,
            ServeStep::SpawnStats => event is Spawned,
            ServeStep::RemoveStale => event is Removed,
            ServeStep::Bind => event is Bound,
            ServeStep::SetPermissions => event is Permitted,
            ServeStep::SetNonblocking => event is Nonblocking,
            ServeStep::SpawnAccept => event is Spawned,
            ServeStep::Wait => event is ShutdownSet,
            ServeStep::Stop => false,
        }
    }

    pub open spec fn at(self, step: ServeStep) -> Bringup {
        Bringup { step, ..self }
    }

    /// The next capture socket of the fanout, or the listener where all are up.
    pub open spec fn next_capture(self, plan: Plan) -> Bringup {
        if self.up < plan.cfgs@[self.socket as int].fanout_size {
            self.at(ServeStep::OpenCapture)
        } else {
            self.at(ServeStep::RemoveStale)
        }
    }

    /// The next socket, or waiting where all are up.
    pub open spec fn next_socket(self, plan: Plan) -> Bringup {
        Bringup {
            socket: (self.socket + 1) as usize,
            up: 0,
            filter: None,
            step: if self.socket + 1 < plan.cfgs@.len() {
                ServeStep::CheckShutdown
            } else {
                ServeStep::Wait
            },
        }
    }

    /// The prefix of the name of the thread that the step starts.
    pub open spec fn thread_prefix(self) -> Seq<char> {
        match self.step {
            ServeStep::SpawnDispatcher => "dispatch-"@,
            ServeStep::SpawnStats => "stats-"@,
            _ => "accept-"@,
        }
    }

    /// What follows the step when it goes well.
    pub open spec fn after(self, plan: Plan, event: ServeEvent) -> Bringup {
        let cfg = plan.cfgs@[self.socket as int];
        match self.step {
            ServeStep::CheckShutdown => if cfg.filter@.len() == 0 {
                Bringup { filter: None, ..self }.next_capture(plan)
            } else {
                self.at(ServeStep::CompileFilter)
            },
            ServeStep::CompileFilter => Bringup {
                filter: Some(event->Compiled_0->Ok_0),
                ..self
            }.next_capture(plan),
            ServeStep::OpenCapture => self.at(ServeStep::SpawnDispatcher),
            ServeStep::SpawnDispatcher => self.at(ServeStep::SpawnStats),
            ServeStep::SpawnStats => Bringup { up: (self.up + 1) as u16, ..self }.next_capture(
                plan,
            ),
            ServeStep::RemoveStale => self.at(ServeStep::Bind),
            ServeStep::Bind => self.at(ServeStep::SetPermissions),
            ServeStep::SetPermissions => self.at(ServeStep::SetNonblocking),
            ServeStep::SetNonblocking => self.at(ServeStep::SpawnAccept),
            ServeStep::SpawnAccept => self.next_socket(plan),
            ServeStep::Wait => if event == ServeEvent::ShutdownSet(true) {
                self.at(ServeStep::Stop)
            } else {
                self
            },
            ServeStep::Stop => self,
        }
    }

    /// Whether `e` says what went wrong at the step.
    pub open spec fn is_failure(self, plan: Plan, event: ServeEvent, e: DaemonError) -> bool {
        let cfg = plan.cfgs@[self.socket as int];
        match event {
            ServeEvent::ShutdownSet(set) => set && self.step is CheckShutdown && e
                == DaemonError::ShutdownDuringSetup,
            ServeEvent::Compiled(Err(source)) => e == (DaemonError::Afpacket {
                socket_name: cfg.socket_name,
                source,
            }),
            ServeEvent::Opened(Err(source)) => e == (DaemonError::Afpacket {
                socket_name: cfg.socket_name,
                source,
            }),
            ServeEvent::Spawned(Err(cause)) => e matches DaemonError::ThreadSpawn { name, source }
                && name@ == self.thread_prefix() + cfg.socket_name@ && source == cause,
            ServeEvent::Bound(Err(cause)) => e == (DaemonError::Listener {
                path: cfg.socket_name,
                op: "bind",
                source: cause,
            }),
            ServeEvent::Permitted(Err(why)) => e == why,
            ServeEvent::Nonblocking(Err(cause)) => e == (DaemonError::SetNonblocking {
                source: cause,
            }),
            _ => false,
        }
    }

    /// Whether the event says that the step went well.
    pub open spec fn went_well(self, event: ServeEvent) -> bool {
        match event {
            ServeEvent::ShutdownSet(set) => !set || self.step is Wait,
            ServeEvent::Compiled(r) => r is Ok,
            ServeEvent::Opened(r) => r is Ok,
            ServeEvent::Spawned(r) => r is Ok,
            ServeEvent::Removed => true,
            ServeEvent::Bound(r) => r is Ok,
            ServeEvent::Permitted(r) => r is Ok,
            ServeEvent::Nonblocking(r) => r is Ok,
        }
    }

    /// The name of the thread that the step starts.
    pub fn thread_name(&self, plan: &Plan) -> (r: String)
        requires
            self.wf(*plan),
            self.step is SpawnDispatcher || self.step is SpawnStats || self.step is SpawnAccept,
        ensures
            r@ == self.thread_prefix() + plan.cfgs@[self.socket as int].socket_name@,
    {
        let prefix: &str = match self.step {
            ServeStep::SpawnDispatcher => "dispatch-",
            ServeStep::SpawnStats => "stats-",
            _ => "accept-",
        };
        let mut s = prefix.to_owned();
        s.append(plan.cfgs[self.socket].socket_name.as_str());
        s
    }

    /// The configuration of the capture socket that the step brings up.
    pub fn capture_config(&self, plan: &Plan) -> (r: CaptureConfig)
        requires
            self.wf(*plan),
            self.step is OpenCapture,
        ensures
            capture_of(
                plan.cfgs@[self.socket as int],
                plan.fanout_ids@[self.socket as int],
                self.filter,
                r,
            ),
    {
        let cfg = &plan.cfgs[self.socket];
        CaptureConfig {
            iface: cfg.interface.clone(),
            block_size: cfg.block_size,
            num_blocks: cfg.num_blocks,
            block_timeout_ms: cfg.block_timeout_millis,
            fanout_id: plan.fanout_ids[self.socket],
            fanout_size: cfg.fanout_size,
            fanout_type: cfg.fanout_type,
            bpf_filter: match &self.filter {
                Some(f) => Some(copy_filter(f)),
                None => None,
            },
        }
    }

    fn goto_capture(self, plan: &Plan) -> (r: Bringup)
        requires
            self.socket < plan.cfgs@.len(),
        ensures
            r == self.next_capture(*plan),
    {
        let step = if self.up < plan.cfgs[self.socket].fanout_size {
            ServeStep::OpenCapture
        } else {
            ServeStep::RemoveStale
        };
        Bringup { step, ..self }
    }

    /// Takes what came of the step and finds the next one, or what went wrong.
    pub fn advance(self, plan: &Plan, event: ServeEvent) -> (r: Result<Bringup, DaemonError>)
        requires
            self.wf(*plan),
            self.expects(event),
        ensures
            match r {
                Ok(next) => self.went_well(event) && next == self.after(*plan, event) && next.wf(
                    *plan,
                ),
                Err(e) => !self.went_well(event) && self.is_failure(*plan, event, e),
            },
    {
        match event {
            ServeEvent::ShutdownSet(set) => match self.step {
                ServeStep::Wait => if set {
                    Ok(Bringup { step: ServeStep::Stop, ..self })
                } else {
                    Ok(self)
                },
                _ => {
                    if set {
                        return Err(DaemonError::ShutdownDuringSetup);
                    }
                    if plan.cfgs[self.socket].filter.as_str().is_empty() {
                        Ok(Bringup { filter: None, ..self }.goto_capture(plan))
                    } else {
                        Ok(Bringup { step: ServeStep::CompileFilter, ..self })
                    }
                },
            },
            ServeEvent::Compiled(Ok(filter)) => Ok(
                Bringup { filter: Some(filter), ..self }.goto_capture(plan),
            ),
            ServeEvent::Compiled(Err(source)) => Err(
                DaemonError::Afpacket {
                    socket_name: plan.cfgs[self.socket].socket_name.clone(),
                    source,
                },
            ),
            ServeEvent::Opened(Ok(())) => Ok(Bringup { step: ServeStep::SpawnDispatcher, ..self }),
            ServeEvent::Opened(Err(source)) => Err(
                DaemonError::Afpacket {
                    socket_name: plan.cfgs[self.socket].socket_name.clone(),
                    source,
                },
            ),
            ServeEvent::Spawned(Err(source)) => Err(
                DaemonError::ThreadSpawn { name: self.thread_name(plan), source },
            ),
            ServeEvent::Spawned(Ok(())) => match self.step {
                ServeStep::SpawnDispatcher => Ok(Bringup { step: ServeStep::SpawnStats, ..self }),
                ServeStep::SpawnStats => Ok(Bringup { up: self.up + 1, ..self }.goto_capture(plan)),
                _ => {
                    let sockets: usize = plan.cfgs.len();
                    let socket: usize = self.socket + 1;
                    let step = if socket < sockets {
                        ServeStep::CheckShutdown
                    } else {
                        ServeStep::Wait
                    };
                    Ok(Bringup { socket, up: 0, filter: None, step })
                },
            },
            ServeEvent::Removed => Ok(Bringup { step: ServeStep::Bind, ..self }),
            ServeEvent::Bound(Ok(())) => Ok(Bringup { step: ServeStep::SetPermissions, ..self }),
            ServeEvent::Bound(Err(source)) => Err(
                DaemonError::Listener {
                    path: plan.cfgs[self.socket].socket_name.clone(),
                    op: "bind",
                    source,
                },
            ),
            ServeEvent::Permitted(Ok(())) => Ok(
                Bringup { step: ServeStep::SetNonblocking, ..self },
            ),
            ServeEvent::Permitted(Err(e)) => Err(e),
            ServeEvent::Nonblocking(Ok(())) => Ok(Bringup { step: ServeStep::SpawnAccept, ..self }),
            ServeEvent::Nonblocking(Err(source)) => Err(DaemonError::SetNonblocking { source }),
        }
    }
}

/// Begins to bring up the daemon.
pub fn setup_and_wait(plan: &Plan) -> (r: Bringup)
    requires
        plan.wf(),
    ensures
        r.wf(*plan),
        r == (if plan.cfgs@.len() > 0 {
            Bringup::first()
        } else {
            Bringup::first().at(ServeStep::Wait)
        }),
{
    let step = if plan.cfgs.len() > 0 {
        ServeStep::CheckShutdown
    } else {
        ServeStep::Wait
    };
    Bringup { socket: 0, up: 0, filter: None, step }
}

/// What comes of a step that goes well, where `filters` are what the filters of the
/// sockets compile to and the daemon is not to stop.
pub open spec fn success(b: Bringup, filters: Seq<Vec<SockFilter>>) -> ServeEvent {
    match b.step {
        ServeStep::CheckShutdown => ServeEvent::ShutdownSet(false),
        ServeStep::CompileFilter => ServeEvent::Compiled(Ok(filters[b.socket as int])),
        ServeStep::OpenCapture => ServeEvent::Opened(Ok(())),
        ServeStep::RemoveStale => ServeEvent::Removed,
        ServeStep::Bind => ServeEvent::Bound(Ok(())),
        ServeStep::SetPermissions => ServeEvent::Permitted(Ok(())),
        ServeStep::SetNonblocking => ServeEvent::Nonblocking(Ok(())),
        ServeStep::Wait => ServeEvent::ShutdownSet(false),
        _ => ServeEvent::Spawned(Ok(())),
    }
}

/// Where `n` steps that go well lead.
pub open spec fn reached(
    b: Bringup,
    plan: Plan,
    filters: Seq<Vec<SockFilter>>,
    n: nat,
) -> Bringup
    decreases n,
{
    if n == 0 {
        b
    } else {
        reached(b.after(plan, success(b, filters)), plan, filters, (n - 1) as nat)
    }
}

/// The steps on the way.
pub open spec fn steps(
    b: Bringup,
    plan: Plan,
    filters: Seq<Vec<SockFilter>>,
    n: nat,
) -> Seq<ServeStep>
    decreases n,
{
    if n == 0 {
        seq![]
    } else {
        seq![b.step] + steps(b.after(plan, success(b, filters)), plan, filters, (n - 1) as nat)
    }
}

/// The steps for `n` capture sockets.
pub open spec fn capture_steps(n: nat) -> Seq<ServeStep>
    decreases n,
{
    if n == 0 {
        seq![]
    } else {
        seq![ServeStep::OpenCapture, ServeStep::SpawnDispatcher, ServeStep::SpawnStats]
            + capture_steps((n - 1) as nat)
    }
}

/// The steps for one socket: all its capture sockets are up, with their threads,
/// before its listener is bound, and clients are accepted last.
pub open spec fn socket_steps(cfg: SocketConfig) -> Seq<ServeStep> {
    (if cfg.filter@.len() == 0 {
        seq![ServeStep::CheckShutdown]
    } else {
        seq![ServeStep::CheckShutdown, ServeStep::CompileFilter]
    }) + capture_steps(cfg.fanout_size as nat) + seq![
        ServeStep::RemoveStale,
        ServeStep::Bind,
        ServeStep::SetPermissions,
        ServeStep::SetNonblocking,
        ServeStep::SpawnAccept,
    ]
}

/// The steps for all sockets from the first of `cfgs` on.
pub open spec fn all_steps(cfgs: Seq<SocketConfig>) -> Seq<ServeStep>
    decreases cfgs.len(),
{
    if cfgs.len() == 0 {
        seq![]
    } else {
        socket_steps(cfgs[0]) + all_steps(cfgs.drop_first())
    }
}

proof fn lemma_steps_join(
    b: Bringup,
    plan: Plan,
    filters: Seq<Vec<SockFilter>>,
    m: nat,
    n: nat,
)
    ensures
        reached(b, plan, filters, m + n) == reached(
            reached(b, plan, filters, m),
            plan,
            filters,
            n,
        ),
        steps(b, plan, filters, m + n) == steps(b, plan, filters, m) + steps(
            reached(b, plan, filters, m),
            plan,
            filters,
            n,
        ),
    decreases m,
{
    if m == 0 {
        assert(steps(b, plan, filters, n) =~= steps(b, plan, filters, 0) + steps(
            b,
            plan,
            filters,
            n,
        ));
    } else {
        let next = b.after(plan, success(b, filters));
        let rest = (m - 1) as nat;
        lemma_steps_join(next, plan, filters, rest, n);
        assert((m + n - 1) as nat == rest + n);
        assert(steps(b, plan, filters, m + n) =~= steps(b, plan, filters, m) + steps(
            reached(b, plan, filters, m),
            plan,
            filters,
            n,
        ));
    }
}

proof fn lemma_capture_steps(b: Bringup, plan: Plan, filters: Seq<Vec<SockFilter>>)
    requires
        b.socket < plan.cfgs@.len(),
        b.up <= plan.cfgs@[b.socket as int].fanout_size,
        b == b.next_capture(plan),
    ensures
        ({
            let fanout = plan.cfgs@[b.socket as int].fanout_size;
            let n = (fanout - b.up) as nat;
            &&& capture_steps(n).len() == 3 * n
            &&& steps(b, plan, filters, 3 * n) == capture_steps(n)
            &&& reached(b, plan, filters, 3 * n) == (Bringup {
                up: fanout,
                step: ServeStep::RemoveStale,
                ..b
            })
        }),
    decreases plan.cfgs@[b.socket as int].fanout_size - b.up,
{
    let fanout = plan.cfgs@[b.socket as int].fanout_size;
    let n = (fanout - b.up) as nat;
    if n > 0 {
        reveal_with_fuel(reached, 4);
        reveal_with_fuel(steps, 4);
        let next = (Bringup { up: (b.up + 1) as u16, ..b }).next_capture(plan);
        assert(reached(b, plan, filters, 3) == next);
        assert(steps(b, plan, filters, 3) =~= seq![
            ServeStep::OpenCapture,
            ServeStep::SpawnDispatcher,
            ServeStep::SpawnStats,
        ]);
        lemma_capture_steps(next, plan, filters);
        lemma_steps_join(b, plan, filters, 3, (3 * (n - 1)) as nat);
        assert(3 * n == 3 + 3 * (n - 1));
    }
}

proof fn lemma_listener_steps(b: Bringup, plan: Plan, filters: Seq<Vec<SockFilter>>)
    requires
        b.step is RemoveStale,
    ensures
        steps(b, plan, filters, 5) == seq![
            ServeStep::RemoveStale,
            ServeStep::Bind,
            ServeStep::SetPermissions,
            ServeStep::SetNonblocking,
            ServeStep::SpawnAccept,
        ],
        reached(b, plan, filters, 5) == b.next_socket(plan),
{
    reveal_with_fuel(reached, 6);
    reveal_with_fuel(steps, 6);
    assert(steps(b, plan, filters, 5) =~= seq![
        ServeStep::RemoveStale,
        ServeStep::Bind,
        ServeStep::SetPermissions,
        ServeStep::SetNonblocking,
        ServeStep::SpawnAccept,
    ]);
}

proof fn lemma_socket_steps(b: Bringup, plan: Plan, filters: Seq<Vec<SockFilter>>)
    requires
        b.step is CheckShutdown,
        b.up == 0,
        b.socket < plan.cfgs@.len(),
    ensures
        ({
            let s = socket_steps(plan.cfgs@[b.socket as int]);
            &&& steps(b, plan, filters, s.len()) == s
            &&& reached(b, plan, filters, s.len()) == b.next_socket(plan)
        }),
{
    let cfg = plan.cfgs@[b.socket as int];
    let s = socket_steps(cfg);
    let head = if cfg.filter@.len() == 0 {
        seq![ServeStep::CheckShutdown]
    } else {
        seq![ServeStep::CheckShutdown, ServeStep::CompileFilter]
    };
    let tail = seq![
        ServeStep::RemoveStale,
        ServeStep::Bind,
        ServeStep::SetPermissions,
        ServeStep::SetNonblocking,
        ServeStep::SpawnAccept,
    ];
    let start = (Bringup {
        filter: if cfg.filter@.len() == 0 {
            None
        } else {
            Some(filters[b.socket as int])
        },
        ..b
    }).next_capture(plan);
    assert(reached(b, plan, filters, head.len()) == start && steps(
        b,
        plan,
        filters,
        head.len(),
    ) =~= head) by {
        reveal_with_fuel(reached, 3);
        reveal_with_fuel(steps, 3);
    }
    lemma_capture_steps(start, plan, filters);
    let k = capture_steps(cfg.fanout_size as nat).len();
    let listen = reached(start, plan, filters, k);
    lemma_listener_steps(listen, plan, filters);
    lemma_steps_join(start, plan, filters, k, 5);
    lemma_steps_join(b, plan, filters, head.len(), k + 5);
    assert(s.len() == head.len() + (k + 5));
    assert(s =~= head + (capture_steps(cfg.fanout_size as nat) + tail));
}

proof fn lemma_all_steps(b: Bringup, plan: Plan, filters: Seq<Vec<SockFilter>>)
    requires
        b.step is CheckShutdown,
        b.up == 0,
        b.socket < plan.cfgs@.len(),
    ensures
        ({
            let s = all_steps(plan.cfgs@.skip(b.socket as int));
            &&& steps(b, plan, filters, s.len()) == s
            &&& reached(b, plan, filters, s.len()).step is Wait
        }),
    decreases plan.cfgs@.len() - b.socket,
{
    assert(plan.cfgs@.len() == plan.cfgs.len());
    let rest = plan.cfgs@.skip(b.socket as int);
    let cfg = plan.cfgs@[b.socket as int];
    let next = b.next_socket(plan);
    lemma_socket_steps(b, plan, filters);
    assert(rest[0] == cfg);
    assert(rest.drop_first() =~= plan.cfgs@.skip(b.socket + 1));
    let more = all_steps(rest.drop_first());
    lemma_steps_join(b, plan, filters, socket_steps(cfg).len(), more.len());
    if b.socket + 1 < plan.cfgs@.len() {
        lemma_all_steps(next, plan, filters);
    } else {
        assert(rest.drop_first().len() == 0);
        assert(more =~= seq![]);
        assert(steps(next, plan, filters, 0) =~= more);
    }
}

/// The order in which a daemon comes up: socket after socket, each with as many
/// capture sockets as its fanout says, each capture socket with its two threads,
/// and only then the listener; after the last socket the daemon waits.
pub proof fn law_bringup_order(plan: Plan, filters: Seq<Vec<SockFilter>>)
    requires
        plan.cfgs@.len() > 0,
    ensures
        ({
            let s = all_steps(plan.cfgs@);
            &&& steps(Bringup::first(), plan, filters, s.len()) == s
            &&& reached(Bringup::first(), plan, filters, s.len()).step is Wait
        }),
{
    lemma_all_steps(Bringup::first(), plan, filters);
    assert(plan.cfgs@.skip(0) =~= plan.cfgs@);
}

/// What can be served: a file that could be read and parsed, with at least one socket and
/// no more than there are fanout identifiers, whose sockets all have blocks and an
/// interface, and of which no two have one name or ask for one identifier.
pub proof fn law_what_can_be_served(cfgs: Vec<SocketConfig>, e: OsError, why: String)
    ensures
        !can_serve(ConfigFile::Unreadable(e)),
        !can_serve(ConfigFile::Unparsable(why)),
        can_serve(ConfigFile::Parsed(cfgs)) <==> {
            &&& 1 <= cfgs@.len() <= 65535
            &&& forall|i: int|
                0 <= i < cfgs@.len() ==> (#[trigger] cfgs@[i]).block_size > 0
                    && cfgs@[i].num_blocks > 0 && cfgs@[i].interface@.len() > 0
            &&& forall|a: int, b: int|
                0 <= a < b < cfgs@.len() ==> #[trigger] cfgs@[a].socket_name@
                    != #[trigger] cfgs@[b].socket_name@
            &&& forall|a: int, b: int|
                0 <= a < b < cfgs@.len() && cfgs@[a].fanout_id > 0 ==> (#[trigger] cfgs@[a]).fanout_id
                    != (#[trigger] cfgs@[b]).fanout_id
        },
{
    let ids = config::asked(cfgs@);
    config::law_names_must_differ(cfgs@, 0);
    config::law_asked_identifiers_must_differ(ids, 0);
    assert forall|i: int| 0 <= i < cfgs@.len() implies (config::fault(#[trigger] cfgs@[i]) is None
        <==> cfgs@[i].block_size > 0 && cfgs@[i].num_blocks > 0 && cfgs@[i].interface@.len()
        > 0) by {
        config::law_what_a_socket_needs(cfgs@[i]);
    }
    assert(forall|i: int| 0 <= i < cfgs@.len() ==> #[trigger] ids[i] == cfgs@[i].fanout_id);
    if can_serve(ConfigFile::Parsed(cfgs)) {
        assert forall|a: int, b: int|
            0 <= a < b < cfgs@.len() && cfgs@[a].fanout_id > 0 implies (#[trigger] cfgs@[a]).fanout_id
            != (#[trigger] cfgs@[b]).fanout_id by {
            assert(ids[a] != ids[b]);
        }
        assert forall|i: int| 0 <= i < cfgs@.len() implies (#[trigger] cfgs@[i]).block_size > 0
            && cfgs@[i].num_blocks > 0 && cfgs@[i].interface@.len() > 0 by {
            assert(config::fault(cfgs@[i]) is None);
        }
    }
    if forall|a: int, b: int|
        0 <= a < b < cfgs@.len() && cfgs@[a].fanout_id > 0 ==> (#[trigger] cfgs@[a]).fanout_id != (
        #[trigger] cfgs@[b]).fanout_id {
        assert forall|a: int, b: int| 0 <= a < b < ids.len() && ids[a] > 0 implies #[trigger] ids[a]
            != #[trigger] ids[b] by {
            assert(cfgs@[a].fanout_id != cfgs@[b].fanout_id);
        }
    }
}

/// How bringing up goes on when a step goes well. A filter is compiled exactly where one is
/// configured, and kept. Then come as many capture sockets as the fanout says, each with a
/// dispatcher and a reporter; then the listener: what an earlier run left is removed, it is
/// bound, given away and made non-blocking, and clients are accepted; then the next socket,
/// from the beginning; and after the last one the daemon waits until it is to stop.
pub proof fn law_bring_up_goes_on(b: Bringup, plan: Plan, filter: Vec<SockFilter>)
    requires
        b.socket < plan.cfgs@.len(),
        b.socket < usize::MAX,
        b.up < u16::MAX,
    ensures
        ({
            let cfg = plan.cfgs@[b.socket as int];
            let run_on = b.after(plan, ServeEvent::ShutdownSet(false));
            let compiled = b.after(plan, ServeEvent::Compiled(Ok(filter)));
            let spawned = b.after(plan, ServeEvent::Spawned(Ok(())));
            &&& b.step is CheckShutdown && cfg.filter@.len() > 0 ==> run_on.step is CompileFilter
                && run_on.up == b.up
            &&& b.step is CheckShutdown && cfg.filter@.len() == 0 ==> run_on.filter is None
                && run_on.up == b.up && (run_on.step is OpenCapture <==> b.up < cfg.fanout_size)
                && (run_on.step is RemoveStale <==> b.up >= cfg.fanout_size)
            &&& b.step is CompileFilter ==> compiled.filter == Some(filter) && compiled.up == b.up
                && (compiled.step is OpenCapture <==> b.up < cfg.fanout_size) && (
            compiled.step is RemoveStale <==> b.up >= cfg.fanout_size)
            &&& b.step is OpenCapture ==> b.after(plan, ServeEvent::Opened(Ok(())))
                == b.at(ServeStep::SpawnDispatcher)
            &&& b.step is SpawnDispatcher ==> spawned == b.at(ServeStep::SpawnStats)
            &&& b.step is SpawnStats ==> spawned.up == b.up + 1 && spawned.filter == b.filter && (
            spawned.step is OpenCapture <==> b.up + 1 < cfg.fanout_size) && (
            spawned.step is RemoveStale <==> b.up + 1 >= cfg.fanout_size) && spawned.socket
                == b.socket
            &&& b.step is RemoveStale ==> b.after(plan, ServeEvent::Removed).step is Bind
            &&& b.step is Bind ==> b.after(plan, ServeEvent::Bound(Ok(()))).step is SetPermissions
            &&& b.step is SetPermissions ==> b.after(
                plan,
                ServeEvent::Permitted(Ok(())),
            ).step is SetNonblocking
            &&& b.step is SetNonblocking ==> b.after(
                plan,
                ServeEvent::Nonblocking(Ok(())),
            ).step is SpawnAccept
            &&& b.step is SpawnAccept ==> spawned.socket == b.socket + 1 && spawned.up == 0
                && spawned.filter is None && (spawned.step is CheckShutdown <==> b.socket + 1
                < plan.cfgs@.len()) && (spawned.step is Wait <==> b.socket + 1 >= plan.cfgs@.len())
            &&& b.step is Wait ==> run_on == b && b.after(
                plan,
                ServeEvent::ShutdownSet(true),
            ).step is Stop
            &&& b.step !is SpawnAccept ==> run_on.socket == b.socket
        }),
{
}

/// What stops a bring-up: that the daemon is to stop before all is up, and every step that
/// fails. The error says which socket or thread it was, and what the operating system said.
/// While the daemon waits with all up, to be told to stop is no failure.
pub proof fn law_what_stops_a_bring_up(b: Bringup, plan: Plan, cause: OsError, e: DaemonError)
    requires
        b.socket < plan.cfgs@.len(),
    ensures
        ({
            let name = plan.cfgs@[b.socket as int].socket_name@;
            let spawned = ServeEvent::Spawned(Err(cause));
            let bound = ServeEvent::Bound(Err(cause));
            let unblocked = ServeEvent::Nonblocking(Err(cause));
            &&& b.step is CheckShutdown ==> !b.went_well(ServeEvent::ShutdownSet(true))
                && b.went_well(ServeEvent::ShutdownSet(false)) && (b.is_failure(
                plan,
                ServeEvent::ShutdownSet(true),
                e,
            ) <==> e is ShutdownDuringSetup)
            &&& b.step is Wait ==> b.went_well(ServeEvent::ShutdownSet(true)) && b.went_well(
                ServeEvent::ShutdownSet(false),
            )
            &&& !b.went_well(spawned) && !b.went_well(bound) && !b.went_well(unblocked)
            &&& b.went_well(ServeEvent::Spawned(Ok(()))) && b.went_well(ServeEvent::Bound(Ok(())))
                && b.went_well(ServeEvent::Nonblocking(Ok(()))) && b.went_well(ServeEvent::Removed)
                && b.went_well(ServeEvent::Opened(Ok(()))) && b.went_well(
                ServeEvent::Permitted(Ok(())),
            )
            &&& b.is_failure(plan, spawned, e) && b.step is SpawnDispatcher ==> (e matches
                DaemonError::ThreadSpawn { name: n, source } && n@ == "dispatch-"@ + name && source
                == cause)
            &&& b.is_failure(plan, spawned, e) && b.step is SpawnStats ==> (e matches
                DaemonError::ThreadSpawn { name: n, source } && n@ == "stats-"@ + name && source
                == cause)
            &&& b.is_failure(plan, spawned, e) && b.step is SpawnAccept ==> (e matches
                DaemonError::ThreadSpawn { name: n, source } && n@ == "accept-"@ + name && source
                == cause)
            &&& b.is_failure(plan, bound, e) ==> (e matches DaemonError::Listener {
                path,
                op,
                source,
            } && path@ == name && op@ == "bind"@ && source == cause)
            &&& b.is_failure(plan, unblocked, e) ==> (e matches DaemonError::SetNonblocking {
                source,
            } && source == cause)
        }),
{
}

/// A filter that cannot be compiled, a capture socket that cannot be opened and a socket
/// that cannot be given away stop the bring-up with their own errors.
pub proof fn law_errors_of_steps_are_kept(
    b: Bringup,
    plan: Plan,
    compiling: AfpacketError,
    giving: DaemonError,
    e: DaemonError,
)
    requires
        b.socket < plan.cfgs@.len(),
    ensures
        ({
            let name = plan.cfgs@[b.socket as int].socket_name@;
            let compiled = ServeEvent::Compiled(Err(compiling));
            let opened = ServeEvent::Opened(Err(compiling));
            let permitted = ServeEvent::Permitted(Err(giving));
            &&& !b.went_well(compiled) && !b.went_well(opened) && !b.went_well(permitted)
            &&& b.is_failure(plan, compiled, e) ==> (e matches DaemonError::Afpacket {
                socket_name,
                source,
            } && socket_name@ == name && source == compiling)
            &&& b.is_failure(plan, opened, e) ==> (e matches DaemonError::Afpacket {
                socket_name,
                source,
            } && socket_name@ == name && source == compiling)
            &&& b.is_failure(plan, permitted, e) ==> e == giving
        }),
{
}

/// Threads are named after what they do and the socket that they do it for.
pub proof fn law_threads_are_told_apart(b: Bringup)
    ensures
        b.step is SpawnDispatcher ==> b.thread_prefix() == "dispatch-"@,
        b.step is SpawnStats ==> b.thread_prefix() == "stats-"@,
        b.step is SpawnAccept ==> b.thread_prefix() == "accept-"@,
{
}

/// A capture socket is made with what its socket is configured with, the identifier that
/// the socket got, and the socket's filter.
pub proof fn law_capture_is_as_configured(
    cfg: SocketConfig,
    fanout_id: u16,
    filter: Option<Vec<SockFilter>>,
    c: CaptureConfig,
)
    requires
        capture_of(cfg, fanout_id, filter, c),
    ensures
        c.iface@ == cfg.interface@,
        c.block_size == cfg.block_size,
        c.num_blocks == cfg.num_blocks,
        c.block_timeout_ms == cfg.block_timeout_millis,
        c.fanout_id == fanout_id,
        c.fanout_size == cfg.fanout_size,
        c.fanout_type == cfg.fanout_type,
        c.bpf_filter is Some <==> filter is Some,
        filter is Some ==> c.bpf_filter->0@ == filter->0@,
{
}

/// Bringing up begins with the first socket and none of its capture sockets.
pub proof fn law_bring_up_begins()
    ensures
        Bringup::first().socket == 0,
        Bringup::first().up == 0,
        Bringup::first().filter is None,
        Bringup::first().step is CheckShutdown,
{
}

/// Which obstacle is reported, and how. A file that cannot be read or parsed comes first,
/// with its path and the reason. Then comes the first socket that lacks something, by its
/// name and what it lacks; then that there are no sockets; then the first name that was
/// there before; then the first identifier that was asked for before; and last that the
/// identifiers do not suffice.
pub proof fn law_which_obstacle_is_reported(
    path: Seq<char>,
    cfgs: Vec<SocketConfig>,
    source: OsError,
    why: String,
    e: DaemonError,
)
    ensures
        is_obstacle(path, ConfigFile::Unreadable(source), e) ==> (e matches
            DaemonError::ConfigRead { path: p, source: s } && p@ == path && s == source),
        is_obstacle(path, ConfigFile::Unparsable(why), e) ==> (e matches DaemonError::ConfigParse {
            path: p,
            reason,
        } && p@ == path && reason@ == why@),
        is_obstacle(path, ConfigFile::Parsed(cfgs), e) ==> {
            let c = cfgs@;
            let lacking = |i: int|
                c[i].block_size == 0 || c[i].num_blocks == 0 || c[i].interface@.len() == 0;
            if exists|i: int| 0 <= i < c.len() && #[trigger] lacking(i) {
                e matches DaemonError::ConfigValidate(s) && exists|i: int|
                    0 <= i < c.len() && #[trigger] lacking(i) && (forall|j: int|
                        0 <= j < i ==> !#[trigger] lacking(j)) && s@ == c[i].socket_name@ + (
                    if c[i].block_size == 0 {
                        ": BlockSize must be > 0"@
                    } else if c[i].num_blocks == 0 {
                        ": NumBlocks must be > 0"@
                    } else {
                        ": Interface must be specified"@
                    })
            } else if c.len() == 0 {
                e matches DaemonError::ConfigValidate(s) && s@
                    == "config is empty \u{2014} no sockets to serve"@
            } else if exists|a: int, b: int|
                0 <= a < b < c.len() && #[trigger] c[a].socket_name@
                    == #[trigger] c[b].socket_name@ {
                e matches DaemonError::DuplicateSocketName(s) && exists|a: int, b: int|
                    0 <= a < b < c.len() && #[trigger] c[a].socket_name@ == s@
                        && #[trigger] c[b].socket_name@ == s@ && (forall|x: int, y: int|
                        0 <= x < y < b ==> #[trigger] c[x].socket_name@
                            != #[trigger] c[y].socket_name@)
            } else if exists|a: int, b: int|
                0 <= a < b < c.len() && c[a].fanout_id > 0 && (#[trigger] c[a]).fanout_id == (
                #[trigger] c[b]).fanout_id {
                e matches DaemonError::DuplicateFanoutId(id) && exists|a: int, b: int|
                    0 <= a < b < c.len() && id > 0 && (#[trigger] c[a]).fanout_id == id && (
                    #[trigger] c[b]).fanout_id == id
            } else {
                e is FanoutIdsExhausted
            }
        },
{
    let c = cfgs@;
    let ids = config::asked(c);
    let file = ConfigFile::Parsed(cfgs);
    let lacking = |i: int|
        c[i].block_size == 0 || c[i].num_blocks == 0 || c[i].interface@.len() == 0;
    assert forall|i: int| 0 <= i < c.len() implies (#[trigger] lacking(i) <==> config::fault(
        c[i],
    ) is Some) by {
        config::law_what_a_socket_needs(c[i]);
    }
    if is_obstacle(path, file, e) {
        if exists|i: int| 0 <= i < c.len() && #[trigger] lacking(i) {
            let i = choose|i: int| 0 <= i < c.len() && #[trigger] lacking(i);
            lemma_there_is_a_first_fault(c, i);
            assert(exists|k: int| config::first_fault(c, k));
            let k = choose|k: int| #[trigger]
                config::first_fault(c, k) && e->ConfigValidate_0@ == c[k].socket_name@
                    + config::fault(c[k])->0;
            config::law_what_a_socket_needs(c[k]);
            assert(lacking(k));
            assert forall|j: int| 0 <= j < k implies !#[trigger] lacking(j) by {
                assert(config::fault(c[j]) is None);
            }
        } else {
            assert forall|i: int| !config::first_fault(c, i) by {
                if config::first_fault(c, i) {
                    assert(lacking(i));
                }
            }
            if c.len() > 0 {
                if exists|a: int, b: int|
                    0 <= a < b < c.len() && #[trigger] c[a].socket_name@
                        == #[trigger] c[b].socket_name@ {
                    let (a, b) = choose|a: int, b: int|
                        0 <= a < b < c.len() && #[trigger] c[a].socket_name@
                            == #[trigger] c[b].socket_name@;
                    assert(config::repeats_name(c, b));
                    lemma_there_is_a_first_name(c, b);
                    let j = choose|j: int| #[trigger]
                        config::first_repeated_name(c, j) && e->DuplicateSocketName_0@
                            == c[j].socket_name@;
                    config::law_names_must_differ(c, j);
                    let i = choose|i: int|
                        0 <= i < j && #[trigger] c[i].socket_name@ == c[j].socket_name@;
                    assert(c[i].socket_name@ == c[j].socket_name@);
                } else {
                    assert forall|j: int| !config::first_repeated_name(c, j) by {
                        config::law_names_must_differ(c, j);
                    }
                    if exists|a: int, b: int|
                        0 <= a < b < c.len() && c[a].fanout_id > 0 && (#[trigger] c[a]).fanout_id
                            == (#[trigger] c[b]).fanout_id {
                        let (a, b) = choose|a: int, b: int|
                            0 <= a < b < c.len() && c[a].fanout_id > 0 && (
                            #[trigger] c[a]).fanout_id == (#[trigger] c[b]).fanout_id;
                        assert(ids[a] == ids[b]);
                        assert(config::repeats_id(ids, b));
                        lemma_there_is_a_first_id(ids, b);
                        let j = choose|j: int| #[trigger]
                            config::first_repeated_id(ids, j) && e->DuplicateFanoutId_0 == ids[j];
                        config::law_asked_identifiers_must_differ(ids, j);
                        let i = choose|i: int| 0 <= i < j && #[trigger] ids[i] == ids[j];
                        assert(c[i].fanout_id == c[j].fanout_id);
                    } else {
                        assert forall|j: int| !config::first_repeated_id(ids, j) by {
                            config::law_asked_identifiers_must_differ(ids, j);
                            if config::first_repeated_id(ids, j) {
                                let i = choose|i: int| 0 <= i < j && #[trigger] ids[i] == ids[j];
                                assert(c[i].fanout_id == c[j].fanout_id);
                            }
                        }
                    }
                }
            }
        }
    }
}

proof fn lemma_there_is_a_first_fault(c: Seq<SocketConfig>, i: int)
    requires
        0 <= i < c.len(),
        config::fault(c[i]) is Some,
    ensures
        exists|k: int| config::first_fault(c, k),
    decreases i,
{
    if exists|j: int| 0 <= j < i && config::fault(#[trigger] c[j]) is Some {
        let j = choose|j: int| 0 <= j < i && config::fault(#[trigger] c[j]) is Some;
        lemma_there_is_a_first_fault(c, j);
    } else {
        assert(config::first_fault(c, i));
    }
}

proof fn lemma_there_is_a_first_name(c: Seq<SocketConfig>, i: int)
    requires
        0 <= i < c.len(),
        config::repeats_name(c, i),
    ensures
        exists|k: int| config::first_repeated_name(c, k),
    decreases i,
{
    if exists|j: int| 0 <= j < i && #[trigger] config::repeats_name(c, j) {
        let j = choose|j: int| 0 <= j < i && #[trigger] config::repeats_name(c, j);
        lemma_there_is_a_first_name(c, j);
    } else {
        assert(config::first_repeated_name(c, i));
    }
}

proof fn lemma_there_is_a_first_id(ids: Seq<u16>, i: int)
    requires
        0 <= i < ids.len(),
        config::repeats_id(ids, i),
    ensures
        exists|k: int| config::first_repeated_id(ids, k),
    decreases i,
{
    if exists|j: int| 0 <= j < i && #[trigger] config::repeats_id(ids, j) {
        let j = choose|j: int| 0 <= j < i && #[trigger] config::repeats_id(ids, j);
        lemma_there_is_a_first_id(ids, j);
    } else {
        assert(config::first_repeated_id(ids, i));
    }
}

/// While a socket is brought up, a step changes nothing but what it is for: which socket it
/// is, how many of its capture sockets are up and its filter stay as they were.
pub proof fn law_steps_change_only_their_own(b: Bringup, plan: Plan, event: ServeEvent)
    ensures
        ({
            let next = b.after(plan, event);
            &&& b.step !is SpawnAccept ==> next.socket == b.socket
            &&& b.step !is SpawnAccept && b.step !is SpawnStats ==> next.up == b.up
            &&& b.step !is SpawnAccept && b.step !is CheckShutdown && b.step !is CompileFilter
                ==> next.filter == b.filter
            &&& b.went_well(ServeEvent::Removed)
            &&& event matches ServeEvent::Compiled(r) ==> (b.went_well(event) <==> r is Ok)
        }),
        ({
            let moved = b.at(ServeStep::Stop);
            &&& moved.step is Stop
            &&& moved.socket == b.socket && moved.up == b.up && moved.filter == b.filter
        }),
        b.at(ServeStep::SpawnDispatcher) == (Bringup { step: ServeStep::SpawnDispatcher, ..b }),
        b.at(ServeStep::SpawnStats) == (Bringup { step: ServeStep::SpawnStats, ..b }),
{
}

} // verus!
