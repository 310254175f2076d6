use testimony::afpacket::{AfpacketError, SockFilter};
use testimony::cleanup::{CleanupStep, Workers};
use testimony::config::{ConfigFile, SocketConfig};
use testimony::daemon_error::{Cause, DaemonError};
use testimony::os_error::OsError;
use testimony::permissions::{
    group_query, lookup_gid, lookup_uid, on_chown, on_group, on_user, set_socket_permissions,
    user_query, IdAnswer, IdQuery, PermissionStep,
};
use testimony::serve::{run, setup_and_wait, Bringup, Plan, ServeEvent, ServeStep};

fn socket(name: &str, fanout_size: u16, fanout_id: u16, filter: &str) -> SocketConfig {
    SocketConfig {
        socket_name: name.to_string(),
        interface: "eth0".to_string(),
        block_size: 1024,
        num_blocks: 16,
        block_timeout_millis: 1000,
        fanout_type: 3,
        fanout_size,
        fanout_id,
        user: String::new(),
        group: String::new(),
        filter: filter.to_string(),
    }
}

fn os(code: i32) -> OsError {
    OsError { code: Some(code), text: format!("os error {code}") }
}

fn plan() -> Plan {
    let file = ConfigFile::Parsed(vec![
        socket("/tmp/a", 2, 0, "udp"),
        socket("/tmp/b", 0, 1, ""),
    ]);
    run("/etc/testimony.conf", file).expect("plan")
}

fn success(step: ServeStep) -> ServeEvent {
    match step {
        ServeStep::CheckShutdown | ServeStep::Wait => ServeEvent::ShutdownSet(false),
        ServeStep::CompileFilter => {
            ServeEvent::Compiled(Ok(vec![SockFilter { code: 6, jt: 0, jf: 0, k: 1 }]))
        }
        ServeStep::OpenCapture => ServeEvent::Opened(Ok(())),
        ServeStep::RemoveStale => ServeEvent::Removed,
        ServeStep::Bind => ServeEvent::Bound(Ok(())),
        ServeStep::SetPermissions => ServeEvent::Permitted(Ok(())),
        ServeStep::SetNonblocking => ServeEvent::Nonblocking(Ok(())),
        _ => ServeEvent::Spawned(Ok(())),
    }
}

fn failure(step: ServeStep) -> ServeEvent {
    match step {
        ServeStep::CheckShutdown => ServeEvent::ShutdownSet(true),
        ServeStep::CompileFilter => ServeEvent::Compiled(Err(AfpacketError::Poll(os(1)))),
        ServeStep::OpenCapture => ServeEvent::Opened(Err(AfpacketError::Stats(os(2)))),
        ServeStep::Bind => ServeEvent::Bound(Err(os(98))),
        ServeStep::SetPermissions => ServeEvent::Permitted(Err(DaemonError::CmsgFirstHdrNull)),
        ServeStep::SetNonblocking => ServeEvent::Nonblocking(Err(os(9))),
        _ => ServeEvent::Spawned(Err(os(11))),
    }
}

#[test]
fn a_plan_has_an_identifier_for_each_socket() {
    let p = plan();
    assert_eq!(p.fanout_ids, vec![2, 1]);
    assert_eq!(p.cfgs[1].fanout_size, 1);
}

#[test]
fn empty_config_exits_fast() {
    let err = run("/etc/t.conf", ConfigFile::Parsed(Vec::new())).expect_err("empty");
    assert_eq!(err.message(), "invalid config: config is empty \u{2014} no sockets to serve");
}

#[test]
fn missing_config_exits_fast() {
    assert!(run("/etc/t.conf", ConfigFile::Unreadable(os(2))).is_err());
}

#[test]
fn malformed_json_exits_fast() {
    let file = ConfigFile::Unparsable("key must be a string".to_string());
    assert!(run("/etc/t.conf", file).is_err());
}

#[test]
fn invalid_block_size_exits_fast() {
    let mut s = socket("/tmp/_testimony_smoke_bs.sock", 1, 0, "");
    s.block_size = 0;
    assert!(run("/etc/t.conf", ConfigFile::Parsed(vec![s])).is_err());
}

#[test]
fn duplicate_socket_name_exits_fast() {
    let file = ConfigFile::Parsed(vec![
        socket("/tmp/_testimony_dup.sock", 1, 0, ""),
        socket("/tmp/_testimony_dup.sock", 1, 0, ""),
    ]);
    let err = run("/etc/t.conf", file).expect_err("duplicate");
    assert!(matches!(err, DaemonError::DuplicateSocketName(_)));
}

#[test]
fn duplicate_fanout_id_exits_fast() {
    let file = ConfigFile::Parsed(vec![
        socket("/tmp/_testimony_fid_a.sock", 1, 7, ""),
        socket("/tmp/_testimony_fid_b.sock", 1, 7, ""),
    ]);
    let err = run("/etc/t.conf", file).expect_err("duplicate");
    assert!(matches!(err, DaemonError::DuplicateFanoutId(7)));
}

#[test]
fn the_daemon_comes_up_in_order() {
    let p = plan();
    let mut b = setup_and_wait(&p);
    let mut steps = Vec::new();
    let mut names = Vec::new();
    while b.step != ServeStep::Wait {
        steps.push(b.step);
        if matches!(
            b.step,
            ServeStep::SpawnDispatcher | ServeStep::SpawnStats | ServeStep::SpawnAccept
        ) {
            names.push(b.thread_name(&p));
        }
        let event = success(b.step);
        b = b.advance(&p, event).expect("well");
    }
    let capture = [ServeStep::OpenCapture, ServeStep::SpawnDispatcher, ServeStep::SpawnStats];
    let listen = [
        ServeStep::RemoveStale,
        ServeStep::Bind,
        ServeStep::SetPermissions,
        ServeStep::SetNonblocking,
        ServeStep::SpawnAccept,
    ];
    let mut want = vec![ServeStep::CheckShutdown, ServeStep::CompileFilter];
    want.extend_from_slice(&capture);
    want.extend_from_slice(&capture);
    want.extend_from_slice(&listen);
    want.push(ServeStep::CheckShutdown);
    want.extend_from_slice(&capture);
    want.extend_from_slice(&listen);
    assert_eq!(steps, want);
    assert_eq!(names[0], "dispatch-/tmp/a");
    assert_eq!(names[1], "stats-/tmp/a");
    assert_eq!(names[4], "accept-/tmp/a");
    let b = b.advance(&p, ServeEvent::ShutdownSet(false)).expect("waits");
    assert_eq!(b.step, ServeStep::Wait);
    let b = b.advance(&p, ServeEvent::ShutdownSet(true)).expect("stops");
    assert_eq!(b.step, ServeStep::Stop);
}

#[test]
fn capture_sockets_follow_the_configuration() {
    let p = plan();
    let b = Bringup {
        socket: 0,
        up: 1,
        filter: Some(vec![SockFilter { code: 6, jt: 1, jf: 2, k: 3 }]),
        step: ServeStep::OpenCapture,
    };
    let c = b.capture_config(&p);
    assert_eq!((c.block_size, c.num_blocks, c.block_timeout_ms), (1024, 16, 1000));
    assert_eq!((c.fanout_id, c.fanout_size, c.fanout_type), (2, 2, 3));
    assert_eq!(c.iface, "eth0");
    assert_eq!(c.bpf_filter.expect("filter")[0].k, 3);
}

#[test]
fn bringing_up_fails_by_name() {
    let p = plan();
    let mut b = setup_and_wait(&p);
    let mut messages = Vec::new();
    while b.step != ServeStep::Wait {
        if b.step != ServeStep::RemoveStale && b.socket == 0 && b.up == 0 || b.step == ServeStep::Bind
            || b.step == ServeStep::SetPermissions || b.step == ServeStep::SetNonblocking
            || b.step == ServeStep::SpawnAccept
        {
            let again = Bringup { socket: b.socket, up: b.up, filter: None, step: b.step };
            let e = again.advance(&p, failure(b.step)).expect_err("failed");
            messages.push(e.message());
        }
        let event = success(b.step);
        b = b.advance(&p, event).expect("well");
    }
    assert_eq!(
        messages[..9],
        [
            "shutdown signal arrived before all sockets were brought up",
            "AF_PACKET setup for /tmp/a: poll on AF_PACKET fd failed: os error 1",
            "AF_PACKET setup for /tmp/a: getsockopt(PACKET_STATISTICS) failed: os error 2",
            "spawning worker thread \"dispatch-/tmp/a\": os error 11",
            "spawning worker thread \"stats-/tmp/a\": os error 11",
            "bind on listener /tmp/a: os error 98",
            "CMSG_FIRSTHDR returned NULL on a buffer we sized ourselves (libc bug or kernel ABI mismatch)",
            "set_nonblocking on listener: os error 9",
            "spawning worker thread \"accept-/tmp/a\": os error 11",
        ]
    );
}

#[test]
fn causes_of_errors() {
    let e = DaemonError::Afpacket {
        socket_name: "/tmp/a".to_string(),
        source: AfpacketError::Poll(os(1)),
    };
    assert!(matches!(e.source(), Some(Cause::Afpacket(AfpacketError::Poll(_)))));
    assert!(DaemonError::FanoutIdsExhausted.source().is_none());
}

#[test]
fn users_and_groups() {
    assert!(matches!(user_query(""), Ok(IdQuery::Own)));
    assert!(matches!(user_query("root"), Ok(IdQuery::LookUp)));
    let e = user_query("ro\0t").expect_err("nul");
    assert_eq!(e.message(), "getpwnam_r(\"ro\\0t\") failed: user name contains a NUL byte");
    assert!(matches!(group_query(""), Ok(IdQuery::Known(0))));
    assert!(matches!(group_query("wheel"), Ok(IdQuery::LookUp)));
    let e = group_query("\0").expect_err("nul");
    assert_eq!(e.message(), "getgrnam_r(\"\\0\") failed: group name contains a NUL byte");
    assert!(matches!(lookup_uid("u", IdAnswer::Found(5)), Ok(5)));
    let e = lookup_uid("u", IdAnswer::NotFound).expect_err("none");
    assert_eq!(e.message(), "user \"u\" not found in /etc/passwd");
    let e = lookup_uid("u", IdAnswer::Failed(os(5))).expect_err("io");
    assert_eq!(e.message(), "getpwnam_r(\"u\") failed: os error 5");
    assert!(matches!(lookup_gid("g", IdAnswer::Found(6)), Ok(6)));
    let e = lookup_gid("g", IdAnswer::NotFound).expect_err("none");
    assert_eq!(e.message(), "group \"g\" not found in /etc/group");
    let e = lookup_gid("g", IdAnswer::Failed(os(5))).expect_err("io");
    assert_eq!(e.message(), "getgrnam_r(\"g\") failed: os error 5");
}

#[test]
fn a_socket_is_given_away() {
    let mut c = socket("/tmp/a", 1, 0, "");
    c.user = "u".to_string();
    let step = set_socket_permissions(&c).expect("user");
    assert_eq!(step, PermissionStep::FindUser(IdQuery::LookUp));
    let step = on_user(&c, IdAnswer::Found(5)).expect("group");
    assert_eq!(step, PermissionStep::FindGroup { uid: 5, query: IdQuery::Known(0) });
    let step = on_group(&c, 5, IdAnswer::Found(0)).expect("chown");
    assert_eq!(step, PermissionStep::Chown { uid: 5, gid: 0 });
    assert_eq!(on_chown(&c, 5, 0, Ok(())).expect("done"), PermissionStep::Done);
    let e = on_chown(&c, 5, 0, Err(os(1))).expect_err("denied");
    assert_eq!(e.message(), "chown(/tmp/a, uid=5, gid=0) failed: os error 1");
    let c = socket("/tmp/\0a", 1, 0, "");
    let e = on_group(&c, 5, IdAnswer::Found(0)).expect_err("path");
    assert_eq!(e.message(), "path /tmp/\0a contains a NUL byte (not a valid C string)");
}

#[test]
fn taking_down_waits_for_threads_in_time() {
    let mut w = Workers::new();
    w.cleanup(3);
    let mut steps = Vec::new();
    for elapsed in [0, 0, 0, 10, 20, 30, 40, 50] {
        steps.push(w.step);
        w.advance(elapsed);
    }
    assert_eq!(
        steps,
        vec![
            CleanupStep::SetFlag,
            CleanupStep::RemoveListeners,
            CleanupStep::StopWriters,
            CleanupStep::Join { millis: 3_000 },
            CleanupStep::Join { millis: 2_990 },
            CleanupStep::Join { millis: 2_980 },
            CleanupStep::ReleaseRings,
            CleanupStep::Finished,
        ]
    );
    w.cleanup(9);
    assert_eq!(w.step, CleanupStep::Finished);
}

#[test]
fn taking_down_leaves_late_threads_alone() {
    let mut w = Workers::new();
    w.cleanup(3);
    w.advance(0);
    w.advance(0);
    w.advance(2_999);
    assert_eq!((w.step, w.threads), (CleanupStep::Join { millis: 1 }, 2));
    w.advance(3_000);
    assert_eq!(w.step, CleanupStep::ReleaseRings);
}
