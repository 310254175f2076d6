use testimony::afpacket::{AfpacketError, CaptureConfig, SockFilter};
use testimony::capture::{
    create_capture_socket, BlockTicket, CaptureSetup, CaptureSocket, CaptureStats, MmapRing,
    Release, SetupAction, SetupEvent,
};
use testimony::clients::FanoutSlot;
use testimony::dispatch::{dispatch_loop, DispatchEvent, DispatchStep};
use testimony::fanout::fan_out;
use testimony::os_error::{OsError, PollEvent};
use testimony::stats::StatsTotals;

fn cfg() -> CaptureConfig {
    CaptureConfig {
        iface: "eth0".to_string(),
        block_size: 4096,
        num_blocks: 3,
        block_timeout_ms: 100,
        fanout_id: 7,
        fanout_size: 2,
        fanout_type: 1,
        bpf_filter: Some(vec![SockFilter { code: 6, jt: 0, jf: 0, k: 1 }]),
    }
}

fn os(code: i32) -> OsError {
    OsError { code: Some(code), text: format!("os error {code}") }
}

fn success(action: SetupAction) -> SetupEvent {
    match action {
        SetupAction::MapRing { .. } => SetupEvent::Mapped(0x1000),
        SetupAction::LookUpInterface => SetupEvent::Index(4),
        _ => SetupEvent::Done,
    }
}

fn bring_up(cfg: &CaptureConfig) -> Result<(Vec<SetupAction>, CaptureSetup), AfpacketError> {
    let mut s = create_capture_socket();
    let mut seen = Vec::new();
    while s.action != SetupAction::Ready {
        seen.push(s.action);
        s = s.advance(cfg, success(s.action))?;
    }
    Ok((seen, s))
}

fn socket() -> CaptureSocket {
    let c = cfg();
    let (_, s) = bring_up(&c).expect("up");
    CaptureSocket::from_setup(s, &c, 9).expect("ready")
}

#[test]
fn a_capture_socket_comes_up_in_order() {
    let (seen, end) = bring_up(&cfg()).expect("up");
    assert_eq!(
        seen,
        vec![
            SetupAction::OpenSocket,
            SetupAction::SetVersion,
            SetupAction::AttachFilter { len: 1 },
            SetupAction::LockFilter,
            SetupAction::RequestRing {
                block_size: 4096,
                frame_size: 4096,
                block_nr: 3,
                frame_nr: 3,
                timeout_ms: 100,
            },
            SetupAction::MapRing { len: 12288 },
            SetupAction::LookUpInterface,
            SetupAction::Bind { ifindex: 4 },
            SetupAction::SetFanout { value: 0x1_0007 },
        ]
    );
    assert_eq!((end.ring_ptr, end.ring_len), (0x1000, 12288));
    let alone = CaptureConfig { fanout_size: 1, bpf_filter: None, ..cfg() };
    assert_eq!(bring_up(&alone).expect("up").0.len(), 6);
    let high = CaptureConfig { fanout_type: 0x9000, ..cfg() };
    assert_eq!(
        bring_up(&high).expect("up").0[8],
        SetupAction::SetFanout { value: ((7u32) | (0x9000 << 16)) as i32 }
    );
}

#[test]
fn a_capture_socket_fails_by_name() {
    let c = cfg();
    let mut s = create_capture_socket();
    let mut messages = Vec::new();
    while s.action != SetupAction::Ready {
        let bad = match s.action {
            SetupAction::LookUpInterface => SetupEvent::NoInterface { last: os(19), no_device: os(1) },
            _ => SetupEvent::Failed(os(22)),
        };
        messages.push(s.advance(&c, bad).expect_err("failed").message());
        s = s.advance(&c, success(s.action)).expect("well");
    }
    assert_eq!(
        messages,
        vec![
            "socket(AF_PACKET, SOCK_RAW, htons(ETH_P_ALL)) failed: os error 22",
            "setsockopt(PACKET_VERSION) failed: os error 22",
            "setsockopt(SO_ATTACH_FILTER) failed: os error 22",
            "setsockopt(SO_LOCK_FILTER) failed: os error 22",
            "setsockopt(PACKET_RX_RING) failed: os error 22",
            "mmap(PACKET_RX_RING, len=12288) failed: os error 22",
            "if_nametoindex(\"eth0\") failed: os error 19",
            "bind to interface \"eth0\" (ifindex=4) failed: os error 22",
            "setsockopt(PACKET_FANOUT) failed: os error 22",
        ]
    );
}

#[test]
fn an_unknown_interface_without_a_number_is_no_device() {
    let c = cfg();
    let s = CaptureSetup { action: SetupAction::LookUpInterface, ring_ptr: 1, ring_len: 1 };
    let e = s
        .advance(&c, SetupEvent::NoInterface { last: os(0), no_device: os(19) })
        .expect_err("no device");
    assert_eq!(e.source().map(|e| e.code), Some(Some(19)));
}

#[test]
fn configurations_that_cannot_be_met_are_refused() {
    let mut c = cfg();
    c.bpf_filter = Some(vec![SockFilter { code: 0, jt: 0, jf: 0, k: 0 }; 65536]);
    let e = bring_up(&c).expect_err("too long");
    assert!(e.message().starts_with("BPF program too large: 65536 instructions"));
    let c = CaptureConfig { iface: "eth\0".to_string(), ..cfg() };
    let e = bring_up(&c).expect_err("nul");
    assert_eq!(
        e.message(),
        "interface name \"eth\\0\" is not a valid C string (contains NUL)"
    );
    let c = CaptureConfig { block_size: u32::MAX, num_blocks: u32::MAX, ..cfg() };
    if usize::BITS == 32 {
        let e = bring_up(&c).expect_err("overflow");
        assert!(e.message().contains("18446744065119617025 bytes"));
    }
}

#[test]
fn blocks_lie_one_after_another() {
    let s = socket();
    assert_eq!((s.raw_fd(), s.block_size(), s.num_blocks()), (9, 4096, 3));
    assert_eq!((s.ring_ptr(), s.ring_len()), (0x1000, 12288));
    assert_eq!(s.block_ptr(2).expect("block"), 8192);
    assert_eq!(s.status_offset(2), Some(8200));
    assert_eq!(s.status_offset(3), None);
    let e = s.block_ptr(3).expect_err("range");
    assert_eq!(e.message(), "block index 3 out of range (num_blocks=3)");
}

#[test]
fn a_block_is_cleared_with_its_last_reference() {
    let mut s = socket();
    assert_eq!((s.refs(1), s.refs(3)), (Some(0), None));
    let a = BlockTicket::new(&mut s, 1).expect("ticket");
    let b = BlockTicket::new(&mut s, 1).expect("ticket");
    assert!(BlockTicket::new(&mut s, 3).is_none());
    assert_eq!((a.index(), s.refs(1), s.refs(0)), (1, Some(2), Some(0)));
    assert_eq!(s.release(a), Release::Keep);
    assert_eq!(s.release(b), Release::ClearBlock);
    assert_eq!(s.refs(1), Some(0));
    assert_eq!(s.release(BlockTicket::for_test(2)), Release::Unmatched);
    assert_eq!(s.release(BlockTicket::for_test(3)), Release::NoSuchBlock);
}

#[test]
fn an_unfinished_setup_makes_no_socket() {
    let c = cfg();
    assert!(CaptureSocket::from_setup(create_capture_socket(), &c, 9).is_none());
    let s = CaptureSetup { action: SetupAction::Ready, ring_ptr: 1, ring_len: 5 };
    assert!(CaptureSocket::from_setup(s, &c, 9).is_none());
}

#[test]
fn waiting_and_counters() {
    let s = socket();
    assert!(s.wait_for_blocks(PollEvent::Ready).is_ok());
    assert!(s.wait_for_blocks(PollEvent::TimedOut).is_ok());
    assert!(s.wait_for_blocks(PollEvent::Interrupted).is_ok());
    let e = s.wait_for_blocks(PollEvent::Failed(os(9))).expect_err("poll");
    assert_eq!(e.message(), "poll on AF_PACKET fd failed: os error 9");
    let c = CaptureStats { packets: 5, drops: 1 };
    assert_eq!(s.stats(Ok(c)).expect("stats"), c);
    let e = s.stats(Err(os(9))).expect_err("stats");
    assert_eq!(e.message(), "getsockopt(PACKET_STATISTICS) failed: os error 9");
    let mut t = StatsTotals::new();
    assert_eq!(t.count(c), 6);
    assert_eq!(t.count(CaptureStats { packets: 0, drops: 0 }), 1);
    assert_eq!(t, StatsTotals { packets: 5, drops: 1 });
    let mut t = StatsTotals { packets: u64::MAX, drops: 0 };
    t.count(c);
    assert_eq!(t, StatsTotals { packets: u64::MAX, drops: 1 });
    assert!(!StatsTotals::is_due(59_999));
    assert!(StatsTotals::is_due(60_000));
}

#[test]
fn a_ring_is_given_up_once() {
    let mut r = MmapRing { ptr: 0x1000, len: 8 };
    assert_eq!((r.as_ptr(), r.len(), r.is_empty()), (0x1000, 8, false));
    assert!(r.release().is_some());
    assert!(r.release().is_none());
    assert!(r.is_empty());
}

#[test]
fn blocks_are_handed_out_round_the_ring() {
    assert_eq!(dispatch_loop(0).step, DispatchStep::Abort);
    let mut d = dispatch_loop(2);
    let mut order = Vec::new();
    for _ in 0..5 {
        d = d.advance(DispatchEvent::ShutdownSet(false));
        d = d.advance(DispatchEvent::Seen { refs: Some(0), status: 1 });
        assert_eq!(d.step, DispatchStep::FanOut);
        order.push(d.idx);
        d = d.advance(DispatchEvent::FannedOut(true));
        d = d.advance(DispatchEvent::Offered(true));
        assert_eq!(d.step, DispatchStep::Offer);
        d = d.advance(DispatchEvent::Offered(false));
        assert_eq!(d.step, DispatchStep::Finish);
        d = d.advance(DispatchEvent::Finished);
    }
    assert_eq!(order, vec![0, 1, 0, 1, 0]);
    assert_eq!(d.advance(DispatchEvent::ShutdownSet(true)).step, DispatchStep::Stop);
}

#[test]
fn a_dispatcher_waits_for_ready_blocks() {
    let d = dispatch_loop(2).advance(DispatchEvent::ShutdownSet(false));
    let busy = d.advance(DispatchEvent::Seen { refs: Some(1), status: 1 });
    assert_eq!(busy.step, DispatchStep::Wait);
    let empty = d.advance(DispatchEvent::Seen { refs: Some(0), status: 0 });
    assert_eq!(empty.step, DispatchStep::Wait);
    assert_eq!(empty.advance(DispatchEvent::Waited(true)).step, DispatchStep::CheckShutdown);
    assert_eq!(empty.advance(DispatchEvent::Waited(false)).step, DispatchStep::Abort);
    let lost = d.advance(DispatchEvent::Seen { refs: None, status: 0 });
    assert_eq!(lost.step, DispatchStep::Abort);
    let ready = d.advance(DispatchEvent::Seen { refs: Some(0), status: 1 });
    assert_eq!(ready.advance(DispatchEvent::FannedOut(false)).step, DispatchStep::Abort);
}

/// A block that two of three clients take stays until both have returned it.
#[test]
fn a_block_goes_to_all_clients() {
    let mut s = socket();
    let mut slot: FanoutSlot<String> = FanoutSlot::new();
    for name in ["a", "slow", "b"] {
        slot.register(name.to_string());
    }
    let mut f = fan_out(&mut s, &slot, 0).expect("block");
    assert_eq!(s.refs(0), Some(1));
    let (mut asked, mut taken) = (Vec::new(), Vec::new());
    while let Some((client, ticket)) = f.offer(&mut s) {
        let ticket = ticket.expect("ticket");
        assert_eq!(ticket.index(), 0);
        if client == "slow" {
            assert_eq!(f.answered(&mut s, Some(ticket)), Some(Release::Keep));
        } else {
            assert_eq!(f.answered(&mut s, None), None);
            taken.push(ticket);
        }
        asked.push(client);
    }
    asked.sort();
    assert_eq!(asked, vec!["a", "b", "slow"]);
    assert_eq!(s.refs(0), Some(3));
    assert_eq!(f.finish(&mut s), Release::Keep);
    assert_eq!((s.refs(0), s.refs(1)), (Some(2), Some(0)));
    assert_eq!(s.release(taken.remove(0)), Release::Keep);
    assert_eq!(s.release(taken.remove(0)), Release::ClearBlock);
}

#[test]
fn a_block_that_nobody_takes_goes_straight_back() {
    let mut s = socket();
    let mut slot: FanoutSlot<u8> = FanoutSlot::new();
    let mut f = fan_out(&mut s, &slot, 1).expect("block");
    assert!(f.offer(&mut s).is_none());
    assert_eq!(f.finish(&mut s), Release::ClearBlock);
    slot.register(7);
    let mut f = fan_out(&mut s, &slot, 1).expect("block");
    let (client, ticket) = f.offer(&mut s).expect("client");
    assert_eq!(client, 7);
    assert_eq!(f.answered(&mut s, ticket), Some(Release::Keep));
    assert!(f.offer(&mut s).is_none());
    assert_eq!(f.finish(&mut s), Release::ClearBlock);
    assert_eq!(s.refs(1), Some(0));
    let none = s.num_blocks();
    assert!(fan_out(&mut s, &slot, none).is_none());
}

#[test]
fn clients_come_and_go() {
    let mut slot: FanoutSlot<String> = FanoutSlot::new();
    let a = slot.register("a".to_string());
    let b = slot.register("b".to_string());
    assert_eq!((a, b), (1, 2));
    let mut out = vec!["stale".to_string()];
    slot.snapshot_clients_into(&mut out);
    out.sort();
    assert_eq!(out, vec!["a", "b"]);
    slot.unregister(a);
    slot.unregister(77);
    slot.snapshot_clients_into(&mut out);
    assert_eq!(out, vec!["b"]);
    assert_eq!(slot.register("c".to_string()), 3);
}
