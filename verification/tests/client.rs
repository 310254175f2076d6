use testimony::bytes::read_be32;
use testimony::capture::BlockTicket;
use testimony::client::{recv_fd, Conn, ConnectStep, Handshake, RecvEvent, WaitStep};
use testimony::client_error::{Error, STAGE_BLOCK_INDEX, STAGE_TLV_HEADER, STAGE_VERSION};
use testimony::os_error::{OsError, PollEvent};
use testimony::protocol::{parse_u32_strict, Category, Header, Numbering, PROTOCOL_VERSION};
use testimony::stream::{
    read_exact_or_eof, read_full, write_full, ReadErr, ReadEvent, ReadOutcome, ReadProgress,
};
use testimony::writer::{writer_loop, WriterEvent, WriterMsg};

fn os(code: i32, text: &str) -> OsError {
    OsError { code: Some(code), text: text.to_string() }
}

/// A numbering with the types in the upper half of a header and the length in the lower.
fn numbering() -> Numbering {
    Numbering {
        block_index: 0,
        fanout_size: 0x8002,
        block_size: 0x8003,
        num_blocks: 0x8004,
        waiting_for_fanout_index: 0x8001,
        fanout_size_header: 0x8002_0004,
        block_size_header: 0x8003_0004,
        num_blocks_header: 0x8004_0004,
        waiting_header: 0x8001_0000,
        fanout_index_header: 0xc001_0004,
    }
}

fn decode(raw: u32) -> Header {
    if raw < 0x8000_0000 {
        return Header { raw, typ: 0, length: 0, category: Category::ServerToClient };
    }
    let typ = (raw >> 16) as u16;
    let category = if typ >= 0xc000 {
        Category::ClientToServer
    } else if typ >= 0x8000 {
        Category::ServerToClient
    } else {
        Category::Other
    };
    Header { raw, typ, length: raw as u16, category }
}

/// What a handshake comes to on some bytes; how many bytes it leaves.
fn shake(bytes: &[u8]) -> Result<(Handshake, usize), Error> {
    let n = numbering();
    let mut h = Conn::connected("/tmp/s", Ok(()))?;
    let mut at = 0;
    while h.step != ConnectStep::Done {
        let (want, _) = h.next_read();
        let piece = &bytes[at..at + want];
        at += want;
        h = match h.step {
            ConnectStep::Version => h.on_version(piece[0])?,
            ConnectStep::Header => {
                let raw = u32::from_be_bytes([piece[0], piece[1], piece[2], piece[3]]);
                h.on_header(&n, decode(raw))?
            }
            ConnectStep::Value { typ, .. } => h.on_value(&n, typ, piece)?,
            ConnectStep::Done => h,
        };
    }
    Ok((h, bytes.len() - at))
}

fn greeting() -> Vec<u8> {
    let mut b = vec![PROTOCOL_VERSION];
    for (header, v) in [(0x8002_0004u32, 3u32), (0x8003_0004, 4096), (0x8004_0004, 16)] {
        b.extend_from_slice(&header.to_be_bytes());
        b.extend_from_slice(&v.to_be_bytes());
    }
    b.extend_from_slice(&0x8001_0000u32.to_be_bytes());
    b
}

fn conn() -> Conn {
    let (h, _) = shake(&greeting()).expect("handshake");
    Conn::established(h).expect("established")
}

#[test]
fn parse_u32_strict_rejects_wrong_length() {
    let err = parse_u32_strict(0xABCD, &[1, 2, 3]).expect_err("len 3 must fail");
    let s = err.message();
    assert!(s.contains("0xabcd"), "got {s:?}");
    assert!(s.contains("length 3"), "got {s:?}");
    assert!(s.contains("expected 4"), "got {s:?}");
}

#[test]
fn parse_u32_strict_round_trip() {
    let v = parse_u32_strict(0x1234, &[0xDE, 0xAD, 0xBE, 0xEF]).expect("len 4");
    assert_eq!(v, 0xDEAD_BEEF);
}

#[test]
fn connect_error_carries_path() {
    match Conn::connected(
        "/tmp/nonexistent_testimony_socket_for_test",
        Err(os(2, "No such file or directory (os error 2)")),
    ) {
        Ok(_) => panic!("missing socket must error"),
        Err(e) => {
            let s = e.message();
            assert!(s.contains("/tmp/nonexistent_testimony_socket_for_test"), "got {s:?}");
        }
    }
}

#[test]
fn connect_rejects_nul_in_socket_name() {
    match Conn::connect("/tmp/has\0nul") {
        Ok(_) => panic!("nul-in-name must error"),
        Err(e) => assert!(matches!(e, Error::InvalidSocketName(_))),
    }
    assert!(Conn::connect("/tmp/has_no_nul").is_ok());
}

#[test]
fn error_messages_are_descriptive() {
    let cases: Vec<(Error, &[&str])> = vec![
        (Error::UnexpectedVersion { got: 9, want: 2 }, &["version 9", "expected 2"]),
        (
            Error::BlockIndexOutOfRange { idx: 99, num_blocks: 16 },
            &["block index 99", "[0, 16)"],
        ),
        (Error::RingSizeOverflow { block_size: 1 << 31, num_blocks: 4 }, &["overflows usize"]),
        (
            Error::MissingHandshakeFields { fanout_size: 0, block_size: 0, num_blocks: 0 },
            &["fanout_size=0", "block_size=0", "num_blocks=0"],
        ),
        (
            Error::UnexpectedTlvLength { typ: 0x8003, got_length: 8, want_length: 4 },
            &["0x8003", "length 8", "expected 4"],
        ),
        (Error::PeerClosed { stage: STAGE_VERSION }, &["server closed", "version byte"]),
        (Error::NoFdInCmsg, &["SCM_RIGHTS"]),
        (Error::AlreadyInitialized, &["already initialized"]),
        (Error::NotInitialized, &["not initialized"]),
    ];
    for (err, expected_substrings) in cases {
        let s = err.message();
        for needle in expected_substrings {
            assert!(s.contains(needle), "{:?} should contain {:?}", s, needle);
        }
    }
}

#[test]
fn a_greeting_is_understood() {
    let mut b = greeting();
    b.push(7);
    let (h, left) = shake(&b).expect("handshake");
    assert_eq!((h.fanout_size, h.block_size, h.num_blocks), (3, 4096, 16));
    assert_eq!(left, 1);
    let c = conn();
    assert_eq!((c.fanout_size(), c.block_size(), c.num_blocks()), (3, 4096, 16));
    assert_eq!((c.ring_base_for_ffi(), c.ring_len()), (0, 0));
}

#[test]
fn unknown_messages_in_a_greeting_are_passed_over() {
    let mut b = vec![2];
    b.extend_from_slice(&0x8077_0003u32.to_be_bytes());
    b.extend_from_slice(&[1, 2, 3]);
    b.extend_from_slice(&greeting()[1..]);
    assert_eq!(shake(&b).expect("handshake").0.num_blocks, 16);
}

#[test]
fn bad_greetings_are_refused() {
    assert!(matches!(shake(&[9]), Err(Error::UnexpectedVersion { got: 9, want: 2 })));
    let mut b = vec![2];
    b.extend_from_slice(&0xc001_0004u32.to_be_bytes());
    assert!(matches!(
        shake(&b),
        Err(Error::UnexpectedTlvCategory { typ: 0xc001, length: 4 })
    ));
    let mut b = vec![2];
    b.extend_from_slice(&0x8003_0002u32.to_be_bytes());
    b.extend_from_slice(&[1, 2]);
    assert!(matches!(
        shake(&b),
        Err(Error::UnexpectedTlvLength { typ: 0x8003, got_length: 2, want_length: 4 })
    ));
    let mut b = vec![2];
    b.extend_from_slice(&0x8001_0000u32.to_be_bytes());
    assert!(matches!(
        shake(&b),
        Err(Error::MissingHandshakeFields { fanout_size: 0, block_size: 0, num_blocks: 0 })
    ));
    let h = Handshake { fanout_size: 1, block_size: 1, num_blocks: 1, step: ConnectStep::Header };
    assert_eq!(h.next_read(), (4, STAGE_TLV_HEADER));
    assert!(Conn::established(h).is_none());
}

#[test]
fn initializing_happens_once() {
    let n = numbering();
    let mut c = conn();
    assert_eq!(
        c.init(&n, 2).expect("message"),
        vec![0xc0, 0x01, 0, 4, 0, 0, 0, 2]
    );
    assert_eq!(c.ring_bytes().expect("fits"), 65536);
    let err = c.finish_init(5, Err(os(12, "Cannot allocate memory"))).expect_err("mmap");
    assert_eq!(err.source().map(|e| e.code), Some(Some(12)));
    assert!(matches!(err, Error::Mmap { len: 65536, .. }));
    assert_eq!((c.pkt_fd(), c.ring_base_for_ffi()), (None, 0));
    assert!(matches!(c.next_block(None), Err(Error::NotInitialized)));
    assert!(c.init(&n, 2).is_ok());
    assert!(c.finish_init(6, Ok(0x7000)).is_ok());
    assert_eq!(c.pkt_fd(), Some(6));
    assert_eq!((c.ring_base_for_ffi(), c.ring_len()), (0x7000, 65536));
    assert!(matches!(c.init(&n, 2), Err(Error::AlreadyInitialized)));
    assert_eq!(c.release(), Some((0x7000, 65536)));
    assert_eq!((c.release(), c.pkt_fd()), (None, None));
}

#[test]
fn a_ring_may_lie_anywhere() {
    let n = numbering();
    let mut c = conn();
    assert!(c.finish_init(6, Ok(0)).is_ok());
    assert!(matches!(c.init(&n, 2), Err(Error::AlreadyInitialized)));
    assert_eq!((c.pkt_fd(), c.ring_len()), (Some(6), 65536));
}

#[test]
fn waiting_for_blocks() {
    let n = numbering();
    let mut c = conn();
    assert!(matches!(c.next_block(None), Err(Error::NotInitialized)));
    c.finish_init(6, Ok(0x7000)).expect("mapped");
    assert_eq!(c.next_block(None).expect("step"), WaitStep::ReadHeader);
    assert_eq!(c.next_block(Some(0)).expect("step"), WaitStep::Poll(0));
    assert_eq!(c.next_block(Some(250)).expect("step"), WaitStep::Poll(250));
    assert_eq!(c.next_block(Some(1 << 40)).expect("step"), WaitStep::Poll(i32::MAX));
    assert_eq!(c.on_poll(Some(5), PollEvent::Ready).expect("step"), WaitStep::ReadHeader);
    assert_eq!(c.on_poll(Some(5), PollEvent::TimedOut).expect("step"), WaitStep::TimedOut);
    assert_eq!(c.on_poll(Some(5), PollEvent::Interrupted).expect("step"), WaitStep::Poll(5));
    let err = c.on_poll(Some(5), PollEvent::Failed(os(9, "bad fd"))).expect_err("poll");
    assert!(matches!(err, Error::Poll(_)));
    assert_eq!(
        c.on_header(&n, decode(3)).expect("block"),
        WaitStep::Block { index: 3, offset: 3 * 4096 }
    );
    assert!(matches!(
        c.on_header(&n, decode(16)),
        Err(Error::BlockIndexOutOfRange { idx: 16, num_blocks: 16 })
    ));
    assert_eq!(c.on_header(&n, decode(0x8055_0007)).expect("drain"), WaitStep::Drain(7));
    assert!(matches!(
        c.on_header(&n, decode(0xc055_0007)),
        Err(Error::UnexpectedTlvCategory { typ: 0xc055, length: 7 })
    ));
    assert_eq!(c.on_drained(Some(9)), WaitStep::Poll(9));
    assert_eq!(c.return_block_index_pub(0x0102), vec![0, 0, 1, 2]);
}

/// What a writer announces, with another message of the server in between, comes to the
/// client as the same blocks in the same order.
#[test]
fn announced_blocks_come_in_order() {
    let n = numbering();
    let mut c = conn();
    c.finish_init(6, Ok(0x7000)).expect("mapped");
    let mut w = writer_loop(16);
    let mut stream = vec![0x80, 0x55, 0, 2, 7, 7];
    for i in [9, 0, 15] {
        let msg = WriterMsg::NewBlock(BlockTicket::for_test(i));
        assert!(w.advance(WriterEvent::Message(msg)).is_none());
    }
    assert!(w.advance(WriterEvent::NoMessage).is_none());
    stream.extend_from_slice(w.batch());
    let (mut at, mut got) = (0, Vec::new());
    while at < stream.len() {
        assert_eq!(c.next_block(None).expect("step"), WaitStep::ReadHeader);
        let word = read_be32(&stream, at);
        at += 4;
        match c.on_header(&n, decode(word)).expect("step") {
            WaitStep::Drain(len) => at += len as usize,
            WaitStep::Block { index, offset } => got.push((index, offset)),
            other => panic!("{other:?}"),
        }
    }
    assert_eq!(got, vec![(9, 9 * 4096), (0, 0), (15, 15 * 4096)]);
}

#[test]
fn a_ring_that_is_too_large_is_refused() {
    let h = Handshake {
        fanout_size: 1,
        block_size: u32::MAX,
        num_blocks: u32::MAX,
        step: ConnectStep::Done,
    };
    let c = Conn::established(h).expect("established");
    if usize::BITS == 32 {
        assert!(matches!(c.ring_bytes(), Err(Error::RingSizeOverflow { .. })));
    } else {
        assert_eq!(c.ring_bytes().expect("fits"), 0xffff_fffe_0000_0001);
    }
}

#[test]
fn the_first_descriptor_counts() {
    let got = |bytes, rights| recv_fd(RecvEvent::Received { bytes, rights });
    assert!(matches!(got(1, vec![None, Some(7), Some(8)]), Ok(Some(7))));
    assert!(matches!(got(1, vec![None]), Err(Error::NoFdInCmsg)));
    assert!(matches!(got(0, vec![Some(7)]), Err(Error::RecvFdBytes { got: 0, want: 1 })));
    assert!(matches!(recv_fd(RecvEvent::Interrupted), Ok(None)));
    assert!(matches!(recv_fd(RecvEvent::Failed(os(1, "no"))), Err(Error::RecvFd(_))));
}

#[test]
fn reads_go_on_until_the_buffer_is_full() {
    let mut p = ReadProgress::new(4);
    assert!(!p.is_full());
    assert!(matches!(read_full(STAGE_BLOCK_INDEX, p.step(ReadEvent::Bytes(3))), Ok(false)));
    assert!(matches!(read_full(STAGE_BLOCK_INDEX, p.step(ReadEvent::Interrupted)), Ok(false)));
    assert!(matches!(read_full(STAGE_BLOCK_INDEX, p.step(ReadEvent::Bytes(1))), Ok(true)));
    assert!(p.is_full());
    let mut p = ReadProgress::new(2);
    let end = read_full(STAGE_BLOCK_INDEX, p.step(ReadEvent::Bytes(0)));
    assert!(matches!(end, Err(Error::PeerClosed { stage: STAGE_BLOCK_INDEX })));
    let end = read_full(STAGE_BLOCK_INDEX, p.step(ReadEvent::Failed(os(5, "io"))));
    assert!(matches!(end, Err(Error::Read { stage: STAGE_BLOCK_INDEX, .. })));
    assert!(matches!(read_exact_or_eof(ReadOutcome::Full), Ok(true)));
    assert!(matches!(read_exact_or_eof(ReadOutcome::More), Ok(false)));
    let eof = read_exact_or_eof(ReadOutcome::Closed).expect_err("eof");
    assert_eq!(eof.message(), "EOF");
    let io = read_exact_or_eof(ReadOutcome::Failed(os(5, "io"))).expect_err("io");
    assert_eq!(io.message(), "io");
    assert!(matches!(io, ReadErr::Io(_)));
    assert!(write_full(STAGE_BLOCK_INDEX, Ok(())).is_ok());
    let w = write_full(STAGE_BLOCK_INDEX, Err(os(32, "Broken pipe"))).expect_err("write");
    assert_eq!(w.message(), "write of block-index failed: Broken pipe");
}

#[test]
fn all_messages_of_a_client() {
    let cases: Vec<(Error, &str)> = vec![
        (
            Error::Connect { path: "/s".to_string(), source: os(2, "No such file") },
            "connect to /s failed: No such file",
        ),
        (
            Error::InvalidSocketName("a\0b".to_string()),
            "socket name \"a\\0b\" contains a NUL byte",
        ),
        (Error::Read { stage: STAGE_VERSION, source: os(5, "io") }, "read of version byte failed: io"),
        (Error::Write { stage: "x", source: os(5, "io") }, "write of x failed: io"),
        (Error::PeerClosed { stage: "x" }, "server closed the connection while reading x"),
        (
            Error::UnexpectedVersion { got: 1, want: 2 },
            "server announced protocol version 1, expected 2",
        ),
        (
            Error::UnexpectedTlvCategory { typ: 0xab, length: 9 },
            "received TLV with type 0x00ab (length 9); not a ServerToClient type",
        ),
        (
            Error::UnexpectedTlvLength { typ: 0xfedc, got_length: 65535, want_length: 4 },
            "TLV type 0xfedc had length 65535, expected 4",
        ),
        (
            Error::MissingHandshakeFields { fanout_size: 1, block_size: 0, num_blocks: 10 },
            "handshake incomplete: fanout_size=1, block_size=0, num_blocks=10 (all must be > 0)",
        ),
        (
            Error::BlockIndexOutOfRange { idx: 16, num_blocks: 16 },
            "server sent block index 16, valid range is [0, 16)",
        ),
        (
            Error::Mmap { len: 16777216, source: os(12, "Cannot allocate memory") },
            "mmap of AF_PACKET ring (len=16777216) failed: Cannot allocate memory",
        ),
        (
            Error::RingSizeOverflow { block_size: 7, num_blocks: 8 },
            "block_size 7 * num_blocks 8 overflows usize",
        ),
        (Error::Poll(os(9, "bad fd")), "poll on unix socket failed: bad fd"),
        (Error::RecvFd(os(9, "bad fd")), "recvmsg(SCM_RIGHTS) failed: bad fd"),
        (Error::NoFdInCmsg, "recvmsg succeeded but the cmsg payload had no SCM_RIGHTS fd"),
        (
            Error::RecvFdBytes { got: -3, want: 1 },
            "recvmsg(SCM_RIGHTS) returned -3 bytes, expected exactly 1",
        ),
        (Error::AlreadyInitialized, "testimony_init: connection already initialized"),
        (Error::NotInitialized, "testimony connection not initialized; call init() first"),
        (Error::Timeout, "operation timed out"),
        (Error::Internal("odd".to_string()), "internal: odd"),
    ];
    for (err, want) in cases {
        assert_eq!(err.message(), want);
    }
    assert!(Error::Timeout.source().is_none());
    assert_eq!(Error::Poll(os(9, "bad fd")).source().map(|e| e.code), Some(Some(9)));
}
