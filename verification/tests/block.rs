use testimony::block::{Block, Packet};
use testimony::bytes::ByteOrder;
use testimony::client::{Conn, ConnectStep, Handshake};
use testimony::client_error::Error;
use testimony::ffi::{
    err_neg, testimony_connect, testimony_internal, testimony_iter_internal, timeout_of, Errno,
};
use testimony::os_error::OsError;
use testimony::testclient::{BlockEnd, Tally};

fn put(mem: &mut [u8], at: usize, v: u32, order: ByteOrder) {
    let b = match order {
        ByteOrder::Little => v.to_le_bytes(),
        ByteOrder::Big => v.to_be_bytes(),
    };
    mem[at..at + 4].copy_from_slice(&b);
}

/// A block with two packets, at 48 and at 128.
fn sample(order: ByteOrder) -> Vec<u8> {
    let mut m = vec![0u8; 256];
    put(&mut m, 0, 2, order);
    put(&mut m, 12, 2, order);
    put(&mut m, 16, 48, order);
    for (at, next, len) in [(48, 80, 3), (128, 0, 5)] {
        put(&mut m, at, next, order);
        put(&mut m, at + 4, 1_700_000_000, order);
        put(&mut m, at + 8, 123, order);
        put(&mut m, at + 12, len, order);
        put(&mut m, at + 16, len + 100, order);
        let mac = match order {
            ByteOrder::Little => 32u16.to_le_bytes(),
            ByteOrder::Big => 32u16.to_be_bytes(),
        };
        m[at + 24..at + 26].copy_from_slice(&mac);
        for i in 0..len as usize {
            m[at + 32 + i] = 10 + i as u8;
        }
    }
    m
}

#[test]
fn packets_are_found_in_order() {
    for order in [ByteOrder::Little, ByteOrder::Big] {
        let m = sample(order);
        let b = Block::new(&m, order, 7, 512, 128);
        assert!(b.has_header());
        assert_eq!((b.index(), b.raw_offset(), b.block_size()), (7, 512, 128));
        assert_eq!((b.num_pkts(), b.offset_to_first_pkt()), (2, 48));
        let mut it = b.iter_packets();
        let p = it.next().expect("first");
        assert_eq!((p.raw_offset(), p.snaplen(), p.original_len()), (48, 3, 103));
        assert_eq!(p.nanos(), 1_700_000_000_000_000_123);
        assert!(p.has_data());
        assert_eq!(p.data(), &[10, 11, 12]);
        let p = it.next().expect("second");
        assert_eq!(p.raw_offset(), 128);
        assert_eq!(p.data(), &[10, 11, 12, 13, 14]);
        assert!(it.next().is_none());
        assert!(it.next().is_none());
    }
}

#[test]
fn a_walk_hands_out_every_packet() {
    let mut m = sample(ByteOrder::Little);
    put(&mut m, 12, 3, ByteOrder::Little);
    put(&mut m, 128, 1000, ByteOrder::Little);
    let b = Block::new(&m, ByteOrder::Little, 0, 0, 128);
    let mut it = b.iter_packets();
    for at in [48, 128, 1128] {
        assert!(it.can_go_on());
        assert_eq!(it.next().expect("packet").raw_offset(), at);
    }
    assert!(it.can_go_on());
    assert!(it.next().is_none());
    put(&mut m, 12, 4, ByteOrder::Little);
    let mut it = Block::new(&m, ByteOrder::Little, 0, 0, 128).iter_packets();
    for _ in 0..3 {
        assert!(it.next().is_some());
    }
    assert!(!it.can_go_on());
}

#[test]
fn what_lies_outside_the_ring_is_known() {
    let mut m = sample(ByteOrder::Little);
    assert!(!Block::new(&m[..19], ByteOrder::Little, 0, 0, 19).has_header());
    assert!(Packet::new(&m, ByteOrder::Little, 230).has_header());
    assert!(!Packet::new(&m, ByteOrder::Little, 231).has_header());
    assert!(!Packet::new(&m, ByteOrder::Little, 231).has_data());
    put(&mut m, 48 + 12, 1000, ByteOrder::Little);
    let p = Packet::new(&m, ByteOrder::Little, 48);
    assert!(!p.has_data());
    assert_eq!(p.data_offset(), 80);
}

#[test]
fn a_test_client_takes_packets_in_order() {
    let mut m = sample(ByteOrder::Little);
    let b = Block::new(&m, ByteOrder::Little, 0, 0, 256);
    let lines = vec!["0a0b0c", "0a0b0c0d0e"];
    for (count, dump, want, end) in [
        (-1, true, 2, BlockEnd::NoMore),
        (5, true, 2, BlockEnd::NoMore),
        (2, true, 2, BlockEnd::Enough),
        (1, true, 1, BlockEnd::Enough),
        (0, true, 0, BlockEnd::Enough),
    ] {
        let mut t = Tally::new(count);
        t.begin_block();
        assert!(t.room_for(b.num_pkts()));
        assert_eq!(t.take_block(&b, dump), (lines[..want].iter().map(|s| s.to_string()).collect(), end));
        assert_eq!((t.block_count, t.count), (want as i64, count - want as i64));
    }
    let mut t = Tally::new(-1);
    assert_eq!(t.take_block(&b, false), (vec![], BlockEnd::NoMore));
    assert_eq!(t.block_count, 2);
    assert!(!Tally::new(i64::MIN + 1).room_for(2));
    put(&mut m, 12, 3, ByteOrder::Little);
    put(&mut m, 128, 1000, ByteOrder::Little);
    let b = Block::new(&m, ByteOrder::Little, 0, 0, 256);
    let mut t = Tally::new(-1);
    assert_eq!(t.take_block(&b, false), (vec![], BlockEnd::NoMore));
    assert_eq!(t.block_count, 3);
    let mut t = Tally::new(-1);
    let (got, end) = t.take_block(&b, true);
    assert_eq!((got, end, t.block_count), (vec!["0a0b0c".to_string(), "0a0b0c0d0e".to_string()], BlockEnd::Lost, 2));
    put(&mut m, 12, 0, ByteOrder::Little);
    let b = Block::new(&m, ByteOrder::Little, 0, 0, 256);
    assert_eq!(Tally::new(0).take_block(&b, true), (vec![], BlockEnd::NoMore));
}

#[test]
fn a_block_is_returned_once() {
    let m = sample(ByteOrder::Little);
    let mut b = Block::new(&m, ByteOrder::Little, 0x0102, 0, 256);
    assert_eq!(b.return_block(), vec![0, 0, 1, 2]);
    assert!(b.give_up().is_none());
    let mut b = Block::new(&m, ByteOrder::Little, 3, 0, 256);
    assert_eq!(b.give_up(), Some(vec![0, 0, 0, 3]));
    assert!(b.give_up().is_none());
}

fn handle() -> testimony_internal {
    let h =
        Handshake { fanout_size: 2, block_size: 256, num_blocks: 4, step: ConnectStep::Done };
    let mut conn = Conn::established(h).expect("connection");
    conn.finish_init(5, Ok(0x1000)).expect("mapped");
    testimony_connect(conn)
}

fn description(t: &testimony_internal) -> String {
    let end = t.errbuf.iter().position(|b| *b == 0).expect("zero byte");
    String::from_utf8(t.errbuf[..end].to_vec()).expect("text")
}

#[test]
fn a_c_program_sees_the_connection() {
    let mut t = handle();
    assert_eq!((t.conn_view.fanout_size, t.conn_view.block_size), (2, 256));
    assert_eq!((t.conn_view.block_nr, t.conn_view.fanout_index), (4, 0));
    t.conn_view.fanout_index = -1;
    assert_eq!(t.chosen_index(), u32::MAX);
    t.counts[2] = 9;
    t.conn_view.block_nr = 0;
    assert_eq!(t.testimony_init(Ok(())), Ok(()));
    assert_eq!((t.counts.clone(), t.conn_view.block_nr), (vec![0, 0, 0, 0], 4));
    assert_eq!(t.testimony_init(Err(Error::AlreadyInitialized)), Err(Errno::Already));
    assert!(description(&t).contains("already initialized"));
    assert_eq!(timeout_of(-1), None);
    assert_eq!(timeout_of(250), Some(250));
}

#[test]
fn blocks_are_known_by_their_address() {
    let t = handle();
    assert_eq!(t.block_index_of(0x1000), Some(0));
    assert_eq!(t.block_index_of(0x1300), Some(3));
    assert_eq!(t.block_index_of(0x1400), None);
    assert_eq!(t.block_index_of(0x1301), None);
    assert_eq!(t.block_index_of(0xf00), None);
}

#[test]
fn packets_can_be_returned_in_portions() {
    let mut t = handle();
    assert_eq!(t.testimony_get_block(1, 5), Ok(()));
    assert_eq!(t.testimony_return_packets(0x1100, 2), Ok(None));
    assert_eq!(t.testimony_return_packets(0x1100, 4), Err(Errno::Invalid));
    assert_eq!(
        description(&t),
        "return_packets: caller wants to return 4 packets but block 1 only has 3 remaining"
    );
    assert_eq!(t.testimony_return_packets(0x1100, 3), Ok(Some(1)));
    assert_eq!(t.counts[1], 0);
    assert_eq!(t.testimony_get_block(1, 5), Ok(()));
    assert_eq!(t.testimony_return_block(0x1100), Ok(1));
    assert_eq!(t.counts[1], 0);
    assert_eq!(t.testimony_return_block(0x1101), Err(Errno::Invalid));
    assert!(description(&t).ends_with("(out of ring range or misaligned to block_size)"));
    assert_eq!(t.testimony_return_packets(0x1101, 1), Err(Errno::Invalid));
    assert_eq!(
        description(&t),
        "block does not appear to have come from this testimony instance"
    );
    assert_eq!(t.testimony_get_block(4, 5), Err(Errno::Io));
    assert_eq!(
        description(&t),
        "internal: block 4 returned by next_block but counts has only 4 slots"
    );
}

#[test]
fn descriptions_are_cut_to_fit() {
    let mut t = handle();
    let long = "x".repeat(300);
    t.set_err_str(&long);
    assert_eq!(t.errbuf.len(), 256);
    assert_eq!(description(&t), "x".repeat(255));
    t.set_err_str("short");
    assert_eq!(description(&t), "short");
    assert_eq!(t.errbuf[6], b'x');
}

#[test]
fn errors_have_numbers() {
    let os = |code| OsError { code, text: String::new() };
    assert_eq!(err_neg(&Error::Poll(os(Some(9)))), Errno::Os(9));
    assert_eq!(err_neg(&Error::RecvFd(os(None))), Errno::Io);
    assert_eq!(err_neg(&Error::PeerClosed { stage: "x" }), Errno::Canceled);
    assert_eq!(
        err_neg(&Error::UnexpectedVersion { got: 1, want: 2 }),
        Errno::ProtocolNotSupported
    );
    assert_eq!(err_neg(&Error::NoFdInCmsg), Errno::Protocol);
    assert_eq!(
        err_neg(&Error::RingSizeOverflow { block_size: 1, num_blocks: 1 }),
        Errno::Overflow
    );
    assert_eq!(err_neg(&Error::NotInitialized), Errno::Invalid);
    assert_eq!(err_neg(&Error::Timeout), Errno::TimedOut);
    assert_eq!(err_neg(&Error::Internal(String::new())), Errno::Io);
}

#[test]
fn a_c_program_walks_through_packets() {
    let m = sample(ByteOrder::Little);
    let mut it = testimony_iter_internal::testimony_iter_init();
    assert_eq!(it.testimony_iter_next(&m, ByteOrder::Little), None);
    assert_eq!(
        it.testimony_iter_reset(&m, ByteOrder::Little, 1),
        Err(Errno::ProtocolNotSupported)
    );
    assert_eq!(it.testimony_iter_reset(&m, ByteOrder::Little, 2), Ok(()));
    assert_eq!(it.next_read(), Some(20));
    assert_eq!(it.testimony_iter_next(&m[..20], ByteOrder::Little), Some(48));
    assert_eq!(it.next_read(), Some(52));
    assert_eq!(it.testimony_iter_next(&m[..52], ByteOrder::Little), Some(128));
    assert_eq!(it.next_read(), Some(0));
    assert_eq!(it.testimony_iter_next(&m, ByteOrder::Little), None);
}
