use testimony::accept::{
    accept_loop, connection_thread_name, handle_new_connection, AcceptEvent, AcceptStep, Part,
    Welcome, WelcomeEvent, WelcomeStep,
};
use testimony::capture::BlockTicket;
use testimony::daemon_error::DaemonError;
use testimony::os_error::OsError;
use testimony::passing::{cmsg_space, send_fd, SendFdEvent};
use testimony::protocol::{tlv_u32, Category, Header, Numbering};
use testimony::reader::{reader_loop, ReaderEvent, ReaderStep};
use testimony::writer::{writer_loop, Writer, WriterEvent, WriterMsg, WriterStep};

fn numbering() -> Numbering {
    Numbering {
        block_index: 0,
        fanout_size: 0x8002,
        block_size: 0x8003,
        num_blocks: 0x8004,
        waiting_for_fanout_index: 0x8001,
        fanout_size_header: 0x8002_0004,
        block_size_header: 0x8003_0004,
        num_blocks_header: 0x8004_0004,
        waiting_header: 0x8001_0000,
        fanout_index_header: 0xc001_0004,
    }
}

fn decode(raw: u32) -> Header {
    let category = if raw >= 0xc000_0000 {
        Category::ClientToServer
    } else {
        Category::ServerToClient
    };
    Header { raw, typ: (raw >> 16) as u16, length: raw as u16, category }
}

/// What a writer does with the messages of its inbox.
struct Written {
    bytes: Vec<u8>,
    writes: usize,
    given_up: Vec<u32>,
    left_in_inbox: usize,
}

fn drive(mut w: Writer, inbox: Vec<WriterMsg>, shutdown: bool, fail_write: bool) -> Written {
    let mut inbox = inbox.into_iter();
    let mut out =
        Written { bytes: Vec::new(), writes: 0, given_up: Vec::new(), left_in_inbox: 0 };
    loop {
        let event = match w.wants() {
            WriterStep::Receive | WriterStep::TryReceive => match inbox.next() {
                Some(m) => WriterEvent::Message(m),
                None => WriterEvent::NoMessage,
            },
            WriterStep::Write => {
                if fail_write {
                    WriterEvent::WriteFailed
                } else {
                    out.bytes.extend_from_slice(w.batch());
                    out.writes += 1;
                    WriterEvent::Written
                }
            }
            WriterStep::CheckShutdown => WriterEvent::ShutdownSet(shutdown),
            WriterStep::Stop => break,
        };
        if let Some(t) = w.advance(event) {
            out.given_up.push(t.index());
        }
    }
    out.left_in_inbox = inbox.count();
    let rest = w.finish();
    out.given_up.extend(rest.iter().map(|t| t.index()));
    out
}

fn block(i: u32) -> WriterMsg {
    WriterMsg::NewBlock(BlockTicket::for_test(i))
}

#[test]
fn writer_loop_without_newblocks_writes_nothing() {
    let w = drive(writer_loop(4), vec![WriterMsg::PeerClosed], false, false);
    assert_eq!(w.bytes.len(), 0, "writer wrote unexpected bytes: {:?}", w.bytes);
}

#[test]
fn writer_loop_returned_for_unknown_block_exits() {
    let w = drive(writer_loop(4), vec![WriterMsg::Returned(0), block(1)], false, false);
    assert_eq!(w.bytes.len(), 0);
    assert_eq!(w.left_in_inbox, 1);
}

#[test]
fn writer_loop_shutdown_exits() {
    let w = drive(writer_loop(4), vec![WriterMsg::Shutdown, block(1)], true, false);
    assert_eq!(w.left_in_inbox, 1);
}

/// Two blocks, then other messages: the peer sees each block once.
#[test]
fn writer_loop_does_not_double_flush_on_interleaved_messages() {
    let inbox = vec![block(2), block(5), WriterMsg::Returned(2), WriterMsg::PeerClosed];
    let w = drive(writer_loop(16), inbox, false, false);
    let n = w.bytes.len();
    assert_eq!(n, 8, "expected 8 bytes (two block indices), got {n}: {:?}", w.bytes);
    let idx_a = u32::from_be_bytes([w.bytes[0], w.bytes[1], w.bytes[2], w.bytes[3]]);
    let idx_b = u32::from_be_bytes([w.bytes[4], w.bytes[5], w.bytes[6], w.bytes[7]]);
    assert_eq!(idx_a, 2);
    assert_eq!(idx_b, 5);
    assert_eq!(w.writes, 1);
    assert_eq!(w.given_up, vec![2, 5]);
}

#[test]
fn a_writer_refuses_what_it_cannot_announce() {
    let w = drive(writer_loop(4), vec![block(1), block(4), block(2)], false, false);
    assert_eq!((w.bytes.len(), w.left_in_inbox), (0, 1));
    assert_eq!(w.given_up, vec![4, 1]);
    let w = drive(writer_loop(4), vec![block(3), block(3)], false, false);
    assert_eq!((w.bytes.len(), w.given_up), (0, vec![3, 3]));
}

#[test]
fn a_returned_block_can_be_announced_again() {
    let inbox = vec![block(3), WriterMsg::Returned(3), block(3), WriterMsg::Returned(9)];
    let w = drive(writer_loop(4), inbox, false, false);
    assert_eq!(w.bytes, vec![0, 0, 0, 3, 0, 0, 0, 3]);
    assert_eq!(w.given_up, vec![3, 3]);
}

#[test]
fn a_failed_write_ends_the_writer() {
    let w = drive(writer_loop(4), vec![block(0), WriterMsg::Returned(0), block(1)], false, true);
    assert_eq!((w.bytes.len(), w.left_in_inbox), (0, 1));
    assert_eq!(w.given_up, vec![0]);
}

#[test]
fn blocks_in_flight_are_counted() {
    let mut w = writer_loop(4);
    assert_eq!(w.in_flight(), 0);
    assert!(w.advance(WriterEvent::Message(block(1))).is_none());
    assert!(w.advance(WriterEvent::Message(block(3))).is_none());
    assert_eq!(w.in_flight(), 2);
    assert_eq!(w.batch(), &[0, 0, 0, 1, 0, 0, 0, 3]);
}

/// What a reader tells the writer when the client sends some bytes and closes.
fn listen(num_blocks: u32, bytes: &[u8], shutdown: bool) -> Vec<WriterMsg> {
    let mut r = reader_loop(num_blocks);
    let mut told = Vec::new();
    let mut at = 0;
    loop {
        let event = match r.step {
            ReaderStep::CheckShutdown => ReaderEvent::ShutdownSet(shutdown),
            ReaderStep::ReadWord => {
                if at + 4 <= bytes.len() {
                    let b = &bytes[at..at + 4];
                    at += 4;
                    ReaderEvent::Word(decode(u32::from_be_bytes([b[0], b[1], b[2], b[3]])))
                } else {
                    ReaderEvent::ReadFailed
                }
            }
            ReaderStep::Drain(n) => {
                if at + n as usize <= bytes.len() {
                    at += n as usize;
                    ReaderEvent::Drained
                } else {
                    ReaderEvent::ReadFailed
                }
            }
            ReaderStep::Forward(_) | ReaderStep::Close => {
                told.push(r.message().expect("message"));
                ReaderEvent::Told
            }
            ReaderStep::Stop => return told,
        };
        r.advance(event);
    }
}

#[test]
fn reader_loop_eof_sends_peer_closed() {
    let told = listen(4, &[], false);
    let got_peer_closed = told.contains(&WriterMsg::PeerClosed);
    assert!(got_peer_closed, "reader should send PeerClosed on EOF");
    assert_eq!(told.len(), 1);
}

#[test]
fn reader_loop_decodes_block_index() {
    let told = listen(16, &7u32.to_be_bytes(), false);
    match told[0] {
        WriterMsg::Returned(7) => {}
        _ => panic!("expected Returned(7)"),
    }
    assert!(matches!(told[1], WriterMsg::PeerClosed));
}

#[test]
fn reader_loop_rejects_out_of_range_block_index() {
    let told = listen(16, &100u32.to_be_bytes(), false);
    assert!(matches!(told[0], WriterMsg::PeerClosed));
    assert_eq!(told.len(), 1);
}

#[test]
fn a_reader_passes_over_messages_of_clients() {
    let mut b = 0xc005_0003u32.to_be_bytes().to_vec();
    b.extend_from_slice(&[1, 2, 3]);
    b.extend_from_slice(&0xc006_0000u32.to_be_bytes());
    b.extend_from_slice(&2u32.to_be_bytes());
    assert_eq!(listen(4, &b, false), vec![WriterMsg::Returned(2), WriterMsg::PeerClosed]);
    assert_eq!(listen(4, &b[..6], false), vec![WriterMsg::PeerClosed]);
    let bad = 0x8005_0000u32.to_be_bytes();
    assert_eq!(listen(4, &bad, false), vec![WriterMsg::PeerClosed]);
    assert_eq!(listen(4, &2u32.to_be_bytes(), true), vec![WriterMsg::PeerClosed]);
}

#[test]
fn a_reader_stops_without_its_writer() {
    let mut r = reader_loop(4);
    r.advance(ReaderEvent::ShutdownSet(false));
    r.advance(ReaderEvent::Word(decode(1)));
    assert_eq!(r.step, ReaderStep::Forward(1));
    r.advance(ReaderEvent::WriterGone);
    assert_eq!(r.step, ReaderStep::Stop);
}

/// The steps of a welcome in which every step goes well but one, where one is named.
fn welcome(mut w: Welcome, reply: Vec<u8>, failing: Option<WelcomeStep>) -> Vec<WelcomeStep> {
    let n = numbering();
    let mut steps = Vec::new();
    while w.step != WelcomeStep::Finished {
        steps.push(w.step);
        let event = if Some(w.step) == failing {
            WelcomeEvent::Failed
        } else if w.step == WelcomeStep::ReadChoice {
            WelcomeEvent::Choice(reply.clone())
        } else {
            WelcomeEvent::Done
        };
        w = w.advance(&n, event);
    }
    steps
}

#[test]
fn a_client_is_welcomed() {
    let n = numbering();
    let w = handle_new_connection(3, 4096, 16);
    let steps = welcome(w, tlv_u32(n.fanout_index_header, 2), None);
    assert_eq!(steps.len(), 16);
    assert_eq!(steps[0], WelcomeStep::SetBlocking);
    assert_eq!(steps[5], WelcomeStep::Send(Part::WaitingForFanoutIndex));
    assert_eq!(steps[7], WelcomeStep::PassSocket);
    assert_eq!(steps[15], WelcomeStep::Unregister);
    let mut greeting = Vec::new();
    for step in steps {
        if let WelcomeStep::Send(part) = step {
            greeting.extend_from_slice(&w.message(&n, part));
        }
    }
    assert_eq!(
        greeting,
        vec![
            2, 0x80, 2, 0, 4, 0, 0, 0, 3, 0x80, 3, 0, 4, 0, 0, 0x10, 0, 0x80, 4, 0, 4, 0, 0, 0,
            16, 0x80, 1, 0, 0,
        ]
    );
}

#[test]
fn a_choice_is_honoured_if_it_can_be() {
    let n = numbering();
    let w = Welcome { step: WelcomeStep::ReadChoice, ..handle_new_connection(3, 4096, 16) };
    let next = w.advance(&n, WelcomeEvent::Choice(tlv_u32(n.fanout_index_header, 2)));
    assert_eq!((next.step, next.slot), (WelcomeStep::PassSocket, 2));
    let next = w.advance(&n, WelcomeEvent::Choice(tlv_u32(n.fanout_index_header, 3)));
    assert_eq!(next.step, WelcomeStep::Finished);
    let next = w.advance(&n, WelcomeEvent::Choice(tlv_u32(n.fanout_size_header, 2)));
    assert_eq!(next.step, WelcomeStep::Finished);
}

#[test]
fn no_client_is_left_behind() {
    let n = numbering();
    let reply = tlv_u32(n.fanout_index_header, 0);
    let all = welcome(handle_new_connection(1, 1, 1), reply.clone(), None);
    for failing in all {
        if matches!(
            failing,
            WelcomeStep::Register
                | WelcomeStep::RunWriter
                | WelcomeStep::JoinReader
                | WelcomeStep::Unregister
        ) {
            continue;
        }
        let steps = welcome(handle_new_connection(1, 1, 1), reply.clone(), Some(failing));
        let count = |s: WelcomeStep| steps.iter().filter(|x| **x == s).count();
        assert_eq!(count(WelcomeStep::Register), count(WelcomeStep::Unregister), "{failing:?}");
    }
}

#[test]
fn accepting_goes_on_without_clients_and_stops_on_errors() {
    let s = accept_loop();
    assert_eq!(s.advance(AcceptEvent::ShutdownSet(true)), AcceptStep::Stop);
    let a = s.advance(AcceptEvent::ShutdownSet(false));
    assert_eq!(a, AcceptStep::Accept);
    assert_eq!(a.advance(AcceptEvent::WouldBlock), AcceptStep::Pause);
    assert_eq!(a.advance(AcceptEvent::AcceptFailed), AcceptStep::Abort);
    let c = a.advance(AcceptEvent::Accepted);
    assert_eq!(c, AcceptStep::SpawnConnection);
    assert_eq!(c.advance(AcceptEvent::Spawned(true)), AcceptStep::CheckShutdown);
    assert_eq!(c.advance(AcceptEvent::Spawned(false)), AcceptStep::Abort);
    assert_eq!(AcceptStep::Pause.advance(AcceptEvent::Paused), AcceptStep::CheckShutdown);
    assert_eq!(connection_thread_name("/tmp/s"), "conn-/tmp/s");
}

#[test]
fn passing_a_socket() {
    assert!(matches!(send_fd(5, SendFdEvent::Sent), Ok(true)));
    assert!(matches!(send_fd(5, SendFdEvent::Interrupted), Ok(false)));
    assert!(matches!(send_fd(5, SendFdEvent::NoHeader), Err(DaemonError::CmsgFirstHdrNull)));
    let source = OsError { code: Some(32), text: "Broken pipe".to_string() };
    let err = send_fd(5, SendFdEvent::Failed(source)).expect_err("failed");
    assert_eq!(err.message(), "sendmsg(SCM_RIGHTS) on fd=5: Broken pipe");
    assert_eq!(cmsg_space(16, 4, 8), 24);
    assert_eq!(cmsg_space(12, 4, 4), 16);
    assert_eq!(cmsg_space(16, 9, 8), 32);
}
