use testimony::afpacket::{AfpacketError, SockFilter};
use testimony::bpf::{
    compile_bpf, compile_bpf_with, default_tcpdump, parse_tcpdump_ddd, parse_tcpdump_ddd_for,
    tcpdump_args, TcpdumpRun,
};
use testimony::off_linux;
use testimony::os_error::OsError;

fn ok(input: &str) -> Vec<SockFilter> {
    match parse_tcpdump_ddd(input) {
        Ok(v) => v,
        Err(e) => panic!("parse failed: {}", e.message()),
    }
}

fn reason(input: &str) -> String {
    match parse_tcpdump_ddd(input) {
        Ok(_) => panic!("parsed"),
        Err(AfpacketError::BpfCompile { reason, .. }) => reason,
        Err(_) => panic!("another error"),
    }
}

#[test]
fn parse_empty_filter() {
    let bpfs = ok("0\n");
    assert_eq!(bpfs.len(), 0);
}

#[test]
fn parse_two_instructions() {
    let bpfs = ok("2\n6 0 0 65535\n6 0 0 0\n");
    assert_eq!(bpfs.len(), 2);
    assert_eq!(bpfs[0].code, 6);
    assert_eq!(bpfs[0].jt, 0);
    assert_eq!(bpfs[0].jf, 0);
    assert_eq!(bpfs[0].k, 65535);
    assert_eq!(bpfs[1].k, 0);
}

/// The shape of what `tcpdump -ddd "host 169.254.1.1 and host 169.254.1.2"` prints.
#[test]
fn parse_realistic_filter() {
    let input = "\
        12\n\
        40 0 0 12\n\
        21 0 8 2048\n\
        32 0 0 26\n\
        21 0 2 -1442840319\n\
        32 0 0 30\n\
        21 6 7 -1442840318\n\
        32 0 0 26\n\
        21 0 5 -1442840318\n\
        32 0 0 30\n\
        21 2 3 -1442840319\n\
        6 0 0 65535\n\
        6 0 0 0\n";
    let bpfs = ok(input);
    assert_eq!(bpfs.len(), 12);
    assert_eq!(bpfs[11].code, 6);
    assert_eq!(bpfs[11].k, 0);
    assert_eq!(bpfs[3].k, (-1442840319i64) as u32);
}

#[test]
fn parse_empty_input_errors() {
    assert!(parse_tcpdump_ddd("").is_err());
    assert!(parse_tcpdump_ddd("   ").is_err());
}

#[test]
fn parse_negative_count_errors() {
    assert!(parse_tcpdump_ddd("-1\n").is_err());
}

#[test]
fn parse_wrong_length_errors() {
    assert!(parse_tcpdump_ddd("1\n6 0 0").is_err());
    assert!(parse_tcpdump_ddd("1\n6 0 0 0 0").is_err());
}

#[test]
fn parse_non_numeric_errors() {
    let err = parse_tcpdump_ddd("not_a_number").expect_err("non-numeric must error").message();
    assert!(err.contains("non-numeric"), "expected 'non-numeric' in {err}");
}

/// The message names the interface and the filter.
#[test]
fn parse_error_carries_iface_and_filter() {
    let err = parse_tcpdump_ddd_for("eth0", "tcp port 80", "").expect_err("empty must error");
    let msg = err.message();
    assert!(msg.contains("eth0"), "expected iface in {msg}");
    assert!(msg.contains("tcp port 80"), "expected filter in {msg}");
}

#[test]
fn parse_handles_mixed_whitespace() {
    let bpfs = ok("2\t6\t0\t0\t65535\n6\t0  0\t0");
    assert_eq!(bpfs.len(), 2);
}

#[test]
fn parse_oversized_header_count_errors() {
    let huge = format!("{}\n", i64::MAX);
    assert!(parse_tcpdump_ddd(&huge).is_err());
}

#[test]
fn parse_unaligned_body_errors() {
    let err = parse_tcpdump_ddd("1\n6 0 0 0 0").expect_err("len mismatch");
    let msg = err.message();
    assert!(msg.contains("expected"), "expected explanation in {msg}");
}

#[test]
fn parse_negative_constants_in_body() {
    let bpfs = ok("1\n21 0 2 -1442840319");
    assert_eq!(bpfs.len(), 1);
    assert_eq!(bpfs[0].k, (-1442840319i64) as u32);
}

#[test]
fn parse_preserves_program_bytes_exactly() {
    let input = "3\n40 0 0 12\n21 0 1 2048\n6 0 0 65535";
    let bpfs = ok(input);
    assert_eq!(bpfs.len(), 3);
    assert_eq!(bpfs[0].code, 40);
    assert_eq!(bpfs[0].k, 12);
    assert_eq!(bpfs[1].code, 21);
    assert_eq!(bpfs[1].jt, 0);
    assert_eq!(bpfs[1].jf, 1);
    assert_eq!(bpfs[1].k, 2048);
    assert_eq!(bpfs[2].code, 6);
    assert_eq!(bpfs[2].k, 65535);
}

#[test]
fn wide_fields_keep_their_low_bits() {
    let bpfs = ok("1 65542 258 -1 4294967299");
    assert_eq!(bpfs[0].code, 6);
    assert_eq!(bpfs[0].jt, 2);
    assert_eq!(bpfs[0].jf, 255);
    assert_eq!(bpfs[0].k, 3);
}

#[test]
fn reasons_quote_the_text_at_fault() {
    let why = reason("1 6 0 zero 0");
    assert!(why.contains("\"zero\""), "{why}");
    assert!(why.contains("invalid digit found in string"), "{why}");
}

#[test]
fn tcpdump_is_asked_for_decimal_output() {
    assert_eq!(default_tcpdump(), "/usr/sbin/tcpdump");
    assert_eq!(tcpdump_args("eth1", "udp"), vec!["-i", "eth1", "-ddd", "udp"]);
}

#[test]
fn a_tcpdump_that_does_not_start_is_named() {
    let source = OsError { code: Some(2), text: "No such file or directory".to_string() };
    let err = compile_bpf_with("/opt/tcpdump", "eth0", "udp", TcpdumpRun::NotStarted { source })
        .expect_err("not started");
    assert_eq!(
        err.message(),
        "could not run tcpdump at /opt/tcpdump to compile BPF: No such file or directory"
    );
    assert_eq!(err.source().map(|e| e.code), Some(Some(2)));
}

#[test]
fn a_tcpdump_that_fails_is_quoted() {
    let run = TcpdumpRun::Failed {
        status: "exit status: 1".to_string(),
        stderr: "\u{a0} tcpdump: syntax error \n".as_bytes().to_vec(),
    };
    let err = compile_bpf("eth0", "bogus", run).expect_err("failed");
    assert_eq!(
        err.message(),
        "BPF compile failed for filter \"bogus\" on interface \"eth0\": \
         tcpdump exited with exit status: 1: tcpdump: syntax error"
    );
    assert!(err.source().is_none());
}

#[test]
fn a_tcpdump_that_ends_well_is_read() {
    let run = TcpdumpRun::Finished { stdout: b"1\n6 0 0 65535\n".to_vec() };
    let prog = compile_bpf("eth0", "ip", run).expect("finished");
    assert_eq!(prog.len(), 1);
    assert_eq!(prog[0].k, 65535);
}

#[test]
fn what_tcpdump_says_need_not_be_text() {
    let run = TcpdumpRun::Failed { status: "signal: 9".to_string(), stderr: b" a\xff\xfeb ".to_vec() };
    let err = compile_bpf("eth0", "ip", run).expect_err("failed");
    assert!(err.message().ends_with("tcpdump exited with signal: 9: a\u{fffd}\u{fffd}b"));
    let run = TcpdumpRun::Finished { stdout: b"1 \xff".to_vec() };
    let err = compile_bpf("eth0", "ip", run).expect_err("no number");
    assert!(err.message().contains("non-numeric token \"\u{fffd}\" in tcpdump output"));
}

#[test]
fn nothing_is_captured_off_linux() {
    let err = off_linux::compile_bpf("eth0", "udp").expect_err("refused");
    assert_eq!(
        err.message(),
        "BPF compile failed for filter \"udp\" on interface \"eth0\": BPF compile is Linux-only"
    );
    let cfg = testimony::afpacket::CaptureConfig {
        iface: "eth0".to_string(),
        block_size: 4096,
        num_blocks: 2,
        block_timeout_ms: 10,
        fanout_id: 1,
        fanout_size: 1,
        fanout_type: 0,
        bpf_filter: None,
    };
    let err = off_linux::CaptureSocket::new(&cfg).expect_err("refused");
    assert_eq!(
        err.message(),
        "socket(AF_PACKET, SOCK_RAW, htons(ETH_P_ALL)) failed: AF_PACKET is Linux-only"
    );
}

/// A program that is listed reads back as itself.
#[test]
fn listed_programs_read_back() {
    let prog = [(40u16, 0u8, 0u8, 12u32), (21, 255, 1, u32::MAX), (65535, 0, 255, 0)];
    let mut listing = format!("{}\n", prog.len());
    for (code, jt, jf, k) in prog {
        listing.push_str(&format!("{code} {jt}\t{jf}\r{k}\n"));
    }
    let back = ok(&listing);
    assert_eq!(back.len(), prog.len());
    for (f, (code, jt, jf, k)) in back.iter().zip(prog) {
        assert_eq!((f.code, f.jt, f.jf, f.k), (code, jt, jf, k));
    }
}

#[test]
fn what_is_wrong_with_a_listing() {
    assert_eq!(reason(""), "tcpdump -ddd produced empty output");
    assert_eq!(reason("-3"), "tcpdump -ddd reported negative instruction count -3");
    assert_eq!(reason("2 1 2 3"), "tcpdump -ddd: expected 9 ints (header 2 * 4 + 1), got 4");
    assert_eq!(
        reason("1 a b"),
        "non-numeric token \"a\" in tcpdump output: invalid digit found in string"
    );
    let huge = format!("{}", i64::MAX);
    if usize::BITS == 64 {
        assert_eq!(
            reason(&huge),
            "tcpdump -ddd: header count 9223372036854775807 too large to validate"
        );
    }
}

#[test]
fn all_messages_of_a_capture_socket() {
    let e = AfpacketError::RingSizeOverflow { block_size: u32::MAX, num_blocks: u32::MAX };
    assert_eq!(
        e.message(),
        "block_size 4294967295 * num_blocks 4294967295 overflows usize \
         (would request 18446744065119617025 bytes)"
    );
    let e = AfpacketError::BpfTooLarge(70000);
    assert_eq!(
        e.message(),
        "BPF program too large: 70000 instructions (max 65535 \u{2014} kernel sock_fprog.len is a u16)"
    );
}
