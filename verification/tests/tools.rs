use testimony::args::{
    gen_help, parse_args, parse_client_args, parse_daemon_args, DaemonCommand, GenCommand,
};
use testimony::bytes::{read_be32, read_u16_at, read_u32_at, ByteOrder};
use testimony::numbers::{parse_i64, parse_u32, parse_usize};
use testimony::pcap::{
    build_frame, report, timestamp, write_packet, write_pcap_header, write_record,
};
use testimony::testclient::{dump, Tally};
use testimony::text::{after_prefix, contains_char, push_decimal, push_quoted, same, split_words, trim};

fn args(a: &[&str]) -> Vec<String> {
    a.iter().map(|s| s.to_string()).collect()
}

fn served(a: &[&str]) -> String {
    match parse_daemon_args(&args(a)) {
        DaemonCommand::Serve(s) => s,
        other => panic!("{other:?}"),
    }
}

#[test]
fn the_last_configuration_counts() {
    assert_eq!(served(&[]), "/etc/testimony.conf");
    assert_eq!(served(&["--config", "a"]), "a");
    assert_eq!(served(&["-config", "a", "--config=b"]), "b");
    assert_eq!(served(&["-config=c", "-syslog", "--syslog=false"]), "c");
    assert_eq!(served(&["-syslog", "-config", "foo"]), "foo");
    assert_eq!(served(&["--config="]), "");
}

#[test]
fn other_calls_of_the_daemon() {
    let refused = |a: &[&str]| parse_daemon_args(&args(a)).refusal().expect("refusal");
    assert_eq!(
        refused(&["-h"]),
        ("Usage: testimonyd [--config /etc/testimony.conf]".to_string(), 0)
    );
    assert_eq!(refused(&["--config"]), ("--config: missing argument".to_string(), 2));
    assert_eq!(refused(&["-x", "-h"]), ("unknown argument: -x".to_string(), 2));
    assert!(parse_daemon_args(&args(&["--config=x"])).refusal().is_none());
}

#[test]
fn the_test_clients_settings() {
    let s = parse_client_args(&args(&[
        "--socket", "/tmp/s", "--fanout", "3", "--count", "-5", "--dump", "--quiet",
    ]))
    .expect("settings")
    .expect("no help");
    assert_eq!(s.socket.as_deref(), Some("/tmp/s"));
    assert_eq!((s.fanout, s.count, s.dump, s.quiet), (3, -5, true, true));
    let s = parse_client_args(&args(&["--socket=/s", "--index=4", "--count=+9"]))
        .expect("settings")
        .expect("no help");
    assert_eq!((s.fanout, s.count, s.dump, s.quiet), (4, 9, false, false));
    let s = parse_client_args(&args(&["--socket=/s"])).expect("settings").expect("no help");
    assert_eq!((s.fanout, s.count), (0, -1));
    assert!(parse_client_args(&args(&["--help", "--bogus"])).expect("help").is_none());
}

#[test]
fn the_test_clients_errors() {
    let e = |a: &[&str]| parse_client_args(&args(a)).expect_err("error");
    assert_eq!(e(&[]), "--socket is required");
    assert_eq!(e(&["--socket"]), "--socket needs an argument");
    assert_eq!(e(&["--index"]), "--index needs an argument");
    assert_eq!(e(&["--count"]), "--count needs an argument");
    assert_eq!(e(&["--fanout", "x"]), "invalid --fanout: invalid digit found in string");
    assert_eq!(
        e(&["--index", "4294967296"]),
        "invalid --index: number too large to fit in target type"
    );
    assert_eq!(e(&["--count="]), "invalid --count: cannot parse integer from empty string");
    assert_eq!(
        e(&["--count=-9223372036854775809"]),
        "invalid --count: number too small to fit in target type"
    );
    assert_eq!(e(&["--bogus"]), "unknown arg: --bogus");
}

#[test]
fn the_generators_settings() {
    match parse_args(&args(&["--count", "5", "--size", "64", "--out", "f"])).expect("settings") {
        GenCommand::Make { count, size, out } => {
            assert_eq!((count, size, out.as_str()), (5, 64, "f"))
        }
        other => panic!("{other:?}"),
    }
    match parse_args(&args(&["--out", "f"])).expect("settings") {
        GenCommand::Make { count, size, .. } => assert_eq!((count, size), (100_000, 100)),
        other => panic!("{other:?}"),
    }
    let e = |a: &[&str]| parse_args(&args(a)).expect_err("error");
    assert_eq!(e(&[]), "--out is required");
    assert_eq!(e(&["--size", "1501", "--out", "f"]), "--size must be in 64..=1500");
    assert_eq!(e(&["--size", "63", "--out", "f"]), "--size must be in 64..=1500");
    assert_eq!(e(&["--size"]), "--size needs a value");
    assert_eq!(e(&["--count", "-1"]), "invalid --count: invalid digit found in string");
    assert_eq!(e(&["--bogus"]), "unknown arg: --bogus");
    match parse_args(&args(&["--count", "7", "-h"])).expect("help") {
        GenCommand::Help { count, size } => {
            let h = gen_help(count, size);
            assert!(h.starts_with("Usage: gen_perf_pcap --count N --size BYTES --out PATH\n\nS"));
            assert!(h.ends_with(
                "Defaults:\n  --count 7 (number of packets)\n  \
                 --size  100  (bytes per frame, must be 64..=1500)"
            ));
        }
        other => panic!("{other:?}"),
    }
}

#[test]
fn numbers_read_as_in_std() {
    let texts = [
        "", "+", "-", "0", "-0", "+0", "00012", "12", "-12", "+12", "1 2", " 1", "1x", "x1",
        "4294967295", "4294967296", "42949672960", "4294967296x", "429496729xx",
        "9223372036854775807", "9223372036854775808", "-9223372036854775808",
        "-9223372036854775809", "18446744073709551615", "18446744073709551616", "99999999999999999999999",
        "-99999999999999999999999", "-99999999999999999999999z", "--1", "+-1", "1\u{661}", "0x10",
        "18446744073709551616x", "1844674407370955161x6",
    ];
    for t in texts {
        let ours = parse_i64(t).map_err(|e| e.describe().to_string());
        assert_eq!(ours, t.parse::<i64>().map_err(|e| e.to_string()), "{t:?} as i64");
        let ours = parse_u32(t).map_err(|e| e.describe().to_string());
        assert_eq!(ours, t.parse::<u32>().map_err(|e| e.to_string()), "{t:?} as u32");
        let ours = parse_usize(t).map_err(|e| e.describe().to_string());
        assert_eq!(ours, t.parse::<usize>().map_err(|e| e.to_string()), "{t:?} as usize");
    }
}

#[test]
fn texts_split_and_trim_as_in_std() {
    let texts = [
        "", " ", "a", " a", "a ", " a  b\t\nc\r", "\u{b}a\u{b}b", "\u{a0}a\u{2003}", "\u{85}x\u{c}",
        "\u{3000}\u{200b}y", "a\u{c}b", "\n\n",
    ];
    for t in texts {
        let want: Vec<String> = t.split_ascii_whitespace().map(|w| w.to_string()).collect();
        assert_eq!(split_words(t), want, "{t:?}");
        assert_eq!(trim(t), t.trim(), "{t:?}");
        let mut q = String::new();
        push_quoted(&mut q, t);
        assert_eq!(q, format!("{t:?}"));
    }
    assert_eq!(after_prefix("--a=b", "--a=").as_deref(), Some("b"));
    assert!(after_prefix("--a", "--a=").is_none());
    assert!(same("a", "a") && !same("a", "b"));
    assert!(contains_char("a\0", '\0') && !contains_char("a", 'b'));
    let mut d = String::new();
    push_decimal(&mut d, u128::MAX);
    assert_eq!(d, u128::MAX.to_string());
}

#[test]
fn integers_in_memory() {
    let m = [1, 2, 3, 4, 5];
    assert_eq!(read_be32(&m, 1), 0x0203_0405);
    assert_eq!(read_u32_at(&m, 0, ByteOrder::Little), 0x0403_0201);
    assert_eq!(read_u32_at(&m, 0, ByteOrder::Big), 0x0102_0304);
    assert_eq!(read_u16_at(&m, 1, ByteOrder::Little), 0x0302);
    assert_eq!(read_u16_at(&m, 1, ByteOrder::Big), 0x0203);
}

#[test]
fn a_capture_file_begins_with_its_head() {
    let mut w = Vec::new();
    write_pcap_header(&mut w, 1500);
    assert_eq!(
        w,
        vec![
            0xd4, 0xc3, 0xb2, 0xa1, 2, 0, 4, 0, 0, 0, 0, 0, 0, 0, 0, 0, 0xdc, 5, 0, 0, 1, 0, 0, 0,
        ]
    );
    let mut w = Vec::new();
    write_packet(&mut w, 1, 2, &[7, 8, 9]);
    assert_eq!(w, vec![1, 0, 0, 0, 2, 0, 0, 0, 3, 0, 0, 0, 3, 0, 0, 0, 7, 8, 9]);
}

/// The frame as an independent program writes it.
fn expected_frame(index: u64, size: usize) -> Vec<u8> {
    let mut f = vec![0u8; size];
    let turn = (index % 254) as u8;
    f[0..6].copy_from_slice(&[0x02, 0, 0, 0, 0, turn + 1]);
    f[6..12].copy_from_slice(&[0x02, 0, 0, 0, 0, turn + 2]);
    f[12..14].copy_from_slice(&[0x08, 0x00]);
    f[14] = 0x45;
    f[16..18].copy_from_slice(&((size - 14) as u16).to_be_bytes());
    f[18..20].copy_from_slice(&(index as u16).to_be_bytes());
    f[22] = 64;
    f[23] = 17;
    f[26..30].copy_from_slice(&[10, 0, 0, turn + 1]);
    f[30..34].copy_from_slice(&[10, 0, 0, 255 - turn]);
    f[34..36].copy_from_slice(&((index as u16).wrapping_add(40000)).to_be_bytes());
    f[36..38].copy_from_slice(&9999u16.to_be_bytes());
    f[38..40].copy_from_slice(&((size - 34) as u16).to_be_bytes());
    let mut s: u64 = index.wrapping_mul(0x9E37_79B9_7F4A_7C15).wrapping_add(1);
    for byte in f.iter_mut().skip(42) {
        s ^= s << 13;
        s ^= s >> 7;
        s ^= s << 17;
        *byte = (s & 0xFF) as u8;
    }
    f
}

#[test]
fn frames_are_made_up_the_same_way_every_time() {
    let mut scratch = vec![1, 2, 3];
    for (index, size) in [(0, 64), (1, 64), (253, 100), (254, 1500), (65535, 42), (u64::MAX, 99)] {
        build_frame(index, size, &mut scratch);
        assert_eq!(scratch, expected_frame(index, size));
    }
    build_frame(0, 64, &mut scratch);
    assert_eq!(&scratch[0..12], &[2, 0, 0, 0, 0, 1, 2, 0, 0, 0, 0, 2]);
    assert_eq!(&scratch[26..34], &[10, 0, 0, 1, 10, 0, 0, 255]);
    assert_eq!(&scratch[42..44], &[0x41, 0x41]);
}

#[test]
fn addresses_go_round_with_the_index() {
    let mut scratch = Vec::new();
    for (index, to, from) in [(253, 254, 255), (254, 1, 2), (256, 3, 4)] {
        build_frame(index, 64, &mut scratch);
        assert_eq!(&scratch[0..12], &[2, 0, 0, 0, 0, to, 2, 0, 0, 0, 0, from]);
    }
    for (index, from, to) in [(253, 254, 2), (254, 1, 255), (256, 3, 253)] {
        build_frame(index, 64, &mut scratch);
        assert_eq!(&scratch[26..34], &[10, 0, 0, from, 10, 0, 0, to]);
    }
}

#[test]
fn records_are_a_microsecond_apart() {
    assert_eq!(timestamp(0), (1_700_000_000, 0));
    assert_eq!(timestamp(2_000_003), (1_700_000_002, 3));
    let (mut w, mut scratch) = (Vec::new(), Vec::new());
    write_record(&mut w, 2_000_003, 64, &mut scratch);
    assert_eq!(w.len(), 80);
    assert_eq!(read_u32_at(&w, 0, ByteOrder::Little), 1_700_000_002);
    assert_eq!(read_u32_at(&w, 4, ByteOrder::Little), 3);
    assert_eq!(&w[16..], &expected_frame(2_000_003, 64)[..]);
    assert_eq!(
        report(100_000, 100, "/tmp/p"),
        "wrote 100000 packets \u{d7} 100 bytes = 11 MB to /tmp/p"
    );
}

#[test]
fn packets_are_taken_up_to_the_count() {
    let mut t = Tally::new(3);
    t.begin_block();
    for (take, stop) in [(true, false), (true, false), (true, true), (false, true)] {
        let step = t.on_packet();
        assert_eq!((step.take, step.stop), (take, stop));
    }
    t.end_block();
    assert_eq!((t.count, t.blocks, t.block_count, t.total), (0, 1, 3, 3));
    assert_eq!(t.block_line(), "block 1 had 3 packets, 3 total in ");
    assert_eq!(
        t.result_line(12),
        "TESTCLIENT_RESULT blocks=1 packets=3 elapsed_ns=12 pkt_per_sec="
    );
    let mut t = Tally::new(-1);
    t.begin_block();
    for _ in 0..5 {
        assert!(!t.on_packet().stop);
    }
    t.end_block();
    t.begin_block();
    t.end_block();
    assert_eq!((t.blocks, t.total), (2, 5));
    let mut t = Tally { count: -1, blocks: 0, block_count: 2, total: i64::MAX - 1 };
    t.end_block();
    assert_eq!(t.total, i64::MAX);
}

#[test]
fn packets_print_in_hexadecimal() {
    assert_eq!(dump(&[0, 0x0f, 0xa5, 0xff]), "000fa5ff");
    assert_eq!(dump(&[]), "");
}
