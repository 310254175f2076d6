use testimony::config::{assign_fanout_ids, check_socket_names, load, ConfigFile, SocketConfig};
use testimony::daemon_error::{Cause, DaemonError};
use testimony::os_error::OsError;

fn cfg(id: u16) -> SocketConfig {
    SocketConfig {
        socket_name: String::new(),
        interface: String::from("eth0"),
        block_size: 1024,
        num_blocks: 1,
        block_timeout_millis: 0,
        fanout_type: 0,
        fanout_size: 1,
        fanout_id: id,
        user: String::new(),
        group: String::new(),
        filter: String::new(),
    }
}

fn foo(interface: &str, block_size: u32, num_blocks: u32, fanout_size: u16) -> SocketConfig {
    SocketConfig {
        socket_name: "/tmp/foo".to_string(),
        interface: interface.to_string(),
        block_size,
        num_blocks,
        block_timeout_millis: 1000,
        fanout_size,
        ..cfg(0)
    }
}

/// Automatic identifiers begin at one and go round those that are asked for.
#[test]
fn fanout_ids_auto_assign_skips_reserved() {
    let v = vec![cfg(0), cfg(0), cfg(3), cfg(0)];
    let out = assign_fanout_ids(&v).expect("assign");
    assert_eq!(out, vec![1, 2, 3, 4]);
}

#[test]
fn fanout_ids_auto_jumps_over_taken() {
    let v = vec![cfg(2), cfg(0), cfg(0)];
    let out = assign_fanout_ids(&v).expect("assign");
    assert_eq!(out, vec![2, 1, 3]);
}

#[test]
fn fanout_ids_duplicate_explicit_rejected() {
    let v = vec![cfg(5), cfg(5)];
    let err = assign_fanout_ids(&v).expect_err("dup");
    assert!(matches!(err, DaemonError::DuplicateFanoutId(5)));
}

#[test]
fn fanout_ids_all_explicit() {
    let v = vec![cfg(7), cfg(11), cfg(2)];
    assert_eq!(assign_fanout_ids(&v).expect("assign"), vec![7, 11, 2]);
}

#[test]
fn fanout_ids_all_auto() {
    let v = vec![cfg(0), cfg(0), cfg(0)];
    assert_eq!(assign_fanout_ids(&v).expect("assign"), vec![1, 2, 3]);
}

#[test]
fn fanout_ids_run_out() {
    let mut v: Vec<SocketConfig> = Vec::new();
    for _ in 0..65534 {
        v.push(cfg(0));
    }
    v.push(cfg(65535));
    let out = assign_fanout_ids(&v).expect("all identifiers");
    assert_eq!(out[65533], 65534);
    assert_eq!(out[65534], 65535);
    v.push(cfg(0));
    let err = assign_fanout_ids(&v).expect_err("one too many");
    assert!(matches!(err, DaemonError::FanoutIdsExhausted));
    assert_eq!(
        err.message(),
        "ran out of fanout IDs while auto-assigning (u16 space exhausted)"
    );
}

#[test]
fn fanout_ids_differ() {
    let v = vec![cfg(0), cfg(1), cfg(0), cfg(2), cfg(4), cfg(0)];
    assert_eq!(assign_fanout_ids(&v).expect("assign"), vec![3, 1, 5, 2, 4, 6]);
}

#[test]
fn the_first_duplicate_counts() {
    let v = vec![cfg(9), cfg(4), cfg(4), cfg(9)];
    assert!(matches!(assign_fanout_ids(&v), Err(DaemonError::DuplicateFanoutId(4))));
}

#[test]
fn load_rejects_zero_block_size() {
    let file = ConfigFile::Parsed(vec![foo("eth0", 0, 16, 1)]);
    let err = load("/etc/testimony.conf", file).expect_err("zero block_size must error");
    let s = err.message();
    assert!(s.contains("/tmp/foo"), "expected socket name in {s:?}");
    assert!(s.contains("BlockSize"), "expected BlockSize in {s:?}");
    assert_eq!(s, "invalid config: /tmp/foo: BlockSize must be > 0");
}

#[test]
fn load_rejects_zero_num_blocks() {
    let file = ConfigFile::Parsed(vec![foo("eth0", 1024, 0, 1)]);
    let err = load("/etc/testimony.conf", file).expect_err("zero num_blocks must error");
    let s = err.message();
    assert!(s.contains("NumBlocks"), "expected NumBlocks in {s:?}");
}

#[test]
fn load_rejects_empty_interface() {
    let file = ConfigFile::Parsed(vec![foo("", 1024, 16, 1)]);
    let err = load("/etc/testimony.conf", file).expect_err("empty iface must error");
    let s = err.message();
    assert!(s.contains("Interface"), "expected Interface in {s:?}");
}

#[test]
fn load_promotes_zero_fanout_size_to_one() {
    let file = ConfigFile::Parsed(vec![foo("eth0", 1024, 16, 0)]);
    let cfgs = load("/etc/testimony.conf", file).expect("load");
    assert_eq!(cfgs.len(), 1);
    assert_eq!(cfgs[0].fanout_size, 1, "default FanoutSize should become 1");
    assert_eq!(cfgs[0].num_blocks, 16);
}

#[test]
fn load_carries_path_in_io_errors() {
    let nope = "/tmp/this_file_does_not_exist_in_testimony_test";
    let file = ConfigFile::Unreadable(OsError {
        code: Some(2),
        text: "No such file or directory (os error 2)".to_string(),
    });
    let err = load(nope, file).expect_err("missing file must error");
    let s = err.message();
    assert!(s.contains(nope), "expected path in {s:?}");
    assert!(matches!(err.source(), Some(Cause::Os(e)) if e.code == Some(2)));
}

#[test]
fn load_carries_the_reason_of_a_bad_file() {
    let file = ConfigFile::Unparsable("expected value at line 1 column 3".to_string());
    let err = load("/etc/t.conf", file).expect_err("bad file");
    assert_eq!(
        err.message(),
        "could not parse config /etc/t.conf: expected value at line 1 column 3"
    );
    assert!(err.source().is_none());
}

#[test]
fn the_first_fault_counts() {
    let mut second = foo("eth0", 0, 0, 1);
    second.socket_name = "/tmp/bar".to_string();
    let file = ConfigFile::Parsed(vec![foo("eth0", 1, 1, 1), second, foo("", 1, 1, 1)]);
    let err = load("/etc/t.conf", file).expect_err("second");
    assert_eq!(err.message(), "invalid config: /tmp/bar: BlockSize must be > 0");
}

#[test]
fn names_must_differ() {
    let mut other = foo("eth1", 1, 1, 1);
    other.socket_name = "/tmp/bar".to_string();
    assert!(check_socket_names(&[foo("eth0", 1, 1, 1), other.clone()]).is_ok());
    let err = check_socket_names(&[foo("eth0", 1, 1, 1), other, foo("eth1", 2, 2, 2)])
        .expect_err("duplicate");
    assert_eq!(err.message(), "duplicate SocketName \"/tmp/foo\" in config");
}
