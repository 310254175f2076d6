use testimony::daemon_error::DaemonError;
use testimony::os_error::OsError;
use testimony::shutdown::{install, InstallStep, Shutdown};

#[test]
fn shutdown_starts_unset() {
    let s = Shutdown::new();
    assert!(!s.is_set());
    assert!(!Shutdown::default().is_set());
}

#[test]
fn shutdown_set_is_observable() {
    let s = Shutdown::new();
    s.set();
    assert!(s.is_set());
}

#[test]
fn shutdown_set_is_idempotent() {
    let s = Shutdown::new();
    s.set();
    s.set();
    s.set();
    assert!(s.is_set());
}

/// Clones share state: what is set through one is seen through the other.
#[test]
fn shutdown_clones_share_state() {
    let s1 = Shutdown::new();
    let s2 = s1.clone();
    assert!(!s2.is_set());
    s1.set();
    assert!(s2.is_set());
}

#[test]
fn installing_goes_step_by_step() {
    let mut step = install();
    let mut seen = Vec::new();
    while step != InstallStep::Installed {
        seen.push(step);
        step = step.advance(Ok(())).expect("well");
    }
    assert_eq!(
        seen,
        vec![
            InstallStep::IgnoreSigpipe,
            InstallStep::HookPanics,
            InstallStep::RegisterSignals,
            InstallStep::SpawnWatcher,
        ]
    );
}

#[test]
fn installing_fails_by_name() {
    let bad = || Err(OsError { code: Some(22), text: "Invalid argument".to_string() });
    let e = InstallStep::IgnoreSigpipe.advance(bad()).expect_err("sigpipe");
    assert_eq!(e.message(), "registering signal handler for SIGPIPE: Invalid argument");
    let e = InstallStep::RegisterSignals.advance(bad()).expect_err("signals");
    assert_eq!(e.message(), "registering signal handler for SIGTERM/SIGINT: Invalid argument");
    let e = InstallStep::SpawnWatcher.advance(bad()).expect_err("thread");
    assert_eq!(e.message(), "spawning worker thread \"signal-watch\": Invalid argument");
    assert!(matches!(e, DaemonError::ThreadSpawn { .. }));
}
