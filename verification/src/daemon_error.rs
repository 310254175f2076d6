//! What can go wrong in the daemon.

use vstd::prelude::*;

use crate::afpacket::AfpacketError;
use crate::os_error::OsError;
use crate::text;
use crate::text::{push_decimal, push_quoted};

verus! {

/// An error of the daemon.
#[derive(Debug)]
pub enum DaemonError {
    /// The configuration file could not be read.
    ConfigRead { path: String, source: OsError },
    /// The configuration file is no configuration.
    ConfigParse { path: String, reason: String },
    /// The configuration asks for something that makes no sense.
    ConfigValidate(String),
    /// A capture socket could not be brought up.
    Afpacket { socket_name: String, source: AfpacketError },
    /// The listener could not be made.
    Listener { path: String, op: &'static str, source: OsError },
    /// The socket could not be given to its owner.
    Chown { path: String, uid: u32, gid: u32, source: OsError },
    /// Looking up a user failed.
    UserLookup { name: String, source: OsError },
    /// There is no such user.
    UserNotFound { name: String },
    /// Looking up a group failed.
    GroupLookup { name: String, source: OsError },
    /// There is no such group.
    GroupNotFound { name: String },
    /// A signal handler could not be set up.
    SignalSetup { which: &'static str, source: OsError },
    /// A thread could not be started.
    ThreadSpawn { name: String, source: OsError },
    /// The listener could not be made non-blocking.
    SetNonblocking { source: OsError },
    /// The daemon was asked to stop before it was up.
    ShutdownDuringSetup,
    /// There are more sockets than fanout identifiers.
    FanoutIdsExhausted,
    /// Two sockets ask for the same fanout identifier.
    DuplicateFanoutId(u16),
    /// Two sockets have the same name.
    DuplicateSocketName(String),
    /// The capture socket could not be passed to a client.
    SendFd { socket_name: String, source: OsError },
    /// There is no room for the control message that passes the capture socket.
    CmsgFirstHdrNull,
    /// A path contains a NUL byte.
    NulInPath(String),
}

/// What lies behind an error of the daemon.
#[derive(Debug)]
pub enum Cause<'a> {
    Os(&'a OsError),
    Afpacket(&'a AfpacketError),
}

impl DaemonError {
    /// The message: what the daemon was doing, with what, and what came of it.
    pub open spec fn text(self) -> Seq<char> {
        match self {
            DaemonError::ConfigRead { path, source } =>
                "could not read config "@ + path@ + ": "@ + source.text@,
            DaemonError::ConfigParse { path, reason } =>
                "could not parse config "@ + path@ + ": "@ + reason@,
            DaemonError::ConfigValidate(s) => "invalid config: "@ + s@,
            DaemonError::Afpacket { socket_name, source } =>
                "AF_PACKET setup for "@ + socket_name@ + ": "@ + source.text(),
            DaemonError::Listener { path, op, source } =>
                op@ + " on listener "@ + path@ + ": "@ + source.text@,
            DaemonError::Chown { path, uid, gid, source } =>
                "chown("@ + path@ + ", uid="@ + text::decimal(uid as nat) + ", gid="@
                    + text::decimal(gid as nat) + ") failed: "@ + source.text@,
            DaemonError::UserLookup { name, source } =>
                "getpwnam_r("@ + text::debug_text(name@) + ") failed: "@ + source.text@,
            DaemonError::UserNotFound { name } =>
                "user "@ + text::debug_text(name@) + " not found in /etc/passwd"@,
            DaemonError::GroupLookup { name, source } =>
                "getgrnam_r("@ + text::debug_text(name@) + ") failed: "@ + source.text@,
            DaemonError::GroupNotFound { name } =>
                "group "@ + text::debug_text(name@) + " not found in /etc/group"@,
            DaemonError::SignalSetup { which, source } =>
                "registering signal handler for "@ + which@ + ": "@ + source.text@,
            DaemonError::ThreadSpawn { name, source } =>
                "spawning worker thread "@ + text::debug_text(name@) + ": "@ + source.text@,
            DaemonError::SetNonblocking { source } =>
                "set_nonblocking on listener: "@ + source.text@,
            DaemonError::ShutdownDuringSetup =>
                "shutdown signal arrived before all sockets were brought up"@,
            DaemonError::FanoutIdsExhausted =>
                "ran out of fanout IDs while auto-assigning (u16 space exhausted)"@,
            DaemonError::DuplicateFanoutId(id) =>
                "duplicate FanoutID "@ + text::decimal(id as nat) + " in config"@,
            DaemonError::DuplicateSocketName(s) =>
                "duplicate SocketName "@ + text::debug_text(s@) + " in config"@,
            DaemonError::SendFd { socket_name, source } =>
                "sendmsg(SCM_RIGHTS) on "@ + socket_name@ + ": "@ + source.text@,
            DaemonError::CmsgFirstHdrNull =>
                "CMSG_FIRSTHDR returned NULL on a buffer we sized ourselves (libc bug or kernel ABI mismatch)"@,
            DaemonError::NulInPath(p) =>
                "path "@ + p@ + " contains a NUL byte (not a valid C string)"@,
        }
    }

    /// The message of the error.
    pub fn message(&self) -> (r: String)
        ensures
            r@ == self.text(),
    {
        match self {
            DaemonError::ConfigRead { path, source } => {
                let mut s = "could not read config ".to_owned();
                s.append(path.as_str());
                s.append(": ");
                s.append(source.text.as_str());
                s
            },
            DaemonError::ConfigParse { path, reason } => {
                let mut s = "could not parse config ".to_owned();
                s.append(path.as_str());
                s.append(": ");
                s.append(reason.as_str());
                s
            },
            DaemonError::ConfigValidate(reason) => {
                let mut s = "invalid config: ".to_owned();
                s.append(reason.as_str());
                s
            },
            DaemonError::Afpacket { socket_name, source } => {
                let mut s = "AF_PACKET setup for ".to_owned();
                s.append(socket_name.as_str());
                s.append(": ");
                let m = source.message();
                s.append(m.as_str());
                s
            },
            DaemonError::Listener { path, op, source } => {
                let name: &str = op;
                let mut s = name.to_owned();
                s.append(" on listener ");
                s.append(path.as_str());
                s.append(": ");
                s.append(source.text.as_str());
                s
            },
            DaemonError::Chown { path, uid, gid, source } => {
                let mut s = "chown(".to_owned();
                s.append(path.as_str());
                s.append(", uid=");
                push_decimal(&mut s, *uid as u128);
                s.append(", gid=");
                push_decimal(&mut s, *gid as u128);
                s.append(") failed: ");
                s.append(source.text.as_str());
                s
            },
            DaemonError::UserLookup { name, source } => {
                let mut s = "getpwnam_r(".to_owned();
                push_quoted(&mut s, name.as_str());
                s.append(") failed: ");
                s.append(source.text.as_str());
                s
            },
            DaemonError::UserNotFound { name } => {
                let mut s = "user ".to_owned();
                push_quoted(&mut s, name.as_str());
                s.append(" not found in /etc/passwd");
                s
            },
            DaemonError::GroupLookup { name, source } => {
                let mut s = "getgrnam_r(".to_owned();
                push_quoted(&mut s, name.as_str());
                s.append(") failed: ");
                s.append(source.text.as_str());
                s
            },
            DaemonError::GroupNotFound { name } => {
                let mut s = "group ".to_owned();
                push_quoted(&mut s, name.as_str());
                s.append(" not found in /etc/group");
                s
            },
            DaemonError::SignalSetup { which, source } => {
                let mut s = "registering signal handler for ".to_owned();
                s.append(which);
                s.append(": ");
                s.append(source.text.as_str());
                s
            },
            DaemonError::ThreadSpawn { name, source } => {
                let mut s = "spawning worker thread ".to_owned();
                push_quoted(&mut s, name.as_str());
                s.append(": ");
                s.append(source.text.as_str());
                s
            },
            DaemonError::SetNonblocking { source } => {
                let mut s = "set_nonblocking on listener: ".to_owned();
                s.append(source.text.as_str());
                s
            },
            DaemonError::ShutdownDuringSetup =>
                "shutdown signal arrived before all sockets were brought up".to_owned(),
            DaemonError::FanoutIdsExhausted =>
                "ran out of fanout IDs while auto-assigning (u16 space exhausted)".to_owned(),
            DaemonError::DuplicateFanoutId(id) => {
                let mut s = "duplicate FanoutID ".to_owned();
                push_decimal(&mut s, *id as u128);
                s.append(" in config");
                s
            },
            DaemonError::DuplicateSocketName(name) => {
                let mut s = "duplicate SocketName ".to_owned();
                push_quoted(&mut s, name.as_str());
                s.append(" in config");
                s
            },
            DaemonError::SendFd { socket_name, source } => {
                let mut s = "sendmsg(SCM_RIGHTS) on ".to_owned();
                s.append(socket_name.as_str());
                s.append(": ");
                s.append(source.text.as_str());
                s
            },
            DaemonError::CmsgFirstHdrNull =>
                "CMSG_FIRSTHDR returned NULL on a buffer we sized ourselves (libc bug or kernel ABI mismatch)".to_owned(),
            DaemonError::NulInPath(p) => {
                let mut s = "path ".to_owned();
                s.append(p.as_str());
                s.append(" contains a NUL byte (not a valid C string)");
                s
            },
        }
    }

    /// The failed call behind the error, where there is one.
    pub open spec fn cause(self) -> Option<OsError> {
        match self {
            DaemonError::ConfigRead { source, .. } => Some(source),
            DaemonError::Listener { source, .. } => Some(source),
            DaemonError::Chown { source, .. } => Some(source),
            DaemonError::UserLookup { source, .. } => Some(source),
            DaemonError::GroupLookup { source, .. } => Some(source),
            DaemonError::SignalSetup { source, .. } => Some(source),
            DaemonError::ThreadSpawn { source, .. } => Some(source),
            DaemonError::SetNonblocking { source } => Some(source),
            DaemonError::SendFd { source, .. } => Some(source),
            _ => None,
        }
    }

    /// What lies behind the error: a failed call, or an error of the capture socket.
    pub fn source(&self) -> (r: Option<Cause<'_>>)
        ensures
            match r {
                Some(Cause::Os(e)) => self.cause() == Some(*e),
                Some(Cause::Afpacket(e)) => self matches DaemonError::Afpacket { source, .. }
                    && source == *e,
                None => self.cause() is None && self !is Afpacket,
            },
    {
        match self {
            DaemonError::ConfigRead { source, .. } => Some(Cause::Os(source)),
            DaemonError::Listener { source, .. } => Some(Cause::Os(source)),
            DaemonError::Chown { source, .. } => Some(Cause::Os(source)),
            DaemonError::UserLookup { source, .. } => Some(Cause::Os(source)),
            DaemonError::GroupLookup { source, .. } => Some(Cause::Os(source)),
            DaemonError::SignalSetup { source, .. } => Some(Cause::Os(source)),
            DaemonError::ThreadSpawn { source, .. } => Some(Cause::Os(source)),
            DaemonError::SetNonblocking { source } => Some(Cause::Os(source)),
            DaemonError::SendFd { source, .. } => Some(Cause::Os(source)),
            DaemonError::Afpacket { source, .. } => Some(Cause::Afpacket(source)),
            _ => None,
        }
    }
}

/// What is said of each error: what the daemon was doing, for which socket, file or thread,
/// and what came of it.
pub proof fn law_what_is_said(e: DaemonError)
    ensures
        e matches DaemonError::ConfigRead { path, source } ==> e.text()
            == "could not read config "@ + path@ + ": "@ + source.text@,
        e matches DaemonError::ConfigParse { path, reason } ==> e.text()
            == "could not parse config "@ + path@ + ": "@ + reason@,
        e matches DaemonError::ConfigValidate(s) ==> e.text()
            == "invalid config: "@ + s@,
        e matches DaemonError::Afpacket { socket_name, source } ==> e.text()
            == "AF_PACKET setup for "@ + socket_name@ + ": "@ + source.text(),
        e matches DaemonError::Listener { path, op, source } ==> e.text()
            == op@ + " on listener "@ + path@ + ": "@ + source.text@,
        e matches DaemonError::Chown { path, uid, gid, source } ==> e.text()
            == "chown("@ + path@ + ", uid="@ + text::decimal(uid as nat) + ", gid="@
                + text::decimal(gid as nat) + ") failed: "@ + source.text@,
        e matches DaemonError::UserLookup { name, source } ==> e.text()
            == "getpwnam_r("@ + text::debug_text(name@) + ") failed: "@ + source.text@,
        e matches DaemonError::UserNotFound { name } ==> e.text()
            == "user "@ + text::debug_text(name@) + " not found in /etc/passwd"@,
        e matches DaemonError::GroupLookup { name, source } ==> e.text()
            == "getgrnam_r("@ + text::debug_text(name@) + ") failed: "@ + source.text@,
        e matches DaemonError::GroupNotFound { name } ==> e.text()
            == "group "@ + text::debug_text(name@) + " not found in /etc/group"@,
        e matches DaemonError::SignalSetup { which, source } ==> e.text()
            == "registering signal handler for "@ + which@ + ": "@ + source.text@,
        e matches DaemonError::ThreadSpawn { name, source } ==> e.text()
            == "spawning worker thread "@ + text::debug_text(name@) + ": "@ + source.text@,
        e matches DaemonError::SetNonblocking { source } ==> e.text()
            == "set_nonblocking on listener: "@ + source.text@,
        e is ShutdownDuringSetup ==> e.text()
            == "shutdown signal arrived before all sockets were brought up"@,
        e is FanoutIdsExhausted ==> e.text()
            == "ran out of fanout IDs while auto-assigning (u16 space exhausted)"@,
        e matches DaemonError::DuplicateFanoutId(id) ==> e.text()
            == "duplicate FanoutID "@ + text::decimal(id as nat) + " in config"@,
        e matches DaemonError::DuplicateSocketName(s) ==> e.text()
            == "duplicate SocketName "@ + text::debug_text(s@) + " in config"@,
        e matches DaemonError::SendFd { socket_name, source } ==> e.text()
            == "sendmsg(SCM_RIGHTS) on "@ + socket_name@ + ": "@ + source.text@,
        e is CmsgFirstHdrNull ==> e.text()
            == "CMSG_FIRSTHDR returned NULL on a buffer we sized ourselves (libc bug or kernel ABI mismatch)"@,
        e matches DaemonError::NulInPath(p) ==> e.text()
            == "path "@ + p@ + " contains a NUL byte (not a valid C string)"@,
{
}

/// Behind an error lies the failed call that it tells of, and behind no other error one.
pub proof fn law_what_lies_behind(e: DaemonError)
    ensures
        e matches DaemonError::ConfigRead { source, .. } ==> e.cause() == Some(source),
        e matches DaemonError::Listener { source, .. } ==> e.cause() == Some(source),
        e matches DaemonError::Chown { source, .. } ==> e.cause() == Some(source),
        e matches DaemonError::UserLookup { source, .. } ==> e.cause() == Some(source),
        e matches DaemonError::GroupLookup { source, .. } ==> e.cause() == Some(source),
        e matches DaemonError::SignalSetup { source, .. } ==> e.cause() == Some(source),
        e matches DaemonError::ThreadSpawn { source, .. } ==> e.cause() == Some(source),
        e matches DaemonError::SetNonblocking { source } ==> e.cause() == Some(source),
        e matches DaemonError::SendFd { source, .. } ==> e.cause() == Some(source),
        e.cause() is Some ==> e is ConfigRead
            || e is Listener
            || e is Chown
            || e is UserLookup
            || e is GroupLookup
            || e is SignalSetup
            || e is ThreadSpawn
            || e is SetNonblocking
            || e is SendFd,
{
}

} // verus!
