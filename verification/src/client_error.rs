//! The ways in which a client's connection fails.

use vstd::prelude::*;

use crate::os_error::OsError;
use crate::text;
use crate::text::{push_decimal, push_hex_u16, push_quoted, push_signed};

verus! {

pub const STAGE_VERSION: &'static str = "version byte";

pub const STAGE_TLV_HEADER: &'static str = "TLV header";

pub const STAGE_TLV_VALUE: &'static str = "TLV value";

pub const STAGE_FANOUT_INDEX: &'static str = "fanout-index TLV";

pub const STAGE_RECV_FD: &'static str = "fd-passing recvmsg";

pub const STAGE_BLOCK_INDEX: &'static str = "block-index";

/// Why an operation of the client failed.
#[derive(Debug)]
pub enum Error {
    /// `connect(AF_UNIX)` failed.
    Connect { path: String, source: OsError },
    /// The socket name has a NUL in it.
    InvalidSocketName(String),
    /// A read on the socket failed at a certain stage.
    Read { stage: &'static str, source: OsError },
    /// A write on the socket failed.
    Write { stage: &'static str, source: OsError },
    /// The peer closed the socket in the middle of a read.
    PeerClosed { stage: &'static str },
    /// The server announced a different protocol version.
    UnexpectedVersion { got: u8, want: u8 },
    /// The server sent a message that servers do not send.
    UnexpectedTlvCategory { typ: u16, length: u16 },
    /// The server sent a known message with a length that means nothing.
    UnexpectedTlvLength { typ: u16, got_length: u16, want_length: u16 },
    /// The handshake ended without one of the required sizes.
    MissingHandshakeFields { fanout_size: u32, block_size: u32, num_blocks: u32 },
    /// The server sent a block index out of range.
    BlockIndexOutOfRange { idx: u32, num_blocks: u32 },
    /// `mmap` of the capture ring failed.
    Mmap { len: usize, source: OsError },
    /// `block_size * num_blocks` is above the range of `usize`.
    RingSizeOverflow { block_size: u32, num_blocks: u32 },
    /// `poll` on the socket failed.
    Poll(OsError),
    /// `recvmsg` for the capture socket failed.
    RecvFd(OsError),
    /// `recvmsg` went well and brought no descriptor.
    NoFdInCmsg,
    /// `recvmsg` brought an unexpected number of bytes.
    RecvFdBytes { got: isize, want: usize },
    /// The connection is initialized already.
    AlreadyInitialized,
    /// The connection is not initialized yet.
    NotInitialized,
    /// An operation took too long.
    Timeout,
    /// The library found itself in a state that it should not reach.
    Internal(String),
}

impl Error {
    /// The message of the error.
    pub open spec fn text(self) -> Seq<char> {
        match self {
            Error::Connect { path, source } =>
                "connect to "@ + path@ + " failed: "@ + source.text@,
            Error::InvalidSocketName(s) =>
                "socket name "@ + text::debug_text(s@) + " contains a NUL byte"@,
            Error::Read { stage, source } =>
                "read of "@ + stage@ + " failed: "@ + source.text@,
            Error::Write { stage, source } =>
                "write of "@ + stage@ + " failed: "@ + source.text@,
            Error::PeerClosed { stage } =>
                "server closed the connection while reading "@ + stage@,
            Error::UnexpectedVersion { got, want } =>
                "server announced protocol version "@ + text::decimal(got as nat) + ", expected "@
                    + text::decimal(want as nat),
            Error::UnexpectedTlvCategory { typ, length } =>
                "received TLV with type "@ + text::hex_u16(typ) + " (length "@ + text::decimal(
                    length as nat,
                ) + "); not a ServerToClient type"@,
            Error::UnexpectedTlvLength { typ, got_length, want_length } =>
                "TLV type "@ + text::hex_u16(typ) + " had length "@ + text::decimal(
                    got_length as nat,
                ) + ", expected "@ + text::decimal(want_length as nat),
            Error::MissingHandshakeFields { fanout_size, block_size, num_blocks } =>
                "handshake incomplete: fanout_size="@ + text::decimal(fanout_size as nat)
                    + ", block_size="@ + text::decimal(block_size as nat) + ", num_blocks="@
                    + text::decimal(num_blocks as nat) + " (all must be > 0)"@,
            Error::BlockIndexOutOfRange { idx, num_blocks } =>
                "server sent block index "@ + text::decimal(idx as nat) + ", valid range is [0, "@
                    + text::decimal(num_blocks as nat) + ")"@,
            Error::Mmap { len, source } =>
                "mmap of AF_PACKET ring (len="@ + text::decimal(len as nat) + ") failed: "@
                    + source.text@,
            Error::RingSizeOverflow { block_size, num_blocks } =>
                "block_size "@ + text::decimal(block_size as nat) + " * num_blocks "@
                    + text::decimal(num_blocks as nat) + " overflows usize"@,
            Error::Poll(e) => "poll on unix socket failed: "@ + e.text@,
            Error::RecvFd(e) => "recvmsg(SCM_RIGHTS) failed: "@ + e.text@,
            Error::NoFdInCmsg =>
                "recvmsg succeeded but the cmsg payload had no SCM_RIGHTS fd"@,
            Error::RecvFdBytes { got, want } =>
                "recvmsg(SCM_RIGHTS) returned "@ + text::signed_decimal(got as int)
                    + " bytes, expected exactly "@ + text::decimal(want as nat),
            Error::AlreadyInitialized => "testimony_init: connection already initialized"@,
            Error::NotInitialized => "testimony connection not initialized; call init() first"@,
            Error::Timeout => "operation timed out"@,
            Error::Internal(s) => "internal: "@ + s@,
        }
    }

    /// The message of the error.
    pub fn message(&self) -> (r: String)
        ensures
            r@ == self.text(),
    {
        match self {
            Error::Connect { path, source } => {
                let mut s = "connect to ".to_owned();
                s.append(path.as_str());
                s.append(" failed: ");
                s.append(source.text.as_str());
                s
            },
            Error::InvalidSocketName(name) => {
                let mut s = "socket name ".to_owned();
                push_quoted(&mut s, name.as_str());
                s.append(" contains a NUL byte");
                s
            },
            Error::Read { stage, source } => {
                let mut s = "read of ".to_owned();
                s.append(stage);
                s.append(" failed: ");
                s.append(source.text.as_str());
                s
            },
            Error::Write { stage, source } => {
                let mut s = "write of ".to_owned();
                s.append(stage);
                s.append(" failed: ");
                s.append(source.text.as_str());
                s
            },
            Error::PeerClosed { stage } => {
                let mut s = "server closed the connection while reading ".to_owned();
                s.append(stage);
                s
            },
            Error::UnexpectedVersion { got, want } => {
                let mut s = "server announced protocol version ".to_owned();
                push_decimal(&mut s, *got as u128);
                s.append(", expected ");
                push_decimal(&mut s, *want as u128);
                s
            },
            Error::UnexpectedTlvCategory { typ, length } => {
                let mut s = "received TLV with type ".to_owned();
                push_hex_u16(&mut s, *typ);
                s.append(" (length ");
                push_decimal(&mut s, *length as u128);
                s.append("); not a ServerToClient type");
                s
            },
            Error::UnexpectedTlvLength { typ, got_length, want_length } => {
                let mut s = "TLV type ".to_owned();
                push_hex_u16(&mut s, *typ);
                s.append(" had length ");
                push_decimal(&mut s, *got_length as u128);
                s.append(", expected ");
                push_decimal(&mut s, *want_length as u128);
                s
            },
            Error::MissingHandshakeFields { fanout_size, block_size, num_blocks } => {
                let mut s = "handshake incomplete: fanout_size=".to_owned();
                push_decimal(&mut s, *fanout_size as u128);
                s.append(", block_size=");
                push_decimal(&mut s, *block_size as u128);
                s.append(", num_blocks=");
                push_decimal(&mut s, *num_blocks as u128);
                s.append(" (all must be > 0)");
                s
            },
            Error::BlockIndexOutOfRange { idx, num_blocks } => {
                let mut s = "server sent block index ".to_owned();
                push_decimal(&mut s, *idx as u128);
                s.append(", valid range is [0, ");
                push_decimal(&mut s, *num_blocks as u128);
                s.append(")");
                s
            },
            Error::Mmap { len, source } => {
                let mut s = "mmap of AF_PACKET ring (len=".to_owned();
                push_decimal(&mut s, *len as u128);
                s.append(") failed: ");
                s.append(source.text.as_str());
                s
            },
            Error::RingSizeOverflow { block_size, num_blocks } => {
                let mut s = "block_size ".to_owned();
                push_decimal(&mut s, *block_size as u128);
                s.append(" * num_blocks ");
                push_decimal(&mut s, *num_blocks as u128);
                s.append(" overflows usize");
                s
            },
            Error::Poll(e) => {
                let mut s = "poll on unix socket failed: ".to_owned();
                s.append(e.text.as_str());
                s
            },
            Error::RecvFd(e) => {
                let mut s = "recvmsg(SCM_RIGHTS) failed: ".to_owned();
                s.append(e.text.as_str());
                s
            },
            Error::NoFdInCmsg =>
                "recvmsg succeeded but the cmsg payload had no SCM_RIGHTS fd".to_owned(),
            Error::RecvFdBytes { got, want } => {
                let mut s = "recvmsg(SCM_RIGHTS) returned ".to_owned();
                push_signed(&mut s, *got as i128);
                s.append(" bytes, expected exactly ");
                push_decimal(&mut s, *want as u128);
                s
            },
            Error::AlreadyInitialized =>
                "testimony_init: connection already initialized".to_owned(),
            Error::NotInitialized =>
                "testimony connection not initialized; call init() first".to_owned(),
            Error::Timeout => "operation timed out".to_owned(),
            Error::Internal(reason) => {
                let mut s = "internal: ".to_owned();
                s.append(reason.as_str());
                s
            },
        }
    }

    /// The failed call behind the error, where there is one.
    pub open spec fn cause(self) -> Option<OsError> {
        match self {
            Error::Connect { source, .. } => Some(source),
            Error::Read { source, .. } => Some(source),
            Error::Write { source, .. } => Some(source),
            Error::Mmap { source, .. } => Some(source),
            Error::Poll(e) => Some(e),
            Error::RecvFd(e) => Some(e),
            _ => None,
        }
    }

    /// The failed call behind the error, where there is one.
    pub fn source(&self) -> (r: Option<&OsError>)
        ensures
            match r {
                Some(e) => self.cause() == Some(*e),
                None => self.cause() is None,
            },
    {
        match self {
            Error::Connect { source, .. } => Some(source),
            Error::Read { source, .. } => Some(source),
            Error::Write { source, .. } => Some(source),
            Error::Mmap { source, .. } => Some(source),
            Error::Poll(e) => Some(e),
            Error::RecvFd(e) => Some(e),
            _ => None,
        }
    }
}

/// What is said of each error: what was tried and with what, in these words, and what the
/// operating system said, where it did, at the end.
pub proof fn law_what_is_said(e: Error)
    ensures
        e matches Error::Connect { path, source } ==> e.text()
            == "connect to "@ + path@ + " failed: "@ + source.text@,
        e matches Error::InvalidSocketName(s) ==> e.text()
            == "socket name "@ + text::debug_text(s@) + " contains a NUL byte"@,
        e matches Error::Read { stage, source } ==> e.text()
            == "read of "@ + stage@ + " failed: "@ + source.text@,
        e matches Error::Write { stage, source } ==> e.text()
            == "write of "@ + stage@ + " failed: "@ + source.text@,
        e matches Error::PeerClosed { stage } ==> e.text()
            == "server closed the connection while reading "@ + stage@,
        e matches Error::UnexpectedVersion { got, want } ==> e.text()
            == "server announced protocol version "@ + text::decimal(got as nat) + ", expected "@
                + text::decimal(want as nat),
        e matches Error::UnexpectedTlvCategory { typ, length } ==> e.text()
            == "received TLV with type "@ + text::hex_u16(typ) + " (length "@ + text::decimal(
                    length as nat,
                ) + "); not a ServerToClient type"@,
        e matches Error::UnexpectedTlvLength { typ, got_length, want_length } ==> e.text()
            == "TLV type "@ + text::hex_u16(typ) + " had length "@ + text::decimal(
                    got_length as nat,
                ) + ", expected "@ + text::decimal(want_length as nat),
        e matches Error::MissingHandshakeFields { fanout_size, block_size, num_blocks } ==> e.text()
            == "handshake incomplete: fanout_size="@ + text::decimal(fanout_size as nat)
                + ", block_size="@ + text::decimal(block_size as nat) + ", num_blocks="@
                + text::decimal(num_blocks as nat) + " (all must be > 0)"@,
        e matches Error::BlockIndexOutOfRange { idx, num_blocks } ==> e.text()
            == "server sent block index "@ + text::decimal(idx as nat) + ", valid range is [0, "@
                + text::decimal(num_blocks as nat) + ")"@,
        e matches Error::Mmap { len, source } ==> e.text()
            == "mmap of AF_PACKET ring (len="@ + text::decimal(len as nat) + ") failed: "@
                + source.text@,
        e matches Error::RingSizeOverflow { block_size, num_blocks } ==> e.text()
            == "block_size "@ + text::decimal(block_size as nat) + " * num_blocks "@
                + text::decimal(num_blocks as nat) + " overflows usize"@,
        e matches Error::Poll(c) ==> e.text()
            == "poll on unix socket failed: "@ + c.text@,
        e matches Error::RecvFd(c) ==> e.text()
            == "recvmsg(SCM_RIGHTS) failed: "@ + c.text@,
        e is NoFdInCmsg ==> e.text()
            == "recvmsg succeeded but the cmsg payload had no SCM_RIGHTS fd"@,
        e matches Error::RecvFdBytes { got, want } ==> e.text()
            == "recvmsg(SCM_RIGHTS) returned "@ + text::signed_decimal(got as int)
                + " bytes, expected exactly "@ + text::decimal(want as nat),
        e is AlreadyInitialized ==> e.text()
            == "testimony_init: connection already initialized"@,
        e is NotInitialized ==> e.text()
            == "testimony connection not initialized; call init() first"@,
        e is Timeout ==> e.text()
            == "operation timed out"@,
        e matches Error::Internal(s) ==> e.text()
            == "internal: "@ + s@,
{
}

/// Behind an error lies the failed call that it tells of, and behind no other error one.
pub proof fn law_what_lies_behind(e: Error)
    ensures
        e matches Error::Connect { source, .. } ==> e.cause() == Some(source),
        e matches Error::Read { source, .. } ==> e.cause() == Some(source),
        e matches Error::Write { source, .. } ==> e.cause() == Some(source),
        e matches Error::Mmap { source, .. } ==> e.cause() == Some(source),
        e matches Error::Poll(c) ==> e.cause() == Some(c),
        e matches Error::RecvFd(c) ==> e.cause() == Some(c),
        e.cause() is Some ==> e is Connect
            || e is Read
            || e is Write
            || e is Mmap
            || e is Poll
            || e is RecvFd,
{
}

/// The names of the stages at which a connection can fail.
pub proof fn law_names_of_stages()
    ensures
        STAGE_VERSION@ == "version byte"@,
        STAGE_TLV_HEADER@ == "TLV header"@,
        STAGE_TLV_VALUE@ == "TLV value"@,
        STAGE_FANOUT_INDEX@ == "fanout-index TLV"@,
        STAGE_RECV_FD@ == "fd-passing recvmsg"@,
        STAGE_BLOCK_INDEX@ == "block-index"@,
{
}

} // verus!
