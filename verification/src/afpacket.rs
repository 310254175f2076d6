//! Capture sockets: filter instructions, the configuration of a socket and the
//! ways in which bringing one up fails.

use vstd::prelude::*;

use crate::os_error::OsError;
use crate::text;
use crate::text::{push_decimal, push_quoted};

verus! {

/// One instruction of a packet filter, with the fields of the kernel's
/// `struct sock_filter`.
#[derive(Debug, Clone, Copy, PartialEq, Eq, Structural)]
pub struct SockFilter {
    pub code: u16,
    pub jt: u8,
    pub jf: u8,
    pub k: u32,
}

/// What a capture socket is made with.
#[derive(Debug, Clone)]
pub struct CaptureConfig {
    pub iface: String,
    pub block_size: u32,
    pub num_blocks: u32,
    pub block_timeout_ms: u32,
    pub fanout_id: u16,
    pub fanout_size: u16,
    pub fanout_type: u16,
    pub bpf_filter: Option<Vec<SockFilter>>,
}

/// Why a capture socket could not be made or used.
#[derive(Debug)]
pub enum AfpacketError {
    /// `socket(AF_PACKET, SOCK_RAW, htons(ETH_P_ALL))` failed.
    SocketCreate(OsError),
    /// `setsockopt` failed. `name` is the option name (e.g. "PACKET_VERSION").
    Setsockopt { name: &'static str, source: OsError },
    /// `mmap(PACKET_RX_RING)` failed. `len` is the requested length.
    MmapRing { len: usize, source: OsError },
    /// `bind` to an interface failed.
    Bind { iface: String, ifindex: u32, source: OsError },
    /// `if_nametoindex` failed (interface not present, etc.).
    InterfaceNotFound { iface: String, source: OsError },
    /// The interface name contains a NUL.
    InterfaceNameInvalid { iface: String },
    /// `block_size * num_blocks` is above the range of `usize`.
    RingSizeOverflow { block_size: u32, num_blocks: u32 },
    /// A filter has more than 65535 instructions (the kernel counts them in 16 bits).
    BpfTooLarge(usize),
    /// `tcpdump -ddd` produced unexpected output.
    BpfCompile { iface: String, filter: String, reason: String },
    /// `tcpdump` could not be started.
    BpfCompileSpawn { tcpdump: String, source: OsError },
    /// `getsockopt(PACKET_STATISTICS)` failed.
    Stats(OsError),
    /// `poll` on the capture socket failed (other than by an interruption).
    Poll(OsError),
    /// A block index is not below the number of blocks.
    BlockIndexOutOfRange { idx: u32, num_blocks: u32 },
}

impl AfpacketError {
    /// The message: the system call, the arguments that mattered, and the
    /// description that the operating system gave.
    pub open spec fn text(self) -> Seq<char> {
        match self {
            AfpacketError::SocketCreate(e) =>
                "socket(AF_PACKET, SOCK_RAW, htons(ETH_P_ALL)) failed: "@ + e.text@,
            AfpacketError::Setsockopt { name, source } =>
                "setsockopt("@ + name@ + ") failed: "@ + source.text@,
            AfpacketError::MmapRing { len, source } =>
                "mmap(PACKET_RX_RING, len="@ + text::decimal(len as nat) + ") failed: "@
                    + source.text@,
            AfpacketError::Bind { iface, ifindex, source } =>
                "bind to interface "@ + text::debug_text(iface@) + " (ifindex="@
                    + text::decimal(ifindex as nat) + ") failed: "@ + source.text@,
            AfpacketError::InterfaceNotFound { iface, source } =>
                "if_nametoindex("@ + text::debug_text(iface@) + ") failed: "@ + source.text@,
            AfpacketError::InterfaceNameInvalid { iface } =>
                "interface name "@ + text::debug_text(iface@)
                    + " is not a valid C string (contains NUL)"@,
            AfpacketError::RingSizeOverflow { block_size, num_blocks } =>
                "block_size "@ + text::decimal(block_size as nat) + " * num_blocks "@
                    + text::decimal(num_blocks as nat)
                    + " overflows usize (would request "@ + text::decimal(
                    block_size as nat * num_blocks as nat,
                ) + " bytes)"@,
            AfpacketError::BpfTooLarge(n) =>
                "BPF program too large: "@ + text::decimal(n as nat)
                    + " instructions (max 65535 \u{2014} kernel sock_fprog.len is a u16)"@,
            AfpacketError::BpfCompile { iface, filter, reason } =>
                "BPF compile failed for filter "@ + text::debug_text(filter@)
                    + " on interface "@ + text::debug_text(iface@) + ": "@ + reason@,
            AfpacketError::BpfCompileSpawn { tcpdump, source } =>
                "could not run tcpdump at "@ + tcpdump@ + " to compile BPF: "@ + source.text@,
            AfpacketError::Stats(e) => "getsockopt(PACKET_STATISTICS) failed: "@ + e.text@,
            AfpacketError::Poll(e) => "poll on AF_PACKET fd failed: "@ + e.text@,
            AfpacketError::BlockIndexOutOfRange { idx, num_blocks } =>
                "block index "@ + text::decimal(idx as nat) + " out of range (num_blocks="@
                    + text::decimal(num_blocks as nat) + ")"@,
        }
    }

    /// The message of the error.
    pub fn message(&self) -> (r: String)
        ensures
            r@ == self.text(),
    {
        match self {
            AfpacketError::SocketCreate(e) => {
                let mut s =
                    "socket(AF_PACKET, SOCK_RAW, htons(ETH_P_ALL)) failed: ".to_owned();
                s.append(e.text.as_str());
                s
            },
            AfpacketError::Setsockopt { name, source } => {
                let mut s = "setsockopt(".to_owned();
                s.append(name);
                s.append(") failed: ");
                s.append(source.text.as_str());
                s
            },
            AfpacketError::MmapRing { len, source } => {
                let mut s = "mmap(PACKET_RX_RING, len=".to_owned();
                push_decimal(&mut s, *len as u128);
                s.append(") failed: ");
                s.append(source.text.as_str());
                s
            },
            AfpacketError::Bind { iface, ifindex, source } => {
                let mut s = "bind to interface ".to_owned();
                push_quoted(&mut s, iface.as_str());
                s.append(" (ifindex=");
                push_decimal(&mut s, *ifindex as u128);
                s.append(") failed: ");
                s.append(source.text.as_str());
                s
            },
            AfpacketError::InterfaceNotFound { iface, source } => {
                let mut s = "if_nametoindex(".to_owned();
                push_quoted(&mut s, iface.as_str());
                s.append(") failed: ");
                s.append(source.text.as_str());
                s
            },
            AfpacketError::InterfaceNameInvalid { iface } => {
                let mut s = "interface name ".to_owned();
                push_quoted(&mut s, iface.as_str());
                s.append(" is not a valid C string (contains NUL)");
                s
            },
            AfpacketError::RingSizeOverflow { block_size, num_blocks } => {
                let mut s = "block_size ".to_owned();
                push_decimal(&mut s, *block_size as u128);
                s.append(" * num_blocks ");
                push_decimal(&mut s, *num_blocks as u128);
                s.append(" overflows usize (would request ");
                let (a, b) = (*block_size as u128, *num_blocks as u128);
                assert(a * b <= 0xffff_ffff * 0xffff_ffff) by (nonlinear_arith)
                    requires
                        a <= 0xffff_ffff,
                        b <= 0xffff_ffff,
                ;
                push_decimal(&mut s, a * b);
                s.append(" bytes)");
                s
            },
            AfpacketError::BpfTooLarge(n) => {
                let mut s = "BPF program too large: ".to_owned();
                push_decimal(&mut s, *n as u128);
                s.append(" instructions (max 65535 \u{2014} kernel sock_fprog.len is a u16)");
                s
            },
            AfpacketError::BpfCompile { iface, filter, reason } => {
                let mut s = "BPF compile failed for filter ".to_owned();
                push_quoted(&mut s, filter.as_str());
                s.append(" on interface ");
                push_quoted(&mut s, iface.as_str());
                s.append(": ");
                s.append(reason.as_str());
                s
            },
            AfpacketError::BpfCompileSpawn { tcpdump, source } => {
                let mut s = "could not run tcpdump at ".to_owned();
                s.append(tcpdump.as_str());
                s.append(" to compile BPF: ");
                s.append(source.text.as_str());
                s
            },
            AfpacketError::Stats(e) => {
                let mut s = "getsockopt(PACKET_STATISTICS) failed: ".to_owned();
                s.append(e.text.as_str());
                s
            },
            AfpacketError::Poll(e) => {
                let mut s = "poll on AF_PACKET fd failed: ".to_owned();
                s.append(e.text.as_str());
                s
            },
            AfpacketError::BlockIndexOutOfRange { idx, num_blocks } => {
                let mut s = "block index ".to_owned();
                push_decimal(&mut s, *idx as u128);
                s.append(" out of range (num_blocks=");
                push_decimal(&mut s, *num_blocks as u128);
                s.append(")");
                s
            },
        }
    }

    /// The failed call behind the error, where there is one.
    pub open spec fn cause(self) -> Option<OsError> {
        match self {
            AfpacketError::SocketCreate(e) => Some(e),
            AfpacketError::Setsockopt { source, .. } => Some(source),
            AfpacketError::MmapRing { source, .. } => Some(source),
            AfpacketError::Bind { source, .. } => Some(source),
            AfpacketError::InterfaceNotFound { source, .. } => Some(source),
            AfpacketError::BpfCompileSpawn { source, .. } => Some(source),
            AfpacketError::Stats(e) => Some(e),
            AfpacketError::Poll(e) => Some(e),
            _ => None,
        }
    }

    /// The failed call behind the error, where there is one.
    pub fn source(&self) -> (r: Option<&OsError>)
        ensures
            match r {
                Some(e) => self.cause() == Some(*e),
                None => self.cause() is None,
            },
    {
        match self {
            AfpacketError::SocketCreate(e) => Some(e),
            AfpacketError::Setsockopt { source, .. } => Some(source),
            AfpacketError::MmapRing { source, .. } => Some(source),
            AfpacketError::Bind { source, .. } => Some(source),
            AfpacketError::InterfaceNotFound { source, .. } => Some(source),
            AfpacketError::BpfCompileSpawn { source, .. } => Some(source),
            AfpacketError::Stats(e) => Some(e),
            AfpacketError::Poll(e) => Some(e),
            _ => None,
        }
    }
}

/// What is said of each error: the call that failed, the arguments that mattered, and what
/// the operating system said.
pub proof fn law_what_is_said(e: AfpacketError)
    ensures
        e matches AfpacketError::SocketCreate(c) ==> e.text()
            == "socket(AF_PACKET, SOCK_RAW, htons(ETH_P_ALL)) failed: "@ + c.text@,
        e matches AfpacketError::Setsockopt { name, source } ==> e.text()
            == "setsockopt("@ + name@ + ") failed: "@ + source.text@,
        e matches AfpacketError::MmapRing { len, source } ==> e.text()
            == "mmap(PACKET_RX_RING, len="@ + text::decimal(len as nat) + ") failed: "@
                + source.text@,
        e matches AfpacketError::Bind { iface, ifindex, source } ==> e.text()
            == "bind to interface "@ + text::debug_text(iface@) + " (ifindex="@
                + text::decimal(ifindex as nat) + ") failed: "@ + source.text@,
        e matches AfpacketError::InterfaceNotFound { iface, source } ==> e.text()
            == "if_nametoindex("@ + text::debug_text(iface@) + ") failed: "@ + source.text@,
        e matches AfpacketError::InterfaceNameInvalid { iface } ==> e.text()
            == "interface name "@ + text::debug_text(iface@)
                + " is not a valid C string (contains NUL)"@,
        e matches AfpacketError::RingSizeOverflow { block_size, num_blocks } ==> e.text()
            == "block_size "@ + text::decimal(block_size as nat) + " * num_blocks "@
                + text::decimal(num_blocks as nat)
                + " overflows usize (would request "@ + text::decimal(
                    block_size as nat * num_blocks as nat,
                ) + " bytes)"@,
        e matches AfpacketError::BpfTooLarge(n) ==> e.text()
            == "BPF program too large: "@ + text::decimal(n as nat)
                + " instructions (max 65535 \u{2014} kernel sock_fprog.len is a u16)"@,
        e matches AfpacketError::BpfCompile { iface, filter, reason } ==> e.text()
            == "BPF compile failed for filter "@ + text::debug_text(filter@)
                + " on interface "@ + text::debug_text(iface@) + ": "@ + reason@,
        e matches AfpacketError::BpfCompileSpawn { tcpdump, source } ==> e.text()
            == "could not run tcpdump at "@ + tcpdump@ + " to compile BPF: "@ + source.text@,
        e matches AfpacketError::Stats(c) ==> e.text()
            == "getsockopt(PACKET_STATISTICS) failed: "@ + c.text@,
        e matches AfpacketError::Poll(c) ==> e.text()
            == "poll on AF_PACKET fd failed: "@ + c.text@,
        e matches AfpacketError::BlockIndexOutOfRange { idx, num_blocks } ==> e.text()
            == "block index "@ + text::decimal(idx as nat) + " out of range (num_blocks="@
                + text::decimal(num_blocks as nat) + ")"@,
{
}

/// Behind an error lies the failed call that it tells of, and behind no other error one.
pub proof fn law_what_lies_behind(e: AfpacketError)
    ensures
        e matches AfpacketError::SocketCreate(c) ==> e.cause() == Some(c),
        e matches AfpacketError::Setsockopt { source, .. } ==> e.cause() == Some(source),
        e matches AfpacketError::MmapRing { source, .. } ==> e.cause() == Some(source),
        e matches AfpacketError::Bind { source, .. } ==> e.cause() == Some(source),
        e matches AfpacketError::InterfaceNotFound { source, .. } ==> e.cause() == Some(source),
        e matches AfpacketError::BpfCompileSpawn { source, .. } ==> e.cause() == Some(source),
        e matches AfpacketError::Stats(c) ==> e.cause() == Some(c),
        e matches AfpacketError::Poll(c) ==> e.cause() == Some(c),
        e.cause() is Some ==> e is SocketCreate
            || e is Setsockopt
            || e is MmapRing
            || e is Bind
            || e is InterfaceNotFound
            || e is BpfCompileSpawn
            || e is Stats
            || e is Poll,
{
}

} // verus!
