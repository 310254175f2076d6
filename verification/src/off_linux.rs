//! What stands in for the capture socket where there is no AF_PACKET: everything
//! is refused.

use vstd::prelude::*;

use crate::afpacket::{AfpacketError, CaptureConfig, SockFilter};
use crate::os_error::OsError;

verus! {

/// A capture socket that cannot be made.
#[derive(Debug)]
pub struct CaptureSocket {}

impl CaptureSocket {
    pub fn new(cfg: &CaptureConfig) -> (r: Result<CaptureSocket, AfpacketError>)
        ensures
            r matches Err(AfpacketError::SocketCreate(e)) && e.code is None && e.text@
                == "AF_PACKET is Linux-only"@,
    {
        Err(
            AfpacketError::SocketCreate(
                OsError { code: None, text: "AF_PACKET is Linux-only".to_owned() },
            ),
        )
    }
}

/// Compiles no filter.
pub fn compile_bpf(iface: &str, filter: &str) -> (r: Result<Vec<SockFilter>, AfpacketError>)
    ensures
        r matches Err(AfpacketError::BpfCompile { iface: i, filter: f, reason }) && i@ == iface@
            && f@ == filter@ && reason@ == "BPF compile is Linux-only"@,
{
    Err(
        AfpacketError::BpfCompile {
            iface: iface.to_owned(),
            filter: filter.to_owned(),
            reason: "BPF compile is Linux-only".to_owned(),
        },
    )
}

} // verus!
