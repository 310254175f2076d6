//! Passing a capture socket to a client.

use vstd::prelude::*;

use crate::daemon_error::DaemonError;
use crate::os_error::OsError;
use crate::text;
use crate::text::push_signed;

verus! {

/// What came of an attempt to send the message that passes the socket.
#[derive(Debug)]
pub enum SendFdEvent {
    /// There was no room for the control message.
    NoHeader,
    Sent,
    Interrupted,
    Failed(OsError),
}

/// Whether the socket is passed, or what went wrong. An interrupted attempt is to
/// be made again. `conn` is the descriptor of the connection, for the error.
pub fn send_fd(conn: i32, event: SendFdEvent) -> (r: Result<bool, DaemonError>)
    ensures
        match event {
            SendFdEvent::NoHeader => r == Err::<bool, DaemonError>(DaemonError::CmsgFirstHdrNull),
            SendFdEvent::Sent => r == Ok::<bool, DaemonError>(true),
            SendFdEvent::Interrupted => r == Ok::<bool, DaemonError>(false),
            SendFdEvent::Failed(e) => r matches Err(DaemonError::SendFd { socket_name, source })
                && socket_name@ == "fd="@ + text::signed_decimal(conn as int) && source == e,
        },
{
    match event {
        SendFdEvent::NoHeader => Err(DaemonError::CmsgFirstHdrNull),
        SendFdEvent::Sent => Ok(true),
        SendFdEvent::Interrupted => Ok(false),
        SendFdEvent::Failed(source) => {
            let mut socket_name = "fd=".to_owned();
            push_signed(&mut socket_name, conn as i128);
            Err(DaemonError::SendFd { socket_name, source })
        },
    }
}

/// How much room a control message takes: its header and its data, up to the next
/// multiple of `align`.
pub fn cmsg_space(header: usize, data: usize, align: usize) -> (r: usize)
    requires
        align == 4 || align == 8,
        header + data + align <= usize::MAX,
    ensures
        header + data <= r < header + data + align,
        r % align == 0,
{
    let total: usize = header + data;
    let up: usize = total + align - 1;
    let r: usize = up & !((align - 1) as usize);
    if align == 4 {
        assert(r <= up && up - r < 4 && r % 4 == 0) by (bit_vector)
            requires
                r == up & !((align - 1) as usize),
                align == 4,
        ;
    } else {
        assert(r <= up && up - r < 8 && r % 8 == 0) by (bit_vector)
            requires
                r == up & !((align - 1) as usize),
                align == 8,
        ;
    }
    r
}

} // verus!
