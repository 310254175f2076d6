//! Filling a buffer from a stream that may deliver less than it was asked for.

use vstd::prelude::*;

use crate::client_error::Error;
use crate::os_error::OsError;

verus! {

/// How one read went.
#[derive(Debug)]
pub enum ReadEvent {
    /// So many bytes came; none at the end of the stream.
    Bytes(usize),
    Interrupted,
    Failed(OsError),
}

/// Where reading stands.
#[derive(Debug)]
pub enum ReadOutcome {
    /// More is to be read.
    More,
    /// The buffer is full.
    Full,
    /// The stream ended before the buffer was full.
    Closed,
    Failed(OsError),
}

/// A buffer that is being filled: its length and how much of it is.
#[derive(Debug, Clone, Copy, PartialEq, Eq, Structural)]
pub struct ReadProgress {
    pub total: usize,
    pub read: usize,
}

impl ReadProgress {
    pub open spec fn wf(self) -> bool {
        self.read <= self.total
    }

    /// Begins to fill a buffer of `total` bytes.
    pub fn new(total: usize) -> (r: ReadProgress)
        ensures
            r.wf(),
            r == (ReadProgress { total, read: 0 }),
    {
        ReadProgress { total, read: 0 }
    }

    /// Whether the buffer is full.
    pub fn is_full(&self) -> (r: bool)
        ensures
            r == (self.read >= self.total),
    {
        self.read >= self.total
    }

    /// Takes what one read brought.
    pub fn step(&mut self, event: ReadEvent) -> (r: ReadOutcome)
        requires
            old(self).wf(),
            old(self).read < old(self).total,
            event matches ReadEvent::Bytes(n) ==> n <= old(self).total - old(self).read,
        ensures
            final(self).wf(),
            match event {
                ReadEvent::Bytes(n) => *final(self) == (ReadProgress {
                    read: (old(self).read + n) as usize,
                    ..*old(self)
                }) && r == (if n == 0 {
                    ReadOutcome::Closed
                } else if old(self).read + n == old(self).total {
                    ReadOutcome::Full
                } else {
                    ReadOutcome::More
                }),
                ReadEvent::Interrupted => *final(self) == *old(self) && r == ReadOutcome::More,
                ReadEvent::Failed(e) => *final(self) == *old(self) && r == ReadOutcome::Failed(e),
            },
    {
        match event {
            ReadEvent::Bytes(n) => {
                if n == 0 {
                    return ReadOutcome::Closed;
                }
                self.read = self.read + n;
                if self.read == self.total {
                    ReadOutcome::Full
                } else {
                    ReadOutcome::More
                }
            },
            ReadEvent::Interrupted => ReadOutcome::More,
            ReadEvent::Failed(e) => ReadOutcome::Failed(e),
        }
    }
}

/// What a client makes of the state of a read: whether the buffer is full, or why
/// it will not be.
pub fn read_full(stage: &'static str, outcome: ReadOutcome) -> (r: Result<bool, Error>)
    ensures
        match outcome {
            ReadOutcome::More => r == Ok::<bool, Error>(false),
            ReadOutcome::Full => r == Ok::<bool, Error>(true),
            ReadOutcome::Closed => r == Err::<bool, Error>(Error::PeerClosed { stage }),
            ReadOutcome::Failed(source) => r == Err::<bool, Error>(Error::Read { stage, source }),
        },
{
    match outcome {
        ReadOutcome::More => Ok(false),
        ReadOutcome::Full => Ok(true),
        ReadOutcome::Closed => Err(Error::PeerClosed { stage }),
        ReadOutcome::Failed(source) => Err(Error::Read { stage, source }),
    }
}

/// What a client makes of a write.
pub fn write_full(stage: &'static str, done: Result<(), OsError>) -> (r: Result<(), Error>)
    ensures
        r == (match done {
            Ok(()) => Ok::<(), Error>(()),
            Err(source) => Err::<(), Error>(Error::Write { stage, source }),
        }),
{
    match done {
        Ok(()) => Ok(()),
        Err(source) => Err(Error::Write { stage, source }),
    }
}

/// Why the daemon got no more from a client.
#[derive(Debug)]
pub enum ReadErr {
    /// The client closed the connection.
    Eof,
    Io(OsError),
}

impl ReadErr {
    /// The message of the error.
    pub fn message(&self) -> (r: String)
        ensures
            r@ == (match *self {
                ReadErr::Eof => "EOF"@,
                ReadErr::Io(e) => e.text@,
            }),
    {
        match self {
            ReadErr::Eof => "EOF".to_owned(),
            ReadErr::Io(e) => e.text.clone(),
        }
    }
}

/// What the daemon makes of the state of a read: whether the buffer is full, or why
/// it will not be.
pub fn read_exact_or_eof(outcome: ReadOutcome) -> (r: Result<bool, ReadErr>)
    ensures
        r == (match outcome {
            ReadOutcome::More => Ok::<bool, ReadErr>(false),
            ReadOutcome::Full => Ok::<bool, ReadErr>(true),
            ReadOutcome::Closed => Err::<bool, ReadErr>(ReadErr::Eof),
            ReadOutcome::Failed(e) => Err::<bool, ReadErr>(ReadErr::Io(e)),
        }),
{
    match outcome {
        ReadOutcome::More => Ok(false),
        ReadOutcome::Full => Ok(true),
        ReadOutcome::Closed => Err(ReadErr::Eof),
        ReadOutcome::Failed(e) => Err(ReadErr::Io(e)),
    }
}

} // verus!
