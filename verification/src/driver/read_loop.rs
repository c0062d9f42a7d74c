//! The bounded read loop of a readable channel: how many reads to attempt
//! and what each read result means for the loop.
use vstd::prelude::*;
use crate::uci::KernelError;
use crate::io::MsgBoundary;

verus! {

/// What the read loop does next.
#[derive(Debug, Clone, Copy, PartialEq, Eq)]
pub enum ReadLoopAction {
    /// Try another read (if the read budget allows).
    Continue,
    /// Leave the loop normally.
    Stop,
    /// The peer half-closed: mark EOF on the channel, then leave the loop.
    MarkEofAndStop,
    /// Leave the loop and fail the readable event with this error.
    Fail(KernelError),
}

/// The action for one read result: `(boundary, had_data)` or an error.
/// No data or a complete datagram ends the loop; `WouldBlock` ends it,
/// `Interrupted` retries, `Eof` marks the half-close, anything else fails.
pub open spec fn read_action_spec(r: Result<(MsgBoundary, bool), KernelError>) -> ReadLoopAction {
    match r {
        Ok((boundary, had_data)) => if !had_data || boundary == MsgBoundary::Complete {
            ReadLoopAction::Stop
        } else {
            ReadLoopAction::Continue
        },
        Err(KernelError::WouldBlock) => ReadLoopAction::Stop,
        Err(KernelError::Interrupted) => ReadLoopAction::Continue,
        Err(KernelError::Eof) => ReadLoopAction::MarkEofAndStop,
        Err(e) => ReadLoopAction::Fail(e),
    }
}

/// Read budget and byte count of one readable event.
#[derive(Debug, Clone, Copy, PartialEq, Eq)]
pub struct ReadLoop {
    pub reads: usize,
    pub max_reads: usize,
    pub read_bytes: usize,
}

impl ReadLoop {
    pub fn new(max_reads: usize) -> (l: Self)
        ensures
            l == (ReadLoop { reads: 0, max_reads, read_bytes: 0 }),
    {
        ReadLoop { reads: 0, max_reads, read_bytes: 0 }
    }

    /// Start a read if the budget allows; `false` ends the loop.
    pub fn begin_read(&mut self) -> (r: bool)
        ensures
            r == (old(self).reads < old(self).max_reads),
            *final(self) == (if r { ReadLoop { reads: (old(self).reads + 1) as usize, ..*old(self) } } else { *old(self) }),
    {
        if self.reads < self.max_reads {
            self.reads = self.reads + 1;
            true
        } else {
            false
        }
    }

    /// Count the bytes of a non-empty chunk (saturating).
    pub fn count_bytes(&mut self, n: usize)
        ensures
            *final(self) == (ReadLoop {
                read_bytes: if old(self).read_bytes + n > usize::MAX { usize::MAX } else { (old(self).read_bytes + n) as usize },
                ..*old(self)
            }),
    {
        self.read_bytes = self.read_bytes.saturating_add(n);
    }

    /// What to do after a read.
    pub fn after_read(&self, r: Result<(MsgBoundary, bool), KernelError>) -> (a: ReadLoopAction)
        ensures
            a == read_action_spec(r),
    {
        match r {
            Ok((boundary, had_data)) => {
                if !had_data {
                    return ReadLoopAction::Stop;
                }
                match boundary {
                    MsgBoundary::Complete => ReadLoopAction::Stop,
                    MsgBoundary::NotProvided => ReadLoopAction::Continue,
                }
            },
            Err(KernelError::WouldBlock) => ReadLoopAction::Stop,
            Err(KernelError::Interrupted) => ReadLoopAction::Continue,
            Err(KernelError::Eof) => ReadLoopAction::MarkEofAndStop,
            Err(e) => ReadLoopAction::Fail(e),
        }
    }
}

} // verus!
