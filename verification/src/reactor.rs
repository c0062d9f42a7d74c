//! Reactor vocabulary: interest sets, kernel events, completion events and
//! the readiness/completion backend traits.
use core::mem::MaybeUninit;
use vstd::prelude::*;
use crate::uci::{Budget, KernelError};

verus! {

/// Interest flags (READ = bit 0, WRITE = bit 1).
#[derive(Debug, Clone, Copy, PartialEq, Eq, Structural)]
pub struct Interest(u8);

impl Interest {
    /// The READ interest.
    pub fn read() -> (i: Self)
        ensures
            i.bits() == 1,
    {
        Interest(1)
    }

    /// The WRITE interest.
    pub fn write() -> (i: Self)
        ensures
            i.bits() == 2,
    {
        Interest(2)
    }

    /// The flag bits.
    pub closed spec fn bits(self) -> u8 {
        self.0
    }

    /// The empty interest set.
    pub closed spec fn spec_empty() -> Interest {
        Interest(0)
    }

    pub proof fn lemma_spec_empty()
        ensures
            Interest::spec_empty().bits() == 0,
    {
    }

    /// Interests are equal exactly when their flag bits are.
    pub proof fn lemma_bits_eq(a: Self, b: Self)
        ensures
            (a == b) == (a.bits() == b.bits()),
    {
    }

    /// Empty interest set.
    pub fn empty() -> (i: Self)
        ensures
            i.bits() == 0,
    {
        Interest(0)
    }

    pub fn is_empty(self) -> (r: bool)
        ensures
            r == (self.bits() == 0),
    {
        self.0 == 0
    }

    /// Every flag of `other` is set in `self`.
    pub fn contains(self, other: Self) -> (r: bool)
        ensures
            r == (self.bits() & other.bits() == other.bits()),
    {
        (self.0 & other.0) == other.0
    }

    pub fn union(self, other: Self) -> (r: Self)
        ensures
            r.bits() == self.bits() | other.bits(),
    {
        Interest(self.0 | other.0)
    }
}

impl Default for Interest {
    fn default() -> (i: Self)
        ensures
            i.bits() == 0,
    {
        Interest::empty()
    }
}

/// Kernel events produced by a reactor.
#[derive(Debug, Clone, Copy, PartialEq, Eq)]
pub enum KernelEvent {
    /// Readable event.
    Readable { chan_id: u32 },
    /// Writable event.
    Writable { chan_id: u32 },
    /// Timer fired.
    Timer { token: u64 },
    /// Channel closed.
    Closed { chan_id: u32 },
}

/// Readiness reactor backend.
pub trait Reactor {
    /// Synchronous poll: writes a contiguous initialized prefix of `out` and
    /// reports its length.
    fn poll_into(&mut self, budget: Budget, out: &mut [MaybeUninit<KernelEvent>]) -> (r: Result<usize, KernelError>)
        ensures
            r matches Ok(n) ==> n <= old(out)@.len(),
    ;

    /// Interest registration.
    fn register(&mut self, chan_id: u32, interest: Interest) -> Result<(), KernelError>;
}

/// Kind of completed operation.
#[derive(Debug, Clone, Copy, PartialEq, Eq)]
pub enum CompletionKind {
    Accept,
    Connect,
    Read,
    Write,
    Close,
}

/// Completion event emitted by a completion backend.
#[derive(Debug, Clone, Copy, PartialEq, Eq)]
pub struct CompletionEvent {
    pub chan_id: u32,
    pub kind: CompletionKind,
    /// Backend-provided token (opaque to the core).
    pub token: u64,
    /// Bytes transferred on success (0 is valid for EOF/close).
    pub outcome: Result<u32, KernelError>,
}

impl CompletionEvent {
    pub fn ok(chan_id: u32, kind: CompletionKind, token: u64, bytes: u32) -> (e: Self)
        ensures
            e == (CompletionEvent { chan_id, kind, token, outcome: Ok(bytes) }),
    {
        CompletionEvent { chan_id, kind, token, outcome: Ok(bytes) }
    }

    pub fn err(chan_id: u32, kind: CompletionKind, token: u64, err: KernelError) -> (e: Self)
        ensures
            e == (CompletionEvent { chan_id, kind, token, outcome: Err(err) }),
    {
        CompletionEvent { chan_id, kind, token, outcome: Err(err) }
    }
}

/// Completion reactor backend.
pub trait CompletionReactor {
    /// Poll completion events into `out`; reports how many were written.
    fn poll_completions(&mut self, budget: Budget, out: &mut [MaybeUninit<CompletionEvent>]) -> (r: Result<usize, KernelError>)
        ensures
            r matches Ok(n) ==> n <= old(out)@.len(),
    ;
}

} // verus!
