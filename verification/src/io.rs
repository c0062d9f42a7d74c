//! IO abstraction: capability flags, read outcomes, the `IoOps` backend
//! trait and the error classification every backend shares.
use vstd::prelude::*;
use crate::uci::{KernelError, RxToken, spec_internal_code, internal_code};
use crate::error_codes::{SUBSYS_OS_ERRNO, SUBSYS_OS_WIN32, ERR_IO_UNKNOWN};
use crate::framing::cumulation::{concat, lemma_concat_take_next, lemma_concat_take_prefix, lemma_concat_single};

verus! {

/// Capability bitflags for channels / IO backends.
pub type ChannelCaps = u32;

/// Stream semantics.
pub const STREAM: u32 = 1;
/// Datagram semantics.
pub const DATAGRAM: u32 = 2;
/// Reliable delivery.
pub const RELIABLE: u32 = 4;
/// In-order delivery.
pub const ORDERED: u32 = 8;
/// RX zero-copy supported.
pub const ZERO_COPY_RX: u32 = 16;
/// TX zero-copy supported.
pub const ZERO_COPY_TX: u32 = 32;

/// Message boundary semantics returned by a read operation.
#[derive(Debug, Clone, Copy, PartialEq, Eq)]
pub enum MsgBoundary {
    /// Stream semantics: boundary is unknown / not provided.
    NotProvided,
    /// A complete message/datagram was read.
    Complete,
}

/// How the read bytes are delivered.
#[derive(Debug, Clone, Copy, PartialEq, Eq)]
pub enum ReadData {
    /// Bytes were copied into the caller-provided buffer.
    Copied,
    /// Bytes are referenced by a zero-copy RX token.
    Token(RxToken),
}

/// Result metadata for a read operation.
#[derive(Debug, Clone, Copy, PartialEq, Eq)]
pub struct ReadOutcome {
    /// Number of bytes read.
    pub n: usize,
    /// Boundary semantics.
    pub boundary: MsgBoundary,
    /// Whether the source message/datagram was truncated to fit the destination.
    pub truncated: bool,
    /// Data delivery mode.
    pub data: ReadData,
}

/// Convenience helper for stubs: always `Err(Unsupported)`.
pub fn unsupported<T>() -> (r: Result<T, KernelError>)
    ensures
        r matches Err(KernelError::Unsupported),
{
    Err(KernelError::Unsupported)
}

/// The kind of an OS-level IO error, as far as classification looks at it.
#[derive(Debug, Clone, Copy, PartialEq, Eq)]
pub enum IoErrorKind {
    WouldBlock,
    Interrupted,
    TimedOut,
    ConnectionReset,
    BrokenPipe,
    NotConnected,
    ConnectionAborted,
    ConnectionRefused,
    InvalidInput,
    Other,
}

/// The platform family that produced an error's raw code.
#[derive(Debug, Clone, Copy, PartialEq, Eq)]
pub enum OsFamily {
    Unix,
    Windows,
}

/// What classification reads of an IO error: its kind, its raw OS code if
/// any, and the platform family the code comes from.
#[derive(Debug, Clone, Copy, PartialEq, Eq)]
pub struct IoErrorInfo {
    pub kind: IoErrorKind,
    pub raw_os_error: Option<i32>,
    pub os: OsFamily,
}

/// The stable kernel error for an IO error.
///
/// `WouldBlock`/`Interrupted` are preserved, connection lifecycle errors
/// collapse into `Timeout`/`Reset`/`Closed`; on Windows a few WinSock codes
/// reported under another kind are recognised; any other raw code becomes an
/// `Internal` OS passthrough code, and no code at all `ERR_IO_UNKNOWN`.
pub open spec fn io_error_spec(e: IoErrorInfo) -> KernelError {
    match e.kind {
        IoErrorKind::WouldBlock => KernelError::WouldBlock,
        IoErrorKind::Interrupted => KernelError::Interrupted,
        IoErrorKind::TimedOut => KernelError::Timeout,
        IoErrorKind::ConnectionReset => KernelError::Reset,
        IoErrorKind::BrokenPipe | IoErrorKind::NotConnected | IoErrorKind::ConnectionAborted
        | IoErrorKind::ConnectionRefused | IoErrorKind::InvalidInput => KernelError::Closed,
        IoErrorKind::Other => match (e.os, e.raw_os_error) {
            (OsFamily::Windows, Some(10035)) => KernelError::WouldBlock,
            (OsFamily::Windows, Some(10054)) => KernelError::Reset,
            (OsFamily::Windows, Some(code)) if code == 10053 || code == 10057 || code == 10058
                || code == 10061 => KernelError::Closed,
            (OsFamily::Windows, Some(code)) => KernelError::Internal(
                spec_internal_code(SUBSYS_OS_WIN32, code as u32) as u32,
            ),
            (OsFamily::Unix, Some(code)) => KernelError::Internal(
                spec_internal_code(SUBSYS_OS_ERRNO, code as u32) as u32,
            ),
            (_, None) => KernelError::Internal(ERR_IO_UNKNOWN),
        },
    }
}

/// Classify an IO error into a kernel-level error category.
pub fn classify_io_error(e: &IoErrorInfo) -> (r: KernelError)
    ensures
        r == io_error_spec(*e),
{
    match e.kind {
        IoErrorKind::WouldBlock => return KernelError::WouldBlock,
        IoErrorKind::Interrupted => return KernelError::Interrupted,
        IoErrorKind::TimedOut => return KernelError::Timeout,
        IoErrorKind::ConnectionReset => return KernelError::Reset,
        IoErrorKind::BrokenPipe | IoErrorKind::NotConnected | IoErrorKind::ConnectionAborted
        | IoErrorKind::ConnectionRefused | IoErrorKind::InvalidInput => return KernelError::Closed,
        IoErrorKind::Other => {},
    }
    match e.os {
        OsFamily::Windows => {
            match e.raw_os_error {
                Some(code) => {
                    if code == 10035 {
                        KernelError::WouldBlock
                    } else if code == 10054 {
                        KernelError::Reset
                    } else if code == 10053 || code == 10057 || code == 10058 || code == 10061 {
                        KernelError::Closed
                    } else {
                        KernelError::Internal(internal_code(SUBSYS_OS_WIN32, code as u32))
                    }
                },
                None => KernelError::Internal(ERR_IO_UNKNOWN),
            }
        },
        OsFamily::Unix => {
            match e.raw_os_error {
                Some(code) => KernelError::Internal(internal_code(SUBSYS_OS_ERRNO, code as u32)),
                None => KernelError::Internal(ERR_IO_UNKNOWN),
            }
        },
    }
}

/// Whether `e` is a WinSock code under the `Other` kind.
pub open spec fn winsock_other(e: IoErrorInfo, code: i32) -> bool {
    e.kind == IoErrorKind::Other && e.os == OsFamily::Windows && e.raw_os_error == Some(code)
}

/// The classes of IO errors: every connection-lifecycle kind (broken pipe,
/// not connected, aborted, refused, invalid input) is `Closed`; `WouldBlock`,
/// `Interrupted`, `TimedOut` and `ConnectionReset` keep their meaning. Only a
/// would-block error (or WinSock 10035) reads as `WouldBlock`, and only a
/// lifecycle kind (or WinSock 10053/10057/10058/10061) reads as `Closed`; an
/// unrecognised error without a code is `Internal(ERR_IO_UNKNOWN)`.
pub proof fn lemma_io_error_classes(e: IoErrorInfo)
    ensures
        ({
            let r = io_error_spec(e);
            let lifecycle = e.kind == IoErrorKind::BrokenPipe || e.kind == IoErrorKind::NotConnected
                || e.kind == IoErrorKind::ConnectionAborted || e.kind == IoErrorKind::ConnectionRefused
                || e.kind == IoErrorKind::InvalidInput;
            &&& lifecycle ==> r == KernelError::Closed
            &&& e.kind == IoErrorKind::WouldBlock ==> r == KernelError::WouldBlock
            &&& e.kind == IoErrorKind::Interrupted ==> r == KernelError::Interrupted
            &&& e.kind == IoErrorKind::TimedOut ==> r == KernelError::Timeout
            &&& e.kind == IoErrorKind::ConnectionReset ==> r == KernelError::Reset
            &&& r == KernelError::WouldBlock ==> e.kind == IoErrorKind::WouldBlock || winsock_other(e, 10035)
            &&& r == KernelError::Closed ==> lifecycle || winsock_other(e, 10053) || winsock_other(e, 10057)
                || winsock_other(e, 10058) || winsock_other(e, 10061)
            &&& r == KernelError::Reset ==> e.kind == IoErrorKind::ConnectionReset || winsock_other(e, 10054)
            &&& r == KernelError::Interrupted ==> e.kind == IoErrorKind::Interrupted
            &&& r == KernelError::Timeout ==> e.kind == IoErrorKind::TimedOut
            &&& e.kind == IoErrorKind::Other && e.raw_os_error is None ==> r == KernelError::Internal(ERR_IO_UNKNOWN)
            &&& r is Internal ==> e.kind == IoErrorKind::Other
        }),
{
}

/// Decision for an error returned by `accept()`.
#[derive(Debug, Clone, Copy, PartialEq, Eq)]
pub enum AcceptDecision {
    /// Keep trying to accept more connections in this tick.
    Continue,
    /// Stop accepting for this tick (usually `WouldBlock`).
    Stop,
    /// Fatal error: stop accepting and surface a kernel-level error.
    Fatal(KernelError),
}

/// `WouldBlock` stops, interruptions and aborted/reset handshakes continue
/// (WinSock 10035 stops, 10053/10054 continue), anything else is fatal.
pub open spec fn accept_decision_spec(e: IoErrorInfo) -> AcceptDecision {
    match e.kind {
        IoErrorKind::WouldBlock => AcceptDecision::Stop,
        IoErrorKind::Interrupted | IoErrorKind::ConnectionAborted | IoErrorKind::ConnectionReset =>
            AcceptDecision::Continue,
        _ => match (e.os, e.raw_os_error) {
            (OsFamily::Windows, Some(10035)) => AcceptDecision::Stop,
            (OsFamily::Windows, Some(code)) if code == 10053 || code == 10054 =>
                AcceptDecision::Continue,
            _ => AcceptDecision::Fatal(io_error_spec(e)),
        },
    }
}

/// Classify a nonblocking `accept()` error.
pub fn classify_accept_error(e: &IoErrorInfo) -> (d: AcceptDecision)
    ensures
        d == accept_decision_spec(*e),
{
    match e.kind {
        IoErrorKind::WouldBlock => return AcceptDecision::Stop,
        IoErrorKind::Interrupted => return AcceptDecision::Continue,
        IoErrorKind::ConnectionAborted | IoErrorKind::ConnectionReset => return AcceptDecision::Continue,
        _ => {},
    }
    if let OsFamily::Windows = e.os {
        if let Some(code) = e.raw_os_error {
            if code == 10035 {
                return AcceptDecision::Stop;
            }
            if code == 10053 || code == 10054 {
                return AcceptDecision::Continue;
            }
        }
    }
    AcceptDecision::Fatal(classify_io_error(e))
}

/// Accepting stops only on a would-block error (or WinSock 10035), goes on
/// after an interruption or a handshake the peer aborted or reset, and any
/// other error is fatal, carrying its classification.
pub proof fn lemma_accept_decisions(e: IoErrorInfo)
    ensures
        ({
            let d = accept_decision_spec(e);
            &&& e.kind == IoErrorKind::WouldBlock ==> d == AcceptDecision::Stop
            &&& (e.kind == IoErrorKind::Interrupted || e.kind == IoErrorKind::ConnectionAborted
                || e.kind == IoErrorKind::ConnectionReset) ==> d == AcceptDecision::Continue
            &&& d == AcceptDecision::Stop ==> e.kind == IoErrorKind::WouldBlock || e.os == OsFamily::Windows
                && e.raw_os_error == Some(10035i32)
            &&& d matches AcceptDecision::Fatal(k) ==> k == io_error_spec(e)
            &&& (e.kind == IoErrorKind::BrokenPipe || e.kind == IoErrorKind::TimedOut
                || e.kind == IoErrorKind::InvalidInput) && e.raw_os_error is None
                ==> d == AcceptDecision::Fatal(io_error_spec(e))
        }),
{
}

/// Decision for nonblocking connect errors.
#[derive(Debug, Clone, Copy, PartialEq, Eq)]
pub enum ConnectDecision {
    InProgress,
    Fatal(KernelError),
}

/// `WouldBlock`/`Interrupted` (and WinSock 10035..=10037) mean the connect is
/// in progress; anything else is fatal.
pub open spec fn connect_decision_spec(e: IoErrorInfo) -> ConnectDecision {
    match e.kind {
        IoErrorKind::WouldBlock | IoErrorKind::Interrupted => ConnectDecision::InProgress,
        _ => match (e.os, e.raw_os_error) {
            (OsFamily::Windows, Some(code)) if 10035 <= code <= 10037 => ConnectDecision::InProgress,
            _ => ConnectDecision::Fatal(io_error_spec(e)),
        },
    }
}

/// Classify connect errors for nonblocking sockets.
pub fn classify_connect_error(e: &IoErrorInfo) -> (d: ConnectDecision)
    ensures
        d == connect_decision_spec(*e),
{
    match e.kind {
        IoErrorKind::WouldBlock | IoErrorKind::Interrupted => return ConnectDecision::InProgress,
        _ => {},
    }
    if let OsFamily::Windows = e.os {
        if let Some(code) = e.raw_os_error {
            if 10035 <= code && code <= 10037 {
                return ConnectDecision::InProgress;
            }
        }
    }
    ConnectDecision::Fatal(classify_io_error(e))
}

/// A connect is in progress after a would-block or interrupted error (or
/// WinSock 10035..=10037); any other error is fatal with its classification.
pub proof fn lemma_connect_decisions(e: IoErrorInfo)
    ensures
        ({
            let d = connect_decision_spec(e);
            &&& (e.kind == IoErrorKind::WouldBlock || e.kind == IoErrorKind::Interrupted)
                ==> d == ConnectDecision::InProgress
            &&& d == ConnectDecision::InProgress ==> e.kind == IoErrorKind::WouldBlock
                || e.kind == IoErrorKind::Interrupted || (e.os == OsFamily::Windows
                && (e.raw_os_error matches Some(c) && 10035 <= c <= 10037))
            &&& d matches ConnectDecision::Fatal(k) ==> k == io_error_spec(e)
        }),
{
}

/// On a connected UDP socket, resets and refusals (ICMP port unreachable,
/// WinSock 10054) are transient and read as `WouldBlock`.
pub open spec fn udp_recv_error_spec(e: IoErrorInfo) -> KernelError {
    match e.kind {
        IoErrorKind::WouldBlock => KernelError::WouldBlock,
        IoErrorKind::Interrupted => KernelError::Interrupted,
        IoErrorKind::ConnectionReset | IoErrorKind::ConnectionRefused => KernelError::WouldBlock,
        _ => match (e.os, e.raw_os_error) {
            (OsFamily::Windows, Some(10054)) => KernelError::WouldBlock,
            _ => io_error_spec(e),
        },
    }
}

/// On a connected UDP socket a reset or refusal (or WinSock 10054) is
/// transient and reads as `WouldBlock`; every other error is classified as
/// any IO error is.
pub proof fn lemma_udp_recv_errors(e: IoErrorInfo)
    ensures
        ({
            let r = udp_recv_error_spec(e);
            &&& (e.kind == IoErrorKind::ConnectionReset || e.kind == IoErrorKind::ConnectionRefused)
                ==> r == KernelError::WouldBlock
            &&& e.kind != IoErrorKind::Interrupted && e.os == OsFamily::Windows && e.raw_os_error == Some(10054i32)
                ==> r == KernelError::WouldBlock
            &&& !(e.kind == IoErrorKind::ConnectionReset || e.kind == IoErrorKind::ConnectionRefused)
                && !(e.os == OsFamily::Windows && e.raw_os_error == Some(10054i32)) ==> r == io_error_spec(e)
        }),
{
}

/// Classify errors from `recv()` on a connected UDP socket.
pub fn classify_connected_udp_recv_error(e: &IoErrorInfo) -> (r: KernelError)
    ensures
        r == udp_recv_error_spec(*e),
{
    match e.kind {
        IoErrorKind::WouldBlock => return KernelError::WouldBlock,
        IoErrorKind::Interrupted => return KernelError::Interrupted,
        IoErrorKind::ConnectionReset | IoErrorKind::ConnectionRefused => return KernelError::WouldBlock,
        _ => {},
    }
    if let OsFamily::Windows = e.os {
        if let Some(code) = e.raw_os_error {
            if code == 10054 {
                return KernelError::WouldBlock;
            }
        }
    }
    classify_io_error(e)
}

/// The byte views of a list of slices.
pub open spec fn slice_views(bufs: Seq<&[u8]>) -> Seq<Seq<u8>> {
    bufs.map_values(|b: &[u8]| b@)
}

/// The bytes of a list of slices, concatenated in order.
pub open spec fn slices_bytes(bufs: Seq<&[u8]>) -> Seq<u8> {
    concat(slice_views(bufs))
}

/// Total length of a list of byte slices.
pub open spec fn iov_total(bufs: Seq<&[u8]>) -> int {
    slices_bytes(bufs).len() as int
}

/// One write call made on a backend: the slices it was offered, in order,
/// and the backend's answer.
pub type WriteCall = (Seq<Seq<u8>>, Result<usize, KernelError>);

/// Bytes a write call reports accepted.
pub open spec fn accepted(c: WriteCall) -> int {
    match c.1 {
        Ok(n) => n as int,
        Err(_) => 0,
    }
}

/// Bytes accepted over a sequence of write calls.
pub open spec fn accepted_total(calls: Seq<WriteCall>) -> int
    decreases calls.len(),
{
    if calls.len() == 0 {
        0
    } else {
        accepted_total(calls.drop_last()) + accepted(calls.last())
    }
}

/// The bytes offered over a sequence of write calls, in order.
pub open spec fn offered_bytes(calls: Seq<WriteCall>) -> Seq<u8>
    decreases calls.len(),
{
    if calls.len() == 0 {
        Seq::empty()
    } else {
        offered_bytes(calls.drop_last()) + concat(calls.last().0)
    }
}

/// The calls a backend that keeps the slice-by-slice vectored write makes for
/// one vectored write of `bufs` answered with `r`: single-slice calls, each
/// offered one non-empty slice, together offering a prefix of the bytes of
/// `bufs` (at least one call when there is a byte to write); every call but
/// the last took its whole slice; the answer is the bytes they accepted, or
/// the error of the first call when that call was the only one.
pub open spec fn slicewise_log_ok(d: Seq<WriteCall>, bufs: Seq<Seq<u8>>, r: Result<usize, KernelError>) -> bool {
    &&& forall|k: int| 0 <= k < d.len() ==> (#[trigger] d[k]).0.len() == 1 && d[k].0[0].len() > 0
    &&& forall|k: int| 0 <= k < d.len() - 1 ==> (#[trigger] d[k]).1 is Ok && accepted(d[k]) == d[k].0[0].len()
    &&& offered_bytes(d).len() <= concat(bufs).len()
    &&& concat(bufs).take(offered_bytes(d).len() as int) == offered_bytes(d)
    &&& concat(bufs).len() > 0 ==> d.len() >= 1
    &&& match r {
        Ok(n) => n == accepted_total(d),
        Err(e) => d.len() == 1 && d[0].1 == Err::<usize, KernelError>(e),
    }
}

/// The calls one vectored write of `bufs` answered with `r` leaves in a
/// backend's call log: that one call, or, where the backend keeps the
/// slice-by-slice default, the calls `slicewise_log_ok` describes.
pub open spec fn vectored_log_ok(d: Seq<WriteCall>, bufs: Seq<Seq<u8>>, r: Result<usize, KernelError>) -> bool {
    d == seq![(bufs, r)] || slicewise_log_ok(d, bufs, r)
}

/// `new` is `old` with calls appended.
pub open spec fn log_extends(new: Seq<WriteCall>, old: Seq<WriteCall>) -> bool {
    old.len() <= new.len() && new.take(old.len() as int) == old
}

/// Appending a call adds its bytes and its answer to the totals.
pub proof fn lemma_calls_push(d: Seq<WriteCall>, c: WriteCall)
    ensures
        offered_bytes(d.push(c)) == offered_bytes(d) + concat(c.0),
        accepted_total(d.push(c)) == accepted_total(d) + accepted(c),
        d.push(c).take(d.len() as int) == d,
        d.push(c)[d.len() as int] == c,
{
    assert(d.push(c).drop_last() =~= d);
    assert(d.push(c).take(d.len() as int) =~= d);
}

/// Adding one more slice of a prefix appends its bytes.
pub proof fn lemma_slices_take_next(bufs: Seq<&[u8]>, i: int)
    requires
        0 <= i < bufs.len(),
    ensures
        slices_bytes(bufs.take(i + 1)) == slices_bytes(bufs.take(i)) + bufs[i]@,
{
    let m = bufs.map_values(|b: &[u8]| b@);
    lemma_concat_take_next(m, i);
    assert(bufs.take(i + 1).map_values(|b: &[u8]| b@) =~= m.take(i + 1));
    assert(bufs.take(i).map_values(|b: &[u8]| b@) =~= m.take(i));
}

/// The bytes of a prefix of the list are a prefix of the bytes.
pub proof fn lemma_slices_prefix(bufs: Seq<&[u8]>, i: int)
    requires
        0 <= i <= bufs.len(),
    ensures
        slices_bytes(bufs.take(i)).len() <= slices_bytes(bufs).len(),
        slices_bytes(bufs).take(slices_bytes(bufs.take(i)).len() as int) == slices_bytes(bufs.take(i)),
{
    let m = bufs.map_values(|b: &[u8]| b@);
    lemma_concat_take_prefix(m, i);
    assert(bufs.take(i).map_values(|b: &[u8]| b@) =~= m.take(i));
    assert(concat(m).take(concat(m.take(i)).len() as int) =~= concat(m).subrange(0, concat(m.take(i)).len() as int));
}

/// Low-level non-blocking IO operations, implemented by a concrete backend.
///
/// `written` is the byte stream the backend has accepted for transmission
/// so far; writes only ever append to it. `write_log` is the write calls
/// made on it so far, each with the slices offered and the answer given.
pub trait IoOps {
    /// The bytes accepted by this backend so far, in order. Verified code
    /// never sees this default (a generic backend's stream is unknown); it
    /// only spares backends written outside verification from stating it.
    open spec fn written(&self) -> Seq<u8> {
        Seq::empty()
    }

    /// The write calls made on this backend so far, in order. As with
    /// `written`, verified code never sees this default.
    open spec fn write_log(&self) -> Seq<WriteCall> {
        Seq::empty()
    }

    fn capabilities(&self) -> ChannelCaps;

    /// Lease-based read: a backend that supports leasing hands out a token;
    /// one that does not answers `Err(Unsupported)` and implements
    /// `try_read_into`.
    fn try_read_lease(&mut self) -> (r: Result<ReadOutcome, KernelError>)
        ensures
            r matches Ok(o) ==> o.data is Token,
            final(self).written() == old(self).written(),
            final(self).write_log() == old(self).write_log(),
    ;

    /// Copying read into `dst`; never reports more bytes than `dst` holds.
    fn try_read_into(&mut self, dst: &mut [u8]) -> (r: Result<ReadOutcome, KernelError>)
        ensures
            r matches Ok(o) ==> o.n <= old(dst)@.len(),
            final(self).written() == old(self).written(),
            final(self).write_log() == old(self).write_log(),
    ;

    /// Write a prefix of `data`: on `Ok(n)` the first `n` bytes were
    /// accepted, on an error nothing was. The call is logged.
    fn try_write(&mut self, data: &[u8]) -> (r: Result<usize, KernelError>)
        ensures
            match r {
                Ok(n) => n <= data@.len() && final(self).written() == old(self).written() + data@.take(n as int),
                Err(_) => final(self).written() == old(self).written(),
            },
            final(self).write_log() == old(self).write_log().push((seq![data@], r)),
    ;

    /// Best-effort vectored write: on `Ok(n)` the first `n` bytes of the
    /// concatenated slices were accepted. The default writes the non-empty
    /// slices one by one, stops at the first partial write, and reports
    /// progress made before an error instead of the error; the log then
    /// holds those single-slice calls, otherwise the one vectored call.
    fn try_write_vectored(&mut self, bufs: &[&[u8]]) -> (r: Result<usize, KernelError>)
        requires
            iov_total(bufs@) <= usize::MAX,
        ensures
            match r {
                Ok(n) => n <= iov_total(bufs@) && final(self).written() == old(self).written()
                    + slices_bytes(bufs@).take(n as int),
                Err(_) => final(self).written() == old(self).written(),
            },
            log_extends(final(self).write_log(), old(self).write_log()),
            vectored_log_ok(final(self).write_log().skip(old(self).write_log().len() as int),
                slice_views(bufs@), r),
        default_ensures
            iov_total(bufs@) == 0 ==> r == Ok::<usize, KernelError>(0),
    {
        let ghost w0 = self.written();
        let ghost l0 = self.write_log();
        let ghost mut d: Seq<WriteCall> = Seq::empty();
        let mut written: usize = 0;
        let mut i: usize = 0;
        let mut partial = false;
        proof {
            assert(l0 + d =~= l0);
            assert(bufs@.take(0).map_values(|b: &[u8]| b@) =~= Seq::<Seq<u8>>::empty());
        }
        while i < bufs.len() && !partial
            invariant
                i <= bufs@.len(),
                iov_total(bufs@) <= usize::MAX,
                w0 == old(self).written(),
                l0 == old(self).write_log(),
                !partial ==> written as int == slices_bytes(bufs@.take(i as int)).len(),
                partial ==> i >= 1 && written <= slices_bytes(bufs@.take(i as int)).len(),
                self.written() == w0 + slices_bytes(bufs@.take(i as int)).take(written as int),
                self.write_log() == l0 + d,
                offered_bytes(d) == slices_bytes(bufs@.take(i as int)),
                accepted_total(d) == written,
                forall|k: int| 0 <= k < d.len() ==> (#[trigger] d[k]).0.len() == 1 && d[k].0[0].len() > 0,
                !partial ==> forall|k: int| 0 <= k < d.len()
                    ==> (#[trigger] d[k]).1 is Ok && accepted(d[k]) == d[k].0[0].len(),
                partial ==> d.len() >= 1 && forall|k: int| 0 <= k < d.len() - 1
                    ==> (#[trigger] d[k]).1 is Ok && accepted(d[k]) == d[k].0[0].len(),
                !partial ==> written >= d.len(),
            decreases bufs@.len() - i,
        {
            proof {
                lemma_slices_take_next(bufs@, i as int);
                lemma_slices_prefix(bufs@, i as int + 1);
            }
            let b = bufs[i];
            if b.len() > 0 {
                let res = self.try_write(b);
                proof {
                    let c: WriteCall = (seq![b@], res);
                    lemma_calls_push(d, c);
                    lemma_concat_single(b@);
                    let d2 = d.push(c);
                    assert(self.write_log() =~= l0 + d2);
                    assert forall|k: int| 0 <= k < d2.len() implies (#[trigger] d2[k]).0.len() == 1
                        && d2[k].0[0].len() > 0 by {
                        if k < d.len() {
                            assert(d2[k] == d[k]);
                        }
                    }
                    assert forall|k: int| 0 <= k < d2.len() - 1 implies (#[trigger] d2[k]).1 is Ok
                        && accepted(d2[k]) == d2[k].0[0].len() by {
                        assert(d2[k] == d[k]);
                    }
                    d = d2;
                }
                match res {
                    Ok(n) => {
                        proof {
                            let p = slices_bytes(bufs@.take(i as int));
                            assert(p.take(written as int) =~= p);
                            assert((p + b@).take(written + n) =~= p + b@.take(n as int));
                        }
                        written = written + n;
                        if n < b.len() {
                            partial = true;
                        }
                    },
                    Err(e) => {
                        proof {
                            lemma_slices_prefix(bufs@, i as int);
                            let p = slices_bytes(bufs@.take(i as int));
                            let all = slices_bytes(bufs@);
                            assert(all.take(written as int) =~= p.take(written as int));
                            assert(written == 0 ==> w0 + p.take(written as int) =~= w0);
                            let full = slices_bytes(bufs@.take(i + 1));
                            assert(all.take(full.len() as int) == full);
                            assert(self.write_log().skip(l0.len() as int) =~= d);
                            assert(self.write_log().take(l0.len() as int) =~= l0);
                            assert(d.len() == 1 ==> d[0] == d[d.len() - 1]);
                        }
                        if written > 0 {
                            return Ok(written);
                        }
                        return Err(e);
                    },
                }
            } else {
                proof {
                    let p = slices_bytes(bufs@.take(i as int));
                    assert(p.take(written as int) =~= p);
                    assert((p + b@).take(written as int) =~= p);
                    assert(p + b@ =~= p);
                }
            }
            i = i + 1;
        }
        proof {
            lemma_slices_prefix(bufs@, i as int);
            let p = slices_bytes(bufs@.take(i as int));
            let all = slices_bytes(bufs@);
            assert(all.take(written as int) =~= p.take(written as int));
            assert(self.write_log().skip(l0.len() as int) =~= d);
            assert(self.write_log().take(l0.len() as int) =~= l0);
            if !partial {
                assert(bufs@.take(i as int) =~= bufs@);
            }
        }
        Ok(written)
    }

    /// Flush backend-side buffers; accepts no new bytes.
    fn flush(&mut self) -> (r: Result<(), KernelError>)
        ensures
            final(self).written() == old(self).written(),
            final(self).write_log() == old(self).write_log(),
    ;

    /// Release a previously leased RX token (no-op by default).
    fn release_rx(&mut self, tok: RxToken)
        ensures
            final(self).written() == old(self).written(),
            final(self).write_log() == old(self).write_log(),
    {
        let _ = tok;
    }

    /// Close the underlying handle (`Err(Unsupported)` by default); closing
    /// accepts no bytes.
    fn close(&mut self) -> (r: Result<(), KernelError>)
        ensures
            final(self).written() == old(self).written(),
            final(self).write_log() == old(self).write_log(),
        default_ensures
            r == Err::<(), KernelError>(KernelError::Unsupported),
    {
        Err(KernelError::Unsupported)
    }
}

} // verus!
