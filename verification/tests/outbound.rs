use spark_transport::io::{ChannelCaps, IoOps, MsgBoundary, ReadData, ReadOutcome, STREAM};
use spark_transport::outbound::buffer::{FlushStatus, OutboundBuffer, WritabilityChange};
use spark_transport::outbound::frame::{OutboundFrame, OUTBOUND_SEG_MAX};
use spark_transport::pipeline::encoder::StreamFrameEncoderHandler;
use spark_transport::framing::codec::ByteOrder;
use spark_transport::framing::profile::{DelimiterSpec, FrameDecoderProfile};
use spark_transport::policy::FlushBudget;
use spark_transport::uci::KernelError;
use spark_transport::framing::inbound::InboundState;

fn frame_bytes(f: &OutboundFrame) -> Vec<u8> {
    let mut out = Vec::new();
    for i in 0..f.seg_count() {
        out.extend_from_slice(f.seg_slice(i));
    }
    out
}

#[test]
fn append_suffix_is_idempotent() {
    let f = OutboundFrame::from_bytes(b"abc\n".to_vec());
    let f2 = f.clone().append_suffix(b"\n");
    assert_eq!(f.len(), f2.len());
    assert_eq!(f.seg_count(), f2.seg_count());
    assert!(f2.ends_with(b"\n"));
}

#[test]
fn append_suffix_prefers_inline_when_possible() {
    let f = OutboundFrame::from_bytes(b"abc".to_vec());
    let f = f.append_suffix(b"\n");
    assert_eq!(f.seg_count(), 2);
    assert_eq!(f.len(), 4);
    assert_eq!(f.seg_slice(1), b"\n");
}

#[test]
fn append_suffix_coalesces_only_tail_when_at_segment_cap() {
    let f = OutboundFrame::from_bytes(b"payload".to_vec())
        .try_prepend_inline(b"P").unwrap()
        .append_suffix(b"A")
        .append_suffix(b"B");
    assert_eq!(f.seg_count(), OUTBOUND_SEG_MAX);
    assert_eq!(f.seg_slice(3), b"B");

    let g = f.clone().append_suffix(b"C");
    assert_eq!(g.seg_count(), OUTBOUND_SEG_MAX);
    assert!(g.ends_with(b"ABC"));
    assert_eq!(g.seg_slice(0), b"P");
    assert_eq!(g.seg_slice(1), b"payload");
}

#[test]
fn ends_with_spans_segments_and_bounds_suffix() {
    let f = OutboundFrame::from_bytes(b"ab".to_vec()).append_suffix(b"cd");
    assert!(f.ends_with(b"bcd"));
    assert!(!f.ends_with(b"xbcd"));
    assert!(f.ends_with(b""));
    assert!(!f.ends_with(&[0u8; 33]));
}

/// A backend that accepts at most `per_call` bytes per write and records them.
struct RecordingIo {
    accepted: Vec<u8>,
    per_call: usize,
    calls: usize,
    fail_after: Option<(usize, KernelError)>,
}

impl RecordingIo {
    fn new(per_call: usize) -> Self {
        RecordingIo { accepted: Vec::new(), per_call, calls: 0, fail_after: None }
    }
}

impl IoOps for RecordingIo {
    fn capabilities(&self) -> ChannelCaps {
        STREAM
    }
    fn try_read_lease(&mut self) -> Result<ReadOutcome, KernelError> {
        Err(KernelError::Unsupported)
    }
    fn try_read_into(&mut self, _dst: &mut [u8]) -> Result<ReadOutcome, KernelError> {
        Ok(ReadOutcome { n: 0, boundary: MsgBoundary::NotProvided, truncated: false, data: ReadData::Copied })
    }
    fn try_write(&mut self, data: &[u8]) -> Result<usize, KernelError> {
        if let Some((after, e)) = self.fail_after {
            if self.calls >= after {
                return Err(e);
            }
        }
        self.calls += 1;
        let n = data.len().min(self.per_call);
        self.accepted.extend_from_slice(&data[..n]);
        Ok(n)
    }
    fn flush(&mut self) -> Result<(), KernelError> {
        Ok(())
    }
}

#[test]
fn flush_writes_pending_bytes_in_order_across_partial_writes() {
    let mut b = OutboundBuffer::new(1 << 20, 1 << 10);
    b.enqueue(OutboundFrame::from_bytes(b"hello ".to_vec()));
    b.enqueue(OutboundFrame::from_bytes(b"wor".to_vec()).append_suffix(b"ld"));
    b.enqueue(OutboundFrame::from_bytes(Vec::new()));
    assert_eq!(b.bytes_total(), 11);

    let mut io = RecordingIo::new(4);
    let (st, wrote, syscalls, writev, wc) = b.flush_into(&mut io, FlushBudget::new(1 << 20, 64));
    assert_eq!(st, FlushStatus::Drained);
    assert_eq!(wrote, 11);
    assert_eq!(io.accepted, b"hello world".to_vec());
    assert_eq!(syscalls, 2);
    assert_eq!(io.calls, 4);
    assert_eq!(writev, 2);
    assert_eq!(wc, WritabilityChange::Unchanged);
    assert!(b.is_empty());
    assert_eq!(b.bytes_total(), 0);
}

#[test]
fn flush_stops_on_budget_and_resumes() {
    let mut b = OutboundBuffer::new(1 << 20, 1 << 10);
    b.enqueue(OutboundFrame::from_bytes(b"abcdefgh".to_vec()));
    let mut io = RecordingIo::new(2);
    let (st, wrote, syscalls, _, _) = b.flush_into(&mut io, FlushBudget::new(1 << 20, 2));
    assert_eq!(st, FlushStatus::Limited);
    assert_eq!(wrote, 4);
    assert_eq!(syscalls, 2);
    assert_eq!(b.bytes_total(), 4);
    let (st, wrote, _, _, _) = b.flush_into(&mut io, FlushBudget::new(1 << 20, 8));
    assert_eq!(st, FlushStatus::Drained);
    assert_eq!(wrote, 4);
    assert_eq!(io.accepted, b"abcdefgh".to_vec());
}

#[test]
fn flush_maps_backend_errors() {
    let mut b = OutboundBuffer::new(1 << 20, 1 << 10);
    b.enqueue(OutboundFrame::from_bytes(b"abc".to_vec()));
    let mut io = RecordingIo::new(1);
    io.fail_after = Some((1, KernelError::WouldBlock));
    let (st, wrote, _, _, _) = b.flush_into(&mut io, FlushBudget::new(100, 100));
    assert_eq!(st, FlushStatus::WouldBlock);
    assert_eq!(wrote, 1);
    assert_eq!(b.bytes_total(), 2);

    io.fail_after = Some((0, KernelError::Reset));
    let (st, _, _, _, _) = b.flush_into(&mut io, FlushBudget::new(100, 100));
    assert_eq!(st, FlushStatus::Closed);
    io.fail_after = Some((0, KernelError::Timeout));
    let (st, _, _, _, _) = b.flush_into(&mut io, FlushBudget::new(100, 100));
    assert_eq!(st, FlushStatus::Error);
    assert_eq!(b.bytes_total(), 2);
    assert_eq!(io.accepted, b"a".to_vec());
}

#[test]
fn watermarks_have_hysteresis() {
    let mut b = OutboundBuffer::new(8, 4);
    assert!(b.is_writable());
    assert_eq!(b.enqueue(OutboundFrame::from_bytes(b"12345".to_vec())), WritabilityChange::Unchanged);
    assert_eq!(
        b.enqueue(OutboundFrame::from_bytes(b"678".to_vec())),
        WritabilityChange::BecameUnwritable { pending_bytes: 8 }
    );
    assert!(!b.is_writable());
    // Draining to 6 bytes (between the marks) keeps it unwritable.
    let mut io = RecordingIo::new(2);
    let (_, _, _, _, wc) = b.flush_into(&mut io, FlushBudget::new(100, 1));
    assert_eq!(wc, WritabilityChange::Unchanged);
    assert!(!b.is_writable());
    let (_, _, _, _, wc) = b.flush_into(&mut io, FlushBudget::new(100, 1));
    assert_eq!(wc, WritabilityChange::BecameWritable { pending_bytes: 4 });
    assert!(b.is_writable());
}

#[test]
fn new_buffer_clamps_watermarks() {
    let mut b = OutboundBuffer::new(0, 5);
    assert_eq!(
        b.enqueue(OutboundFrame::from_bytes(b"x".to_vec())),
        WritabilityChange::BecameUnwritable { pending_bytes: 1 }
    );
}

#[test]
fn encoders_frame_messages_for_each_profile() {
    let line = StreamFrameEncoderHandler::new(FrameDecoderProfile::line(64));
    let f = line.encode(OutboundFrame::from_bytes(b"ping".to_vec())).unwrap();
    assert_eq!(frame_bytes(&f), b"ping\n".to_vec());
    let f = line.encode(OutboundFrame::from_bytes(b"ping\n".to_vec())).unwrap();
    assert_eq!(frame_bytes(&f), b"ping\n".to_vec());

    let delim = StreamFrameEncoderHandler::new(FrameDecoderProfile::Delimiter {
        max_frame: 64,
        delimiter: DelimiterSpec::new(b"\r\n").unwrap(),
        include_delimiter: false,
    });
    let f = delim.encode(OutboundFrame::from_bytes(b"ok".to_vec())).unwrap();
    assert_eq!(frame_bytes(&f), b"ok\r\n".to_vec());

    let lf = StreamFrameEncoderHandler::new(FrameDecoderProfile::length_field(64, 2, ByteOrder::Big).unwrap());
    let f = lf.encode(OutboundFrame::from_bytes(b"abc".to_vec())).unwrap();
    assert_eq!(frame_bytes(&f), vec![0, 3, b'a', b'b', b'c']);

    let small = StreamFrameEncoderHandler::new(FrameDecoderProfile::length_field(1024, 1, ByteOrder::Big).unwrap());
    assert_eq!(small.encode(OutboundFrame::from_bytes(vec![0u8; 256])).unwrap_err(), KernelError::Invalid);

    let v = StreamFrameEncoderHandler::new(FrameDecoderProfile::varint32(1024));
    let f = v.encode(OutboundFrame::from_bytes(vec![7u8; 300])).unwrap();
    let bytes = frame_bytes(&f);
    assert_eq!(&bytes[..2], &[0xAC, 0x02]);
    assert_eq!(bytes.len(), 302);

    let http = StreamFrameEncoderHandler::new(FrameDecoderProfile::http1(1024));
    let f = http.encode(OutboundFrame::from_bytes(b"HTTP/1.1 200 OK\r\n\r\n".to_vec())).unwrap();
    assert_eq!(frame_bytes(&f), b"HTTP/1.1 200 OK\r\n\r\n".to_vec());
}

#[test]
fn prefix_encoders_need_a_free_segment() {
    let full = OutboundFrame::from_bytes(b"p".to_vec())
        .append_suffix(b"a")
        .append_suffix(b"b")
        .append_suffix(b"c");
    assert_eq!(full.seg_count(), OUTBOUND_SEG_MAX);
    assert_eq!(StreamFrameEncoderHandler::encode_varint32(full).unwrap_err(), KernelError::Invalid);
}

#[test]
fn line_encoding_decodes_back_to_the_frame() {
    let enc = StreamFrameEncoderHandler::new(FrameDecoderProfile::line(64));
    let f = enc.encode(OutboundFrame::from_bytes(b"ping".to_vec())).unwrap();
    let wire = frame_bytes(&f);
    assert_eq!(wire, b"ping\n".to_vec());

    let mut st = InboundState::new_line(64);
    let mut stream = wire.clone();
    stream.extend_from_slice(b"pong");
    st.append_stream_bytes(&stream).unwrap();
    assert_eq!(st.pop_ready(), Some(b"ping\n".to_vec()));
    assert_eq!(st.pop_ready(), None);
    assert_eq!(st.cumulation_len(), 4);
}

#[test]
fn delimiter_encoding_decodes_back_to_the_payload() {
    let delim = DelimiterSpec::new(b"\r\n").unwrap();
    let profile = FrameDecoderProfile::delimiter(64, b"\r\n", false).unwrap();
    let enc = StreamFrameEncoderHandler::new(profile);
    let f = enc.encode(OutboundFrame::from_bytes(b"abc".to_vec())).unwrap();
    let wire = frame_bytes(&f);
    assert_eq!(wire, b"abc\r\n".to_vec());

    let mut st = InboundState::new_delimiter(64, delim, false);
    let mut stream = wire.clone();
    stream.extend_from_slice(b"x\r");
    st.append_stream_bytes(&stream).unwrap();
    assert_eq!(st.pop_ready(), Some(b"abc".to_vec()));
    assert_eq!(st.pop_ready(), None);
    assert_eq!(st.cumulation_len(), 2);
}

#[test]
fn default_vectored_write_of_nothing_succeeds_and_default_close_is_unsupported() {
    let mut io = RecordingIo::new(3);
    assert_eq!(io.try_write_vectored(&[]), Ok(0));
    let empty: &[u8] = b"";
    assert_eq!(io.try_write_vectored(&[empty, empty]), Ok(0));
    assert_eq!(io.calls, 0);
    let parts: [&[u8]; 3] = [b"ab", b"", b"cdef"];
    assert_eq!(io.try_write_vectored(&parts), Ok(5));
    assert_eq!(io.accepted, b"abcde".to_vec());
    assert_eq!(io.close(), Err(KernelError::Unsupported));
}
