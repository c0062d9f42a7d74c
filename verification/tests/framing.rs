use spark_transport::framing::codec::{read_len_field, varint32_decode, varint32_encode, write_len_field, ByteOrder};
use spark_transport::framing::cumulation::Cumulation;
use spark_transport::framing::delimiter::DelimiterFramer;
use spark_transport::framing::inbound::InboundState;
use spark_transport::framing::line::LineFramer;
use spark_transport::framing::length_field::LengthFieldPrefixFramer;
use spark_transport::framing::profile::{
    DelimiterSpec, FrameDecoderProfile, Http1Options, LengthFieldOptions, LineOptions, MAX_DELIMITER_LEN,
};
use spark_transport::framing::segment::SegmentCursor;
use spark_transport::framing::varint32::Varint32Framer;
use spark_transport::framing::StreamDecodeError;

#[test]
fn segment_cursor_starts_at_scanned_suffix() {
    let mut cursor = SegmentCursor::new(3, 8);

    assert!(cursor.next(b"ab").is_none());

    let seg = cursor.next(b"cdef").expect("segment after skip");
    assert_eq!(seg.base, 3);
    assert_eq!(seg.bytes, b"def");
    assert_eq!(cursor.scanned(), 6);
}

#[test]
fn segment_cursor_clips_scanned_suffix_to_scan_limit() {
    let mut cursor = SegmentCursor::new(2, 5);
    let seg = cursor.next(b"cdefgh").expect("clipped segment");

    assert_eq!(seg.base, 2);
    assert_eq!(seg.bytes, b"efg");
    assert_eq!(cursor.scanned(), 5);
    assert!(cursor.next(b"tail").is_none());
}

#[test]
fn segment_cursor_stops_at_scan_limit_after_exact_suffix() {
    let mut cursor = SegmentCursor::new(4, 6);

    let seg = cursor.next(b"abcdef").expect("suffix segment");
    assert_eq!(seg.base, 4);
    assert_eq!(seg.bytes, b"ef");
    assert_eq!(cursor.scanned(), 6);
    assert!(cursor.next(b"gh").is_none());
}

#[test]
fn line_framer_allows_extra_buffered_bytes_after_newline_within_limit_including_delimiter() {
    let mut c = Cumulation::with_capacity(0);
    c.push_bytes(b"ping\nEXTRA");

    let mut f = LineFramer::new(5, true);
    let spec = f.decode(&c).expect("decode ok").expect("frame");

    assert_eq!(spec.consumed, 5);
    assert_eq!(spec.msg_end, 5);
}

#[test]
fn line_framer_allows_extra_buffered_bytes_after_newline_within_limit_excluding_delimiter() {
    let mut c = Cumulation::with_capacity(0);
    c.push_bytes(b"ping\nEXTRA");

    let mut f = LineFramer::new(4, false);
    let spec = f.decode(&c).expect("decode ok").expect("frame");

    assert_eq!(spec.consumed, 5);
    assert_eq!(spec.msg_end, 4);
}

#[test]
fn line_framer_detects_crlf_across_segment_boundary() {
    let mut c = Cumulation::with_capacity(0);
    c.push_bytes(b"ping\r");
    c.consume(0);
    c.push_bytes(b"\nEXTRA");

    let mut f = LineFramer::new(4, false);
    let spec = f.decode(&c).expect("decode ok").expect("frame");

    assert_eq!(spec.consumed, 6);
    assert_eq!(spec.msg_end, 4);
}

#[test]
fn line_framer_errors_when_no_newline_within_scan_window() {
    let mut c = Cumulation::with_capacity(0);
    c.push_bytes(b"abcdef");

    let mut f = LineFramer::new(5, true);
    assert!(matches!(f.decode(&c), Err(StreamDecodeError::FrameTooLong)));
}

#[test]
fn line_framer_errors_on_redecode_after_exhausting_scan_window() {
    let mut c = Cumulation::with_capacity(0);
    c.push_bytes(b"abcde");

    let mut f = LineFramer::new(5, true);
    assert!(f.decode(&c).unwrap().is_none());
    assert!(matches!(f.decode(&c), Err(StreamDecodeError::FrameTooLong)));
}

#[test]
fn line_framer_scan_progress_is_monotonic_and_resets_on_success() {
    let mut c = Cumulation::with_capacity(0);
    c.push_bytes(b"abc");

    let mut f = LineFramer::new(8, true);
    assert!(f.decode(&c).unwrap().is_none());
    assert_eq!(f.scan.scanned(), 3);
    assert_eq!(f.scan.carry(), Some(b'c'));

    c.push_bytes(b"def\nTAIL");
    let spec = f.decode(&c).unwrap().expect("frame");
    assert_eq!(spec.consumed, 7);
    assert_eq!(spec.msg_end, 7);
    assert_eq!(f.scan.scanned(), 0);
    assert_eq!(f.scan.carry(), None);
}

#[test]
fn delimiter_framer_resumes_kmp_match_across_appends() {
    let delim = DelimiterSpec::new(b"\r\n").unwrap();
    let mut f = DelimiterFramer::new(16, delim, false);

    let mut c = Cumulation::with_capacity(0);
    c.push_bytes(b"abc\r");
    assert!(f.decode(&c).unwrap().is_none());
    assert_eq!(f.scan.scanned(), 4);
    assert_eq!(f.scan.carry(), 1);

    c.push_bytes(b"\nxyz");
    let spec = f.decode(&c).unwrap().expect("frame");
    assert_eq!(spec.consumed, 5);
    assert_eq!(spec.msg_end, 3);
    assert_eq!(f.scan.scanned(), 0);
    assert_eq!(f.scan.carry(), 0);
}

#[test]
fn delimiter_framer_handles_overlapping_prefix() {
    // "aab" inside "aaab": the KMP state must fall back, not restart.
    let delim = DelimiterSpec::new(b"aab").unwrap();
    let mut f = DelimiterFramer::new(16, delim, true);
    let mut c = Cumulation::with_capacity(0);
    c.push_bytes(b"xa");
    assert!(f.decode(&c).unwrap().is_none());
    c.push_bytes(b"aab!");
    let spec = f.decode(&c).unwrap().expect("frame");
    assert_eq!(spec.consumed, 5);
    assert_eq!(spec.msg_end, 5);
}

#[test]
fn delimiter_profile_validates_bounds() {
    assert!(FrameDecoderProfile::delimiter(1024, b"\r\n", false).is_some());
    let too_long = vec![0u8; MAX_DELIMITER_LEN + 1];
    assert!(FrameDecoderProfile::delimiter(1024, &too_long, false).is_none());
    assert!(FrameDecoderProfile::delimiter(1024, b"", false).is_none());
}

#[test]
fn profiles_clamp_limits_and_hint_frame_sizes() {
    assert_eq!(FrameDecoderProfile::line(0), FrameDecoderProfile::Line { max_frame: 1 });
    assert_eq!(
        FrameDecoderProfile::http1_with_limits(100, 500, 0),
        FrameDecoderProfile::Http1 { max_request_bytes: 100, max_head_bytes: 100, max_headers: 1 }
    );
    assert_eq!(FrameDecoderProfile::http1(8192), FrameDecoderProfile::http1_with_limits(8192, 8192, 64));
    assert!(FrameDecoderProfile::length_field(64, 5, ByteOrder::Big).is_none());
    let lf = FrameDecoderProfile::length_field(64, 4, ByteOrder::Big).unwrap();
    assert_eq!(lf.max_frame_hint(), 68);
    assert_eq!(FrameDecoderProfile::varint32(usize::MAX).max_frame_hint(), usize::MAX);
    assert_eq!(FrameDecoderProfile::varint32(10).max_frame_hint(), 15);
    assert_eq!(LineOptions::new(0).max_frame, 1);
    assert!(LengthFieldOptions::new(10, 3, ByteOrder::Little).is_some());
    assert!(LengthFieldOptions::new(10, 6, ByteOrder::Little).is_none());
    let h = Http1Options::with_limits(0, 0, 0);
    assert_eq!((h.max_request_bytes, h.max_head_bytes, h.max_headers), (1, 1, 1));
}

#[test]
fn length_field_bytes_round_trip() {
    let hdr = write_len_field(ByteOrder::Big, 2, 0x0102).unwrap();
    assert_eq!(hdr, vec![1, 2]);
    assert_eq!(read_len_field(ByteOrder::Big, &hdr), Some(0x0102));
    let le = write_len_field(ByteOrder::Little, 3, 0x010203).unwrap();
    assert_eq!(le, vec![3, 2, 1]);
    assert_eq!(read_len_field(ByteOrder::Little, &le), Some(0x010203));
    // Too large for the field, or an unsupported width.
    assert!(write_len_field(ByteOrder::Big, 1, 256).is_none());
    assert!(write_len_field(ByteOrder::Big, 5, 1).is_none());
    assert!(read_len_field(ByteOrder::Big, &[0, 0, 0, 0, 0]).is_none());
}

#[test]
fn varint32_round_trip() {
    assert_eq!(varint32_encode(300), vec![0xAC, 0x02]);
    assert_eq!(varint32_decode(&[0xAC, 0x02, 0xFF]), Some((300, 2)));
    assert_eq!(varint32_encode(u32::MAX), vec![0xFF, 0xFF, 0xFF, 0xFF, 0x0F]);
    assert_eq!(varint32_decode(&varint32_encode(u32::MAX)), Some((u32::MAX, 5)));
    // Incomplete and over-long encodings.
    assert_eq!(varint32_decode(&[0x80]), None);
    assert_eq!(varint32_decode(&[0xFF, 0xFF, 0xFF, 0xFF, 0x7F]), None);
}

#[test]
fn length_field_framer_strips_header() {
    let mut c = Cumulation::with_capacity(0);
    c.push_bytes(&[0, 3, b'a']);
    let mut f = LengthFieldPrefixFramer::new(8, 2, ByteOrder::Big).unwrap();
    assert!(f.decode(&c).unwrap().is_none());
    c.push_bytes(b"bcX");
    let spec = f.decode(&c).unwrap().unwrap();
    assert_eq!((spec.consumed, spec.msg_start, spec.msg_end), (5, 2, 5));
    let mut big = Cumulation::with_capacity(0);
    big.push_bytes(&[0, 9]);
    assert!(matches!(f.decode(&big), Err(StreamDecodeError::FrameTooLong)));
}

#[test]
fn varint32_framer_detects_corrupt_prefix() {
    let mut c = Cumulation::with_capacity(0);
    c.push_bytes(&[0xFF, 0xFF, 0xFF, 0xFF, 0xFF, 0x01]);
    let mut f = Varint32Framer::new(1024);
    assert!(matches!(f.decode(&c), Err(StreamDecodeError::CorruptedLengthField)));
}

#[test]
fn inbound_state_decodes_messages_across_appends() {
    let mut st = InboundState::new_line(64);
    let stats = st.append_stream_bytes(b"he").unwrap();
    assert_eq!(stats.produced, 0);
    assert!(!st.has_ready());
    let stats = st.append_stream_bytes(b"llo\nworld\nre").unwrap();
    assert_eq!(stats.produced, 2);
    assert_eq!(st.pop_ready(), Some(b"hello\n".to_vec()));
    assert_eq!(st.pop_ready(), Some(b"world\n".to_vec()));
    assert_eq!(st.pop_ready(), None);
    assert_eq!(st.cumulation_len(), 2);
}

#[test]
fn inbound_state_reports_oversized_line() {
    let mut st = InboundState::new_line(4);
    assert!(st.append_stream_bytes(b"toolong-line").is_err());
}

#[test]
fn taking_a_message_coalesces_only_across_segments() {
    let mut c = Cumulation::with_capacity(0);
    c.push_bytes(b"abc");
    c.push_bytes(b"defg");
    let (m, ts) = c.take_message_with_stats(2, 2);
    assert_eq!(m, b"ab".to_vec());
    assert!(!ts.coalesced);
    assert_eq!(ts.copied_bytes, 0);

    let (m, ts) = c.take_range_with_stats(4, 0, 3);
    assert_eq!(m, b"cde".to_vec());
    assert!(ts.coalesced);
    assert_eq!(ts.copied_bytes, 3);
    assert_eq!(c.len(), 1);
}
