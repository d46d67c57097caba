use pep_daemon::framing::{FrameError, read_frame, write_frame};
use pep_daemon::stream::{ByteSink, SliceSource, VecSink, read_with_cap};
use pep_daemon::text::sanitize_url_string;

#[test]
fn http_exec_read_with_cap_rejects_oversized_body() {
    let payload = vec![1u8; 10];
    let mut source = SliceSource::new(payload);
    let err = read_with_cap(&mut source, 5).expect_err("expected cap error");
    assert!(err.contains("exceeds max bytes"));
}

#[test]
fn http_exec_sanitize_url_string_removes_query_and_fragment() {
    let raw = "https://example.com/path?token=secret#frag";
    assert_eq!(sanitize_url_string(raw), "https://example.com/path");
}

#[test]
fn read_with_cap_returns_exact_body_up_to_cap() {
    let payload: Vec<u8> = (0u8..100).collect();
    let mut source = SliceSource::new(payload.clone());
    let got = read_with_cap(&mut source, 100).expect("body at the cap must pass");
    assert_eq!(got, payload);

    let mut source = SliceSource::new(vec![7u8; 101]);
    assert!(read_with_cap(&mut source, 100).is_err());

    let mut source = SliceSource::new(Vec::new());
    let got = read_with_cap(&mut source, 0).expect("an empty body fits any cap");
    assert!(got.is_empty());
}

#[test]
fn frame_round_trip_preserves_payload() {
    let payload = b"{\"method\":\"GET\"}".to_vec();
    let mut sink = VecSink::new();
    write_frame(&mut sink, &payload).expect("write");
    let wire = sink.into_bytes();
    assert_eq!(wire.len(), 4 + payload.len());
    assert_eq!(&wire[0..4], &[0, 0, 0, 16]);

    let mut source = SliceSource::new(wire);
    let decoded = read_frame(&mut source).expect("read");
    assert_eq!(decoded, payload);
}

#[test]
fn two_frames_read_back_in_order() {
    let mut sink = VecSink::new();
    write_frame(&mut sink, b"one").expect("write");
    write_frame(&mut sink, b"second").expect("write");
    let mut source = SliceSource::new(sink.into_bytes());
    assert_eq!(read_frame(&mut source).expect("first"), b"one".to_vec());
    assert_eq!(read_frame(&mut source).expect("second"), b"second".to_vec());
    assert!(matches!(read_frame(&mut source), Err(FrameError::EndOfStream)));
}

#[test]
fn empty_stream_reports_clean_end() {
    let mut source = SliceSource::new(Vec::new());
    assert!(matches!(read_frame(&mut source), Err(FrameError::EndOfStream)));
}

#[test]
fn partial_length_or_body_is_an_io_error() {
    let mut source = SliceSource::new(vec![0, 0]);
    assert!(matches!(read_frame(&mut source), Err(FrameError::Io(_))));

    let mut source = SliceSource::new(vec![0, 0, 0, 5, b'a', b'b']);
    assert!(matches!(read_frame(&mut source), Err(FrameError::Io(_))));
}

#[test]
fn empty_payload_frame_is_valid() {
    let mut sink = VecSink::new();
    write_frame(&mut sink, b"").expect("write");
    let mut source = SliceSource::new(sink.into_bytes());
    assert_eq!(read_frame(&mut source).expect("read"), Vec::<u8>::new());
}

#[test]
fn sanitize_url_string_is_idempotent() {
    let once = sanitize_url_string("https://h/p?a=1#b");
    let twice = sanitize_url_string(&once);
    assert_eq!(once, twice);
    assert_eq!(once, "https://h/p");
    assert!(!once.contains('?') && !once.contains('#'));
    assert_eq!(sanitize_url_string("plain"), "plain");
    assert_eq!(sanitize_url_string("#x?y"), "");
}
