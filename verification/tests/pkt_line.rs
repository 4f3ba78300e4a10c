use grarr::pkt_line::{self, PktError, PktLine};

fn written<F: FnOnce(&mut Vec<u8>) -> Result<(), PktError>>(f: F) -> (Vec<u8>, Result<(), PktError>) {
    let mut out = Vec::new();
    let r = f(&mut out);
    (out, r)
}

#[test]
fn write_frames_payload_with_hex_length() {
    let (out, r) = written(|w| pkt_line::write(w, b"hello"));
    assert_eq!(r, Ok(()));
    assert_eq!(out, b"0009hello".to_vec());
}

#[test]
fn write_of_nothing_writes_nothing() {
    let (out, r) = written(|w| pkt_line::write(w, b""));
    assert_eq!(r, Ok(()));
    assert!(out.is_empty());
}

#[test]
fn write_refuses_payload_over_limit() {
    let big = vec![b'a'; pkt_line::MAX_PKT_LINE_DATA_LEN + 1];
    let (out, r) = written(|w| pkt_line::write(w, &big));
    assert_eq!(r, Err(PktError::DataTooLong));
    assert!(out.is_empty());
    let fits = vec![b'a'; pkt_line::MAX_PKT_LINE_DATA_LEN];
    let (out, r) = written(|w| pkt_line::write(w, &fits));
    assert_eq!(r, Ok(()));
    assert_eq!(&out[0..4], b"fff0");
    assert_eq!(out.len(), 65520);
}

#[test]
fn write_appends_after_existing_bytes() {
    let mut out = b"xy".to_vec();
    pkt_line::write(&mut out, b"a").unwrap();
    assert_eq!(out, b"xy0005a".to_vec());
}

#[test]
fn write_str_adds_line_feed() {
    let (out, r) = written(|w| pkt_line::write_str(w, "hello"));
    assert_eq!(r, Ok(()));
    assert_eq!(out, b"000ahello\n".to_vec());
}

#[test]
fn write_str_keeps_existing_line_feed() {
    let (out, _) = written(|w| pkt_line::write_str(w, "hi\n"));
    assert_eq!(out, b"0007hi\n".to_vec());
}

#[test]
fn write_str_without_room_for_line_feed() {
    let text = "a".repeat(pkt_line::MAX_PKT_LINE_DATA_LEN);
    let (out, r) = written(|w| pkt_line::write_str(w, &text));
    assert_eq!(r, Ok(()));
    assert_eq!(&out[0..4], b"fff0");
    assert_eq!(out.len(), 65520);
    let too_long = "a".repeat(pkt_line::MAX_PKT_LINE_DATA_LEN + 1);
    let (out, r) = written(|w| pkt_line::write_str(w, &too_long));
    assert_eq!(r, Err(PktError::DataTooLong));
    assert!(out.is_empty());
}

#[test]
fn flush_writes_flush_pkt() {
    let mut out = Vec::new();
    pkt_line::flush(&mut out);
    assert_eq!(out, b"0000".to_vec());
}

#[test]
fn read_gives_back_what_write_wrote() {
    let mut out = Vec::new();
    pkt_line::write(&mut out, b"payload").unwrap();
    out.extend_from_slice(b"trailing");
    let (line, n) = pkt_line::read(&out).unwrap();
    assert_eq!(line, PktLine::Line(b"payload".to_vec()));
    assert_eq!(n, 11);
}

#[test]
fn read_gives_back_what_write_str_wrote() {
    let mut out = Vec::new();
    pkt_line::write_str(&mut out, "text").unwrap();
    let (line, n) = pkt_line::read(&out).unwrap();
    assert_eq!(line, PktLine::Line(b"text".to_vec()));
    assert_eq!(n, out.len());
}

#[test]
fn read_flush() {
    assert_eq!(pkt_line::read(b"0000rest").unwrap(), (PktLine::Flush, 4));
}

#[test]
fn read_drops_one_final_line_feed() {
    let (line, _) = pkt_line::read(b"0006\n\n").unwrap();
    assert_eq!(line, PktLine::Line(b"\n".to_vec()));
    let (line, _) = pkt_line::read(b"0004").unwrap();
    assert_eq!(line, PktLine::Line(Vec::new()));
}

#[test]
fn read_errors() {
    assert_eq!(pkt_line::read(b"00"), Err(PktError::UnexpectedEof));
    assert_eq!(pkt_line::read(b"zzzz"), Err(PktError::InvalidSize));
    assert_eq!(pkt_line::read(b"0003"), Err(PktError::SizeTooSmall));
    assert_eq!(pkt_line::read(b"fff1"), Err(PktError::SizeTooLarge));
    assert_eq!(pkt_line::read(b"0009hel"), Err(PktError::UnexpectedEof));
}

#[test]
fn read_size_accepts_either_case_and_plus_sign() {
    assert_eq!(pkt_line::read_pkt_line_size(b"000A"), Ok(PktLine::Line(6)));
    assert_eq!(pkt_line::read_pkt_line_size(b"000a"), Ok(PktLine::Line(6)));
    assert_eq!(pkt_line::read_pkt_line_size(b"+00a"), Ok(PktLine::Line(6)));
    assert_eq!(pkt_line::read_pkt_line_size(b"0000"), Ok(PktLine::Flush));
    assert_eq!(pkt_line::read_pkt_line_size(b"-00a"), Err(PktError::InvalidSize));
    assert_eq!(pkt_line::read_pkt_line_size(b"+"), Err(PktError::UnexpectedEof));
}

#[test]
fn each_reads_to_end_of_input() {
    let (lines, end) = pkt_line::each(b"0009hello0000000aworld\n");
    assert_eq!(end, Ok(()));
    assert_eq!(
        lines,
        vec![PktLine::Line(b"hello".to_vec()), PktLine::Flush, PktLine::Line(b"world".to_vec())]
    );
}

#[test]
fn each_stops_quietly_inside_a_line() {
    let (lines, end) = pkt_line::each(b"0009hello0009hel");
    assert_eq!(end, Ok(()));
    assert_eq!(lines, vec![PktLine::Line(b"hello".to_vec())]);
    assert_eq!(pkt_line::each(b""), (Vec::<PktLine<Vec<u8>>>::new(), Ok(())));
}

#[test]
fn each_reports_broken_framing() {
    let hello = || vec![PktLine::Line(b"hello".to_vec())];
    assert_eq!(pkt_line::each(b"0009hello0002"), (hello(), Err(PktError::SizeTooSmall)));
    assert_eq!(pkt_line::each(b"0009helloxxxx"), (hello(), Err(PktError::InvalidSize)));
    assert_eq!(pkt_line::each(b"fff1"), (Vec::new(), Err(PktError::SizeTooLarge)));
}

#[test]
fn each_str_decodes_text() {
    let (lines, end) = pkt_line::each_str("000ahéllo0000".as_bytes());
    assert_eq!(end, Ok(()));
    assert_eq!(lines, vec![PktLine::Line("héllo".to_string()), PktLine::Flush]);
    assert_eq!(pkt_line::each_str(b"0005\xff"), (Vec::new(), Err(PktError::InvalidUtf8)));
    assert_eq!(
        pkt_line::each_str(b"0006ok00000005\xff0006no"),
        (vec![PktLine::Line("ok".to_string()), PktLine::Flush], Err(PktError::InvalidUtf8))
    );
}

#[test]
fn write_lines_writes_each_line() {
    let mut out = Vec::new();
    let lines = vec!["a".to_string(), "bc".to_string()];
    assert_eq!(pkt_line::write_lines(&mut out, &lines), Ok(()));
    assert_eq!(out, b"0006a\n0007bc\n".to_vec());
}

#[test]
fn write_lines_stops_at_long_line() {
    let mut out = Vec::new();
    let lines = vec!["a".to_string(), "b".repeat(70000), "c".to_string()];
    assert_eq!(pkt_line::write_lines(&mut out, &lines), Err(PktError::DataTooLong));
    assert_eq!(out, b"0006a\n".to_vec());
}

#[test]
fn stream_of_lines_reads_back() {
    let mut out = Vec::new();
    let lines = vec!["first".to_string(), "".to_string(), "third\n".to_string()];
    pkt_line::write_lines(&mut out, &lines).unwrap();
    pkt_line::flush(&mut out);
    pkt_line::write_str(&mut out, "after flush").unwrap();
    let (back, end) = pkt_line::each(&out);
    assert_eq!(end, Ok(()));
    assert_eq!(
        back,
        vec![
            PktLine::Line(b"first".to_vec()),
            PktLine::Line(b"third".to_vec()),
            PktLine::Flush,
            PktLine::Line(b"after flush".to_vec()),
        ]
    );
}
