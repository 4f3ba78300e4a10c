use grarr::pkt_line::PktError;
use grarr::smart_http::{Input, Multiplexer, ReadPktLine, WritePktLine};

#[test]
fn band_writer_frames_each_write() {
    let mut m = Multiplexer::new(Vec::new(), Some(1000));
    assert_eq!(m.packfile().write(b"abc"), 3);
    assert_eq!(m.progress().write(b"hi"), 2);
    m.close();
    assert_eq!(m.into_inner(), b"0008\x01abc0007\x02hi0000".to_vec());
}

#[test]
fn band_writer_writes_what_fits() {
    let mut m = Multiplexer::new(Vec::new(), Some(10));
    assert_eq!(m.error().write(&[b'z'; 20]), 8);
    assert_eq!(m.into_inner(), b"000d\x03zzzzzzzz".to_vec());
}

#[test]
fn band_writer_without_limit_passes_only_pack_data() {
    let mut m = Multiplexer::new(b">".to_vec(), None);
    assert_eq!(m.progress().write(b"ignored"), 7);
    assert_eq!(m.packfile().write(b"PACK"), 4);
    assert_eq!(m.error().write(b"x"), 1);
    assert_eq!(m.into_inner(), b">PACK".to_vec());
}

#[test]
fn write_pkt_line_adds_line_feed() {
    let mut out: Vec<u8> = Vec::new();
    assert_eq!(out.write_pkt_line("hello"), Ok(()));
    assert_eq!(out.write_pkt_line(""), Ok(()));
    out.write_pkt_line_flush();
    assert_eq!(out, b"000ahello\n0000".to_vec());
}

#[test]
fn write_pkt_line_limits() {
    let mut out: Vec<u8> = Vec::new();
    assert_eq!(out.write_pkt_line(&"a".repeat(65520)), Err(PktError::DataTooLong));
    assert!(out.is_empty());
    assert_eq!(out.write_pkt_line_binary(&vec![1u8; 65521]), Err(PktError::DataTooLong));
    assert!(out.is_empty());
    assert_eq!(out.write_pkt_line_binary(b"\x00\x01"), Ok(()));
    assert_eq!(out, b"0006\x00\x01".to_vec());
}

#[test]
fn read_pkt_line_into_buffer() {
    let mut input = Input::new(b"000ahello\n0000".to_vec());
    let mut buf = vec![0u8; 16];
    assert_eq!(input.read_pkt_line(&mut buf), Ok(5));
    assert_eq!(&buf[0..6], b"hello\n");
    assert_eq!(buf.len(), 16);
    assert_eq!(input.read_pkt_line(&mut buf), Ok(0));
    assert_eq!(input.read_pkt_line(&mut buf), Err(PktError::UnexpectedEof));
}

#[test]
fn read_pkt_line_errors() {
    let mut buf = vec![0u8; 4];
    assert_eq!(Input::new(b"0009hello".to_vec()).read_pkt_line(&mut buf), Err(PktError::BufferTooSmall));
    assert_eq!(Input::new(b"0002".to_vec()).read_pkt_line(&mut buf), Err(PktError::SizeTooSmall));
    assert_eq!(Input::new(b"x000".to_vec()).read_pkt_line(&mut buf), Err(PktError::InvalidSize));
    assert_eq!(Input::new(b"0007ab".to_vec()).read_pkt_line(&mut buf), Err(PktError::UnexpectedEof));
}

#[test]
fn pkt_lines_iterates_text() {
    let mut input = Input::new(b"000ahello\n00000007hi\n0005\xff".to_vec());
    let mut lines = input.pkt_lines();
    assert_eq!(lines.next(), Some(Ok("hello".to_string())));
    assert_eq!(lines.next(), Some(Ok(String::new())));
    assert_eq!(lines.next(), Some(Ok("hi".to_string())));
    assert_eq!(lines.next(), Some(Err(PktError::InvalidUtf8)));
    assert_eq!(lines.next(), None);
}

#[test]
fn written_lines_read_back() {
    let mut out: Vec<u8> = Vec::new();
    out.write_pkt_line("want abc").unwrap();
    out.write_pkt_line("héllo").unwrap();
    out.write_pkt_line_flush();
    let mut input = Input::new(out);
    let mut lines = input.pkt_lines();
    assert_eq!(lines.next(), Some(Ok("want abc".to_string())));
    assert_eq!(lines.next(), Some(Ok("héllo".to_string())));
    assert_eq!(lines.next(), Some(Ok(String::new())));
    assert_eq!(lines.next(), None);
}
