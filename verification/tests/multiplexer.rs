use grarr::capability::{Capabilities, Capability};
use grarr::multiplexer::{Multiplexer, MuxError};

fn mux(caps: Vec<Capability>) -> Multiplexer {
    Multiplexer::new(Vec::new(), &Capabilities::new(caps)).unwrap()
}

#[test]
fn both_side_bands_are_refused() {
    let caps = Capabilities::new(vec![Capability::SideBand, Capability::SideBand64K]);
    assert!(matches!(Multiplexer::new(Vec::new(), &caps), Err(MuxError::BothSideBands)));
}

#[test]
fn without_side_band_pack_data_passes_unchanged() {
    let mut m = mux(vec![Capability::MultiAck]);
    m.write_packfile(b"PACK");
    assert_eq!(m.write_progress("counting"), Ok(()));
    assert_eq!(m.write_error("oops"), Ok(()));
    assert_eq!(m.into_inner(), b"PACK".to_vec());
}

#[test]
fn side_band_splits_pack_data_into_small_packets() {
    let mut m = mux(vec![Capability::SideBand]);
    let data: Vec<u8> = (0..2000u32).map(|i| (i % 251) as u8).collect();
    m.write_packfile(&data);
    let out = m.into_inner();
    assert_eq!(out.len(), 2000 + 3 * 5);
    assert_eq!(&out[0..5], b"03ec\x01");
    assert_eq!(&out[5..1004], &data[0..999]);
    assert_eq!(&out[1004..1009], b"03ec\x01");
    assert_eq!(&out[2008..2013], b"0007\x01");
    assert_eq!(&out[2013..], &data[1998..]);
}

#[test]
fn side_band_64k_uses_large_packets() {
    let mut m = mux(vec![Capability::SideBand64K]);
    let data = vec![7u8; 70000];
    m.write_packfile(&data);
    let out = m.into_inner();
    assert_eq!(&out[0..5], b"fff0\x01");
    assert_eq!(out.len(), 70000 + 2 * 5);
    assert_eq!(&out[65520..65525], b"118a\x01");
}

#[test]
fn empty_pack_data_writes_nothing() {
    let mut m = mux(vec![Capability::SideBand]);
    m.write_packfile(b"");
    assert!(m.into_inner().is_empty());
}

#[test]
fn progress_and_error_go_on_their_bands() {
    let mut m = mux(vec![Capability::SideBand64K]);
    assert_eq!(m.write_progress("hi"), Ok(()));
    assert_eq!(m.write_error("no"), Ok(()));
    assert_eq!(m.into_inner(), b"0007\x02hi0007\x03no".to_vec());
}

#[test]
fn long_message_is_refused() {
    let mut m = mux(vec![Capability::SideBand]);
    assert_eq!(m.write_progress(&"x".repeat(1001)), Err(MuxError::MessageTooLong));
    assert_eq!(m.write_error(&"x".repeat(1001)), Err(MuxError::MessageTooLong));
    assert_eq!(m.write_progress(&"x".repeat(1000)), Ok(()));
    let out = m.into_inner();
    assert_eq!(&out[0..5], b"03ed\x02");
    assert_eq!(out.len(), 1005);
}

#[test]
fn multiplexer_writes_after_existing_bytes() {
    let mut m = Multiplexer::new(b"NAK".to_vec(), &Capabilities::new(vec![Capability::SideBand])).unwrap();
    m.write_packfile(b"x");
    assert_eq!(m.into_inner(), b"NAK0006\x01x".to_vec());
}

fn demux(stream: &[u8], band: u8) -> Option<(Vec<u8>, usize)> {
    let mut data = Vec::new();
    let mut pos = 0;
    let mut largest = 0;
    while pos < stream.len() {
        let n = usize::from_str_radix(std::str::from_utf8(stream.get(pos..pos + 4)?).ok()?, 16).ok()?;
        if n < 5 || pos + n > stream.len() || stream[pos + 4] != band {
            return None;
        }
        data.extend_from_slice(&stream[pos + 5..pos + n]);
        largest = largest.max(n - 4);
        pos += n;
    }
    Some((data, largest))
}

#[test]
fn demultiplexing_gives_back_the_pack_data() {
    for (caps, limit) in [(vec![Capability::SideBand], 1000), (vec![Capability::SideBand64K], 65516)] {
        let mut m = mux(caps);
        let data: Vec<u8> = (0..150_000u32).map(|i| (i * 7 % 256) as u8).collect();
        m.write_packfile(&data);
        let (back, largest) = demux(&m.into_inner(), 1).unwrap();
        assert_eq!(back, data);
        assert!(largest <= limit);
    }
}
