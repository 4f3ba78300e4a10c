use std::str::FromStr;
use grarr::capability::{Capabilities, Capability};

#[test]
fn capability_names_parse_to_known_capabilities() {
    assert_eq!(Capability::from_str("side-band").unwrap(), Capability::SideBand);
    assert_eq!(Capability::from_str("side-band-64k").unwrap(), Capability::SideBand64K);
    assert_eq!(Capability::from_str("multi_ack").unwrap(), Capability::MultiAck);
    assert_eq!(Capability::from_str("multi_ack_detailed").unwrap(), Capability::MultiAckDetailed);
}

#[test]
fn unknown_capability_keeps_its_name() {
    assert_eq!(Capability::from_str("ofs-delta").unwrap(), Capability::Unknown("ofs-delta".to_string()));
    assert_eq!(Capability::from_str("").unwrap(), Capability::Unknown(String::new()));
}

#[test]
fn capability_name_round_trip() {
    for name in ["side-band", "side-band-64k", "multi_ack", "multi_ack_detailed", "thin-pack"] {
        assert_eq!(Capability::from_str(name).unwrap().to_string(), name);
    }
    assert_eq!(Capability::SideBand64K.to_string(), "side-band-64k");
}

#[test]
fn capabilities_parse_skips_empty_words() {
    let caps = Capabilities::from_str("  side-band  multi_ack ofs-delta ").unwrap();
    assert!(caps.contains(Capability::SideBand));
    assert!(caps.contains(Capability::MultiAck));
    assert!(caps.contains(Capability::Unknown("ofs-delta".to_string())));
    assert!(!caps.contains(Capability::SideBand64K));
    assert_eq!(caps.to_string(), "side-band multi_ack ofs-delta ");
}

#[test]
fn capabilities_text_ends_each_name_with_space() {
    let caps = Capabilities::new(vec![Capability::MultiAckDetailed, Capability::SideBand]);
    assert_eq!(caps.to_string(), "multi_ack_detailed side-band ");
    assert_eq!(Capabilities::from_str(&caps.to_string()).unwrap().to_string(), caps.to_string());
}

#[test]
fn empty_capabilities() {
    let caps = Capabilities::empty();
    assert!(!caps.contains(Capability::SideBand));
    assert_eq!(caps.to_string(), "");
    assert_eq!(Capabilities::from_str("   ").unwrap().to_string(), "");
}

#[test]
fn capabilities_parse_through_from_str() {
    let cap: Capability = "multi_ack".parse().unwrap();
    assert_eq!(cap, Capability::MultiAck);
    let caps: Capabilities = "side-band-64k thin-pack".parse().unwrap();
    assert_eq!(caps.to_string(), "side-band-64k thin-pack ");
}

#[test]
fn capabilities_by_name_and_text() {
    assert_eq!(Capability::from_name("side-band"), Capability::SideBand);
    assert_eq!(Capabilities::from_text(" multi_ack ").to_string(), "multi_ack ");
}
