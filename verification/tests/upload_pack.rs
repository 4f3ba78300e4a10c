use grarr::capability::{Capabilities, Capability};
use grarr::negotiation::Negotiation;
use grarr::oid::Oid;
use grarr::pkt_line::PktError;
use grarr::upload_pack::{self, Prepared, Request, RequestError, Response};

fn oid(b: u8) -> Oid {
    Oid { bytes: [b; 20] }
}

fn hex(b: u8) -> String {
    format!("{:02x}", b).repeat(20)
}

fn pkt(text: &str) -> Vec<u8> {
    let mut v = format!("{:04x}", text.len() + 4).into_bytes();
    v.extend_from_slice(text.as_bytes());
    v
}

fn body(lines: &[&str]) -> Vec<u8> {
    let mut v = Vec::new();
    for l in lines {
        if l.is_empty() {
            v.extend_from_slice(b"0000");
        } else {
            v.extend(pkt(l));
        }
    }
    v
}

fn request(wants: Vec<Oid>, haves: Vec<Oid>, caps: Vec<Capability>, done: bool) -> Request {
    Request { wants, haves, capabilities: Capabilities::new(caps), done }
}

fn written(r: &Response) -> String {
    let mut out = Vec::new();
    r.write_to(&mut out, &Vec::new()).unwrap();
    String::from_utf8(out).unwrap()
}

#[test]
fn parse_reads_wants_haves_capabilities_and_done() {
    let want = format!("want {} side-band-64k multi_ack_detailed\n", hex(1));
    let have = format!("have {}\n", hex(2));
    let b = body(&[&want, "", &have, "done\n"]);
    assert!(upload_pack::request_is_readable(&b));
    let req = upload_pack::parse(&b).unwrap();
    assert_eq!(req.wants, vec![oid(1)]);
    assert_eq!(req.haves, vec![oid(2)]);
    assert!(req.done);
    assert!(req.capabilities.contains(Capability::SideBand64K));
    assert!(req.capabilities.contains(Capability::MultiAckDetailed));
    assert!(!req.capabilities.contains(Capability::SideBand));
}

#[test]
fn parse_of_empty_body_is_empty_request() {
    let req = upload_pack::parse(b"").unwrap();
    assert!(req.wants.is_empty() && req.haves.is_empty() && !req.done);
    assert_eq!(req.capabilities.to_string(), "");
}

#[test]
fn last_want_with_capabilities_sets_them() {
    let w1 = format!("want {} side-band\n", hex(1));
    let w2 = format!("want {}\n", hex(2));
    let w3 = format!("want {} multi_ack\n", hex(3));
    let req = upload_pack::parse(&body(&[&w1, &w2, &w3])).unwrap();
    assert_eq!(req.wants, vec![oid(1), oid(2), oid(3)]);
    assert_eq!(req.capabilities.to_string(), "multi_ack ");
}

#[test]
fn short_object_id_is_padded() {
    let req = upload_pack::parse(&body(&["want ab\n"])).unwrap();
    let mut bytes = [0u8; 20];
    bytes[0] = 0xab;
    assert_eq!(req.wants, vec![Oid { bytes }]);
    let req = upload_pack::parse(&body(&["have ABC\n"])).unwrap();
    let mut bytes = [0u8; 20];
    bytes[0] = 0xab;
    bytes[1] = 0xc0;
    assert_eq!(req.haves, vec![Oid { bytes }]);
}

#[test]
fn unexpected_line_is_an_error() {
    match upload_pack::parse(&body(&["deepen 1\n"])) {
        Err(RequestError::UnexpectedLine(l)) => assert_eq!(l, "deepen 1"),
        other => panic!("{:?}", other),
    }
    match upload_pack::parse(&body(&["ab\n"])) {
        Err(RequestError::UnexpectedLine(l)) => assert_eq!(l, "ab"),
        other => panic!("{:?}", other),
    }
}

#[test]
fn invalid_object_id_is_an_error() {
    assert!(matches!(upload_pack::parse(&body(&["want xyz\n"])), Err(RequestError::InvalidOid)));
    assert!(matches!(upload_pack::parse(&body(&["have \n"])), Err(RequestError::InvalidOid)));
    let long = format!("have {}0\n", hex(1));
    assert!(matches!(upload_pack::parse(&body(&[&long])), Err(RequestError::InvalidOid)));
}

#[test]
fn broken_framing_is_an_error() {
    assert!(matches!(upload_pack::parse(b"zzzz"), Err(RequestError::Pkt(PktError::InvalidSize))));
    assert!(matches!(upload_pack::parse(b"0005\xff"), Err(RequestError::Pkt(PktError::InvalidUtf8))));
}

#[test]
fn truncated_body_ends_the_request() {
    let want = format!("want {}\n", hex(1));
    let mut b = body(&[&want]);
    b.extend_from_slice(b"0032want");
    let req = upload_pack::parse(&b).unwrap();
    assert_eq!(req.wants, vec![oid(1)]);
}

#[test]
fn line_split_inside_a_character_is_not_readable() {
    assert!(!upload_pack::request_is_readable(&body(&["abcé"])));
    assert!(!upload_pack::request_is_readable(&body(&["wantéx"])));
    assert!(upload_pack::request_is_readable(&body(&["want é"])));
    assert!(upload_pack::request_is_readable(&body(&["éabc"])));
}

#[test]
fn request_without_wants_is_refused() {
    match upload_pack::prepare(request(vec![], vec![], vec![], true), vec![oid(1)]) {
        Prepared::Respond(r) => {
            assert_eq!(r.status_code(), 403);
            assert_eq!(written(&r), "need wants");
        }
        Prepared::Negotiate(_) => panic!("expected an answer"),
    }
}

#[test]
fn want_missing_from_refs_is_refused() {
    match upload_pack::prepare(request(vec![oid(1), oid(9)], vec![], vec![], true), vec![oid(1)]) {
        Prepared::Respond(Response::Error(m)) => assert_eq!(m, format!("want missing from refs {}", hex(9))),
        _ => panic!("expected an error"),
    }
}

fn negotiate(req: Request, refs: Vec<Oid>, descends: &dyn Fn(&Oid, &Oid) -> bool) -> Negotiation {
    let mut n = match upload_pack::prepare(req, refs) {
        Prepared::Negotiate(n) => n,
        Prepared::Respond(_) => panic!("expected a negotiation"),
    };
    while let Some((a, b)) = n.query() {
        n.answer(descends(&a, &b));
    }
    n
}

#[test]
fn done_request_gets_a_pack() {
    let n = negotiate(
        request(vec![oid(1)], vec![], vec![Capability::MultiAckDetailed], true),
        vec![oid(1)],
        &|_, _| panic!("no question expected"),
    );
    assert_eq!(n.decision(), Some(true));
    let r = n.into_pack(vec![oid(1), oid(5)]);
    assert_eq!(r.status_code(), 200);
    assert_eq!(written(&r), "0008NAK\n0000");
    match r {
        Response::Pack(p) => assert_eq!(p.commits, vec![oid(1), oid(5)]),
        _ => panic!("expected a pack"),
    }
}

#[test]
fn common_have_closes_the_wants() {
    // history: 3 <- 2 <- 1 (1 is the ref and the want)
    let descends = |a: &Oid, b: &Oid| a.bytes[0] < b.bytes[0];
    let n = negotiate(
        request(vec![oid(1)], vec![oid(3), oid(2)], vec![Capability::MultiAckDetailed], false),
        vec![oid(1)],
        &descends,
    );
    assert_eq!(n.decision(), Some(true));
    assert_eq!(n.common(), &vec![oid(3), oid(2)]);
    let r = n.into_pack(vec![oid(1)]);
    let expected = format!(
        "0038ACK {} common\n0038ACK {} common\n0031ACK {}\n0000",
        hex(3),
        hex(2),
        hex(2)
    );
    assert_eq!(written(&r), expected);
}

#[test]
fn have_below_a_common_one_is_skipped() {
    let descends = |a: &Oid, b: &Oid| a.bytes[0] < b.bytes[0];
    let n = negotiate(
        request(vec![oid(1)], vec![oid(2), oid(3)], vec![], false),
        vec![oid(1)],
        &descends,
    );
    assert_eq!(n.common(), &vec![oid(2)]);
    assert_eq!(n.decision(), Some(true));
    assert_eq!(written(&n.into_pack(vec![])), "0008NAK\n0000");
}

#[test]
fn unknown_haves_ask_for_more() {
    let n = negotiate(
        request(vec![oid(1)], vec![oid(7)], vec![Capability::MultiAckDetailed], false),
        vec![oid(1)],
        &|_, _| false,
    );
    assert_eq!(n.decision(), Some(false));
    assert!(n.common().is_empty());
    let r = n.into_continue();
    assert_eq!(r.status_code(), 200);
    assert_eq!(written(&r), "0008NAK\n");
}

#[test]
fn continue_acknowledges_common_commits() {
    // 2 is an ancestor of the ref 1, but the want 9 does not descend from it
    let descends = |a: &Oid, b: &Oid| a.bytes[0] == 1 && b.bytes[0] == 2;
    let n = negotiate(
        request(vec![oid(9)], vec![oid(2)], vec![Capability::MultiAckDetailed], false),
        vec![oid(1), oid(9)],
        &descends,
    );
    assert_eq!(n.decision(), Some(false));
    let r = n.into_continue();
    assert_eq!(written(&r), format!("0038ACK {} common\n0008NAK\n", hex(2)));
}

#[test]
fn wants_of_a_negotiation() {
    let n = negotiate(
        request(vec![oid(1)], vec![], vec![], false),
        vec![oid(1)],
        &|_, _| false,
    );
    assert_eq!(n.wants(), &vec![oid(1)]);
    assert_eq!(n.decision(), Some(false));
}

#[test]
fn pack_stream_starts_with_acknowledgements() {
    let n = negotiate(
        request(vec![oid(1)], vec![oid(2)], vec![Capability::MultiAckDetailed, Capability::SideBand64K], false),
        vec![oid(1)],
        &|a: &Oid, b: &Oid| a.bytes[0] < b.bytes[0],
    );
    let r = n.into_pack(vec![oid(1)]);
    let pack = match r {
        Response::Pack(p) => p,
        _ => panic!("expected a pack"),
    };
    let mut stream = pack.start_stream(b"HTTP".to_vec()).ok().unwrap();
    stream.write_packfile(b"PACK");
    assert_eq!(stream.write_progress("done"), Ok(()));
    let out = upload_pack::finish_stream(stream);
    let expected = format!(
        "HTTP0038ACK {} common\n0031ACK {}\n0009\x01PACK0009\x02done0000",
        hex(2),
        hex(2)
    );
    assert_eq!(String::from_utf8(out).unwrap(), expected);
}

#[test]
fn pack_stream_refuses_both_side_bands() {
    let pack = upload_pack::Pack {
        commits: vec![],
        common: vec![],
        capabilities: Capabilities::new(vec![Capability::SideBand, Capability::SideBand64K]),
    };
    match pack.start_stream(b"HTTP".to_vec()) {
        Err((e, written)) => {
            assert_eq!(e, upload_pack::PackError::Mux(grarr::multiplexer::MuxError::BothSideBands));
            assert_eq!(written, b"HTTP0008NAK\n".to_vec());
        }
        Ok(_) => panic!("expected the side-band clash"),
    }
    let mut out = b"HTTP".to_vec();
    let events = vec![upload_pack::PackEvent::Data(b"PACK".to_vec())];
    assert_eq!(
        pack.write_to(&mut out, &events),
        Err(upload_pack::PackError::Mux(grarr::multiplexer::MuxError::BothSideBands))
    );
    assert_eq!(out, b"HTTP0008NAK\n".to_vec());
}

#[test]
fn pack_stream_without_side_band() {
    let pack = upload_pack::Pack { commits: vec![], common: vec![], capabilities: Capabilities::empty() };
    let mut stream = pack.start_stream(Vec::new()).ok().unwrap();
    stream.write_packfile(b"PACK");
    assert_eq!(upload_pack::finish_stream(stream), b"0008NAK\nPACK0000".to_vec());
    let mut out = Vec::new();
    let events = vec![
        upload_pack::PackEvent::Progress("ignored".to_string()),
        upload_pack::PackEvent::Data(b"PA".to_vec()),
        upload_pack::PackEvent::Data(b"CK".to_vec()),
    ];
    assert_eq!(pack.write_to(&mut out, &events), Ok(()));
    assert_eq!(out, b"0008NAK\nPACK0000".to_vec());
}

#[test]
fn negotiation_questions_come_to_an_end() {
    let haves: Vec<Oid> = (10..20).map(oid).collect();
    let wants = vec![oid(1), oid(2)];
    let refs = vec![oid(1), oid(2), oid(3)];
    let mut n = match upload_pack::prepare(request(wants, haves, vec![], false), refs) {
        Prepared::Negotiate(n) => n,
        Prepared::Respond(_) => panic!("expected a negotiation"),
    };
    let mut questions = 0;
    while let Some((a, b)) = n.query() {
        questions += 1;
        assert!(questions <= 10 * (3 + 10) + 2 * 10);
        n.answer(a.bytes[0] < b.bytes[0] && b.bytes[0] % 2 == 0);
    }
    assert!(n.decision().is_some());
}

#[test]
fn pack_answer_carries_events_on_side_bands() {
    let pack = upload_pack::Pack {
        commits: vec![],
        common: vec![],
        capabilities: Capabilities::new(vec![Capability::SideBand]),
    };
    let events = vec![
        upload_pack::PackEvent::Progress("Counting objects 1\r".to_string()),
        upload_pack::PackEvent::Data(b"PACK".to_vec()),
        upload_pack::PackEvent::Progress("x".repeat(1001)),
    ];
    let r = Response::Pack(pack);
    let mut out = b">".to_vec();
    assert!(r.write_to(&mut out, &events).is_ok());
    assert_eq!(out, b">0008NAK\n0018\x02Counting objects 1\r0009\x01PACK0000".to_vec());
}
