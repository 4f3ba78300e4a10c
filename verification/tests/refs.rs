use grarr::oid::Oid;
use grarr::refs::{self, Response};

fn oid(b: u8) -> Oid {
    Oid { bytes: [b; 20] }
}

#[test]
fn service_is_read_from_query() {
    assert_eq!(
        refs::service("http://host/repo/info/refs?service=git-upload-pack"),
        Some("git-upload-pack".to_string())
    );
    assert_eq!(
        refs::service("http://host/repo/info/refs?a=1&service=git-receive-pack&service=x"),
        Some("git-receive-pack".to_string())
    );
}

#[test]
fn service_value_is_percent_decoded() {
    assert_eq!(
        refs::service("http://host/info/refs?service=git%2Dupload%2Dpack"),
        Some("git-upload-pack".to_string())
    );
}

#[test]
fn no_service_without_query_or_url() {
    assert_eq!(refs::service("http://host/repo/info/refs"), None);
    assert_eq!(refs::service("http://host/repo/info/refs?services=x"), None);
    assert_eq!(refs::service("not a url"), None);
}

#[test]
fn old_clients_are_asked_to_upgrade() {
    let r: Result<Response, ()> = refs::prepare("http://host/info/refs", || panic!("not loaded"));
    match r {
        Ok(Response::Error(m)) => assert_eq!(m, "Please upgrade your git client."),
        _ => panic!("expected an error message"),
    }
}

#[test]
fn unknown_service_is_refused() {
    let r: Result<Response, ()> =
        refs::prepare("http://host/info/refs?service=git-receive-pack", || panic!("not loaded"));
    let resp = r.ok().unwrap();
    assert_eq!(resp.status_code(), 403);
    assert_eq!(resp.mime_type(), "text/plain; charset=utf-8");
    let mut out = Vec::new();
    resp.write_to(&mut out).unwrap();
    assert_eq!(out, b"Unknown git service name".to_vec());
}

#[test]
fn load_error_is_passed_on() {
    let r: Result<Response, &str> =
        refs::prepare("http://host/info/refs?service=git-upload-pack", || Err("broken"));
    assert_eq!(r.err(), Some("broken"));
}

#[test]
fn upload_pack_advertisement() {
    let r: Result<Response, ()> = refs::prepare("http://host/info/refs?service=git-upload-pack", || {
        Ok((oid(0xab), vec![("refs/heads/master".to_string(), oid(0x01))]))
    });
    let resp = r.ok().unwrap();
    assert_eq!(resp.status_code(), 200);
    assert_eq!(resp.mime_type(), "application/x-git-upload-pack-advertisement");
    let mut out = Vec::new();
    resp.write_to(&mut out).unwrap();
    let expected = format!(
        "001e# service=git-upload-pack\n00000068{} HEAD\0side-band side-band-64k multi_ack multi_ack_detailed \n003f{} refs/heads/master\n0000",
        "ab".repeat(20),
        "01".repeat(20)
    );
    assert_eq!(String::from_utf8(out).unwrap(), expected);
}

#[test]
fn advertisement_without_refs() {
    let r: Result<Response, ()> =
        refs::prepare("http://host/info/refs?service=git-upload-pack", || Ok((oid(0), Vec::new())));
    let mut out = Vec::new();
    r.ok().unwrap().write_to(&mut out).unwrap();
    let text = String::from_utf8(out).unwrap();
    assert!(text.starts_with("001e# service=git-upload-pack\n0000"));
    assert!(text.ends_with("multi_ack_detailed \n0000"));
}
