use grarr::handler::dumb::{self, Head};
use grarr::handler::smart::{BodyEncoding, BodyError, UploadPack};
use grarr::handler::{
    self, About, BadRequest, Blob, Error, Method, NotFound, Pages, Repository, Route, SettingsPost, Tree,
};
use grarr::oid::Oid;
use grarr::statics::Static;
use std::io::Write;
use grarr::refs::query_param;
use grarr::handler::{Commits, EntryAnswer, ObjectKind, PageAnswer};
use grarr::paths::Mime;

#[test]
fn routes_of_handlers() {
    assert_eq!(About::method(), Method::Get);
    assert_eq!(About::route(), "/-/about");
    assert_eq!(Blob::routes(), vec!["/blob/:ref", "/blob/:ref/*path"]);
    assert_eq!(Tree::routes(), vec!["/tree/:ref", "/tree/:ref/*path"]);
    assert_eq!(SettingsPost::method(), Method::Post);
    assert_eq!(SettingsPost::route(), "/-/settings");
    assert_eq!(Static::route(), "/-/static/*path");
    assert_eq!(dumb::Refs::route(), "/info/refs");
    assert_eq!(grarr::handler::smart::UploadPack::route(), "/git-upload-pack");
    assert_eq!(grarr::handler::smart::UploadPack::method(), Method::Post);
}

#[test]
fn replace_every_occurrence() {
    assert_eq!(handler::replace("aXbXc", "X", "--"), "a--b--c");
    assert_eq!(handler::replace("aaa", "aa", "b"), "ba");
    assert_eq!(handler::replace("", "a", "b"), "");
    assert_eq!(handler::replace("héllo", "é", "e"), "hello");
}

#[test]
fn blob_and_tree_urls() {
    assert_eq!(Blob::tree_url("/repo/blob/master/src"), "/repo/tree/master/src");
    assert_eq!(Tree::blob_url("/repo/tree/master/README"), "/repo/blob/master/README");
    assert_eq!(Blob::tree_url("/blobs/blob/x"), "/trees/tree/x");
}

#[test]
fn pages_paths() {
    assert_eq!(Pages::page_path(""), "index.html");
    assert_eq!(Pages::page_path("docs/"), "docs/index.html");
    assert_eq!(Pages::page_path("a.html"), "a.html");
    assert_eq!(Pages::markdown_path("docs/index.html"), Some("docs/index.md".to_string()));
    assert_eq!(Pages::markdown_path(".html"), Some(".md".to_string()));
    assert_eq!(Pages::markdown_path("page.htm"), None);
    assert_eq!(Pages::markdown_path("html"), None);
}

#[test]
fn markdown_is_rendered() {
    assert_eq!(Pages::render_markdown(b"# Hi"), Some("<h1>Hi</h1>\n".to_string()));
    assert_eq!(Pages::render_markdown(b"*a*"), Some("<p><em>a</em></p>\n".to_string()));
    assert_eq!(Pages::render_markdown(b"\xff"), None);
}

#[test]
fn root_path_and_etag() {
    assert_eq!(handler::root_path("user/repo"), "/user/repo");
    let tag = Repository::etag(&Oid { bytes: [0; 20] });
    assert!(tag.weak);
    assert_eq!(tag.tag, grarr::statics::sha1(&[0u8; 20]));
}

#[test]
fn error_pages() {
    assert_eq!(Error::page_status(Some(404)), Some(404));
    assert_eq!(Error::page_status(Some(599)), Some(599));
    assert_eq!(Error::page_status(Some(302)), None);
    assert_eq!(Error::page_status(Some(600)), None);
    assert_eq!(Error::page_status(None), Some(500));
    assert!(BadRequest::catches(Some(400)));
    assert!(!BadRequest::catches(Some(404)));
    assert!(!BadRequest::catches(None));
    assert!(NotFound::catches(Some(404)));
    assert!(!NotFound::catches(Some(400)));
}

#[test]
fn dumb_protocol_texts() {
    assert_eq!(Head::body("refs/heads/master"), "ref: refs/heads/master");
    let a = Oid { bytes: [0xab; 20] };
    assert_eq!(dumb::format_ref(&a, "refs/tags/v1"), format!("{}\trefs/tags/v1", "ab".repeat(20)));
    let refs = vec![(a, "refs/heads/a".to_string()), (Oid { bytes: [1; 20] }, "HEAD".to_string())];
    assert_eq!(
        dumb::format_refs(&refs),
        format!("{}\trefs/heads/a\n{}\tHEAD\n", "ab".repeat(20), "01".repeat(20))
    );
    assert_eq!(dumb::format_refs(&Vec::new()), "");
}

#[test]
fn body_encodings() {
    assert_eq!(UploadPack::body_encoding(None).unwrap(), BodyEncoding::Identity);
    assert_eq!(UploadPack::body_encoding(Some(&vec!["gzip".to_string()])).unwrap(), BodyEncoding::Gzip);
    assert_eq!(UploadPack::body_encoding(Some(&vec!["deflate".to_string()])).unwrap(), BodyEncoding::Deflate);
    assert_eq!(UploadPack::body_encoding(Some(&vec!["identity".to_string()])).unwrap(), BodyEncoding::Identity);
    match UploadPack::body_encoding(Some(&vec!["br".to_string()])) {
        Err(BodyError::UnsupportedEncoding(n)) => assert_eq!(n, "br"),
        other => panic!("{:?}", other),
    }
    let two = vec!["gzip".to_string(), "gzip".to_string()];
    assert!(matches!(UploadPack::body_encoding(Some(&two)), Err(BodyError::MultipleEncodings)));
    assert!(matches!(UploadPack::body_encoding(Some(&Vec::new())), Err(BodyError::MultipleEncodings)));
}

#[test]
fn bodies_are_decoded() {
    let mut gz = flate2::write::GzEncoder::new(Vec::new(), flate2::Compression::default());
    gz.write_all(b"0009hello").unwrap();
    let gz = gz.finish().unwrap();
    assert_eq!(UploadPack::decode_body(BodyEncoding::Gzip, gz).unwrap(), b"0009hello".to_vec());
    let mut df = flate2::write::DeflateEncoder::new(Vec::new(), flate2::Compression::default());
    df.write_all(b"abc").unwrap();
    let df = df.finish().unwrap();
    assert_eq!(UploadPack::decode_body(BodyEncoding::Deflate, df).unwrap(), b"abc".to_vec());
    assert_eq!(UploadPack::decode_body(BodyEncoding::Identity, b"raw".to_vec()).unwrap(), b"raw".to_vec());
    assert!(matches!(
        UploadPack::decode_body(BodyEncoding::Gzip, b"not gzip".to_vec()),
        Err(BodyError::Undecodable)
    ));
}

#[test]
fn query_parameters() {
    assert_eq!(query_param("http://h/p?a=1&b=x%20y&a=2", "a"), Some("1".to_string()));
    assert_eq!(query_param("http://h/p?a=1&b=x%20y", "b"), Some("x y".to_string()));
    assert_eq!(query_param("http://h/p?a=1", "c"), None);
    assert_eq!(query_param("/relative?a=1", "a"), None);
}

#[test]
fn history_start_commit() {
    let url = format!("http://h/r/commits/master?start={}", "ab".repeat(20));
    assert_eq!(Commits::start_id(&url), Some(Oid { bytes: [0xab; 20] }));
    assert_eq!(Commits::start_id("http://h/r/commits/master?start=zz"), None);
    assert_eq!(Commits::start_id("http://h/r/commits/master"), None);
}

#[test]
fn entry_answers() {
    assert!(matches!(Blob::answer(Some(ObjectKind::Blob), "http://h/r/blob/m/f"), EntryAnswer::Show));
    match Blob::answer(Some(ObjectKind::Tree), "http://h/r/blob/m/d") {
        EntryAnswer::Redirect(u) => assert_eq!(u, "http://h/r/tree/m/d"),
        other => panic!("{:?}", other),
    }
    assert!(matches!(Blob::answer(Some(ObjectKind::Commit), "u"), EntryAnswer::Unsupported));
    assert!(matches!(Tree::answer(Some(ObjectKind::Tree), "u"), EntryAnswer::Show));
    match Tree::answer(Some(ObjectKind::Blob), "http://h/r/tree/m/f") {
        EntryAnswer::Redirect(u) => assert_eq!(u, "http://h/r/blob/m/f"),
        other => panic!("{:?}", other),
    }
    assert!(matches!(Tree::answer(None, "u"), EntryAnswer::Unsupported));
}

#[test]
fn pages_answers() {
    match Pages::answer("", |p| { assert_eq!(p, "index.html"); Some((false, b"<p>hi</p>".to_vec())) }, |_| panic!("not needed")) {
        PageAnswer::File(m, c) => {
            assert_eq!(m, Mime::TextHtml);
            assert_eq!(c, b"<p>hi</p>".to_vec());
        }
        other => panic!("{:?}", other),
    }
    match Pages::answer("docs/", |_| None, |p| { assert_eq!(p, "docs/index.md"); Some(b"# T".to_vec()) }) {
        PageAnswer::Html(h) => assert_eq!(h, "<h1>T</h1>\n"),
        other => panic!("{:?}", other),
    }
    match Pages::answer("logo", |_| Some((true, vec![1, 2])), |_| panic!("not needed")) {
        PageAnswer::File(m, _) => assert_eq!(m, Mime::ApplicationOctetStream),
        other => panic!("{:?}", other),
    }
    assert!(matches!(Pages::answer("notes.txt", |_| None, |_| panic!("no markdown")), PageAnswer::NotFound));
    assert!(matches!(Pages::answer("a.html", |_| None, |_| None), PageAnswer::NotFound));
    assert!(matches!(Pages::answer("a.html", |_| None, |_| Some(vec![0xff])), PageAnswer::NotFound));
}

#[test]
fn bodies_that_end_early_give_what_was_decoded() {
    let mut gz = flate2::write::GzEncoder::new(Vec::new(), flate2::Compression::default());
    gz.write_all(b"0009hello").unwrap();
    let mut gz = gz.finish().unwrap();
    let len = gz.len();
    let cut = gz[..len - 4].to_vec();
    assert_eq!(UploadPack::decode_body(BodyEncoding::Gzip, cut).unwrap(), b"0009hello".to_vec());
    gz[len - 8] ^= 0xff;
    assert!(matches!(UploadPack::decode_body(BodyEncoding::Gzip, gz), Err(BodyError::Undecodable)));
    let mut df = flate2::write::DeflateEncoder::new(Vec::new(), flate2::Compression::default());
    df.write_all(b"abc").unwrap();
    let df = df.finish().unwrap();
    assert_eq!(UploadPack::decode_body(BodyEncoding::Deflate, df[..0].to_vec()).unwrap(), Vec::<u8>::new());
}
