use grarr::avatars::{Avatars, Image, Options};
use grarr::paths::Mime;
use grarr::statics::FileData;
use std::cell::Cell;

fn options(gravatar: bool, cache: bool) -> Options {
    Options { enable_gravatar: gravatar, enable_cache: cache, cache_capacity: 2, cache_time_to_live: 60 }
}

fn image(tag: &str) -> Image {
    Image::from("image/png".to_string(), tag.as_bytes().to_vec())
}

#[test]
fn image_is_tagged_with_its_hash() {
    let i = Image::from("image/png".to_string(), b"abc".to_vec());
    assert_eq!(i.mime, "image/png");
    assert!(!i.etag.weak);
    assert_eq!(i.etag.tag, "a9993e364706816aba3e25717850c26c9cd0d89d");
    assert_eq!(i.data, b"abc".to_vec());
}

#[test]
fn image_from_static_file() {
    let f = FileData::from(Mime::ApplicationOctetStream, b"png".to_vec());
    let i = Image::from_file(f);
    assert_eq!(i.mime, "application/octet-stream");
    assert_eq!(i.data, b"png".to_vec());
    assert_eq!(i.etag.tag, grarr::statics::sha1(b"png"));
}

#[test]
fn gravatar_url_for_user() {
    let url = Avatars::gravatar_url("Email@Example.com ");
    assert_eq!(url, "https://secure.gravatar.com/avatar/5658ffccee7f0ebfda2b226238b1eb6e?s=30&d=identicon");
}

#[test]
fn cached_image_is_reused() {
    let mut a = Avatars::new(options(true, true));
    let fetches = Cell::new(0);
    let first = a.find_image("alice", || { fetches.set(fetches.get() + 1); Some(image("a")) }, || image("default"));
    assert_eq!(first.data, b"a".to_vec());
    let second = a.find_image("alice", || { fetches.set(fetches.get() + 1); Some(image("other")) }, || image("default"));
    assert_eq!(second.data, b"a".to_vec());
    assert_eq!(fetches.get(), 1);
    assert_eq!(a.find_cached("alice").map(|i| i.data), Some(b"a".to_vec()));
    assert!(a.find_cached("bob").is_none());
}

#[test]
fn default_image_when_gravatar_has_none() {
    let mut a = Avatars::new(options(true, true));
    let r = a.find_image("bob", || None, || image("default"));
    assert_eq!(r.data, b"default".to_vec());
    assert_eq!(a.find_cached("bob").map(|i| i.data), Some(b"default".to_vec()));
}

#[test]
fn gravatar_disabled_is_never_asked() {
    let mut a = Avatars::new(options(false, true));
    assert!(!a.gravatar_enabled());
    let r = a.find_image("carol", || panic!("gravatar is disabled"), || image("default"));
    assert_eq!(r.data, b"default".to_vec());
}

#[test]
fn without_cache_every_lookup_fetches() {
    let mut a = Avatars::new(options(true, false));
    let fetches = Cell::new(0);
    for _ in 0..3 {
        let r = a.find_image("dave", || { fetches.set(fetches.get() + 1); Some(image("d")) }, || image("x"));
        assert_eq!(r.data, b"d".to_vec());
    }
    assert_eq!(fetches.get(), 3);
    assert!(a.find_cached("dave").is_none());
    assert_eq!(a.cache("dave", image("e")).data, b"e".to_vec());
    assert!(a.find_cached("dave").is_none());
}

#[test]
fn least_recently_used_image_leaves_a_full_cache() {
    let mut a = Avatars::new(options(true, true));
    a.cache("u1", image("1"));
    a.cache("u2", image("2"));
    a.cache("u3", image("3"));
    assert!(a.find_cached("u1").is_none());
    assert!(a.find_cached("u2").is_some());
    assert!(a.find_cached("u3").is_some());
}

#[test]
fn duplicate_starts_with_an_empty_cache() {
    let mut a = Avatars::new(options(true, true));
    a.cache("u", image("1"));
    let mut b = a.duplicate();
    assert!(b.find_cached("u").is_none());
    assert!(a.find_cached("u").is_some());
    assert!(b.gravatar_enabled());
}
