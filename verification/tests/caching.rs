use grarr::caching::{cache_headers_for, cache_matches, cached_answer};
use grarr::statics::EntityTag;

fn strong(t: &str) -> EntityTag {
    EntityTag::strong(t.to_string())
}

#[test]
fn single_equal_tag_matches() {
    let tag = strong("abc");
    assert!(cache_matches(Some(&vec![strong("abc")]), &tag));
    assert!(!cache_matches(Some(&vec![strong("abd")]), &tag));
    assert!(!cache_matches(Some(&vec![EntityTag::weak("abc".to_string())]), &tag));
}

#[test]
fn lists_of_other_lengths_do_not_match() {
    let tag = strong("abc");
    assert!(!cache_matches(None, &tag));
    assert!(!cache_matches(Some(&vec![]), &tag));
    assert!(!cache_matches(Some(&vec![strong("abc"), strong("abc")]), &tag));
}

#[test]
fn headers_for_a_day() {
    let h = cache_headers_for(&EntityTag::weak("t".to_string()), 86400);
    assert_eq!(h.max_age, 86400);
    assert!(h.etag.weak);
    assert_eq!(h.etag.tag, "t");
    assert_eq!(h.vary, "accept-encoding");
    assert_eq!(cache_headers_for(&strong("t"), (1u64 << 32) + 5).max_age, 5);
}

#[test]
fn cached_answers() {
    let tag = strong("v1");
    let a = cached_answer(Some(&tag), Some(&vec![strong("v1")]), 0);
    assert!(a.not_modified);
    assert_eq!(a.headers.unwrap().max_age, 0);
    let b = cached_answer(Some(&tag), Some(&vec![strong("v0")]), 86400);
    assert!(!b.not_modified);
    assert_eq!(b.headers.unwrap().etag.tag, "v1");
    let c = cached_answer(None, Some(&vec![strong("v1")]), 86400);
    assert!(!c.not_modified);
    assert!(c.headers.is_none());
}
