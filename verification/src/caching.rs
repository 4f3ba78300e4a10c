//! HTTP caching of answers that carry an entity tag: when a request's
//! `If-None-Match` names the answer's tag, and which headers let a client
//! keep an answer.
use vstd::prelude::*;
use vstd::string::StringExecFns;
use crate::statics::EntityTag;
use crate::text::str_eq;

verus! {

/// Whether the tags of a request's `If-None-Match` list match `etag`: the
/// list must hold exactly one tag, equal to it in strength and text.
pub open spec fn tags_match(items: Seq<(bool, Seq<char>)>, etag: (bool, Seq<char>)) -> bool {
    items.len() == 1 && items[0] == etag
}

/// The strength and text of a tag.
pub open spec fn tag_view(t: EntityTag) -> (bool, Seq<char>) {
    (t.weak, t.tag@)
}

/// Whether a request may keep what it has cached: `if_none_match` is its
/// `If-None-Match` list of tags, `None` when it sent none (or sent `*`).
pub fn cache_matches(if_none_match: Option<&Vec<EntityTag>>, etag: &EntityTag) -> (r: bool)
    ensures
        r == match if_none_match {
            Some(items) => tags_match(items@.map_values(|t: EntityTag| tag_view(t)), tag_view(*etag)),
            None => false,
        },
{
    match if_none_match {
        Some(items) => {
            if items.len() == 1 {
                let ghost v = items@.map_values(|t: EntityTag| tag_view(t));
                assert(v[0] == tag_view(items@[0]));
                items[0].weak == etag.weak && str_eq(items[0].tag.as_str(), etag.tag.as_str())
            } else {
                false
            }
        },
        None => false,
    }
}

/// The headers that let a client cache an answer: `Cache-Control: public,
/// max-age`, its `ETag`, and `Vary` on the accepted encodings.
#[derive(Debug)]
pub struct CacheHeaders {
    pub max_age: u32,
    pub etag: EntityTag,
    pub vary: String,
}

/// The caching headers for an answer tagged `etag`, kept for
/// `duration_secs` seconds; the age is cut to 32 bits as a header holds it.
pub fn cache_headers_for(etag: &EntityTag, duration_secs: u64) -> (r: CacheHeaders)
    ensures
        r.max_age == duration_secs % 0x1_0000_0000,
        tag_view(r.etag) == tag_view(*etag),
        r.vary@ == "accept-encoding"@,
{
    let max_age = (duration_secs % 0x1_0000_0000) as u32;
    CacheHeaders {
        max_age,
        etag: EntityTag { weak: etag.weak, tag: etag.tag.clone() },
        vary: "accept-encoding".to_owned(),
    }
}

/// How an answer goes out as far as caching goes: the caching headers of
/// a tagged answer, and whether the client's copy is still good, so that
/// `304 Not Modified` is answered without the body.
#[derive(Debug)]
pub struct CachedAnswer {
    pub headers: Option<CacheHeaders>,
    pub not_modified: bool,
}

/// The caching of an answer tagged `etag`, if it is tagged, kept for
/// `duration_secs` seconds, to a request with the `If-None-Match` tags
/// `if_none_match`: an untagged answer has no headers and is always sent.
pub fn cached_answer(
    etag: Option<&EntityTag>,
    if_none_match: Option<&Vec<EntityTag>>,
    duration_secs: u64,
) -> (r: CachedAnswer)
    ensures
        match etag {
            Some(t) => {
                &&& r.headers matches Some(h) && h.max_age == duration_secs % 0x1_0000_0000
                    && tag_view(h.etag) == tag_view(*t) && h.vary@ == "accept-encoding"@
                &&& r.not_modified == match if_none_match {
                    Some(items) => tags_match(items@.map_values(|x: EntityTag| tag_view(x)), tag_view(*t)),
                    None => false,
                }
            },
            None => r.headers is None && !r.not_modified,
        },
{
    match etag {
        Some(t) => CachedAnswer {
            headers: Some(cache_headers_for(t, duration_secs)),
            not_modified: cache_matches(if_none_match, t),
        },
        None => CachedAnswer { headers: None, not_modified: false },
    }
}

} // verus!
