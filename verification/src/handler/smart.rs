//! The smart HTTP protocol handlers: the reference advertisement and
//! `git-upload-pack`, with the request body's content encoding.
use vstd::prelude::*;
use crate::handler::{Method, Route};
use crate::text::str_eq;

verus! {

/// `GET /info/refs?service=...`.
#[derive(Debug, Clone, Copy)]
pub struct Refs;

/// `POST /git-upload-pack`.
#[derive(Debug, Clone, Copy)]
pub struct UploadPack;

impl Route for Refs {
    fn method() -> (r: Method)
        ensures
            r == Method::Get,
    {
        Method::Get
    }

    fn route() -> (r: &'static str)
        ensures
            r@ == "/info/refs"@,
    {
        "/info/refs"
    }

    fn routes() -> (r: Vec<&'static str>)
        ensures
            r@.len() == 1 && r@[0]@ == "/info/refs"@,
    {
        vec!["/info/refs"]
    }
}

impl Route for UploadPack {
    fn method() -> (r: Method)
        ensures
            r == Method::Post,
    {
        Method::Post
    }

    fn route() -> (r: &'static str)
        ensures
            r@ == "/git-upload-pack"@,
    {
        "/git-upload-pack"
    }

    fn routes() -> (r: Vec<&'static str>)
        ensures
            r@.len() == 1 && r@[0]@ == "/git-upload-pack"@,
    {
        vec!["/git-upload-pack"]
    }
}

/// How a request body is encoded.
#[derive(Debug, Clone, Copy, PartialEq, Eq, Structural)]
pub enum BodyEncoding {
    Identity,
    Gzip,
    Deflate,
}

/// Why a request body could not be read.
#[derive(Debug)]
pub enum BodyError {
    /// The body names more than one content encoding.
    MultipleEncodings,
    /// The body's content encoding is not one the server reads.
    UnsupportedEncoding(String),
    /// The body does not decode in its content encoding.
    Undecodable,
}

/// The encoding that a `Content-Encoding` header names, if it is one the
/// server reads.
pub open spec fn encoding_named(name: Seq<char>) -> Option<BodyEncoding> {
    if name == "identity"@ {
        Some(BodyEncoding::Identity)
    } else if name == "gzip"@ {
        Some(BodyEncoding::Gzip)
    } else if name == "deflate"@ {
        Some(BodyEncoding::Deflate)
    } else {
        None
    }
}

impl UploadPack {
    /// The encoding of a request body from its `Content-Encoding` header:
    /// identity without the header; otherwise the header must name exactly
    /// one encoding, and one the server reads.
    pub fn body_encoding(encodings: Option<&Vec<String>>) -> (r: Result<BodyEncoding, BodyError>)
        ensures
            match encodings {
                None => r matches Ok(BodyEncoding::Identity),
                Some(es) => if es@.len() != 1 {
                    r matches Err(BodyError::MultipleEncodings)
                } else {
                    match encoding_named(es@[0]@) {
                        Some(e) => r matches Ok(f) && f == e,
                        None => r matches Err(BodyError::UnsupportedEncoding(n)) && n@ == es@[0]@,
                    }
                },
            },
    {
        match encodings {
            None => Ok(BodyEncoding::Identity),
            Some(es) => {
                if es.len() != 1 {
                    return Err(BodyError::MultipleEncodings);
                }
                let name = es[0].as_str();
                if str_eq(name, "identity") {
                    Ok(BodyEncoding::Identity)
                } else if str_eq(name, "gzip") {
                    Ok(BodyEncoding::Gzip)
                } else if str_eq(name, "deflate") {
                    Ok(BodyEncoding::Deflate)
                } else {
                    Err(BodyError::UnsupportedEncoding(es[0].clone()))
                }
            },
        }
    }

    /// The request body decoded from its encoding, as far as the request's
    /// reading takes it: a stream that decodes to its end gives all of it; a
    /// stream that just ends early gives what was decoded before, since
    /// reading pkt-lines takes an early end for the end of the request; a
    /// corrupt stream, or a gzip header that is not valid, is undecodable,
    /// since reading the request always goes on until the decoding fails.
    pub fn decode_body(encoding: BodyEncoding, body: Vec<u8>) -> (r: Result<Vec<u8>, BodyError>)
        ensures
            match encoding {
                BodyEncoding::Identity => r matches Ok(b) && b@ == body@,
                BodyEncoding::Gzip => match gunzipped(body@) {
                    Some(Ok(d)) => r matches Ok(b) && b@ == d,
                    Some(Err((d, true))) => r matches Ok(b) && b@ == d,
                    _ => r matches Err(BodyError::Undecodable),
                },
                BodyEncoding::Deflate => match inflated(body@) {
                    Ok(d) => r matches Ok(b) && b@ == d,
                    Err((d, true)) => r matches Ok(b) && b@ == d,
                    _ => r matches Err(BodyError::Undecodable),
                },
            },
    {
        match encoding {
            BodyEncoding::Identity => Ok(body),
            BodyEncoding::Gzip => match gzip_decode(body.as_slice()) {
                Some(Ok(d)) => Ok(d),
                Some(Err((d, true))) => Ok(d),
                _ => Err(BodyError::Undecodable),
            },
            BodyEncoding::Deflate => match deflate_decode(body.as_slice()) {
                Ok(d) => Ok(d),
                Err((d, true)) => Ok(d),
                _ => Err(BodyError::Undecodable),
            },
        }
    }
}

/// How a gzip stream decodes: `None` when its header is not valid;
/// otherwise all the data when it decodes to its end, or the data decoded
/// before decoding failed, with whether the stream just ended early.
pub uninterp spec fn gunzipped(data: Seq<u8>) -> Option<Result<Seq<u8>, (Seq<u8>, bool)>>;

/// How a raw DEFLATE stream decodes: all the data when it decodes to its
/// end, or the data decoded before decoding failed, with whether the stream
/// just ended early.
pub uninterp spec fn inflated(data: Seq<u8>) -> Result<Seq<u8>, (Seq<u8>, bool)>;

/// `flate2::read::GzDecoder`, read to the end. Trusted: names flate2's gzip
/// decoding, a function of the bytes alone. `GzDecoder::new` parses the
/// header at once and `header()` is `None` when that failed; `read_to_end`
/// keeps the bytes read before an error, and flate2 reports a stream that
/// ends early as `UnexpectedEof` (a corrupt one as `InvalidInput`).
#[verifier::external_body]
fn gzip_decode(data: &[u8]) -> (r: Option<Result<Vec<u8>, (Vec<u8>, bool)>>)
    ensures
        match (r, gunzipped(data@)) {
            (None, None) => true,
            (Some(Ok(v)), Some(Ok(d))) => v@ == d,
            (Some(Err((v, t))), Some(Err((d, u)))) => v@ == d && t == u,
            _ => false,
        },
{
    let mut decoder = flate2::read::GzDecoder::new(data);
    if decoder.header().is_none() {
        return None;
    }
    let mut out = Vec::new();
    match std::io::Read::read_to_end(&mut decoder, &mut out) {
        Ok(_) => Some(Ok(out)),
        Err(e) => Some(Err((out, e.kind() == std::io::ErrorKind::UnexpectedEof))),
    }
}

/// `flate2::read::DeflateDecoder`, read to the end. Trusted: names flate2's
/// raw DEFLATE decoding, a function of the bytes alone; `read_to_end` keeps
/// the bytes read before an error, and flate2 reports a stream that ends
/// early as `UnexpectedEof` (a corrupt one as `InvalidInput`).
#[verifier::external_body]
fn deflate_decode(data: &[u8]) -> (r: Result<Vec<u8>, (Vec<u8>, bool)>)
    ensures
        match (r, inflated(data@)) {
            (Ok(v), Ok(d)) => v@ == d,
            (Err((v, t)), Err((d, u))) => v@ == d && t == u,
            _ => false,
        },
{
    let mut out = Vec::new();
    match std::io::Read::read_to_end(&mut flate2::read::DeflateDecoder::new(data), &mut out) {
        Ok(_) => Ok(out),
        Err(e) => Err((out, e.kind() == std::io::ErrorKind::UnexpectedEof)),
    }
}

} // verus!
