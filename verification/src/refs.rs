//! The smart-HTTP reference advertisement (`GET /info/refs?service=...`).
use vstd::prelude::*;
use vstd::string::{StringExecFns, StringSliceAdditionalSpecFns};
use crate::bytes::push_all;
use crate::capability::{Capability, Capabilities, CapabilityV, capabilities_text};
use crate::oid::{Oid, oid_hex};
use crate::pkt_line::{self, Pkt, PktError, emit, lemma_emit_push, lemma_emit_stops};
use crate::text::str_eq;

verus! {

/// The query of a URL as `url::Url::query_pairs` decodes it, or `None` when
/// the text is not a URL.
pub uninterp spec fn url_query_pairs(url: Seq<char>) -> Option<Seq<(Seq<char>, Seq<char>)>>;

/// `url::Url::parse` and then `Url::query_pairs`: the decoded key and value
/// pairs of the URL's query, in order. Trusted: names the result (the url
/// crate's parsing and percent-decoding), which depends on the text alone.
#[verifier::external_body]
fn query_pairs(url: &str) -> (r: Option<Vec<(String, String)>>)
    ensures
        match (r, url_query_pairs(url@)) {
            (Some(v), Some(p)) => v@.map_values(|x: (String, String)| (x.0@, x.1@)) == p,
            (None, None) => true,
            _ => false,
        },
{
    match url::Url::parse(url) {
        Ok(u) => Some(u.query_pairs().into_owned().collect()),
        Err(_) => None,
    }
}

/// The value of the first pair whose key is `key`.
pub open spec fn first_value(ps: Seq<(Seq<char>, Seq<char>)>, key: Seq<char>) -> Option<Seq<char>>
    decreases ps.len(),
{
    if ps.len() == 0 {
        None
    } else if ps[0].0 == key {
        Some(ps[0].1)
    } else {
        first_value(ps.drop_first(), key)
    }
}

/// The git service that a URL asks for: its first `service` query parameter.
pub open spec fn service_of(url: Seq<char>) -> Option<Seq<char>> {
    match url_query_pairs(url) {
        Some(ps) => first_value(ps, "service"@),
        None => None,
    }
}

/// The value of the first query parameter `key` of `url`, as the url crate
/// decodes the query.
pub fn query_param(url: &str, key: &str) -> (r: Option<String>)
    ensures
        match (r, url_query_pairs(url@)) {
            (Some(s), Some(ps)) => first_value(ps, key@) == Some(s@),
            (None, Some(ps)) => first_value(ps, key@) is None,
            (None, None) => true,
            _ => false,
        },
{
    let pairs = match query_pairs(url) {
        Some(p) => p,
        None => return None,
    };
    let ghost ps = pairs@.map_values(|x: (String, String)| (x.0@, x.1@));
    let mut i: usize = 0;
    assert(ps.skip(0) =~= ps);
    while i < pairs.len()
        invariant
            i <= pairs@.len(),
            ps == pairs@.map_values(|x: (String, String)| (x.0@, x.1@)),
            url_query_pairs(url@) == Some(ps),
            first_value(ps, key@) == first_value(ps.skip(i as int), key@),
        decreases pairs@.len() - i,
    {
        assert(ps.skip(i as int)[0] == ps[i as int]);
        assert(ps.skip(i as int).drop_first() =~= ps.skip(i + 1));
        assert(ps[i as int] == (pairs@[i as int].0@, pairs@[i as int].1@));
        if str_eq(pairs[i].0.as_str(), key) {
            let v = pairs[i].1.clone();
            assert(v@ == pairs@[i as int].1@);
            assert(ps.skip(i as int).len() > 0);
            assert(first_value(ps.skip(i as int), key@) == Some(ps.skip(i as int)[0].1));
            return Some(v);
        }
        i = i + 1;
    }
    None
}

/// The git service that `url` asks for.
pub fn service(url: &str) -> (r: Option<String>)
    ensures
        match (r, service_of(url@)) {
            (Some(s), Some(t)) => s@ == t,
            (None, None) => true,
            _ => false,
        },
{
    proof {
        reveal_strlit("service");
    }
    query_param(url, "service")
}

/// What the repository advertises for `git-upload-pack`: the commit that
/// HEAD points at, and each reference's name and target.
pub struct UploadPack {
    head: Oid,
    refs: Vec<(String, Oid)>,
    capabilities: Capabilities,
}

/// The contents of an advertisement.
pub struct UploadPackV {
    pub head: Seq<u8>,
    pub refs: Seq<(Seq<char>, Seq<u8>)>,
    pub capabilities: Seq<CapabilityV>,
}

impl View for UploadPack {
    type V = UploadPackV;

    closed spec fn view(&self) -> UploadPackV {
        UploadPackV {
            head: self.head.bytes@,
            refs: self.refs@.map_values(|r: (String, Oid)| (r.0@, r.1.bytes@)),
            capabilities: self.capabilities@,
        }
    }
}

/// The capabilities this server offers to a fetching client.
pub open spec fn offered_capabilities() -> Seq<CapabilityV> {
    seq![
        CapabilityV::SideBand,
        CapabilityV::SideBand64K,
        CapabilityV::MultiAck,
        CapabilityV::MultiAckDetailed,
    ]
}

/// The advertisement of a repository whose HEAD is `head` and whose
/// references are `refs`.
pub open spec fn advertised(head: Oid, refs: Seq<(String, Oid)>) -> UploadPackV {
    UploadPackV {
        head: head.bytes@,
        refs: refs.map_values(|r: (String, Oid)| (r.0@, r.1.bytes@)),
        capabilities: offered_capabilities(),
    }
}

/// The line that advertises one reference.
pub open spec fn ref_line(r: (Seq<char>, Seq<u8>)) -> Pkt {
    Pkt::Text(oid_hex(r.1) + " "@ + r.0)
}

/// The pkt-lines of an advertisement: the service announcement, a flush, HEAD
/// with the capabilities, each reference, and a final flush.
pub open spec fn advertisement_items(p: UploadPackV) -> Seq<Pkt> {
    seq![
        Pkt::Text("# service=git-upload-pack"@),
        Pkt::Flush,
        Pkt::Text(oid_hex(p.head) + " HEAD\0"@ + capabilities_text(p.capabilities)),
    ] + p.refs.map_values(|r: (Seq<char>, Seq<u8>)| ref_line(r)) + seq![Pkt::Flush]
}

/// The answer to a reference advertisement request.
pub enum Response {
    UploadPack(UploadPack),
    Error(&'static str),
}

/// Answers a request for `url`: for the `git-upload-pack` service, the
/// repository's advertisement, which `load` reads; for another service, or
/// none, a message for the client. `load` is called only for that service.
pub fn prepare<F, E>(url: &str, load: F) -> (r: Result<Response, E>) where
    F: FnOnce() -> Result<(Oid, Vec<(String, Oid)>), E>,

    requires
        load.requires(()),
    ensures
        match service_of(url@) {
            Some(s) => if s == "git-upload-pack"@ {
                exists|out: Result<(Oid, Vec<(String, Oid)>), E>|
                    #[trigger] load.ensures((), out) && match (out, r) {
                        (Ok(a), Ok(Response::UploadPack(p))) => p@ == advertised(a.0, a.1@),
                        (Err(e1), Err(e2)) => e1 == e2,
                        _ => false,
                    }
            } else {
                r matches Ok(Response::Error(m)) && m@ == "Unknown git service name"@
            },
            None => r matches Ok(Response::Error(m)) && m@ == "Please upgrade your git client."@,
        },
{
    match service(url) {
        Some(s) => {
            if str_eq(s.as_str(), "git-upload-pack") {
                let out = load();
                assert(load.ensures((), out));
                match out {
                    Ok((head, refs)) => {
                        let capabilities = Capabilities::new(
                            vec![
                                Capability::SideBand,
                                Capability::SideBand64K,
                                Capability::MultiAck,
                                Capability::MultiAckDetailed,
                            ],
                        );
                        let pack = UploadPack { head, refs, capabilities };
                        assert(capabilities@ =~= offered_capabilities());
                        assert(pack@ == advertised(head, refs@));
                        Ok(Response::UploadPack(pack))
                    },
                    Err(e) => Err(e),
                }
            } else {
                Ok(Response::Error("Unknown git service name"))
            }
        },
        None => Ok(Response::Error("Please upgrade your git client.")),
    }
}

impl UploadPack {
    /// Writes the advertisement as pkt-lines; a line too long for a pkt-line
    /// stops the writing with an error.
    pub fn write_to(&self, writer: &mut Vec<u8>) -> (r: Result<(), PktError>)
        ensures
            final(writer)@ == old(writer)@ + emit(advertisement_items(self@)).0,
            r == emit(advertisement_items(self@)).1,
    {
        let ghost items = advertisement_items(self@);
        let ghost refs_v = self@.refs;
        let ghost head_items = seq![
            Pkt::Text("# service=git-upload-pack"@),
            Pkt::Flush,
            Pkt::Text(oid_hex(self@.head) + " HEAD\0"@ + capabilities_text(self@.capabilities)),
        ];
        let ghost ref_items = refs_v.map_values(|r: (Seq<char>, Seq<u8>)| ref_line(r));
        assert(items =~= head_items + ref_items + seq![Pkt::Flush]);
        proof {
            assert(emit(Seq::<Pkt>::empty()) == (Seq::<u8>::empty(), Ok::<(), PktError>(())));
            lemma_emit_push(Seq::<Pkt>::empty(), head_items[0]);
            assert(Seq::<Pkt>::empty().push(head_items[0]) =~= head_items.take(1));
            lemma_emit_push(head_items.take(1), head_items[1]);
            assert(head_items.take(1).push(head_items[1]) =~= head_items.take(2));
            lemma_emit_push(head_items.take(2), head_items[2]);
            assert(head_items.take(2).push(head_items[2]) =~= head_items);
        }
        let ghost start = writer@;
        let first = pkt_line::write_str(writer, "# service=git-upload-pack");
        assert(writer@ =~= start + emit(head_items.take(1)).0);
        if first.is_err() {
            proof {
                lemma_emit_stops(head_items.take(1), items.skip(1));
                assert(head_items.take(1) + items.skip(1) =~= items);
            }
            return first;
        }
        pkt_line::flush(writer);
        assert(writer@ =~= start + emit(head_items.take(2)).0);
        let mut line = self.head.to_string();
        line.append(" HEAD\0");
        line.append(self.capabilities.to_string().as_str());
        let third = pkt_line::write_str(writer, line.as_str());
        assert(writer@ =~= start + emit(head_items).0);
        if third.is_err() {
            proof {
                lemma_emit_stops(head_items, ref_items + seq![Pkt::Flush]);
                assert(head_items + (ref_items + seq![Pkt::Flush]) =~= items);
            }
            return third;
        }
        let mut i: usize = 0;
        assert(head_items + ref_items.take(0) =~= head_items);
        while i < self.refs.len()
            invariant
                start == old(writer)@,
                items == advertisement_items(self@),
                i <= self.refs@.len(),
                refs_v == self.refs@.map_values(|r: (String, Oid)| (r.0@, r.1.bytes@)),
                ref_items == refs_v.map_values(|r: (Seq<char>, Seq<u8>)| ref_line(r)),
                items == head_items + ref_items + seq![Pkt::Flush],
                emit(head_items + ref_items.take(i as int)).1 is Ok,
                writer@ == start + emit(head_items + ref_items.take(i as int)).0,
            decreases self.refs@.len() - i,
        {
            let mut text = self.refs[i].1.to_string();
            text.append(" ");
            text.append(self.refs[i].0.as_str());
            let ghost before = head_items + ref_items.take(i as int);
            proof {
                assert(ref_items[i as int] == ref_line(refs_v[i as int]));
                assert(text@ == oid_hex(refs_v[i as int].1) + " "@ + refs_v[i as int].0);
                assert(before.push(ref_items[i as int]) =~= head_items + ref_items.take(i + 1));
                lemma_emit_push(before, ref_items[i as int]);
            }
            let res = pkt_line::write_str(writer, text.as_str());
            if res.is_err() {
                proof {
                    let done = head_items + ref_items.take(i + 1);
                    assert(emit(done).1 is Err);
                    assert(writer@ == start + emit(done).0);
                    assert(res == emit(done).1);
                    lemma_emit_stops(done, ref_items.skip(i + 1) + seq![Pkt::Flush]);
                    assert(done + (ref_items.skip(i + 1) + seq![Pkt::Flush]) =~= items);
                }
                return res;
            }
            i = i + 1;
        }
        proof {
            assert(ref_items.take(i as int) =~= ref_items);
            lemma_emit_push(head_items + ref_items, Pkt::Flush);
            assert((head_items + ref_items).push(Pkt::Flush) =~= items);
        }
        pkt_line::flush(writer);
        Ok(())
    }
}

impl Response {
    /// The HTTP status of the answer.
    pub fn status_code(&self) -> (r: u16)
        ensures
            r == (match self {
                Response::UploadPack(_) => 200u16,
                Response::Error(_) => 403u16,
            }),
    {
        match self {
            Response::UploadPack(_) => 200,
            Response::Error(_) => 403,
        }
    }

    /// The content type of the answer.
    pub fn mime_type(&self) -> (r: &'static str)
        ensures
            r@ == (match self {
                Response::UploadPack(_) => "application/x-git-upload-pack-advertisement"@,
                Response::Error(_) => "text/plain; charset=utf-8"@,
            }),
    {
        match self {
            Response::UploadPack(_) => "application/x-git-upload-pack-advertisement",
            Response::Error(_) => "text/plain; charset=utf-8",
        }
    }

    /// Writes the body of the answer: the advertisement, or the message.
    pub fn write_to(&self, writer: &mut Vec<u8>) -> (r: Result<(), PktError>)
        ensures
            match self {
                Response::UploadPack(p) => final(writer)@ == old(writer)@ + emit(
                    advertisement_items(p@),
                ).0 && r == emit(advertisement_items(p@)).1,
                Response::Error(m) => final(writer)@ == old(writer)@ + m.spec_bytes() && r is Ok,
            },
    {
        match self {
            Response::UploadPack(pack) => pack.write_to(writer),
            Response::Error(msg) => {
                push_all(writer, msg.as_bytes());
                Ok(())
            },
        }
    }
}

} // verus!
