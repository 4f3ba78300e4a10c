//! The smart-HTTP `git-upload-pack` request: reading the client's wants,
//! haves and capabilities, finding the commits both sides have, and the
//! answer that precedes the pack.
use vstd::prelude::*;
use vstd::string::{StringExecFns, StringSliceAdditionalSpecFns};
use vstd::utf8::{valid_utf8, decode_utf8, encode_utf8, is_char_boundary};
use vstd::slice::slice_subrange;
use crate::bytes::{push_all, string_from_utf8};
use crate::capability::{Capability, Capabilities, CapabilityV, capability_of, words};
use crate::oid::{Oid, oid_from_hex, oid_hex, parse_oid};
use crate::pkt_line::{self, PktLine, PktError, Pkt, emit, spec_read, text_items, write_lines};
use crate::negotiation::{Negotiation, NegV, Stage, initial};
use crate::multiplexer::{Multiplexer, MuxError, band_limit_for, band_frames};
use crate::pkt_line::MAX_PKT_LINE_DATA_LEN;
use crate::text::{chars_of, string_of_chars, trim_chars, trim, split_at_space, space_index};

verus! {

/// What a client asks for: the commits it wants, those it has, its
/// capabilities and whether it has sent `done`.
#[derive(Debug)]
pub struct Request {
    pub wants: Vec<Oid>,
    pub haves: Vec<Oid>,
    pub capabilities: Capabilities,
    pub done: bool,
}

#[verifier::ext_equal]
pub struct RequestV {
    pub wants: Seq<Seq<u8>>,
    pub haves: Seq<Seq<u8>>,
    pub capabilities: Seq<CapabilityV>,
    pub done: bool,
}

pub open spec fn oid_views(v: Seq<Oid>) -> Seq<Seq<u8>> {
    v.map_values(|o: Oid| o.bytes@)
}

impl View for Request {
    type V = RequestV;

    open spec fn view(&self) -> RequestV {
        RequestV {
            wants: oid_views(self.wants@),
            haves: oid_views(self.haves@),
            capabilities: self.capabilities@,
            done: self.done,
        }
    }
}

/// Why a request could not be read.
#[derive(Debug)]
pub enum RequestError {
    /// The pkt-line framing is broken, or a line is not UTF-8.
    Pkt(PktError),
    /// A line is neither `want`, `have` nor `done`.
    UnexpectedLine(String),
    /// A `want` or `have` line does not carry an object id.
    InvalidOid,
}

pub enum RequestErrorV {
    Pkt(PktError),
    UnexpectedLine(Seq<char>),
    InvalidOid,
}

impl View for RequestError {
    type V = RequestErrorV;

    open spec fn view(&self) -> RequestErrorV {
        match self {
            RequestError::Pkt(e) => RequestErrorV::Pkt(*e),
            RequestError::UnexpectedLine(s) => RequestErrorV::UnexpectedLine(s@),
            RequestError::InvalidOid => RequestErrorV::InvalidOid,
        }
    }
}

/// What one line does to the request being read.
pub enum LineStep {
    /// Reading the line would panic (it slices the text inside a character).
    Panic,
    Fail(RequestErrorV),
    Next(RequestV),
}

pub open spec fn want_prefix() -> Seq<u8> {
    seq![119u8, 97u8, 110u8, 116u8]
}

pub open spec fn have_prefix() -> Seq<u8> {
    seq![104u8, 97u8, 118u8, 101u8]
}

pub open spec fn done_prefix() -> Seq<u8> {
    seq![100u8, 111u8, 110u8, 101u8]
}

/// The text after a `want ` or `have ` prefix, without surrounding white space.
pub open spec fn argument(b: Seq<u8>) -> Seq<char> {
    trim(decode_utf8(b.skip(5)))
}

/// What the line whose UTF-8 bytes are `b` does to `req`.
pub open spec fn step_line(req: RequestV, b: Seq<u8>) -> LineStep {
    if b.len() < 4 {
        LineStep::Fail(RequestErrorV::UnexpectedLine(decode_utf8(b)))
    } else if !is_char_boundary(b, 4) {
        LineStep::Panic
    } else if b.take(4) == want_prefix() {
        if !is_char_boundary(b, 5) {
            LineStep::Panic
        } else {
            let t = argument(b);
            let k = space_index(t) as int;
            let caps = t.skip(k);
            match oid_from_hex(encode_utf8(t.take(k))) {
                None => LineStep::Fail(RequestErrorV::InvalidOid),
                Some(o) => LineStep::Next(
                    RequestV {
                        wants: req.wants.push(o),
                        capabilities: if caps.len() > 0 {
                            words(caps).map_values(|w: Seq<char>| capability_of(w))
                        } else {
                            req.capabilities
                        },
                        ..req
                    },
                ),
            }
        }
    } else if b.take(4) == have_prefix() {
        if !is_char_boundary(b, 5) {
            LineStep::Panic
        } else {
            match oid_from_hex(encode_utf8(argument(b))) {
                None => LineStep::Fail(RequestErrorV::InvalidOid),
                Some(o) => LineStep::Next(RequestV { haves: req.haves.push(o), ..req }),
            }
        }
    } else if b.take(4) == done_prefix() {
        LineStep::Next(RequestV { done: true, ..req })
    } else {
        LineStep::Fail(RequestErrorV::UnexpectedLine(decode_utf8(b)))
    }
}

/// How reading a request body ends.
pub enum ParseOutcome {
    Panic,
    Fail(RequestErrorV),
    Done(RequestV),
}

/// Reads the pkt-lines of `input` into `req`, in order: flushes are skipped,
/// the end of the input (also inside a pkt-line) ends the request, and the
/// first broken or unexpected line stops the reading.
pub open spec fn parse_from(input: Seq<u8>, req: RequestV) -> ParseOutcome
    decreases input.len(),
{
    match spec_read(input) {
        Err(PktError::UnexpectedEof) => ParseOutcome::Done(req),
        Err(e) => ParseOutcome::Fail(RequestErrorV::Pkt(e)),
        Ok((line, n)) => if 0 < n <= input.len() {
            match line {
                PktLine::Flush => parse_from(input.skip(n as int), req),
                PktLine::Line(b) => if !valid_utf8(b) {
                    ParseOutcome::Fail(RequestErrorV::Pkt(PktError::InvalidUtf8))
                } else {
                    match step_line(req, b) {
                        LineStep::Panic => ParseOutcome::Panic,
                        LineStep::Fail(e) => ParseOutcome::Fail(e),
                        LineStep::Next(r2) => parse_from(input.skip(n as int), r2),
                    }
                },
            }
        } else {
            ParseOutcome::Done(req)
        },
    }
}

pub open spec fn empty_request() -> RequestV {
    RequestV { wants: seq![], haves: seq![], capabilities: seq![], done: false }
}

/// The request that a body carries.
pub open spec fn spec_parse(body: Seq<u8>) -> ParseOutcome {
    parse_from(body, empty_request())
}

/// How reading one line or a whole body ended, as the functions that read
/// them report it.
pub enum Reading<T> {
    /// Reading it would panic.
    Panics,
    Failed(RequestError),
    Read(T),
}

/// Applies the line `line` to `req`.
fn apply_line(req: &mut Request, line: &str) -> (r: Reading<()>)
    ensures
        match (r, step_line(old(req)@, line.spec_bytes())) {
            (Reading::Panics, LineStep::Panic) => true,
            (Reading::Failed(e), LineStep::Fail(f)) => e@ == f,
            (Reading::Read(_), LineStep::Next(n)) => final(req)@ == n,
            _ => false,
        },
{
    broadcast use vstd::utf8::encode_utf8_decode_utf8;
    let b = line.as_bytes();
    let ghost bs = line.spec_bytes();
    assert(b@ == bs);
    if b.len() < 4 {
        return Reading::Failed(RequestError::UnexpectedLine(line.to_owned()));
    }
    if !line.is_char_boundary(4) {
        return Reading::Panics;
    }
    let is_want = b[0] == 119u8 && b[1] == 97u8 && b[2] == 110u8 && b[3] == 116u8;
    let is_have = b[0] == 104u8 && b[1] == 97u8 && b[2] == 118u8 && b[3] == 101u8;
    let is_done = b[0] == 100u8 && b[1] == 111u8 && b[2] == 110u8 && b[3] == 101u8;
    assert(is_want == (bs.take(4) =~= want_prefix()));
    assert(is_have == (bs.take(4) =~= have_prefix()));
    assert(is_done == (bs.take(4) =~= done_prefix()));
    if is_want || is_have {
        if !line.is_char_boundary(5) {
            return Reading::Panics;
        }
        let (_, rest) = line.split_at(5);
        proof {
            assert(rest.spec_bytes() =~= bs.skip(5));
            assert(rest@ == decode_utf8(bs.skip(5)));
        }
        let cs = chars_of(rest);
        let t = trim_chars(&cs);
        if is_want {
            let (w, caps) = split_at_space(&t);
            let ws = string_of_chars(&w);
            match parse_oid(ws.as_str()) {
                None => Reading::Failed(RequestError::InvalidOid),
                Some(o) => {
                    req.wants.push(o);
                    if caps.len() > 0 {
                        let cap_text = string_of_chars(&caps);
                        req.capabilities = Capabilities::from_text(cap_text.as_str());
                    }
                    assert(oid_views(req.wants@) =~= oid_views(old(req).wants@).push(o.bytes@));
                    Reading::Read(())
                },
            }
        } else {
            let ts = string_of_chars(&t);
            match parse_oid(ts.as_str()) {
                None => Reading::Failed(RequestError::InvalidOid),
                Some(o) => {
                    req.haves.push(o);
                    assert(oid_views(req.haves@) =~= oid_views(old(req).haves@).push(o.bytes@));
                    Reading::Read(())
                },
            }
        }
    } else if is_done {
        req.done = true;
        Reading::Read(())
    } else {
        Reading::Failed(RequestError::UnexpectedLine(line.to_owned()))
    }
}

/// Reads the request in `body`, or says that reading it would panic.
fn read_request(body: &[u8]) -> (r: Reading<Request>)
    ensures
        match (r, spec_parse(body@)) {
            (Reading::Panics, ParseOutcome::Panic) => true,
            (Reading::Failed(e), ParseOutcome::Fail(f)) => e@ == f,
            (Reading::Read(req), ParseOutcome::Done(q)) => req@ == q,
            _ => false,
        },
{
    let mut req = Request {
        wants: Vec::new(),
        haves: Vec::new(),
        capabilities: Capabilities::empty(),
        done: false,
    };
    assert(req@ =~= empty_request());
    let mut pos: usize = 0;
    assert(body@.skip(0) =~= body@);
    loop
        invariant
            pos <= body@.len(),
            spec_parse(body@) == parse_from(body@.skip(pos as int), req@),
        decreases body@.len() - pos,
    {
        let rest = slice_subrange(body, pos, body.len());
        assert(rest@ =~= body@.skip(pos as int));
        match pkt_line::read(rest) {
            Err(PktError::UnexpectedEof) => {
                return Reading::Read(req);
            },
            Err(e) => {
                return Reading::Failed(RequestError::Pkt(e));
            },
            Ok((line, n)) => {
                assert(body@.skip(pos as int).skip(n as int) =~= body@.skip((pos + n) as int));
                match line {
                    PktLine::Flush => {},
                    PktLine::Line(data) => {
                        let ghost bytes = data@;
                        match string_from_utf8(data) {
                            None => {
                                return Reading::Failed(RequestError::Pkt(PktError::InvalidUtf8));
                            },
                            Some(text) => {
                                proof {
                                    vstd::utf8::decode_utf8_encode_utf8(bytes);
                                    assert(encode_utf8(text@) == bytes);
                                }
                                match apply_line(&mut req, text.as_str()) {
                                    Reading::Panics => {
                                        return Reading::Panics;
                                    },
                                    Reading::Failed(e) => {
                                        return Reading::Failed(e);
                                    },
                                    Reading::Read(_) => {},
                                }
                            },
                        }
                    },
                }
                pos = pos + n;
            },
        }
    }
}

/// Whether the request in `body` can be read without a panic: it cannot
/// when a line that is reached has more than three bytes and a character
/// that spans its fourth and fifth, or begins with `want` or `have` and has
/// no character boundary after its fifth byte.
pub fn request_is_readable(body: &[u8]) -> (r: bool)
    ensures
        r == !(spec_parse(body@) is Panic),
{
    match read_request(body) {
        Reading::Panics => false,
        _ => true,
    }
}

/// Reads the wants, haves, capabilities and `done` of a request body. The
/// last `want` line with capabilities sets them.
pub fn parse(body: &[u8]) -> (r: Result<Request, RequestError>)
    requires
        !(spec_parse(body@) is Panic),
    ensures
        match (r, spec_parse(body@)) {
            (Ok(req), ParseOutcome::Done(q)) => req@ == q,
            (Err(e), ParseOutcome::Fail(f)) => e@ == f,
            _ => false,
        },
{
    match read_request(body) {
        Reading::Panics => Err(RequestError::InvalidOid),
        Reading::Failed(e) => Err(e),
        Reading::Read(req) => Ok(req),
    }
}

/// The answer that a pack follows: the commits to send, the common commits
/// and the client's capabilities.
#[derive(Debug)]
pub struct Pack {
    pub commits: Vec<Oid>,
    pub common: Vec<Oid>,
    pub capabilities: Capabilities,
}

/// The answer that asks the client for more haves.
#[derive(Debug)]
pub struct Continue {
    pub common: Vec<Oid>,
    pub capabilities: Capabilities,
}

/// The answer to an upload-pack request.
#[derive(Debug)]
pub enum Response {
    Pack(Pack),
    Continue(Continue),
    Error(String),
}

/// The text `ACK <id> common`.
pub open spec fn ack_common_text(id: Seq<u8>) -> Seq<char> {
    "ACK "@ + oid_hex(id) + " common"@
}

/// The text `ACK <id>`.
pub open spec fn ack_text(id: Seq<u8>) -> Seq<char> {
    "ACK "@ + oid_hex(id)
}

pub open spec fn nak_text() -> Seq<char> {
    "NAK"@
}

/// What precedes a pack: with common commits and `multi_ack_detailed`, an
/// `ACK <id> common` for each and an `ACK` of the last; otherwise `NAK`.
pub open spec fn pack_ack_texts(common: Seq<Seq<u8>>, caps: Seq<CapabilityV>) -> Seq<Seq<char>> {
    if common.len() > 0 && caps.contains(CapabilityV::MultiAckDetailed) {
        common.map_values(|c: Seq<u8>| ack_common_text(c)) + seq![ack_text(common.last())]
    } else {
        seq![nak_text()]
    }
}

/// What asks for more haves: with `multi_ack_detailed`, an
/// `ACK <id> common` for each common commit; then `NAK`.
pub open spec fn continue_texts(common: Seq<Seq<u8>>, caps: Seq<CapabilityV>) -> Seq<Seq<char>> {
    if caps.contains(CapabilityV::MultiAckDetailed) {
        common.map_values(|c: Seq<u8>| ack_common_text(c)) + seq![nak_text()]
    } else {
        seq![nak_text()]
    }
}

pub open spec fn texts_items(texts: Seq<Seq<char>>) -> Seq<Pkt> {
    texts.map_values(|t: Seq<char>| Pkt::Text(t))
}

fn ack_common_line(id: &Oid) -> (r: String)
    ensures
        r@ == ack_common_text(id.bytes@),
{
    let mut line = "ACK ".to_owned();
    line.append(id.to_string().as_str());
    line.append(" common");
    line
}

/// The acknowledgement lines for `common`.
fn ack_common_lines(common: &Vec<Oid>) -> (r: Vec<String>)
    ensures
        r@.map_values(|l: String| l@) == oid_views(common@).map_values(|c: Seq<u8>| ack_common_text(c)),
{
    let mut lines: Vec<String> = Vec::new();
    let mut i: usize = 0;
    while i < common.len()
        invariant
            i <= common@.len(),
            lines@.map_values(|l: String| l@) == oid_views(common@.take(i as int)).map_values(|c: Seq<u8>| ack_common_text(c)),
        decreases common@.len() - i,
    {
        let ghost prev = lines@.map_values(|l: String| l@);
        lines.push(ack_common_line(&common[i]));
        assert(oid_views(common@.take(i + 1)) =~= oid_views(common@.take(i as int)).push(common@[i as int].bytes@));
        assert(lines@.map_values(|l: String| l@) =~= prev.push(ack_common_text(common@[i as int].bytes@)));
        i = i + 1;
        assert(lines@.map_values(|l: String| l@) =~= oid_views(common@.take(i as int)).map_values(|c: Seq<u8>| ack_common_text(c)));
    }
    assert(common@.take(i as int) =~= common@);
    lines
}

proof fn lemma_items_of_lines(lines: Seq<String>, texts: Seq<Seq<char>>)
    requires
        lines.map_values(|l: String| l@) == texts,
    ensures
        text_items(lines) == texts_items(texts),
{
    assert(text_items(lines) =~= texts_items(texts)) by {
        assert forall|k: int| 0 <= k < lines.len() implies text_items(lines)[k] == texts_items(texts)[k] by {
            assert(texts[k] == lines.map_values(|l: String| l@)[k]);
        }
    }
}

impl Pack {
    /// The commits to send.
    pub fn commits(&self) -> (r: &Vec<Oid>)
        ensures
            r == &self.commits,
    {
        &self.commits
    }

    /// The client's capabilities.
    pub fn capabilities(&self) -> (r: &Capabilities)
        ensures
            r == &self.capabilities,
    {
        &self.capabilities
    }

    /// Writes the acknowledgements that precede the pack.
    pub fn write_acknowledgements(&self, writer: &mut Vec<u8>) -> (r: Result<(), PktError>)
        ensures
            final(writer)@ == old(writer)@ + emit(texts_items(pack_ack_texts(oid_views(self.common@), self.capabilities@))).0,
            r == emit(texts_items(pack_ack_texts(oid_views(self.common@), self.capabilities@))).1,
    {
        let ghost texts = pack_ack_texts(oid_views(self.common@), self.capabilities@);
        let lines = if self.common.len() > 0 && self.capabilities.contains(Capability::MultiAckDetailed) {
            let mut lines = ack_common_lines(&self.common);
            let last = self.common.len() - 1;
            let mut line = "ACK ".to_owned();
            line.append(self.common[last].to_string().as_str());
            let ghost before = lines@.map_values(|l: String| l@);
            lines.push(line);
            assert(lines@.map_values(|l: String| l@) =~= before.push(ack_text(oid_views(self.common@).last())));
            assert(lines@.map_values(|l: String| l@) =~= texts);
            lines
        } else {
            let mut lines = Vec::new();
            lines.push("NAK".to_owned());
            assert(lines@.map_values(|l: String| l@) =~= seq![nak_text()]);
            assert(lines@.map_values(|l: String| l@) =~= texts);
            lines
        };
        proof {
            lemma_items_of_lines(lines@, texts);
        }
        write_lines(writer, &lines)
    }
}

/// Why a pack answer could not be written.
#[derive(Debug, Clone, Copy, PartialEq, Eq, Structural)]
pub enum PackError {
    /// An acknowledgement could not be written.
    Pkt(PktError),
    /// The client's side-band capabilities contradict each other.
    Mux(MuxError),
}

/// What happens while git builds a pack, in order: a progress message, or
/// pack data.
#[derive(Debug)]
pub enum PackEvent {
    Progress(String),
    Data(Vec<u8>),
}

pub enum PackEventV {
    Progress(Seq<char>),
    Data(Seq<u8>),
}

impl View for PackEvent {
    type V = PackEventV;

    open spec fn view(&self) -> PackEventV {
        match self {
            PackEvent::Progress(m) => PackEventV::Progress(m@),
            PackEvent::Data(d) => PackEventV::Data(d@),
        }
    }
}

/// What one event puts on the stream: a progress message goes on band 2 when
/// there is a limit and it fits (otherwise nothing), pack data on band 1 in
/// chunks of one less than the limit, or unframed without a limit.
pub open spec fn event_bytes(limit: Option<usize>, e: PackEventV) -> Seq<u8> {
    match e {
        PackEventV::Progress(m) => match limit {
            Some(l) => if encode_utf8(m).len() > l {
                seq![]
            } else {
                pkt_line::frame(seq![2u8] + encode_utf8(m))
            },
            None => seq![],
        },
        PackEventV::Data(d) => match limit {
            Some(l) => band_frames(1u8, d, (l - 1) as nat),
            None => d,
        },
    }
}

/// What the events put on the stream, in order.
pub open spec fn stream_bytes(limit: Option<usize>, events: Seq<PackEventV>) -> Seq<u8>
    decreases events.len(),
{
    if events.len() == 0 {
        seq![]
    } else {
        stream_bytes(limit, events.drop_last()) + event_bytes(limit, events.last())
    }
}

/// The views of the events.
pub open spec fn event_views(events: Seq<PackEvent>) -> Seq<PackEventV> {
    events.map_values(|e: PackEvent| e@)
}

/// No progress message is exactly as long as a side-band-64k packet can
/// carry: writing one would overrun the packet.
pub open spec fn progress_fits(caps: Seq<CapabilityV>, events: Seq<PackEventV>) -> bool {
    forall|i: int|
        0 <= i < events.len() ==> (#[trigger] events[i] matches PackEventV::Progress(m) ==> !(
        band_limit_for(caps) == Ok::<Option<usize>, MuxError>(Some(MAX_PKT_LINE_DATA_LEN))
            && encode_utf8(m).len() == MAX_PKT_LINE_DATA_LEN))
}

/// What answering with a pack writes, and how it ends: the
/// acknowledgements; then, when the side-band capabilities agree, the stream
/// of the events and the flush-pkt. Writing stops at the first failure,
/// keeping what was written before it.
pub open spec fn pack_output(common: Seq<Seq<u8>>, caps: Seq<CapabilityV>, events: Seq<PackEventV>) -> (
    Seq<u8>,
    Result<(), PackError>,
) {
    let acks = emit(texts_items(pack_ack_texts(common, caps)));
    match acks.1 {
        Err(e) => (acks.0, Err(PackError::Pkt(e))),
        Ok(_) => match band_limit_for(caps) {
            Err(e) => (acks.0, Err(PackError::Mux(e))),
            Ok(l) => (acks.0 + stream_bytes(l, events) + pkt_line::flush_pkt(), Ok(())),
        },
    }
}

impl Pack {
    /// Writes the acknowledgements after `writer`'s contents and opens the
    /// side-band stream that the pack data, and the progress of building it,
    /// go on. On failure it gives back what was written, the
    /// acknowledgements written so far included.
    pub fn start_stream(&self, writer: Vec<u8>) -> (r: Result<Multiplexer, (PackError, Vec<u8>)>)
        ensures
            ({
                let acks = emit(texts_items(pack_ack_texts(oid_views(self.common@), self.capabilities@)));
                match acks.1 {
                    Err(e) => r matches Err((PackError::Pkt(f), b)) && f == e && b@ == writer@ + acks.0,
                    Ok(_) => match band_limit_for(self.capabilities@) {
                        Ok(l) => r matches Ok(m) && m.limit() == l && m.written() == writer@ + acks.0,
                        Err(e) => r matches Err((PackError::Mux(f), b)) && f == e && b@ == writer@ + acks.0,
                    },
                }
            }),
    {
        let mut out = writer;
        match self.write_acknowledgements(&mut out) {
            Err(e) => Err((PackError::Pkt(e), out)),
            Ok(()) => {
                if self.capabilities.contains(Capability::SideBand) && self.capabilities.contains(
                    Capability::SideBand64K,
                ) {
                    return Err((PackError::Mux(MuxError::BothSideBands), out));
                }
                match Multiplexer::new(out, &self.capabilities) {
                    Ok(m) => Ok(m),
                    Err(e) => {
                        proof {
                            assert(false);
                        }
                        Err((PackError::Mux(e), Vec::new()))
                    },
                }
            },
        }
    }

    /// Writes the answer that carries the pack: the acknowledgements, then on
    /// the side-band stream each event of building the pack in order, then
    /// the flush-pkt.
    pub fn write_to(&self, writer: &mut Vec<u8>, events: &Vec<PackEvent>) -> (r: Result<(), PackError>)
        requires
            progress_fits(self.capabilities@, event_views(events@)),
        ensures
            final(writer)@ == old(writer)@ + pack_output(oid_views(self.common@), self.capabilities@, event_views(events@)).0,
            r == pack_output(oid_views(self.common@), self.capabilities@, event_views(events@)).1,
    {
        let ghost start = old(writer)@;
        let ghost evs = event_views(events@);
        let mut taken: Vec<u8> = Vec::new();
        std::mem::swap(&mut taken, writer);
        match self.start_stream(taken) {
            Err((e, written)) => {
                *writer = written;
                Err(e)
            },
            Ok(mut stream) => {
                let ghost limit = stream.limit();
                let ghost base = stream.written();
                let mut i: usize = 0;
                assert(evs.take(0) =~= Seq::<PackEventV>::empty());
                assert(base + Seq::<u8>::empty() =~= base);
                while i < events.len()
                    invariant
                        i <= events@.len(),
                        evs == event_views(events@),
                        progress_fits(self.capabilities@, evs),
                        band_limit_for(self.capabilities@) == Ok::<Option<usize>, MuxError>(limit),
                        stream.limit() == limit,
                        stream.written() == base + stream_bytes(limit, evs.take(i as int)),
                    decreases events@.len() - i,
                {
                    let ghost before = stream.written();
                    proof {
                        assert(evs.take(i + 1).drop_last() =~= evs.take(i as int));
                        assert(evs[i as int] == events@[i as int]@);
                    }
                    match &events[i] {
                        PackEvent::Progress(msg) => {
                            proof {
                                assert(evs[i as int] matches PackEventV::Progress(m) && m == msg@);
                            }
                            let _ = stream.write_progress(msg.as_str());
                        },
                        PackEvent::Data(data) => {
                            stream.write_packfile(data.as_slice());
                        },
                    }
                    proof {
                        assert(stream.written() == before + event_bytes(limit, evs[i as int]));
                        assert(stream_bytes(limit, evs.take(i + 1)) == stream_bytes(limit, evs.take(i as int)) + event_bytes(limit, evs[i as int]));
                        assert(base + stream_bytes(limit, evs.take(i as int)) + event_bytes(limit, evs[i as int]) =~= base + stream_bytes(limit, evs.take(i + 1)));
                    }
                    i = i + 1;
                }
                assert(evs.take(i as int) =~= evs);
                *writer = finish_stream(stream);
                Ok(())
            },
        }
    }
}

/// Ends the stream of a pack with the flush-pkt, and gives everything
/// written.
pub fn finish_stream(stream: Multiplexer) -> (r: Vec<u8>)
    ensures
        r@ == stream.written() + pkt_line::flush_pkt(),
{
    let mut out = stream.into_inner();
    pkt_line::flush(&mut out);
    out
}

impl Continue {
    /// Writes the answer that asks for more haves.
    pub fn write_to(&self, writer: &mut Vec<u8>) -> (r: Result<(), PktError>)
        ensures
            final(writer)@ == old(writer)@ + emit(texts_items(continue_texts(oid_views(self.common@), self.capabilities@))).0,
            r == emit(texts_items(continue_texts(oid_views(self.common@), self.capabilities@))).1,
    {
        let ghost texts = continue_texts(oid_views(self.common@), self.capabilities@);
        let mut lines = if self.capabilities.contains(Capability::MultiAckDetailed) {
            ack_common_lines(&self.common)
        } else {
            Vec::new()
        };
        let ghost before = lines@.map_values(|l: String| l@);
        lines.push("NAK".to_owned());
        assert(lines@.map_values(|l: String| l@) =~= before.push(nak_text()));
        proof {
            if !self.capabilities@.contains(CapabilityV::MultiAckDetailed) {
                assert(before =~= Seq::<Seq<char>>::empty());
            }
            assert(lines@.map_values(|l: String| l@) =~= texts);
            lemma_items_of_lines(lines@, texts);
        }
        write_lines(writer, &lines)
    }
}

impl Response {
    /// The HTTP status of the answer.
    pub fn status_code(&self) -> (r: u16)
        ensures
            r == (match self {
                Response::Error(_) => 403u16,
                _ => 200u16,
            }),
    {
        match self {
            Response::Pack(_) => 200,
            Response::Continue(_) => 200,
            Response::Error(_) => 403,
        }
    }

    /// Writes the answer: for a pack, the acknowledgements, the stream of
    /// the `events` of building it and the flush-pkt; for more haves, the
    /// acknowledgements and `NAK`; for an error, its message. Only a pack
    /// reads `events`.
    pub fn write_to(&self, writer: &mut Vec<u8>, events: &Vec<PackEvent>) -> (r: Result<(), PackError>)
        requires
            self matches Response::Pack(p) ==> progress_fits(p.capabilities@, event_views(events@)),
        ensures
            match self {
                Response::Pack(p) => final(writer)@ == old(writer)@ + pack_output(oid_views(p.common@), p.capabilities@, event_views(events@)).0
                    && r == pack_output(oid_views(p.common@), p.capabilities@, event_views(events@)).1,
                Response::Continue(c) => final(writer)@ == old(writer)@ + emit(texts_items(continue_texts(oid_views(c.common@), c.capabilities@))).0
                    && match emit(texts_items(continue_texts(oid_views(c.common@), c.capabilities@))).1 {
                        Ok(_) => r is Ok,
                        Err(e) => r == Err::<(), PackError>(PackError::Pkt(e)),
                    },
                Response::Error(m) => final(writer)@ == old(writer)@ + vstd::utf8::encode_utf8(m@) && r is Ok,
            },
    {
        match self {
            Response::Pack(p) => p.write_to(writer, events),
            Response::Continue(c) => match c.write_to(writer) {
                Ok(()) => Ok(()),
                Err(e) => Err(PackError::Pkt(e)),
            },
            Response::Error(msg) => {
                push_all(writer, msg.as_str().as_bytes());
                Ok(())
            },
        }
    }
}

/// The first want that is not the target of a reference.
pub open spec fn first_missing(wants: Seq<Seq<u8>>, refs: Seq<Seq<u8>>) -> Option<Seq<u8>>
    decreases wants.len(),
{
    if wants.len() == 0 {
        None
    } else if !refs.contains(wants[0]) {
        Some(wants[0])
    } else {
        first_missing(wants.drop_first(), refs)
    }
}

/// What a request leads to before any question about ancestry.
pub enum Prepared {
    /// An answer right away.
    Respond(Response),
    /// A negotiation to run.
    Negotiate(Negotiation),
}

fn contains_oid(v: &Vec<Oid>, id: &Oid) -> (r: bool)
    ensures
        r == oid_views(v@).contains(id.bytes@),
{
    let mut i: usize = 0;
    while i < v.len()
        invariant
            i <= v@.len(),
            forall|k: int| 0 <= k < i ==> #[trigger] v@[k].bytes@ != id.bytes@,
        decreases v@.len() - i,
    {
        if v[i] == *id {
            assert(oid_views(v@)[i as int] == id.bytes@);
            return true;
        }
        i = i + 1;
    }
    assert forall|k: int| 0 <= k < oid_views(v@).len() implies oid_views(v@)[k] != id.bytes@ by {
        assert(oid_views(v@)[k] == v@[k].bytes@);
    }
    false
}

/// Checks a request against the repository's reference targets: a request
/// without wants, or with a want that no reference points at, is answered
/// with an error; otherwise the negotiation starts.
pub fn prepare(request: Request, refs: Vec<Oid>) -> (r: Prepared)
    ensures
        request@.wants.len() == 0 ==> (r matches Prepared::Respond(Response::Error(m)) && m@ == "need wants"@),
        request@.wants.len() > 0 ==> match first_missing(request@.wants, oid_views(refs@)) {
            Some(w) => (r matches Prepared::Respond(Response::Error(m)) && m@ == "want missing from refs "@ + oid_hex(w)),
            None => (r matches Prepared::Negotiate(n) && n.well_formed() && n@ == initial(request@, oid_views(refs@))
                && n.capabilities() == request@.capabilities),
        },
{
    if request.wants.len() == 0 {
        return Prepared::Respond(Response::Error("need wants".to_owned()));
    }
    let mut i: usize = 0;
    let ghost wants = request@.wants;
    let ghost rv = oid_views(refs@);
    assert(wants.skip(0) =~= wants);
    while i < request.wants.len()
        invariant
            i <= request.wants@.len(),
            wants == request@.wants,
            rv == oid_views(refs@),
            first_missing(wants, rv) == first_missing(wants.skip(i as int), rv),
        decreases request.wants@.len() - i,
    {
        assert(wants.skip(i as int)[0] == request.wants@[i as int].bytes@);
        assert(wants.skip(i as int).drop_first() =~= wants.skip(i + 1));
        if !contains_oid(&refs, &request.wants[i]) {
            let mut msg = "want missing from refs ".to_owned();
            msg.append(request.wants[i].to_string().as_str());
            return Prepared::Respond(Response::Error(msg));
        }
        i = i + 1;
    }
    assert(wants.skip(i as int) =~= Seq::<Seq<u8>>::empty());
    Prepared::Negotiate(Negotiation::new(request, refs))
}

/// Asking for more haves: with `multi_ack_detailed`, one `ACK <id> common`
/// line for each common commit, in their order, then `NAK`; without it, only
/// `NAK`.
pub proof fn law_continue_acknowledges_every_common(common: Seq<Seq<u8>>, caps: Seq<CapabilityV>)
    ensures
        caps.contains(CapabilityV::MultiAckDetailed) ==> {
            let t = continue_texts(common, caps);
            &&& t.len() == common.len() + 1
            &&& forall|i: int| 0 <= i < common.len() ==> #[trigger] t[i] == "ACK "@ + oid_hex(common[i]) + " common"@
            &&& t[common.len() as int] == "NAK"@
        },
        !caps.contains(CapabilityV::MultiAckDetailed) ==> continue_texts(common, caps) == seq!["NAK"@],
{
    if caps.contains(CapabilityV::MultiAckDetailed) {
        let t = continue_texts(common, caps);
        assert forall|i: int| 0 <= i < common.len() implies #[trigger] t[i] == "ACK "@ + oid_hex(common[i]) + " common"@ by {
            assert(t[i] == common.map_values(|c: Seq<u8>| ack_common_text(c))[i]);
        }
    } else {
        assert(continue_texts(common, caps) =~= seq!["NAK"@]);
    }
}

/// Before a pack: with `multi_ack_detailed` and common commits, one
/// `ACK <id> common` line for each common commit, in their order, then
/// `ACK <id>` of the last; otherwise only `NAK`.
pub proof fn law_pack_acknowledges_every_common(common: Seq<Seq<u8>>, caps: Seq<CapabilityV>)
    ensures
        caps.contains(CapabilityV::MultiAckDetailed) && common.len() > 0 ==> {
            let t = pack_ack_texts(common, caps);
            &&& t.len() == common.len() + 1
            &&& forall|i: int| 0 <= i < common.len() ==> #[trigger] t[i] == "ACK "@ + oid_hex(common[i]) + " common"@
            &&& t[common.len() as int] == "ACK "@ + oid_hex(common[common.len() - 1])
        },
        !(caps.contains(CapabilityV::MultiAckDetailed) && common.len() > 0) ==> pack_ack_texts(common, caps)
            == seq!["NAK"@],
{
    if caps.contains(CapabilityV::MultiAckDetailed) && common.len() > 0 {
        let t = pack_ack_texts(common, caps);
        assert forall|i: int| 0 <= i < common.len() implies #[trigger] t[i] == "ACK "@ + oid_hex(common[i]) + " common"@ by {
            assert(t[i] == common.map_values(|c: Seq<u8>| ack_common_text(c))[i]);
        }
    } else {
        assert(pack_ack_texts(common, caps) =~= seq!["NAK"@]);
    }
}

/// The want that `prepare` names as missing: there is none exactly when
/// every want is the target of some reference; otherwise it is a want that
/// no reference points at, and every want before it is one that some
/// reference points at.
pub proof fn law_first_missing(wants: Seq<Seq<u8>>, refs: Seq<Seq<u8>>)
    ensures
        first_missing(wants, refs) is None <==> forall|k: int| 0 <= k < wants.len() ==> refs.contains(#[trigger] wants[k]),
        first_missing(wants, refs) matches Some(w) ==> exists|k: int|
            0 <= k < wants.len() && #[trigger] wants[k] == w && !refs.contains(w) && forall|j: int|
                0 <= j < k ==> refs.contains(#[trigger] wants[j]),
    decreases wants.len(),
{
    if wants.len() > 0 {
        let rest = wants.drop_first();
        law_first_missing(rest, refs);
        if refs.contains(wants[0]) {
            if first_missing(rest, refs) is None {
                assert forall|k: int| 0 <= k < wants.len() implies refs.contains(#[trigger] wants[k]) by {
                    if k > 0 {
                        assert(wants[k] == rest[k - 1]);
                    }
                }
            } else {
                assert(!(forall|k: int| 0 <= k < rest.len() ==> refs.contains(#[trigger] rest[k])));
                let k0 = choose|k: int| 0 <= k < rest.len() && !refs.contains(#[trigger] rest[k]);
                assert(wants[k0 + 1] == rest[k0]);
                let w = first_missing(rest, refs)->Some_0;
                let k = choose|k: int|
                    0 <= k < rest.len() && #[trigger] rest[k] == w && !refs.contains(w) && forall|j: int|
                        0 <= j < k ==> refs.contains(#[trigger] rest[j]);
                assert(wants[k + 1] == w);
                assert forall|j: int| 0 <= j < k + 1 implies refs.contains(#[trigger] wants[j]) by {
                    if j > 0 {
                        assert(wants[j] == rest[j - 1]);
                    }
                }
            }
        } else {
            assert(wants[0] == wants[0]);
        }
    }
}

} // verus!
