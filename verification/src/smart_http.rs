//! Pkt-line and side-band helpers of the smart-HTTP handlers: a side-band
//! writer that frames whatever is written to it, pkt-line writing onto a
//! byte buffer, and pkt-line reading from a byte source.
use vstd::prelude::*;
use vstd::string::StringSliceAdditionalSpecFns;
use vstd::slice::slice_subrange;
use vstd::utf8::{valid_utf8, decode_utf8};
use crate::bytes::{hex04, hex04_bytes, push_all, string_from_utf8, lemma_hex04_value};
use crate::pkt_line::{PktError, flush_pkt, size_field_value, strip_lf, read_pkt_line_size, PktLine};

verus! {

/// A writer onto side-band packets: what is written goes onto the current
/// band, in packets of at most two less than the limit; without a limit only
/// band 1 (the pack data) passes, unframed, and the rest is dropped.
pub struct Multiplexer {
    stream: Vec<u8>,
    limit: Option<usize>,
    current_band: u8,
}

impl Multiplexer {
    /// Everything written onto the stream.
    pub closed spec fn written(&self) -> Seq<u8> {
        self.stream@
    }

    pub closed spec fn limit(&self) -> Option<usize> {
        self.limit
    }

    /// The band that writes go to.
    pub closed spec fn band(&self) -> u8 {
        self.current_band
    }

    /// A multiplexer writing after `stream`'s contents, on band 0 until one
    /// is chosen.
    pub fn new(stream: Vec<u8>, limit: Option<usize>) -> (r: Multiplexer)
        ensures
            r.written() == stream@,
            r.limit() == limit,
            r.band() == 0,
    {
        Multiplexer { stream, limit, current_band: 0 }
    }

    /// Chooses band 1, the pack data.
    pub fn packfile(&mut self) -> (r: &mut Multiplexer)
        ensures
            r.band() == 1,
            r.written() == old(self).written(),
            r.limit() == old(self).limit(),
            *final(self) == *final(r),
    {
        self.current_band = 1;
        self
    }

    /// Chooses band 2, progress messages.
    pub fn progress(&mut self) -> (r: &mut Multiplexer)
        ensures
            r.band() == 2,
            r.written() == old(self).written(),
            r.limit() == old(self).limit(),
            *final(self) == *final(r),
    {
        self.current_band = 2;
        self
    }

    /// Chooses band 3, error messages.
    pub fn error(&mut self) -> (r: &mut Multiplexer)
        ensures
            r.band() == 3,
            r.written() == old(self).written(),
            r.limit() == old(self).limit(),
            *final(self) == *final(r),
    {
        self.current_band = 3;
        self
    }

    /// Ends the stream with a flush-pkt.
    pub fn close(&mut self)
        ensures
            final(self).written() == old(self).written() + flush_pkt(),
            final(self).limit() == old(self).limit(),
            final(self).band() == old(self).band(),
    {
        crate::pkt_line::flush(&mut self.stream);
    }

    /// Writes a part of `buf` and says how much: with a limit, one packet on
    /// the current band with as much as fits; without one, all of `buf` on
    /// band 1 and nothing (but counted as written) on the other bands.
    pub fn write(&mut self, buf: &[u8]) -> (r: usize)
        requires
            old(self).limit() matches Some(l) ==> l >= 2,
            buf@.len() + 5 <= usize::MAX,
        ensures
            final(self).limit() == old(self).limit(),
            final(self).band() == old(self).band(),
            match old(self).limit() {
                Some(l) => {
                    &&& r == if buf@.len() < l - 2 { buf@.len() } else { (l - 2) as nat }
                    &&& final(self).written() == old(self).written() + hex04((r + 5) as nat)
                        + seq![old(self).band()] + buf@.take(r as int)
                },
                None => {
                    &&& r == buf@.len()
                    &&& final(self).written() == old(self).written() + if old(self).band() == 1 {
                        buf@
                    } else {
                        Seq::<u8>::empty()
                    }
                },
            },
    {
        match self.limit {
            Some(limit) => {
                let len = if limit - 2 < buf.len() { limit - 2 } else { buf.len() };
                let header = hex04_bytes(len + 5);
                push_all(&mut self.stream, header.as_slice());
                self.stream.push(self.current_band);
                push_all(&mut self.stream, slice_subrange(buf, 0, len));
                assert(buf@.subrange(0, len as int) =~= buf@.take(len as int));
                assert(self.stream@ =~= old(self).written() + hex04((len + 5) as nat) + seq![old(self).band()]
                    + buf@.take(len as int));
                len
            },
            None => {
                if self.current_band == 1 {
                    push_all(&mut self.stream, buf);
                } else {
                    assert(self.stream@ =~= self.stream@ + Seq::<u8>::empty());
                }
                buf.len()
            },
        }
    }

    /// Everything written.
    pub fn into_inner(self) -> (r: Vec<u8>)
        ensures
            r@ == self.written(),
    {
        self.stream
    }
}

/// Writing pkt-lines onto a byte sink.
pub trait WritePktLine {
    /// Everything written onto the sink.
    spec fn pkt_bytes(&self) -> Seq<u8>;

    /// Writes text as one pkt-line ending in a line feed; text of 65520 bytes
    /// or more is refused, and empty text writes nothing.
    fn write_pkt_line(&mut self, buf: &str) -> (r: Result<(), PktError>)
        ensures
            buf.spec_bytes().len() >= 65520 ==> r == Err::<(), PktError>(PktError::DataTooLong)
                && final(self).pkt_bytes() == old(self).pkt_bytes(),
            buf.spec_bytes().len() == 0 ==> r == Ok::<(), PktError>(()) && final(self).pkt_bytes()
                == old(self).pkt_bytes(),
            0 < buf.spec_bytes().len() < 65520 ==> r == Ok::<(), PktError>(()) && final(self).pkt_bytes() == old(self).pkt_bytes() + hex04((buf.spec_bytes().len() + 5) as nat)
                + buf.spec_bytes() + seq![10u8],
    ;

    /// Writes bytes as one pkt-line; more than 65520 bytes are refused, and
    /// no bytes write nothing.
    fn write_pkt_line_binary(&mut self, buf: &[u8]) -> (r: Result<(), PktError>)
        ensures
            buf@.len() > 65520 ==> r == Err::<(), PktError>(PktError::DataTooLong) && final(self).pkt_bytes() == old(self).pkt_bytes(),
            buf@.len() == 0 ==> r == Ok::<(), PktError>(()) && final(self).pkt_bytes() == old(self).pkt_bytes(),
            0 < buf@.len() <= 65520 ==> r == Ok::<(), PktError>(()) && final(self).pkt_bytes()
                == old(self).pkt_bytes() + hex04((buf@.len() + 4) as nat) + buf@,
    ;

    /// Writes the flush-pkt.
    fn write_pkt_line_flush(&mut self)
        ensures
            final(self).pkt_bytes() == old(self).pkt_bytes() + flush_pkt(),
    ;
}

impl WritePktLine for Vec<u8> {
    open spec fn pkt_bytes(&self) -> Seq<u8> {
        self@
    }

    fn write_pkt_line(&mut self, buf: &str) -> (r: Result<(), PktError>) {
        let bytes = buf.as_bytes();
        if bytes.len() >= 65520 {
            return Err(PktError::DataTooLong);
        }
        if bytes.len() == 0 {
            return Ok(());
        }
        let header = hex04_bytes(bytes.len() + 5);
        push_all(self, header.as_slice());
        push_all(self, bytes);
        self.push(10u8);
        assert(self@ =~= old(self)@ + hex04((bytes@.len() + 5) as nat) + bytes@ + seq![10u8]);
        Ok(())
    }

    fn write_pkt_line_binary(&mut self, buf: &[u8]) -> (r: Result<(), PktError>) {
        if buf.len() > 65520 {
            return Err(PktError::DataTooLong);
        }
        if buf.len() == 0 {
            return Ok(());
        }
        let header = hex04_bytes(buf.len() + 4);
        push_all(self, header.as_slice());
        push_all(self, buf);
        assert(self@ =~= old(self)@ + hex04((buf@.len() + 4) as nat) + buf@);
        Ok(())
    }

    fn write_pkt_line_flush(&mut self) {
        crate::pkt_line::flush(self);
    }
}

/// A source of bytes, read from the front.
pub struct Input {
    bytes: Vec<u8>,
    pos: usize,
}

impl Input {
    /// The bytes not read yet.
    pub closed spec fn remaining(&self) -> Seq<u8> {
        self.bytes@.skip(self.pos as int)
    }

    closed spec fn wf(&self) -> bool {
        self.pos <= self.bytes@.len()
    }

    pub fn new(bytes: Vec<u8>) -> (r: Input)
        ensures
            r.remaining() == bytes@,
            r.wf_input(),
    {
        let r = Input { bytes, pos: 0 };
        assert(r.bytes@.skip(0) =~= r.bytes@);
        r
    }

    /// The read position is inside the bytes.
    pub closed spec fn wf_input(&self) -> bool {
        self.wf()
    }
}

/// What reading one pkt-line into a buffer of `cap` bytes gives, from the
/// bytes `rem`, and how many bytes it takes: the payload (less one final
/// line feed; empty for a flush-pkt), or an error. Running out of input
/// takes everything that is left.
pub open spec fn read_into(rem: Seq<u8>, cap: nat) -> (Result<Seq<u8>, PktError>, nat) {
    if rem.len() < 4 {
        (Err(PktError::UnexpectedEof), rem.len())
    } else {
        match size_field_value(rem.take(4)) {
            None => (Err(PktError::InvalidSize), 4),
            Some(s) => if s == 0 {
                (Ok(seq![]), 4)
            } else if s < 4 {
                (Err(PktError::SizeTooSmall), 4)
            } else if (s - 4) as nat > cap {
                (Err(PktError::BufferTooSmall), 4)
            } else if rem.len() < s {
                (Err(PktError::UnexpectedEof), rem.len())
            } else {
                (Ok(strip_lf(rem.subrange(4, s as int))), s)
            },
        }
    }
}

/// The bytes that reading one pkt-line leaves in the front of the buffer:
/// the whole payload, line feed included.
pub open spec fn payload_into(rem: Seq<u8>) -> Seq<u8> {
    match size_field_value(rem.take(4)) {
        Some(s) => if s >= 4 && rem.len() >= s {
            rem.subrange(4, s as int)
        } else {
            seq![]
        },
        None => seq![],
    }
}

/// Reading pkt-lines from a byte source.
pub trait ReadPktLine {
    /// The bytes not read yet.
    spec fn unread(&self) -> Seq<u8>;

    /// The source is in a state to be read from.
    spec fn readable(&self) -> bool;

    /// Reads one pkt-line into the front of `buf` and says how long its
    /// payload is, less one final line feed; a flush-pkt reads as 0.
    fn read_pkt_line(&mut self, buf: &mut Vec<u8>) -> (r: Result<usize, PktError>)
        requires
            old(self).readable(),
        ensures
            final(self).readable(),
            match (r, read_into(old(self).unread(), old(buf)@.len()).0) {
                (Ok(n), Ok(p)) => n == p.len(),
                (Err(e), Err(f)) => e == f,
                _ => false,
            },
            final(self).unread() == old(self).unread().skip(
                read_into(old(self).unread(), old(buf)@.len()).1 as int,
            ),
            r is Ok ==> final(buf)@ == payload_into(old(self).unread()) + old(buf)@.skip(
                payload_into(old(self).unread()).len() as int,
            ),
            r is Err ==> final(buf)@ == old(buf)@,
    ;
}

impl ReadPktLine for Input {
    open spec fn unread(&self) -> Seq<u8> {
        self.remaining()
    }

    open spec fn readable(&self) -> bool {
        self.wf_input()
    }

    fn read_pkt_line(&mut self, buf: &mut Vec<u8>) -> (r: Result<usize, PktError>) {
        let rest = slice_subrange(self.bytes.as_slice(), self.pos, self.bytes.len());
        assert(rest@ =~= self.remaining());
        let ghost rem = rest@;
        if rest.len() < 4 {
            self.pos = self.bytes.len();
            assert(self.remaining() =~= rem.skip(rem.len() as int));
            return Err(PktError::UnexpectedEof);
        }
        let size = read_pkt_line_size_any(rest);
        match size {
            Err(e) => {
                self.pos = self.pos + 4;
                assert(self.remaining() =~= rem.skip(4));
                Err(e)
            },
            Ok(s) => {
                if s == 0 {
                    self.pos = self.pos + 4;
                    assert(self.remaining() =~= rem.skip(4));
                    assert(payload_into(rem) =~= Seq::<u8>::empty());
                    assert(buf@.skip(0) =~= buf@);
                    return Ok(0);
                }
                if s < 4 {
                    self.pos = self.pos + 4;
                    assert(self.remaining() =~= rem.skip(4));
                    return Err(PktError::SizeTooSmall);
                }
                let n = s - 4;
                if n > buf.len() {
                    self.pos = self.pos + 4;
                    assert(self.remaining() =~= rem.skip(4));
                    return Err(PktError::BufferTooSmall);
                }
                if rest.len() < s {
                    self.pos = self.bytes.len();
                    assert(self.remaining() =~= rem.skip(rem.len() as int));
                    return Err(PktError::UnexpectedEof);
                }
                let mut k: usize = 0;
                while k < n
                    invariant
                        k <= n,
                        n + 4 == s,
                        s <= rest@.len(),
                        n <= buf@.len(),
                        buf@.len() == old(buf)@.len(),
                        forall|q: int| 0 <= q < k ==> buf@[q] == rest@[q + 4],
                        forall|q: int| k <= q < buf@.len() ==> buf@[q] == old(buf)@[q],
                    decreases n - k,
                {
                    buf.set(k, rest[k + 4]);
                    k = k + 1;
                }
                self.pos = self.pos + s;
                assert(self.remaining() =~= rem.skip(s as int));
                assert(buf@ =~= payload_into(rem) + old(buf)@.skip(n as int));
                if n > 0 && rest[s - 1] == 10u8 {
                    Ok(n - 1)
                } else {
                    Ok(n)
                }
            },
        }
    }
}

/// Reads the size field at the front of `input` (at least four bytes): its
/// value, whatever it is.
fn read_pkt_line_size_any(input: &[u8]) -> (r: Result<usize, PktError>)
    requires
        input@.len() >= 4,
    ensures
        match (r, size_field_value(input@.take(4))) {
            (Ok(s), Some(t)) => s == t,
            (Err(e), None) => e == PktError::InvalidSize,
            _ => false,
        },
{
    let ghost f = input@.take(4);
    let start: usize = if input[0] == 43u8 { 1 } else { 0 };
    let mut value: usize = 0;
    let mut i: usize = start;
    while i < 4
        invariant
            start <= i <= 4,
            start == 0 || start == 1,
            (start == 1) == (input@[0] == 43u8),
            input@.len() >= 4,
            f == input@.take(4),
            crate::bytes::all_hex(f.subrange(start as int, i as int)),
            value == crate::bytes::hex_number(f.subrange(start as int, i as int)),
            value < crate::pkt_line::pow16(i - start),
        decreases 4 - i,
    {
        assert(f[i as int] == input@[i as int]);
        match crate::bytes::hex_digit_value(input[i]) {
            Some(d) => {
                assert(f.subrange(start as int, i + 1).drop_last() =~= f.subrange(start as int, i as int));
                proof {
                    reveal_with_fuel(crate::pkt_line::pow16, 5);
                }
                value = value * 16 + d as usize;
                i = i + 1;
            },
            None => {
                proof {
                    let digits = f.skip(start as int);
                    assert(!crate::bytes::is_hex_digit(digits[i - start]));
                    if start == 1 {
                        assert(f.drop_first() =~= digits);
                    } else {
                        assert(f =~= digits);
                    }
                }
                return Err(PktError::InvalidSize);
            },
        }
    }
    proof {
        let digits = f.skip(start as int);
        assert(f.subrange(start as int, 4) =~= digits);
        if start == 1 {
            assert(f.drop_first() =~= digits);
        } else {
            assert(f =~= digits);
        }
    }
    Ok(value)
}

/// The text pkt-lines of a byte source, one at a time.
pub struct PktLines<'a> {
    source: &'a mut Input,
}

/// The next item of `PktLines` from the bytes `rem`: nothing at the end of
/// the input, a line's text (empty for a flush-pkt), or an error.
pub open spec fn next_line(rem: Seq<u8>) -> Option<Result<Seq<char>, PktError>> {
    match read_into(rem, 65520).0 {
        Ok(p) => if valid_utf8(p) {
            Some(Ok(decode_utf8(p)))
        } else {
            Some(Err(PktError::InvalidUtf8))
        },
        Err(PktError::UnexpectedEof) => None,
        Err(e) => Some(Err(e)),
    }
}

/// What `write_pkt_line` writes, `PktLines` reads back: the text, taking
/// exactly the bytes written.
pub proof fn law_next_line_of_written(text: Seq<char>, rest: Seq<u8>)
    requires
        0 < vstd::utf8::encode_utf8(text).len() < 65520,
    ensures
        ({
            let b = vstd::utf8::encode_utf8(text);
            let w = hex04((b.len() + 5) as nat) + b + seq![10u8];
            &&& next_line(w + rest) == Some(Ok::<Seq<char>, PktError>(text))
            &&& read_into(w + rest, 65520).1 == w.len()
        }),
{
    let b = vstd::utf8::encode_utf8(text);
    let n = (b.len() + 5) as nat;
    let w = hex04(n) + b + seq![10u8];
    let s = w + rest;
    lemma_hex04_value(n);
    assert(s.take(4) =~= hex04(n));
    assert(crate::bytes::is_hex_digit(hex04(n)[0]));
    assert(size_field_value(s.take(4)) == Some(n));
    assert(s.subrange(4, n as int) =~= b + seq![10u8]);
    assert((b + seq![10u8]).drop_last() =~= b);
    vstd::utf8::encode_utf8_valid_utf8(text);
    vstd::utf8::encode_utf8_decode_utf8(text);
}

/// What `write_pkt_line` writes, `read_pkt_line` reads back into a buffer
/// with room for the text and its line feed: the text's length, with the
/// text and the line feed at the front of the buffer, taking exactly the
/// bytes written.
pub proof fn law_read_pkt_line_of_written(text: Seq<char>, rest: Seq<u8>, cap: nat)
    requires
        0 < vstd::utf8::encode_utf8(text).len() < 65520,
        vstd::utf8::encode_utf8(text).len() < cap,
    ensures
        ({
            let b = vstd::utf8::encode_utf8(text);
            let w = hex04((b.len() + 5) as nat) + b + seq![10u8];
            &&& read_into(w + rest, cap) == (Ok::<Seq<u8>, PktError>(b), w.len())
            &&& payload_into(w + rest) == b + seq![10u8]
        }),
{
    let b = vstd::utf8::encode_utf8(text);
    let n = (b.len() + 5) as nat;
    let w = hex04(n) + b + seq![10u8];
    let s = w + rest;
    lemma_hex04_value(n);
    assert(s.take(4) =~= hex04(n));
    assert(crate::bytes::is_hex_digit(hex04(n)[0]));
    assert(size_field_value(s.take(4)) == Some(n));
    assert(s.subrange(4, n as int) =~= b + seq![10u8]);
    assert((b + seq![10u8]).drop_last() =~= b);
}

impl Input {
    /// The pkt-lines of the input, as text.
    pub fn pkt_lines(&mut self) -> (r: PktLines<'_>)
        requires
            old(self).wf_input(),
        ensures
            r.unread() == old(self).remaining(),
            r.well_formed(),
    {
        PktLines { source: self }
    }
}

impl<'a> PktLines<'a> {
    pub closed spec fn unread(&self) -> Seq<u8> {
        self.source.remaining()
    }

    pub closed spec fn well_formed(&self) -> bool {
        self.source.wf_input()
    }

    /// The next line: `None` at the end of the input, otherwise the line's
    /// text (empty for a flush-pkt) or why it could not be read.
    pub fn next(&mut self) -> (r: Option<Result<String, PktError>>)
        requires
            old(self).well_formed(),
        ensures
            final(self).well_formed(),
            match (r, next_line(old(self).unread())) {
                (None, None) => true,
                (Some(Ok(s)), Some(Ok(t))) => s@ == t,
                (Some(Err(e)), Some(Err(f))) => e == f,
                _ => false,
            },
            final(self).unread() == old(self).unread().skip(read_into(old(self).unread(), 65520).1 as int),
    {
        let mut buf: Vec<u8> = vec![0u8; 65520];
        let ghost rem = self.unread();
        match self.source.read_pkt_line(&mut buf) {
            Ok(len) => {
                proof {
                    let p = read_into(rem, 65520).0->Ok_0;
                    let full = payload_into(rem);
                    if rem.len() >= 4 {
                        match size_field_value(rem.take(4)) {
                            Some(sz) => {
                                if sz >= 4 && rem.len() >= sz {
                                    assert(p =~= full.take(p.len() as int));
                                }
                            },
                            None => {},
                        }
                    }
                    assert(buf@.take(len as int) =~= p);
                }
                buf.truncate(len);
                match string_from_utf8(buf) {
                    Some(s) => Some(Ok(s)),
                    None => Some(Err(PktError::InvalidUtf8)),
                }
            },
            Err(PktError::UnexpectedEof) => None,
            Err(e) => Some(Err(e)),
        }
    }
}

} // verus!
