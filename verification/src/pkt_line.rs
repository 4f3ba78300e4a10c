//! The pkt-line framing of the git wire protocol: a four-digit hexadecimal
//! length (which counts itself) followed by the payload, and the special
//! flush-pkt `0000`.
use vstd::prelude::*;
use vstd::utf8::{valid_utf8, decode_utf8};
use vstd::string::StringSliceAdditionalSpecFns;
use vstd::slice::{slice_subrange, slice_to_vec};
use crate::bytes::{string_from_utf8, lemma_hex04_value, hex04, hex04_bytes, push_all, all_hex, hex_number, is_hex_digit, hex_digit_value};

verus! {

pub const MAX_PKT_LINE_LEN: usize = 65520;
pub const PKT_LINE_SIZE_LEN: usize = 4;
pub const MAX_PKT_LINE_DATA_LEN: usize = MAX_PKT_LINE_LEN - PKT_LINE_SIZE_LEN;

/// One pkt-line: either the flush-pkt or a line carrying a payload.
#[derive(Debug, PartialEq, Eq)]
pub enum PktLine<T> {
    Flush,
    Line(T),
}

impl<T: View> View for PktLine<T> {
    type V = PktLine<T::V>;

    open spec fn view(&self) -> PktLine<T::V> {
        match self {
            PktLine::Flush => PktLine::Flush,
            PktLine::Line(t) => PktLine::Line(t@),
        }
    }
}

/// Why a pkt-line could not be written or read.
#[derive(Debug, Clone, Copy, PartialEq, Eq, Structural)]
pub enum PktError {
    /// The payload is longer than a pkt-line can carry.
    DataTooLong,
    /// The four length bytes are not a hexadecimal number.
    InvalidSize,
    /// The length is 1, 2 or 3.
    SizeTooSmall,
    /// The length is greater than 65520.
    SizeTooLarge,
    /// The input ended inside a pkt-line.
    UnexpectedEof,
    /// A payload that should be text is not UTF-8.
    InvalidUtf8,
    /// The payload does not fit in the buffer it is read into.
    BufferTooSmall,
}

/// The bytes of one pkt-line carrying `data`.
pub open spec fn frame(data: Seq<u8>) -> Seq<u8> {
    hex04(data.len() + 4) + data
}

pub open spec fn flush_pkt() -> Seq<u8> {
    seq![48u8, 48u8, 48u8, 48u8]
}

/// What `write_str` sends for a text payload: a line feed is added when the
/// text does not end with one and there is room for it.
pub open spec fn text_frame(data: Seq<u8>) -> Seq<u8> {
    if data.last() != 10u8 && data.len() < MAX_PKT_LINE_DATA_LEN {
        hex04(data.len() + 5) + data + seq![10u8]
    } else {
        hex04(data.len() + 4) + data
    }
}

/// Writes `buf` as one pkt-line; an empty `buf` writes nothing.
pub fn write(writer: &mut Vec<u8>, buf: &[u8]) -> (r: Result<(), PktError>)
    ensures
        buf@.len() == 0 ==> r == Ok::<(), PktError>(()) && final(writer)@ == old(writer)@,
        buf@.len() > MAX_PKT_LINE_DATA_LEN ==> r == Err::<(), PktError>(PktError::DataTooLong)
            && final(writer)@ == old(writer)@,
        0 < buf@.len() <= MAX_PKT_LINE_DATA_LEN ==> r is Ok && final(writer)@ == old(writer)@
            + frame(buf@),
{
    if buf.len() == 0 {
        return Ok(());
    }
    if buf.len() > MAX_PKT_LINE_DATA_LEN {
        return Err(PktError::DataTooLong);
    }
    let header = hex04_bytes(buf.len() + PKT_LINE_SIZE_LEN);
    push_all(writer, header.as_slice());
    push_all(writer, buf);
    assert(writer@ =~= old(writer)@ + frame(buf@));
    Ok(())
}

/// Writes the text `buf` as one pkt-line, adding a final line feed when it has
/// none and fits; an empty `buf` writes nothing.
pub fn write_str(writer: &mut Vec<u8>, buf: &str) -> (r: Result<(), PktError>)
    ensures
        buf.spec_bytes().len() == 0 ==> r == Ok::<(), PktError>(()) && final(writer)@ == old(
            writer,
        )@,
        buf.spec_bytes().len() > MAX_PKT_LINE_DATA_LEN ==> r == Err::<(), PktError>(
            PktError::DataTooLong,
        ) && final(writer)@ == old(writer)@,
        0 < buf.spec_bytes().len() <= MAX_PKT_LINE_DATA_LEN ==> r is Ok && final(writer)@ == old(
            writer,
        )@ + text_frame(buf.spec_bytes()),
{
    let bytes = buf.as_bytes();
    write_text(writer, bytes)
}

/// `write_str` on the encoded bytes of the text.
pub fn write_text(writer: &mut Vec<u8>, buf: &[u8]) -> (r: Result<(), PktError>)
    ensures
        buf@.len() == 0 ==> r == Ok::<(), PktError>(()) && final(writer)@ == old(writer)@,
        buf@.len() > MAX_PKT_LINE_DATA_LEN ==> r == Err::<(), PktError>(PktError::DataTooLong)
            && final(writer)@ == old(writer)@,
        0 < buf@.len() <= MAX_PKT_LINE_DATA_LEN ==> r is Ok && final(writer)@ == old(writer)@
            + text_frame(buf@),
{
    if buf.len() == 0 {
        return Ok(());
    }
    let len = buf.len();
    if len > MAX_PKT_LINE_DATA_LEN {
        return Err(PktError::DataTooLong);
    }
    let inject_line_feed = buf[len - 1] != 10u8 && len < MAX_PKT_LINE_DATA_LEN;
    let header = hex04_bytes(len + if inject_line_feed { 5 } else { 4 });
    push_all(writer, header.as_slice());
    push_all(writer, buf);
    if inject_line_feed {
        writer.push(10u8);
    }
    assert(writer@ =~= old(writer)@ + text_frame(buf@));
    Ok(())
}

/// Writes the flush-pkt `0000`.
pub fn flush(writer: &mut Vec<u8>)
    ensures
        final(writer)@ == old(writer)@ + flush_pkt(),
{
    writer.push(48u8);
    writer.push(48u8);
    writer.push(48u8);
    writer.push(48u8);
    assert(writer@ =~= old(writer)@ + flush_pkt());
}

/// The value of a four-byte length field, as `usize::from_str_radix(_, 16)`
/// reads it after UTF-8 decoding: four hexadecimal digits of either case, or
/// `+` and three of them.
pub open spec fn size_field_value(f: Seq<u8>) -> Option<nat> {
    if f.len() > 0 && f[0] == 43u8 {
        if f.len() > 1 && all_hex(f.drop_first()) {
            Some(hex_number(f.drop_first()))
        } else {
            None
        }
    } else if f.len() > 0 && all_hex(f) {
        Some(hex_number(f))
    } else {
        None
    }
}

/// The length header at the start of `input`: the flush-pkt, or the payload
/// length of a line.
pub open spec fn spec_read_size(input: Seq<u8>) -> Result<PktLine<nat>, PktError> {
    if input.len() < 4 {
        Err(PktError::UnexpectedEof)
    } else {
        match size_field_value(input.take(4)) {
            None => Err(PktError::InvalidSize),
            Some(s) => if s == 0 {
                Ok(PktLine::Flush)
            } else if s < 4 {
                Err(PktError::SizeTooSmall)
            } else if s > MAX_PKT_LINE_LEN {
                Err(PktError::SizeTooLarge)
            } else {
                Ok(PktLine::Line((s - 4) as nat))
            },
        }
    }
}

/// `data` without one final line feed, if it ends with one.
pub open spec fn strip_lf(data: Seq<u8>) -> Seq<u8> {
    if data.len() > 0 && data.last() == 10u8 {
        data.drop_last()
    } else {
        data
    }
}

/// The pkt-line at the start of `input` and the number of bytes it takes.
pub open spec fn spec_read(input: Seq<u8>) -> Result<(PktLine<Seq<u8>>, nat), PktError> {
    match spec_read_size(input) {
        Err(e) => Err(e),
        Ok(PktLine::Flush) => Ok((PktLine::Flush, 4)),
        Ok(PktLine::Line(n)) => if input.len() < 4 + n {
            Err(PktError::UnexpectedEof)
        } else {
            Ok((PktLine::Line(strip_lf(input.subrange(4, 4 + n as int))), 4 + n))
        },
    }
}

/// The pkt-lines of `input` that are read before reading stops, and how it
/// stops: input that ends inside a pkt-line ends the reading well, any other
/// error ends it with that error.
pub open spec fn spec_each(input: Seq<u8>) -> (Seq<PktLine<Seq<u8>>>, Result<(), PktError>)
    decreases input.len(),
{
    match spec_read(input) {
        Err(PktError::UnexpectedEof) => (seq![], Ok(())),
        Err(e) => (seq![], Err(e)),
        Ok((line, n)) => if 0 < n <= input.len() {
            let (rest, r) = spec_each(input.skip(n as int));
            (seq![line] + rest, r)
        } else {
            (seq![], Err(PktError::UnexpectedEof))
        },
    }
}

/// `spec_each` with every payload decoded as UTF-8 text, in order: the first
/// payload that is not UTF-8 stops the reading with an error, after the
/// lines before it.
pub open spec fn spec_each_str(input: Seq<u8>) -> (Seq<PktLine<Seq<char>>>, Result<(), PktError>)
    decreases input.len(),
{
    match spec_read(input) {
        Err(PktError::UnexpectedEof) => (seq![], Ok(())),
        Err(e) => (seq![], Err(e)),
        Ok((line, n)) => if 0 < n <= input.len() {
            match line {
                PktLine::Line(data) => if !valid_utf8(data) {
                    (seq![], Err(PktError::InvalidUtf8))
                } else {
                    let (rest, r) = spec_each_str(input.skip(n as int));
                    (seq![PktLine::Line(decode_utf8(data))] + rest, r)
                },
                PktLine::Flush => {
                    let (rest, r) = spec_each_str(input.skip(n as int));
                    (seq![PktLine::Flush] + rest, r)
                },
            }
        } else {
            (seq![], Err(PktError::UnexpectedEof))
        },
    }
}

/// Reads the four-byte length header at the start of `reader`.
pub fn read_pkt_line_size(reader: &[u8]) -> (r: Result<PktLine<usize>, PktError>)
    ensures
        match (r, spec_read_size(reader@)) {
            (Ok(PktLine::Flush), Ok(PktLine::Flush)) => true,
            (Ok(PktLine::Line(n)), Ok(PktLine::Line(m))) => n == m,
            (Err(e), Err(f)) => e == f,
            _ => false,
        },
{
    if reader.len() < PKT_LINE_SIZE_LEN {
        return Err(PktError::UnexpectedEof);
    }
    let ghost f = reader@.take(4);
    let start: usize = if reader[0] == 43u8 { 1 } else { 0 };
    let ghost digits = f.skip(start as int);
    let mut value: usize = 0;
    let mut i: usize = start;
    while i < 4
        invariant
            start <= i <= 4,
            start == 0 || start == 1,
            (start == 1) == (reader@[0] == 43u8),
            reader@.len() >= 4,
            f == reader@.take(4),
            digits == f.skip(start as int),
            all_hex(f.subrange(start as int, i as int)),
            value == hex_number(f.subrange(start as int, i as int)),
            value < pow16(i - start),
        decreases 4 - i,
    {
        assert(f[i as int] == reader@[i as int]);
        match hex_digit_value(reader[i]) {
            Some(d) => {
                assert(f.subrange(start as int, i + 1).drop_last() =~= f.subrange(start as int, i as int));
                proof {
                    reveal_with_fuel(pow16, 5);
                    assert(pow16(i - start) <= 4096);
                }
                value = value * 16 + d as usize;
                i = i + 1;
            },
            None => {
                proof {
                    assert(!is_hex_digit(digits[i - start]));
                    if start == 1 {
                        assert(f.drop_first() =~= digits);
                    } else {
                        assert(f =~= digits);
                    }
                }
                return Err(PktError::InvalidSize);
            },
        }
    }
    assert(f.subrange(start as int, 4) =~= digits);
    if start == 1 {
        assert(f.drop_first() =~= digits);
    } else {
        assert(f =~= digits);
    }
    if value == 0 {
        return Ok(PktLine::Flush);
    }
    if value < PKT_LINE_SIZE_LEN {
        return Err(PktError::SizeTooSmall);
    }
    if value > MAX_PKT_LINE_LEN {
        return Err(PktError::SizeTooLarge);
    }
    Ok(PktLine::Line(value - PKT_LINE_SIZE_LEN))
}

pub open spec fn pow16(k: int) -> nat
    decreases k,
{
    if k <= 0 {
        1
    } else {
        16 * pow16(k - 1)
    }
}

/// Reads the pkt-line at the start of `reader`, and says how many bytes it
/// took. One final line feed of the payload is dropped.
pub fn read(reader: &[u8]) -> (r: Result<(PktLine<Vec<u8>>, usize), PktError>)
    ensures
        match (r, spec_read(reader@)) {
            (Ok((l, n)), Ok((m, k))) => l@ == m && n == k,
            (Err(e), Err(f)) => e == f,
            _ => false,
        },
{
    let size = read_pkt_line_size(reader);
    match size {
        Err(e) => Err(e),
        Ok(PktLine::Flush) => Ok((PktLine::Flush, PKT_LINE_SIZE_LEN)),
        Ok(PktLine::Line(n)) => {
            if reader.len() - PKT_LINE_SIZE_LEN < n {
                return Err(PktError::UnexpectedEof);
            }
            let end = if n > 0 && reader[PKT_LINE_SIZE_LEN + n - 1] == 10u8 {
                PKT_LINE_SIZE_LEN + n - 1
            } else {
                PKT_LINE_SIZE_LEN + n
            };
            let data = slice_to_vec(slice_subrange(reader, PKT_LINE_SIZE_LEN, end));
            assert(data@ =~= strip_lf(reader@.subrange(4, 4 + n as int)));
            Ok((PktLine::Line(data), PKT_LINE_SIZE_LEN + n))
        },
    }
}

/// Reads the pkt-lines of `reader` in order, up to its end or the first
/// error, and gives them with how the reading ended: input that ends inside
/// a pkt-line ends it well, any other error is given after the lines before
/// it.
pub fn each(reader: &[u8]) -> (r: (Vec<PktLine<Vec<u8>>>, Result<(), PktError>))
    ensures
        r.0@.map_values(|l: PktLine<Vec<u8>>| l@) == spec_each(reader@).0,
        r.1 == spec_each(reader@).1,
{
    let mut lines: Vec<PktLine<Vec<u8>>> = Vec::new();
    let mut pos: usize = 0;
    proof {
        assert(reader@.skip(0) =~= reader@);
        assert(lines@.map_values(|l: PktLine<Vec<u8>>| l@) + spec_each(reader@).0 =~= spec_each(reader@).0);
    }
    loop
        invariant
            pos <= reader@.len(),
            spec_each(reader@).0 == lines@.map_values(|l: PktLine<Vec<u8>>| l@) + spec_each(reader@.skip(pos as int)).0,
            spec_each(reader@).1 == spec_each(reader@.skip(pos as int)).1,
        decreases reader@.len() - pos,
    {
        let rest = slice_subrange(reader, pos, reader.len());
        assert(rest@ =~= reader@.skip(pos as int));
        match read(rest) {
            Err(PktError::UnexpectedEof) => {
                assert(lines@.map_values(|l: PktLine<Vec<u8>>| l@) + seq![] =~= lines@.map_values(|l: PktLine<Vec<u8>>| l@));
                return (lines, Ok(()));
            },
            Err(e) => {
                assert(lines@.map_values(|l: PktLine<Vec<u8>>| l@) + seq![] =~= lines@.map_values(|l: PktLine<Vec<u8>>| l@));
                return (lines, Err(e));
            },
            Ok((line, n)) => {
                let ghost old_lines = lines@.map_values(|l: PktLine<Vec<u8>>| l@);
                let ghost lv = line@;
                assert(reader@.skip(pos as int).skip(n as int) =~= reader@.skip((pos + n) as int));
                lines.push(line);
                assert(lines@.map_values(|l: PktLine<Vec<u8>>| l@) =~= old_lines.push(lv));
                pos = pos + n;
                proof {
                    let r2 = spec_each(reader@.skip(pos as int)).0;
                    assert(old_lines + (seq![lv] + r2) =~= old_lines.push(lv) + r2);
                }
            },
        }
    }
}

/// Reads the pkt-lines of `reader` as `each` does, decoding each payload as
/// UTF-8 text; a payload that is not UTF-8 stops the reading with an error,
/// given after the lines before it.
pub fn each_str(reader: &[u8]) -> (r: (Vec<PktLine<String>>, Result<(), PktError>))
    ensures
        r.0@.map_values(|l: PktLine<String>| l@) == spec_each_str(reader@).0,
        r.1 == spec_each_str(reader@).1,
{
    let mut lines: Vec<PktLine<String>> = Vec::new();
    let mut pos: usize = 0;
    proof {
        assert(reader@.skip(0) =~= reader@);
        assert(lines@.map_values(|l: PktLine<String>| l@) + spec_each_str(reader@).0 =~= spec_each_str(reader@).0);
    }
    loop
        invariant
            pos <= reader@.len(),
            spec_each_str(reader@).0 == lines@.map_values(|l: PktLine<String>| l@) + spec_each_str(reader@.skip(pos as int)).0,
            spec_each_str(reader@).1 == spec_each_str(reader@.skip(pos as int)).1,
        decreases reader@.len() - pos,
    {
        let rest = slice_subrange(reader, pos, reader.len());
        assert(rest@ =~= reader@.skip(pos as int));
        match read(rest) {
            Err(PktError::UnexpectedEof) => {
                assert(lines@.map_values(|l: PktLine<String>| l@) + seq![] =~= lines@.map_values(|l: PktLine<String>| l@));
                return (lines, Ok(()));
            },
            Err(e) => {
                assert(lines@.map_values(|l: PktLine<String>| l@) + seq![] =~= lines@.map_values(|l: PktLine<String>| l@));
                return (lines, Err(e));
            },
            Ok((line, n)) => {
                let ghost old_lines = lines@.map_values(|l: PktLine<String>| l@);
                assert(reader@.skip(pos as int).skip(n as int) =~= reader@.skip((pos + n) as int));
                let text = match line {
                    PktLine::Flush => PktLine::Flush,
                    PktLine::Line(data) => {
                        match string_from_utf8(data) {
                            Some(s) => PktLine::Line(s),
                            None => {
                                assert(lines@.map_values(|l: PktLine<String>| l@) + seq![] =~= lines@.map_values(|l: PktLine<String>| l@));
                                return (lines, Err(PktError::InvalidUtf8));
                            },
                        }
                    },
                };
                let ghost lv = text@;
                lines.push(text);
                assert(lines@.map_values(|l: PktLine<String>| l@) =~= old_lines.push(lv));
                pos = pos + n;
                proof {
                    let r2 = spec_each_str(reader@.skip(pos as int)).0;
                    assert(old_lines + (seq![lv] + r2) =~= old_lines.push(lv) + r2);
                }
            },
        }
    }
}

pub proof fn lemma_read_size_of_header(n: nat, rest: Seq<u8>)
    requires
        n < 0x10000,
    ensures
        spec_read_size(hex04(n) + rest) == (if n == 0 {
            Ok::<PktLine<nat>, PktError>(PktLine::Flush)
        } else if n < 4 {
            Err(PktError::SizeTooSmall)
        } else if n > MAX_PKT_LINE_LEN {
            Err(PktError::SizeTooLarge)
        } else {
            Ok(PktLine::Line((n - 4) as nat))
        }),
{
    lemma_hex04_value(n);
    let input = hex04(n) + rest;
    assert(input.take(4) =~= hex04(n));
    assert(is_hex_digit(hex04(n)[0]));
}

/// A payload written as one pkt-line reads back, whatever follows it, as that
/// payload less one final line feed, taking exactly the bytes written.
pub proof fn law_read_of_write(data: Seq<u8>, rest: Seq<u8>)
    requires
        0 < data.len() <= MAX_PKT_LINE_DATA_LEN,
    ensures
        spec_read(frame(data) + rest) == Ok::<(PktLine<Seq<u8>>, nat), PktError>(
            (PktLine::Line(strip_lf(data)), frame(data).len()),
        ),
{
    let n = data.len() + 4;
    lemma_read_size_of_header(n, data + rest);
    lemma_hex04_value(n);
    assert(frame(data) + rest =~= hex04(n) + (data + rest));
    assert((frame(data) + rest).subrange(4, 4 + data.len() as int) =~= data);
}

/// Text written with `write_str` reads back as the text less one final line
/// feed: the line feed that writing added, or the one the text had.
pub proof fn law_read_of_write_str(data: Seq<u8>, rest: Seq<u8>)
    requires
        0 < data.len() <= MAX_PKT_LINE_DATA_LEN,
    ensures
        spec_read(text_frame(data) + rest) == Ok::<(PktLine<Seq<u8>>, nat), PktError>(
            (PktLine::Line(strip_lf(data)), text_frame(data).len()),
        ),
{
    if data.last() != 10u8 && data.len() < MAX_PKT_LINE_DATA_LEN {
        let d2 = data + seq![10u8];
        law_read_of_write(d2, rest);
        assert(text_frame(data) =~= frame(d2));
        assert(d2.drop_last() =~= data);
        assert(strip_lf(data) == data);
    } else {
        law_read_of_write(data, rest);
        assert(text_frame(data) =~= frame(data));
    }
}

/// The flush-pkt reads back as a flush, taking its four bytes.
pub proof fn law_read_of_flush(rest: Seq<u8>)
    ensures
        spec_read(flush_pkt() + rest) == Ok::<(PktLine<Seq<u8>>, nat), PktError>(
            (PktLine::Flush, 4),
        ),
{
    lemma_read_size_of_header(0, rest);
    reveal_with_fuel(crate::bytes::hex_digits, 2);
    assert(hex04(0) =~= flush_pkt());
}

/// One item of a pkt-line stream: the flush-pkt or a line of text.
pub enum Pkt {
    Flush,
    Text(Seq<char>),
}

/// What writing `items` in order with `write_str` and `flush` produces, and
/// how it ends: the first text too long for a pkt-line stops the writing with
/// an error; an empty text writes nothing.
pub open spec fn emit(items: Seq<Pkt>) -> (Seq<u8>, Result<(), PktError>)
    decreases items.len(),
{
    if items.len() == 0 {
        (seq![], Ok(()))
    } else {
        let (b, r) = emit(items.drop_last());
        if r is Err {
            (b, r)
        } else {
            match items.last() {
                Pkt::Flush => (b + flush_pkt(), Ok(())),
                Pkt::Text(t) => {
                    let bytes = vstd::utf8::encode_utf8(t);
                    if bytes.len() == 0 {
                        (b, Ok(()))
                    } else if bytes.len() > MAX_PKT_LINE_DATA_LEN {
                        (b, Err(PktError::DataTooLong))
                    } else {
                        (b + text_frame(bytes), Ok(()))
                    }
                },
            }
        }
    }
}

/// Emitting one more item extends what was emitted before.
pub proof fn lemma_emit_push(items: Seq<Pkt>, x: Pkt)
    ensures
        emit(items.push(x)).1 is Ok ==> emit(items).1 is Ok,
        emit(items).1 is Err ==> emit(items.push(x)) == emit(items),
        emit(items).1 is Ok ==> emit(items.push(x)) == (match x {
            Pkt::Flush => (emit(items).0 + flush_pkt(), Ok::<(), PktError>(())),
            Pkt::Text(t) => {
                let bytes = vstd::utf8::encode_utf8(t);
                if bytes.len() == 0 {
                    (emit(items).0, Ok::<(), PktError>(()))
                } else if bytes.len() > MAX_PKT_LINE_DATA_LEN {
                    (emit(items).0, Err(PktError::DataTooLong))
                } else {
                    (emit(items).0 + text_frame(bytes), Ok(()))
                }
            },
        }),
{
    assert(items.push(x).drop_last() =~= items);
}

/// Once writing has failed, nothing that follows is written.
pub proof fn lemma_emit_stops(items: Seq<Pkt>, more: Seq<Pkt>)
    requires
        emit(items).1 is Err,
    ensures
        emit(items + more) == emit(items),
    decreases more.len(),
{
    if more.len() == 0 {
        assert(items + more =~= items);
    } else {
        lemma_emit_stops(items, more.drop_last());
        assert((items + more.drop_last()).push(more.last()) =~= items + more);
        lemma_emit_push(items + more.drop_last(), more.last());
    }
}

/// The pkt-lines that reading back what `items` wrote gives: a flush for a
/// flush, and for a non-empty text its bytes less one final line feed.
pub open spec fn read_back(items: Seq<Pkt>) -> Seq<PktLine<Seq<u8>>>
    decreases items.len(),
{
    if items.len() == 0 {
        seq![]
    } else {
        let r = read_back(items.drop_last());
        match items.last() {
            Pkt::Flush => r.push(PktLine::Flush),
            Pkt::Text(t) => {
                let b = vstd::utf8::encode_utf8(t);
                if b.len() == 0 {
                    r
                } else {
                    r.push(PktLine::Line(strip_lf(b)))
                }
            },
        }
    }
}

/// `input` is whole pkt-lines, with nothing after the last one.
pub open spec fn whole_lines(input: Seq<u8>) -> bool
    decreases input.len(),
{
    input.len() == 0 || match spec_read(input) {
        Ok((_, n)) => 0 < n <= input.len() && whole_lines(input.skip(n as int)),
        Err(_) => false,
    }
}

proof fn lemma_read_prefix(a: Seq<u8>, x: Seq<u8>)
    requires
        spec_read(a) matches Ok((_, n)) && n <= a.len(),
    ensures
        spec_read(a + x) == spec_read(a),
{
    assert((a + x).take(4) =~= a.take(4));
    match spec_read(a) {
        Ok((PktLine::Line(_), n)) => {
            assert((a + x).subrange(4, n as int) =~= a.subrange(4, n as int));
        },
        _ => {},
    }
}

/// Reading whole pkt-lines followed by one more pkt-line `f` gives their
/// lines and then `f`'s.
proof fn lemma_each_append(a: Seq<u8>, f: Seq<u8>, line: PktLine<Seq<u8>>)
    requires
        whole_lines(a),
        spec_each(a).1 is Ok,
        0 < f.len(),
        forall|rest: Seq<u8>| #[trigger] spec_read(f + rest) == Ok::<(PktLine<Seq<u8>>, nat), PktError>((line, f.len())),
    ensures
        whole_lines(a + f),
        spec_each(a + f) == (spec_each(a).0.push(line), Ok::<(), PktError>(())),
    decreases a.len(),
{
    if a.len() == 0 {
        assert(a + f =~= f);
        assert(spec_read(f + Seq::<u8>::empty()) == Ok::<(PktLine<Seq<u8>>, nat), PktError>((line, f.len())));
        assert(f + Seq::<u8>::empty() =~= f);
        assert(f.skip(f.len() as int) =~= Seq::<u8>::empty());
        assert(spec_each(Seq::<u8>::empty()) == (Seq::<PktLine<Seq<u8>>>::empty(), Ok::<(), PktError>(())));
        assert(spec_each(f) == (seq![line], Ok::<(), PktError>(())));
        assert(seq![line] =~= Seq::<PktLine<Seq<u8>>>::empty().push(line));
        assert(whole_lines(f.skip(f.len() as int)));
        assert(whole_lines(f));
    } else {
        let (l, n) = spec_read(a)->Ok_0;
        lemma_read_prefix(a, f);
        let tail = a.skip(n as int);
        assert((a + f).skip(n as int) =~= tail + f);
        lemma_each_append(tail, f, line);
        let xs = spec_each(tail).0;
        assert(spec_each(a).0 == seq![l] + xs);
        assert(spec_each(tail).1 is Ok);
        assert(spec_each(a).1 == spec_each(tail).1);
        assert(spec_each(a + f).1 == spec_each(tail + f).1);
        assert(spec_each(a + f).0 == seq![l] + spec_each(tail + f).0);
        assert(seq![l] + xs.push(line) =~= (seq![l] + xs).push(line));
        assert(whole_lines((a + f).skip(n as int)));
        assert(whole_lines(a + f));
    }
}

/// What is written is what is read: reading back the bytes that writing
/// `items` produced gives each flush, and each non-empty text less one
/// final line feed, in order.
pub proof fn law_each_of_emit(items: Seq<Pkt>)
    requires
        emit(items).1 is Ok,
    ensures
        whole_lines(emit(items).0),
        spec_each(emit(items).0) == (read_back(items), Ok::<(), PktError>(())),
    decreases items.len(),
{
    if items.len() == 0 {
        assert(spec_each(Seq::<u8>::empty()) == (Seq::<PktLine<Seq<u8>>>::empty(), Ok::<(), PktError>(())));
    } else {
        let init = items.drop_last();
        lemma_emit_push(init, items.last());
        assert(init.push(items.last()) =~= items);
        law_each_of_emit(init);
        let b = emit(init).0;
        match items.last() {
            Pkt::Flush => {
                assert forall|rest: Seq<u8>| #[trigger] spec_read(flush_pkt() + rest)
                    == Ok::<(PktLine<Seq<u8>>, nat), PktError>((PktLine::Flush, flush_pkt().len())) by {
                    law_read_of_flush(rest);
                }
                lemma_each_append(b, flush_pkt(), PktLine::Flush);
            },
            Pkt::Text(t) => {
                let bytes = vstd::utf8::encode_utf8(t);
                if bytes.len() > 0 {
                    let f = text_frame(bytes);
                    assert forall|rest: Seq<u8>| #[trigger] spec_read(f + rest)
                        == Ok::<(PktLine<Seq<u8>>, nat), PktError>((PktLine::Line(strip_lf(bytes)), f.len())) by {
                        law_read_of_write_str(bytes, rest);
                    }
                    crate::bytes::lemma_hex04_value(bytes.len() + 4);
                    lemma_each_append(b, f, PktLine::Line(strip_lf(bytes)));
                }
            },
        }
    }
}

/// The items that write each of `lines` as a text pkt-line.
pub open spec fn text_items(lines: Seq<String>) -> Seq<Pkt> {
    lines.map_values(|l: String| Pkt::Text(l@))
}

/// Writes each of `lines` as a text pkt-line, in order, as `write_str` does;
/// a line too long for a pkt-line stops the writing with an error.
pub fn write_lines(writer: &mut Vec<u8>, lines: &Vec<String>) -> (r: Result<(), PktError>)
    ensures
        final(writer)@ == old(writer)@ + emit(text_items(lines@)).0,
        r == emit(text_items(lines@)).1,
{
    let ghost items = text_items(lines@);
    let mut i: usize = 0;
    assert(items.take(0) =~= Seq::<Pkt>::empty());
    assert(old(writer)@ + Seq::<u8>::empty() =~= old(writer)@);
    while i < lines.len()
        invariant
            i <= lines@.len(),
            items == text_items(lines@),
            emit(items.take(i as int)).1 is Ok,
            writer@ == old(writer)@ + emit(items.take(i as int)).0,
        decreases lines@.len() - i,
    {
        proof {
            lemma_emit_push(items.take(i as int), items[i as int]);
            assert(items.take(i as int).push(items[i as int]) =~= items.take(i + 1));
        }
        let ghost before = writer@;
        let res = write_str(writer, lines[i].as_str());
        if res.is_err() {
            proof {
                lemma_emit_stops(items.take(i + 1), items.skip(i + 1));
                assert(items.take(i + 1) + items.skip(i + 1) =~= items);
                assert(writer@ == before);
            }
            return res;
        }
        proof {
            assert(writer@ =~= old(writer)@ + emit(items.take(i + 1)).0);
        }
        i = i + 1;
    }
    assert(items.take(i as int) =~= items);
    Ok(())
}

} // verus!
