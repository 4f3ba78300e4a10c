//! Side-band multiplexing of a pack stream, for the `side-band` and
//! `side-band-64k` capabilities; without either it passes the pack data
//! through unchanged.
use vstd::prelude::*;
use vstd::string::StringSliceAdditionalSpecFns;
use vstd::slice::slice_subrange;
use crate::bytes::push_all;
use crate::capability::{Capability, Capabilities, CapabilityV};
use crate::pkt_line::{self, frame, spec_read_size, lemma_read_size_of_header, PktLine, MAX_PKT_LINE_DATA_LEN};
use crate::bytes::{hex04, lemma_hex04_value};

verus! {

/// Why the multiplexer refused to work.
#[derive(Debug, Clone, Copy, PartialEq, Eq, Structural)]
pub enum MuxError {
    /// The client asked for both `side-band` and `side-band-64k`.
    BothSideBands,
    /// A progress or error message is longer than a side-band packet.
    MessageTooLong,
}

/// The payload limit that the client's capabilities select, or `None` for
/// no multiplexing; both side-band capabilities at once are an error.
pub open spec fn band_limit_for(caps: Seq<CapabilityV>) -> Result<Option<usize>, MuxError> {
    let sb = caps.contains(CapabilityV::SideBand);
    let sb64 = caps.contains(CapabilityV::SideBand64K);
    if sb && sb64 {
        Err(MuxError::BothSideBands)
    } else if sb {
        Ok(Some(1000usize))
    } else if sb64 {
        Ok(Some(MAX_PKT_LINE_DATA_LEN))
    } else {
        Ok(None)
    }
}

/// The pkt-lines that carry `data` on side-band `band`, in chunks of at most
/// `chunk` bytes each.
pub open spec fn band_frames(band: u8, data: Seq<u8>, chunk: nat) -> Seq<u8>
    decreases data.len(),
{
    if data.len() == 0 || chunk == 0 {
        seq![]
    } else {
        let n = if data.len() < chunk {
            data.len()
        } else {
            chunk
        };
        frame(seq![band] + data.take(n as int)) + band_frames(band, data.skip(n as int), chunk)
    }
}

/// The data that a side-band stream carries on `band`: each pkt-line, read
/// by its length, has the band byte first and the data after it; `None` when
/// the stream is not such a sequence of pkt-lines.
pub open spec fn demux(stream: Seq<u8>, band: u8) -> Option<Seq<u8>>
    decreases stream.len(),
{
    if stream.len() == 0 {
        Some(seq![])
    } else {
        match spec_read_size(stream) {
            Ok(PktLine::Line(n)) => if 1 <= n && 4 + n <= stream.len() && stream[4] == band {
                match demux(stream.skip(4 + n as int), band) {
                    Some(rest) => Some(stream.subrange(5, 4 + n as int) + rest),
                    None => None,
                }
            } else {
                None
            },
            _ => None,
        }
    }
}

/// Demultiplexing gives back what was multiplexed: the pkt-lines that carry
/// `data` on `band`, in chunks that fit in a pkt-line, read back as `data`.
pub proof fn law_demux_of_frames(band: u8, data: Seq<u8>, chunk: nat)
    requires
        1 <= chunk < MAX_PKT_LINE_DATA_LEN,
    ensures
        demux(band_frames(band, data, chunk), band) == Some(data),
    decreases data.len(),
{
    if data.len() > 0 {
        let n: int = if data.len() < chunk { data.len() as int } else { chunk as int };
        let p = seq![band] + data.take(n);
        let rest = band_frames(band, data.skip(n), chunk);
        law_demux_of_frames(band, data.skip(n), chunk);
        let s = band_frames(band, data, chunk);
        assert(s == frame(p) + rest);
        lemma_hex04_value(p.len() + 4);
        lemma_read_size_of_header(p.len() + 4, p + rest);
        assert(s =~= hex04(p.len() + 4) + (p + rest));
        assert(s.skip(4 + p.len() as int) =~= rest);
        assert(s.subrange(5, 4 + p.len() as int) =~= data.take(n));
        assert(s[4] == band);
        assert(data.take(n) + data.skip(n) =~= data);
    }
}

/// `stream` is a sequence of pkt-lines that each carry between one and
/// `limit` bytes.
pub open spec fn packets_within(stream: Seq<u8>, limit: nat) -> bool
    decreases stream.len(),
{
    stream.len() == 0 || match spec_read_size(stream) {
        Ok(PktLine::Line(n)) => n <= limit && 0 < n && 4 + n <= stream.len() && packets_within(
            stream.skip(4 + n as int),
            limit,
        ),
        _ => false,
    }
}

/// No side-band packet of pack data is longer than the limit that the
/// client's capabilities select: the band byte and `chunk` data bytes.
pub proof fn law_frames_within_limit(band: u8, data: Seq<u8>, chunk: nat)
    requires
        1 <= chunk < MAX_PKT_LINE_DATA_LEN,
    ensures
        packets_within(band_frames(band, data, chunk), chunk + 1),
    decreases data.len(),
{
    if data.len() > 0 {
        let n: int = if data.len() < chunk { data.len() as int } else { chunk as int };
        let p = seq![band] + data.take(n);
        let rest = band_frames(band, data.skip(n), chunk);
        law_frames_within_limit(band, data.skip(n), chunk);
        let s = band_frames(band, data, chunk);
        assert(s == frame(p) + rest);
        lemma_hex04_value(p.len() + 4);
        lemma_read_size_of_header(p.len() + 4, p + rest);
        assert(s =~= hex04(p.len() + 4) + (p + rest));
        assert(s.skip(4 + p.len() as int) =~= rest);
    }
}

/// A writer of pack data, progress and error messages onto the side-bands
/// that the client asked for.
pub struct Multiplexer {
    writer: Vec<u8>,
    limit: Option<usize>,
}

impl Multiplexer {
    #[verifier::type_invariant]
    spec fn inv(&self) -> bool {
        match self.limit {
            Some(l) => l == 1000 || l == MAX_PKT_LINE_DATA_LEN,
            None => true,
        }
    }

    /// Everything written so far.
    pub closed spec fn written(&self) -> Seq<u8> {
        self.writer@
    }

    /// The side-band payload limit, or `None` when nothing is multiplexed.
    pub closed spec fn limit(&self) -> Option<usize> {
        self.limit
    }

    /// A multiplexer that writes after `writer`'s contents, for a client with
    /// the capabilities `caps`.
    pub fn new(writer: Vec<u8>, caps: &Capabilities) -> (r: Result<Multiplexer, MuxError>)
        ensures
            match (r, band_limit_for(caps@)) {
                (Ok(m), Ok(l)) => m.limit() == l && m.written() == writer@,
                (Err(e), Err(f)) => e == f,
                _ => false,
            },
    {
        let limit = match (caps.contains(Capability::SideBand), caps.contains(Capability::SideBand64K)) {
            (true, true) => return Err(MuxError::BothSideBands),
            (true, false) => Some(1000usize),
            (false, true) => Some(MAX_PKT_LINE_DATA_LEN),
            (false, false) => None,
        };
        Ok(Multiplexer { writer, limit })
    }

    /// Writes pack data: on side-band 1 in chunks of one less than the limit,
    /// or unchanged when nothing is multiplexed.
    pub fn write_packfile(&mut self, bytes: &[u8])
        ensures
            final(self).limit() == old(self).limit(),
            final(self).written() == old(self).written() + match old(self).limit() {
                Some(l) => band_frames(1u8, bytes@, (l - 1) as nat),
                None => bytes@,
            },
    {
        proof {
            use_type_invariant(&*self);
        }
        match self.limit {
            Some(limit) => {
                let chunk = limit - 1;
                let mut offset: usize = 0;
                let mut out: Vec<u8> = Vec::new();
                std::mem::swap(&mut out, &mut self.writer);
                let ghost start = out@;
                assert(bytes@.skip(0) =~= bytes@);
                assert(start =~= start + Seq::<u8>::empty());
                while offset < bytes.len()
                    invariant
                        offset <= bytes@.len(),
                        chunk + 1 == limit,
                        limit <= MAX_PKT_LINE_DATA_LEN,
                        chunk >= 1,
                        start + band_frames(1u8, bytes@, chunk as nat) == out@
                            + band_frames(1u8, bytes@.skip(offset as int), chunk as nat),
                    decreases bytes@.len() - offset,
                {
                    let left = bytes.len() - offset;
                    let len = if left < chunk { left } else { chunk };
                    let mut packet: Vec<u8> = Vec::new();
                    packet.push(1u8);
                    push_all(&mut packet, slice_subrange(bytes, offset, offset + len));
                    let ghost before = out@;
                    let ghost rest = bytes@.skip(offset as int);
                    assert(rest.take(len as int) =~= bytes@.subrange(offset as int, offset + len));
                    assert(packet@ =~= seq![1u8] + rest.take(len as int));
                    let _ = pkt_line::write(&mut out, packet.as_slice());
                    assert(rest.skip(len as int) =~= bytes@.skip(offset + len));
                    offset = offset + len;
                    assert(before + (frame(packet@) + band_frames(1u8, bytes@.skip(offset as int), chunk as nat))
                        =~= out@ + band_frames(1u8, bytes@.skip(offset as int), chunk as nat));
                }
                assert(bytes@.skip(offset as int) =~= Seq::<u8>::empty());
                assert(out@ + Seq::<u8>::empty() =~= out@);
                self.writer = out;
            },
            None => {
                let mut out: Vec<u8> = Vec::new();
                std::mem::swap(&mut out, &mut self.writer);
                push_all(&mut out, bytes);
                self.writer = out;
            },
        }
    }

    /// Writes a message on side-band `band`, when the client asked for
    /// multiplexing; without it the message is dropped.
    fn write_band_message(&mut self, band: u8, msg: &str) -> (r: Result<(), MuxError>)
        requires
            !(old(self).limit() == Some(MAX_PKT_LINE_DATA_LEN) && msg.spec_bytes().len()
                == MAX_PKT_LINE_DATA_LEN),
        ensures
            final(self).limit() == old(self).limit(),
            band_message_result(old(self).limit(), old(self).written(), band, msg.spec_bytes(), r, final(self).written()),
    {
        proof {
            use_type_invariant(&*self);
        }
        let bytes = msg.as_bytes();
        match self.limit {
            Some(limit) => {
                if bytes.len() > limit {
                    return Err(MuxError::MessageTooLong);
                }
                let mut packet: Vec<u8> = Vec::new();
                packet.push(band);
                push_all(&mut packet, bytes);
                let mut out: Vec<u8> = Vec::new();
                std::mem::swap(&mut out, &mut self.writer);
                let _ = pkt_line::write(&mut out, packet.as_slice());
                self.writer = out;
                Ok(())
            },
            None => Ok(()),
        }
    }

    /// Writes a progress message on side-band 2.
    pub fn write_progress(&mut self, msg: &str) -> (r: Result<(), MuxError>)
        requires
            !(old(self).limit() == Some(MAX_PKT_LINE_DATA_LEN) && msg.spec_bytes().len()
                == MAX_PKT_LINE_DATA_LEN),
        ensures
            final(self).limit() == old(self).limit(),
            band_message_result(old(self).limit(), old(self).written(), 2u8, msg.spec_bytes(), r, final(self).written()),
    {
        self.write_band_message(2u8, msg)
    }

    /// Writes an error message on side-band 3.
    pub fn write_error(&mut self, msg: &str) -> (r: Result<(), MuxError>)
        requires
            !(old(self).limit() == Some(MAX_PKT_LINE_DATA_LEN) && msg.spec_bytes().len()
                == MAX_PKT_LINE_DATA_LEN),
        ensures
            final(self).limit() == old(self).limit(),
            band_message_result(old(self).limit(), old(self).written(), 3u8, msg.spec_bytes(), r, final(self).written()),
    {
        self.write_band_message(3u8, msg)
    }

    /// Everything written.
    pub fn into_inner(self) -> (r: Vec<u8>)
        ensures
            r@ == self.written(),
    {
        self.writer
    }
}

/// What writing `msg` on side-band `band` does: with a limit, a message
/// longer than it is refused and a shorter one is sent as one pkt-line; with
/// no limit nothing is written.
pub open spec fn band_message_result(
    limit: Option<usize>,
    before: Seq<u8>,
    band: u8,
    msg: Seq<u8>,
    r: Result<(), MuxError>,
    after: Seq<u8>,
) -> bool {
    match limit {
        Some(l) => if msg.len() > l {
            r == Err::<(), MuxError>(MuxError::MessageTooLong) && after == before
        } else {
            r == Ok::<(), MuxError>(()) && after == before + frame(seq![band] + msg)
        },
        None => r == Ok::<(), MuxError>(()) && after == before,
    }
}

} // verus!
