//! Sinks: where the bytes of a log go. A plain sink keeps them as they are;
//! a compressing sink hands them to flate2's gzip encoder. Either way the
//! caller takes out what is ready and writes it to the file.

use vstd::prelude::*;
use flate2::write::GzEncoder;
use crate::config::Compress;

verus! {

/// A gzip encoder of flate2 that compresses into memory. Verus does not
/// look inside: what is known of an encoder is what the functions below
/// state.
#[verifier::external_body]
pub struct Gzip {
    enc: GzEncoder<Vec<u8>>,
}

/// The bytes that were written into the encoder so far, before compression.
pub uninterp spec fn gz_input(gz: Gzip) -> Seq<u8>;

/// The compressed bytes that the encoder has produced and that were not
/// taken out of it yet.
pub uninterp spec fn gz_pending(gz: Gzip) -> Seq<u8>;

/// The bytes that the encoder hands out when its stream is finished: what
/// was not taken out yet, then the end of the compressed stream; `None`
/// where the encoder reports an error instead.
pub uninterp spec fn gz_last(gz: Gzip) -> Option<Seq<u8>>;

/// The bytes of a vector that may be absent.
pub open spec fn bytes_of(v: Option<Vec<u8>>) -> Option<Seq<u8>> {
    match v {
        Some(bytes) => Some(bytes@),
        None => None,
    }
}

/// A new encoder at the default level. Wraps `GzEncoder::new` on an empty
/// vector: nothing was written into the new encoder, and it has produced
/// nothing.
#[verifier::external_body]
fn gz_new() -> (gz: Gzip)
    ensures
        gz_input(gz) == Seq::<u8>::empty(),
        gz_pending(gz) == Seq::<u8>::empty(),
{
    Gzip { enc: GzEncoder::new(Vec::new(), flate2::Compression::default()) }
}

/// Writes `data` into the encoder. Wraps `write_all` on a `GzEncoder`: where
/// it succeeds, the encoder has taken all of `data`, after what it had.
/// Nothing is said of how much compressed output that makes ready.
#[verifier::external_body]
fn gz_write(gz: &mut Gzip, data: &[u8]) -> (ok: bool)
    ensures
        ok ==> gz_input(*final(gz)) == gz_input(*old(gz)) + data@,
{
    std::io::Write::write_all(&mut gz.enc, data).is_ok()
}

/// Takes out the compressed bytes that the encoder has produced since they
/// were last taken. Wraps `GzEncoder::get_mut`, whose documentation allows
/// emptying the vector behind it: all of it comes out, none of it stays,
/// and what was written into the encoder is as before.
#[verifier::external_body]
fn gz_take(gz: &mut Gzip) -> (out: Vec<u8>)
    ensures
        gz_input(*final(gz)) == gz_input(*old(gz)),
        out@ == gz_pending(*old(gz)),
        gz_pending(*final(gz)) == Seq::<u8>::empty(),
{
    std::mem::take(gz.enc.get_mut())
}

/// Ends the compressed stream and hands out its last bytes. Wraps
/// `GzEncoder::finish`, which writes the end of the stream and returns the
/// vector behind the encoder; `None` where the encoder reports an error.
/// The result depends on the encoder alone, so the contract names it.
#[verifier::external_body]
fn gz_finish(gz: Gzip) -> (r: Option<Vec<u8>>)
    ensures
        bytes_of(r) == gz_last(gz),
{
    gz.enc.finish().ok()
}

/// A sink: it takes the bytes of a log and gives out the bytes of the file.
pub enum Sink {
    Plain { buf: Vec<u8>, given: Ghost<Seq<u8>> },
    Gzip { enc: Gzip, given: Ghost<Seq<u8>> },
}

impl Sink {
    /// How the sink compresses.
    pub open spec fn kind(&self) -> Compress {
        match self {
            Sink::Plain { .. } => Compress::Off,
            Sink::Gzip { .. } => Compress::Gz,
        }
    }

    /// All bytes that were appended to the sink, in order.
    pub closed spec fn content(&self) -> Seq<u8> {
        match self {
            Sink::Plain { buf, given } => given@ + buf@,
            Sink::Gzip { enc, .. } => gz_input(*enc),
        }
    }

    /// All bytes that the sink has given out for the file, in order.
    pub closed spec fn given(&self) -> Seq<u8> {
        match self {
            Sink::Plain { given, .. } => given@,
            Sink::Gzip { given, .. } => given@,
        }
    }

    /// The bytes that are ready for the file and were not taken out yet:
    /// in a plain sink what was appended since the last time, in a
    /// compressing sink what the encoder has produced since then.
    pub closed spec fn ready(&self) -> Seq<u8> {
        match self {
            Sink::Plain { buf, .. } => buf@,
            Sink::Gzip { enc, .. } => gz_pending(*enc),
        }
    }

    /// The bytes that closing the sink hands out: from a plain sink what is
    /// ready; from a compressing sink what the encoder hands out when its
    /// stream is finished, `None` where it fails.
    pub closed spec fn last_bytes(&self) -> Option<Seq<u8>> {
        match self {
            Sink::Plain { buf, .. } => Some(buf@),
            Sink::Gzip { enc, .. } => gz_last(*enc),
        }
    }

    /// What a plain sink has ready is what was appended and not given out.
    pub proof fn lemma_plain(&self)
        requires
            self.kind() == Compress::Off,
        ensures
            self.given() + self.ready() == self.content(),
            self.last_bytes() == Some(self.ready()),
    {
    }

    /// A new sink of the kind `kind`, with nothing in it.
    pub fn open(kind: Compress) -> (sink: Sink)
        ensures
            sink.kind() == kind,
            sink.content() == Seq::<u8>::empty(),
            sink.given() == Seq::<u8>::empty(),
            sink.ready() == Seq::<u8>::empty(),
    {
        match kind {
            Compress::Off => Sink::Plain { buf: Vec::new(), given: Ghost(Seq::empty()) },
            Compress::Gz => Sink::Gzip { enc: gz_new(), given: Ghost(Seq::empty()) },
        }
    }

    /// Appends `data` to the sink. A plain sink always takes it; a
    /// compressing sink reports `false` where the compressor fails, and
    /// nothing is known of its content after that.
    pub fn append(&mut self, data: &[u8]) -> (ok: bool)
        ensures
            final(self).kind() == old(self).kind(),
            final(self).given() == old(self).given(),
            ok ==> final(self).content() == old(self).content() + data@,
            old(self).kind() == Compress::Off ==> ok && final(self).ready() == old(self).ready()
                + data@,
    {
        match self {
            Sink::Plain { buf, given } => {
                buf.extend_from_slice(data);
                true
            },
            Sink::Gzip { enc, given } => gz_write(enc, data),
        }
    }

    /// Takes out the bytes that are ready for the file: all of them, so
    /// that none is ready after it. From a plain sink these are all the
    /// bytes appended since the last time.
    pub fn take_output(&mut self) -> (out: Vec<u8>)
        ensures
            final(self).kind() == old(self).kind(),
            final(self).content() == old(self).content(),
            out@ == old(self).ready(),
            final(self).ready() == Seq::<u8>::empty(),
            final(self).given() == old(self).given() + out@,
            old(self).kind() == Compress::Off ==> final(self).given() == final(self).content(),
    {
        match self {
            Sink::Plain { buf, given } => {
                let mut out: Vec<u8> = Vec::new();
                std::mem::swap(buf, &mut out);
                proof {
                    *given = Ghost(given@ + out@);
                }
                out
            },
            Sink::Gzip { enc, given } => {
                let out = gz_take(enc);
                proof {
                    *given = Ghost(given@ + out@);
                }
                out
            },
        }
    }

    /// Closes the sink and hands out the last bytes for the file. A
    /// compressing sink finishes its stream for that: the bytes are those
    /// that the encoder hands out at the end of the stream, and there are
    /// none where it fails. After the last bytes of a plain sink the file
    /// holds all that was appended.
    pub fn close(self) -> (out: Option<Vec<u8>>)
        ensures
            bytes_of(out) == self.last_bytes(),
            self.kind() == Compress::Off ==> out is Some && self.given() + out->0@
                == self.content(),
    {
        match self {
            Sink::Plain { buf, given } => Some(buf),
            Sink::Gzip { enc, given } => gz_finish(enc),
        }
    }
}

} // verus!
