//! Lines as they come out of a pipe: bytes up to and with a line feed, or
//! the last bytes of a stream that ends without one.

use vstd::prelude::*;
use vstd::slice::slice_subrange;
use vstd::utf8::{decode_utf8, valid_utf8};
use crate::format::Stream;

verus! {

/// `raw` without the line feed at its end, and without the carriage return
/// before that line feed. Bytes that do not end in a line feed are a last
/// line that was not terminated: they stay as they are.
pub open spec fn without_line_end(raw: Seq<u8>) -> Seq<u8> {
    if raw.len() > 0 && raw.last() == 10u8 {
        let line = raw.drop_last();
        if line.len() > 0 && line.last() == 13u8 {
            line.drop_last()
        } else {
            line
        }
    } else {
        raw
    }
}

/// The text that std makes of `bytes` when it decodes them leniently: each
/// invalid sequence gives a replacement character.
pub uninterp spec fn lossy_text(bytes: Seq<u8>) -> Seq<char>;

/// Decodes bytes leniently. Wraps `String::from_utf8_lossy`, which never
/// fails; the text depends on the bytes alone, so the contract names it.
/// Valid UTF-8 decodes to the text that it encodes.
#[verifier::external_body]
fn decode_lossy(bytes: &[u8]) -> (s: String)
    ensures
        s@ == lossy_text(bytes@),
        valid_utf8(bytes@) ==> s@ == decode_utf8(bytes@),
{
    String::from_utf8_lossy(bytes).into_owned()
}

/// The bytes of a line without its line end.
pub fn strip_line_end(raw: &[u8]) -> (line: &[u8])
    ensures
        line@ == without_line_end(raw@),
{
    let n = raw.len();
    if n > 0 && raw[n - 1] == 10u8 {
        if n > 1 && raw[n - 2] == 13u8 {
            let line = slice_subrange(raw, 0, n - 2);
            assert(line@ =~= raw@.drop_last().drop_last());
            line
        } else {
            let line = slice_subrange(raw, 0, n - 1);
            assert(line@ =~= raw@.drop_last());
            line
        }
    } else {
        raw
    }
}

/// The text of a line that was read from a pipe: its bytes without the line
/// end, decoded leniently.
pub fn line_of(raw: &[u8]) -> (text: String)
    ensures
        text@ == lossy_text(without_line_end(raw@)),
        valid_utf8(without_line_end(raw@)) ==> text@ == decode_utf8(without_line_end(raw@)),
{
    decode_lossy(strip_line_end(raw))
}

/// What a read from the pipe of a stream tells: a line, or the end of the
/// stream.
pub enum Event {
    Line { origin: Stream, text: String },
    End { origin: Stream },
}

/// The mathematical value of an `Event`.
pub enum Arrival {
    Line { origin: Stream, text: Seq<char> },
    End { origin: Stream },
}

impl View for Event {
    type V = Arrival;

    open spec fn view(&self) -> Arrival {
        match self {
            Event::Line { origin, text } => Arrival::Line { origin: *origin, text: text@ },
            Event::End { origin } => Arrival::End { origin: *origin },
        }
    }
}

/// What the bytes `raw`, read from the stream `origin` up to and with the
/// next line feed, tell: no bytes at all are the end of the stream, and any
/// other bytes are a line, be it empty or without a line feed.
pub open spec fn arrival_of(origin: Stream, raw: Seq<u8>) -> Arrival {
    if raw.len() == 0 {
        Arrival::End { origin }
    } else {
        Arrival::Line { origin, text: lossy_text(without_line_end(raw)) }
    }
}

/// Tells what a read from the pipe of the stream `origin` means. A line of
/// valid UTF-8 has the text that its bytes encode.
pub fn event_of(origin: Stream, raw: &[u8]) -> (event: Event)
    ensures
        event@ == arrival_of(origin, raw@),
        raw@.len() > 0 && valid_utf8(without_line_end(raw@)) ==> event@ == (Arrival::Line {
            origin,
            text: decode_utf8(without_line_end(raw@)),
        }),
{
    if raw.len() == 0 {
        Event::End { origin }
    } else {
        Event::Line { origin, text: line_of(raw) }
    }
}

} // verus!
