//! What holds of the logs of every run: each line that arrives is in the
//! log once, in the order of its stream; the lines can be read back from
//! the text of the log; plain lines hold nothing but the text; and the logs
//! of the two streams together hold what one log for both would hold.

use vstd::prelude::*;
use vstd::utf8::{decode_utf8, encode_utf8, encode_utf8_decode_utf8, encode_utf8_valid_utf8, valid_utf8};
use crate::format::{line_prefix, line_text, stream_tag, trailer_text, Stream};
use crate::session::{
    lines_bytes, log_bytes, of_stream, records_for, trailer_bytes, Record, Session,
};

verus! {

/// The texts of the logged lines of `records`, each with its line feed.
pub open spec fn line_texts(records: Seq<Record>, plain: bool) -> Seq<Seq<char>> {
    Seq::new(
        records.len(),
        |i: int| line_text(records[i].origin, records[i].text, records[i].stamp, plain),
    )
}

/// The pieces one after another.
pub open spec fn concat_all(pieces: Seq<Seq<char>>) -> Seq<char>
    decreases pieces.len(),
{
    if pieces.len() == 0 {
        Seq::empty()
    } else {
        concat_all(pieces.drop_last()) + pieces.last()
    }
}

/// The text of the logged lines of `records`, one after another.
pub open spec fn lines_text(records: Seq<Record>, plain: bool) -> Seq<char> {
    concat_all(line_texts(records, plain))
}

/// The text of a log: the header, the logged lines, and the trailer once
/// the exit code is known.
pub open spec fn log_text(header: Seq<char>, records: Seq<Record>, plain: bool, exit: Option<int>) -> Seq<
    char,
> {
    header + lines_text(records, plain) + match exit {
        Some(code) => trailer_text(code),
        None => Seq::empty(),
    }
}

/// The place of the first line feed in `text`, its length where it holds
/// none.
pub open spec fn first_break(text: Seq<char>) -> int
    decreases text.len(),
{
    if text.len() == 0 || text[0] == '\n' {
        0
    } else {
        1 + first_break(text.drop_first())
    }
}

/// The lines of `text`, each with its line feed; what follows the last line
/// feed is a last line without one.
pub open spec fn split_lines(text: Seq<char>) -> Seq<Seq<char>>
    decreases text.len(),
{
    if text.len() == 0 {
        Seq::empty()
    } else {
        let k = first_break(text);
        if 0 <= k < text.len() {
            seq![text.take(k + 1)] + split_lines(text.skip(k + 1))
        } else {
            seq![text]
        }
    }
}

/// `text` holds no line feed.
pub open spec fn unbroken(text: Seq<char>) -> bool {
    forall|i: int| 0 <= i < text.len() ==> text[i] != '\n'
}

/// `line` is one line: it ends in a line feed and holds no other.
pub open spec fn one_line(line: Seq<char>) -> bool {
    &&& line.len() > 0
    &&& line.last() == '\n'
    &&& unbroken(line.drop_last())
}

/// The text of each record holds no line feed, and neither does its stamp.
pub open spec fn unbroken_records(records: Seq<Record>) -> bool {
    forall|i: int|
        0 <= i < records.len() ==> unbroken(#[trigger] records[i].text) && (
        records[i].stamp matches Some(stamp) ==> unbroken(stamp))
}

/// The texts of `records`, in their order.
pub open spec fn texts_of(records: Seq<Record>) -> Seq<Seq<char>> {
    Seq::new(records.len(), |i: int| records[i].text)
}

/// Each of the texts followed by a line feed, one after another.
pub open spec fn plain_text(texts: Seq<Seq<char>>) -> Seq<char>
    decreases texts.len(),
{
    if texts.len() == 0 {
        Seq::empty()
    } else {
        plain_text(texts.drop_last()) + texts.last() + seq!['\n']
    }
}

/// The UTF-8 bytes of two texts, one after the other, are the bytes of the
/// first and then the bytes of the second.
pub proof fn lemma_encode_concat(a: Seq<char>, b: Seq<char>)
    ensures
        encode_utf8(a + b) == encode_utf8(a) + encode_utf8(b),
    decreases a.len(),
{
    if a.len() == 0 {
        assert(a + b =~= b);
        assert(encode_utf8(a) + encode_utf8(b) =~= encode_utf8(b));
    } else {
        lemma_encode_concat(a.drop_first(), b);
        assert((a + b).drop_first() =~= a.drop_first() + b);
        assert((a + b)[0] == a[0]);
        assert(encode_utf8(a + b) =~= encode_utf8(a) + encode_utf8(b));
    }
}

/// The bytes of the logged lines are the UTF-8 bytes of their text.
pub proof fn lemma_lines_bytes_are_text(records: Seq<Record>, plain: bool)
    ensures
        lines_bytes(records, plain) == encode_utf8(lines_text(records, plain)),
    decreases records.len(),
{
    if records.len() == 0 {
        assert(line_texts(records, plain) =~= Seq::empty());
    } else {
        let init = records.drop_last();
        let last = records.last();
        lemma_lines_bytes_are_text(init, plain);
        assert(line_texts(records, plain).drop_last() =~= line_texts(init, plain));
        lemma_encode_concat(
            lines_text(init, plain),
            line_text(last.origin, last.text, last.stamp, plain),
        );
    }
}

/// A log is text: its bytes are valid UTF-8, and they decode to the header,
/// the logged lines and the trailer.
pub proof fn lemma_log_is_text(header: Seq<char>, records: Seq<Record>, plain: bool, exit: Option<int>)
    ensures
        log_bytes(header, records, plain, exit) == encode_utf8(
            log_text(header, records, plain, exit),
        ),
        valid_utf8(log_bytes(header, records, plain, exit)),
        decode_utf8(log_bytes(header, records, plain, exit)) == log_text(
            header,
            records,
            plain,
            exit,
        ),
{
    let lines = lines_text(records, plain);
    let tail = match exit {
        Some(code) => trailer_text(code),
        None => Seq::empty(),
    };
    lemma_lines_bytes_are_text(records, plain);
    lemma_encode_concat(header, lines);
    lemma_encode_concat(header + lines, tail);
    assert(encode_utf8(Seq::<char>::empty()) =~= Seq::<u8>::empty());
    assert(trailer_bytes(exit) == encode_utf8(tail));
    encode_utf8_valid_utf8(log_text(header, records, plain, exit));
    encode_utf8_decode_utf8(log_text(header, records, plain, exit));
}

/// What the file of a log holds in the end: a session in order, none of
/// whose sinks has failed, holds in the log of each stream the text of the
/// header, of the lines of that log in the order of their arrival, and of
/// the trailer once the run is finished.
pub proof fn lemma_session_log_is_text(s: Session, which: Stream)
    requires
        s.wf(),
        !(s.phase() is Failed),
    ensures
        valid_utf8(s.content(which)),
        decode_utf8(s.content(which)) == log_text(
            s.header(),
            records_for(s.records(), s.split(), which),
            s.plain(),
            s.exit(),
        ),
{
    s.lemma_wf();
    lemma_log_is_text(
        s.header(),
        records_for(s.records(), s.split(), which),
        s.plain(),
        s.exit(),
    );
    match which {
        Stream::Stdout => {
            assert(s.logs_hold(Stream::Stdout));
        },
        Stream::Stderr => {
            assert(s.logs_hold(Stream::Stderr));
        },
    }
}

/// Where each stream has its own log, every line that arrived is in one of
/// the two logs and not in the other: the two hold as many lines as
/// arrived, and the same lines as often.
pub proof fn lemma_each_line_in_one_log(records: Seq<Record>)
    ensures
        of_stream(records, Stream::Stdout).len() + of_stream(records, Stream::Stderr).len()
            == records.len(),
        of_stream(records, Stream::Stdout).to_multiset().add(
            of_stream(records, Stream::Stderr).to_multiset(),
        ) == records.to_multiset(),
    decreases records.len(),
{
    broadcast use vstd::seq_lib::to_multiset_build;
    broadcast use vstd::multiset::group_multiset_axioms;

    if records.len() == 0 {
        records.to_multiset_ensures();
        of_stream(records, Stream::Stdout).to_multiset_ensures();
        of_stream(records, Stream::Stderr).to_multiset_ensures();
        assert(of_stream(records, Stream::Stdout).to_multiset().add(
            of_stream(records, Stream::Stderr).to_multiset(),
        ) =~= records.to_multiset());
    } else {
        let init = records.drop_last();
        let last = records.last();
        lemma_each_line_in_one_log(init);
        assert(records == init.push(last));
        let out = of_stream(init, Stream::Stdout);
        let err = of_stream(init, Stream::Stderr);
        assert(init.push(last).to_multiset() =~= init.to_multiset().insert(last));
        if last.origin == Stream::Stdout {
            assert(out.push(last).to_multiset() =~= out.to_multiset().insert(last));
            assert(out.to_multiset().insert(last).add(err.to_multiset()) =~= out.to_multiset().add(
                err.to_multiset(),
            ).insert(last));
        } else {
            assert(err.push(last).to_multiset() =~= err.to_multiset().insert(last));
            assert(out.to_multiset().add(err.to_multiset().insert(last)) =~= out.to_multiset().add(
                err.to_multiset(),
            ).insert(last));
        }
    }
}

/// The log of a stream holds the lines of that stream only.
pub proof fn lemma_log_of_a_stream_holds_its_lines(records: Seq<Record>, which: Stream, k: int)
    requires
        0 <= k < of_stream(records, which).len(),
    ensures
        of_stream(records, which)[k].origin == which,
    decreases records.len(),
{
    if records.len() > 0 {
        let init = records.drop_last();
        if k < of_stream(init, which).len() {
            lemma_log_of_a_stream_holds_its_lines(init, which, k);
        }
    }
}

/// The order of a stream is kept: the line that arrived as number `i` of
/// all lines stands in the log of its stream after exactly those lines of
/// its stream that arrived before it.
pub proof fn lemma_line_keeps_its_place(records: Seq<Record>, i: int)
    requires
        0 <= i < records.len(),
    ensures
        ({
            let origin = records[i].origin;
            let place = of_stream(records.take(i), origin).len() as int;
            &&& place < of_stream(records, origin).len()
            &&& of_stream(records, origin)[place] == records[i]
        }),
    decreases records.len(),
{
    let origin = records[i].origin;
    let init = records.drop_last();
    if i == records.len() - 1 {
        assert(records.take(i) == init);
    } else {
        lemma_line_keeps_its_place(init, i);
        assert(init.take(i) == records.take(i));
    }
}

/// The logs hold what the command wrote. Let the command write the lines
/// `out_lines` to one stream and `err_lines` to the other, and let
/// `arrived` be any order in which they arrive that keeps the order of each
/// stream. Then a log for both streams holds every line once, and its
/// lines of each stream are the lines written to that stream, in their
/// order; and where each stream has its own log, that log holds exactly the
/// lines written to its stream, in their order.
pub proof fn lemma_logs_hold_what_was_written(
    out_lines: Seq<Record>,
    err_lines: Seq<Record>,
    arrived: Seq<Record>,
)
    requires
        of_stream(arrived, Stream::Stdout) == out_lines,
        of_stream(arrived, Stream::Stderr) == err_lines,
    ensures
        forall|which: Stream| #[trigger] records_for(arrived, false, which) == arrived,
        of_stream(records_for(arrived, false, Stream::Stdout), Stream::Stdout) == out_lines,
        of_stream(records_for(arrived, false, Stream::Stderr), Stream::Stderr) == err_lines,
        arrived.to_multiset() == out_lines.to_multiset().add(err_lines.to_multiset()),
        arrived.len() == out_lines.len() + err_lines.len(),
        records_for(arrived, true, Stream::Stdout) == out_lines,
        records_for(arrived, true, Stream::Stderr) == err_lines,
{
    lemma_each_line_in_one_log(arrived);
}

/// The log of one stream, where each stream has its own, is the log that
/// the lines of that stream alone would give where the two share one: same
/// header, same lines, same trailer.
pub proof fn lemma_split_log_is_combined_log_of_one_stream(
    header: Seq<char>,
    records: Seq<Record>,
    which: Stream,
    plain: bool,
    exit: Option<int>,
)
    ensures
        log_bytes(header, records_for(records, true, which), plain, exit) == log_bytes(
            header,
            records_for(of_stream(records, which), false, which),
            plain,
            exit,
        ),
        of_stream(of_stream(records, which), which) == of_stream(records, which),
    decreases records.len(),
{
    if records.len() > 0 {
        let init = records.drop_last();
        lemma_split_log_is_combined_log_of_one_stream(header, init, which, plain, exit);
        if records.last().origin == which {
            let mine = of_stream(init, which).push(records.last());
            assert(mine.drop_last() == of_stream(init, which));
        }
    }
}

/// A plain line is the text and a line feed, whatever its stream and its
/// stamp.
pub proof fn lemma_plain_line_is_text(origin: Stream, text: Seq<char>, stamp: Option<Seq<char>>)
    ensures
        line_text(origin, text, stamp, true) == text + seq!['\n'],
{
}

/// The plain lines of a log hold the texts that arrived, each followed by a
/// line feed, and nothing else.
pub proof fn lemma_plain_lines_hold_only_text(records: Seq<Record>)
    ensures
        lines_text(records, true) == plain_text(texts_of(records)),
    decreases records.len(),
{
    if records.len() == 0 {
        assert(line_texts(records, true) =~= Seq::empty());
        assert(texts_of(records) =~= Seq::empty());
    } else {
        let init = records.drop_last();
        lemma_plain_lines_hold_only_text(init);
        assert(line_texts(records, true).drop_last() =~= line_texts(init, true));
        assert(texts_of(records).drop_last() =~= texts_of(init));
        assert(lines_text(records, true) =~= plain_text(texts_of(records)));
    }
}

/// A logged line whose text and stamp hold no line feed is one line.
pub proof fn lemma_logged_line_is_one_line(
    origin: Stream,
    text: Seq<char>,
    stamp: Option<Seq<char>>,
    plain: bool,
)
    requires
        unbroken(text),
        stamp matches Some(s) ==> unbroken(s),
    ensures
        one_line(line_text(origin, text, stamp, plain)),
{
    let line = line_text(origin, text, stamp, plain);
    if plain {
        assert(line.drop_last() =~= text);
    } else {
        let prefix = line_prefix(origin, stamp);
        assert(line.drop_last() =~= prefix + text);
        assert forall|i: int| 0 <= i < prefix.len() implies prefix[i] != '\n' by {
            match stamp {
                Some(s) => {
                    if 1 <= i < 1 + s.len() {
                        assert(prefix[i] == s[i - 1]);
                    }
                },
                None => {},
            }
        }
    }
}

proof fn lemma_first_break(line: Seq<char>, rest: Seq<char>)
    requires
        one_line(line),
    ensures
        first_break(line + rest) == line.len() - 1,
    decreases line.len(),
{
    let all = line + rest;
    if line.len() == 1 {
        assert(all[0] == line[0]);
    } else {
        assert(all[0] == line[0]);
        assert(line.drop_last()[0] == line[0]);
        let shorter = line.drop_first();
        assert forall|i: int| 0 <= i < shorter.drop_last().len() implies shorter.drop_last()[i]
            != '\n' by {
            assert(shorter.drop_last()[i] == line.drop_last()[i + 1]);
        }
        lemma_first_break(shorter, rest);
        assert(all.drop_first() =~= shorter + rest);
    }
}

proof fn lemma_concat_front(first: Seq<char>, rest: Seq<Seq<char>>)
    ensures
        concat_all(seq![first] + rest) == first + concat_all(rest),
    decreases rest.len(),
{
    let all = seq![first] + rest;
    if rest.len() == 0 {
        assert(all.drop_last() =~= Seq::<Seq<char>>::empty());
        assert(all.last() == first);
        assert(concat_all(all.drop_last()) =~= Seq::<char>::empty());
        assert(concat_all(rest) =~= Seq::<char>::empty());
        assert(concat_all(all) =~= first + concat_all(rest));
    } else {
        lemma_concat_front(first, rest.drop_last());
        assert(all.drop_last() =~= seq![first] + rest.drop_last());
        assert(all.last() == rest.last());
        assert(concat_all(all) =~= first + concat_all(rest));
    }
}

/// Lines written one after another are read back as they were written.
pub proof fn lemma_split_of_lines(lines: Seq<Seq<char>>)
    requires
        forall|i: int| 0 <= i < lines.len() ==> one_line(#[trigger] lines[i]),
    ensures
        split_lines(concat_all(lines)) == lines,
    decreases lines.len(),
{
    if lines.len() == 0 {
    } else {
        let first = lines[0];
        let rest = lines.drop_first();
        assert(lines =~= seq![first] + rest);
        lemma_concat_front(first, rest);
        assert forall|i: int| 0 <= i < rest.len() implies one_line(#[trigger] rest[i]) by {
            assert(rest[i] == lines[i + 1]);
        }
        lemma_split_of_lines(rest);
        let text = first + concat_all(rest);
        lemma_first_break(first, concat_all(rest));
        assert(text.take(first.len() as int) =~= first);
        assert(text.skip(first.len() as int) =~= concat_all(rest));
    }
}

/// The lines of a log can be read back from its text: split at its line
/// feeds, the text of the logged lines gives one line for each line that
/// arrived, in the order of arrival — provided that no text and no stamp
/// holds a line feed itself.
pub proof fn lemma_logged_lines_read_back(records: Seq<Record>, plain: bool)
    requires
        unbroken_records(records),
    ensures
        split_lines(lines_text(records, plain)) == line_texts(records, plain),
        split_lines(lines_text(records, plain)).len() == records.len(),
{
    let lines = line_texts(records, plain);
    assert forall|i: int| 0 <= i < lines.len() implies one_line(#[trigger] lines[i]) by {
        assert(unbroken(records[i].text));
        lemma_logged_line_is_one_line(records[i].origin, records[i].text, records[i].stamp, plain);
    }
    lemma_split_of_lines(lines);
}

/// The name before a line tells its stream, and what follows the name is
/// its text: two lines with the same stamp that read the same came from
/// the same stream with the same text.
pub proof fn lemma_tag_tells_stream(
    a: Stream,
    text_a: Seq<char>,
    b: Stream,
    text_b: Seq<char>,
    stamp: Option<Seq<char>>,
)
    requires
        line_text(a, text_a, stamp, false) == line_text(b, text_b, stamp, false),
    ensures
        a == b,
        text_a == text_b,
{
    let line_a = line_text(a, text_a, stamp, false);
    let line_b = line_text(b, text_b, stamp, false);
    let skip: int = match stamp {
        Some(s) => s.len() as int + 3,
        None => 1,
    };
    assert(line_prefix(a, stamp).len() == skip + 8);
    assert(line_prefix(b, stamp).len() == skip + 8);
    assert(line_a[skip + 3] == stream_tag(a)[3]);
    assert(line_b[skip + 3] == stream_tag(b)[3]);
    assert(a == b);
    assert(line_a.len() == skip + 8 + text_a.len() + 1);
    assert(line_b.len() == skip + 8 + text_b.len() + 1);
    assert forall|i: int| 0 <= i < text_a.len() implies text_a[i] == text_b[i] by {
        assert(line_a[skip + 8 + i] == text_a[i]);
        assert(line_b[skip + 8 + i] == text_b[i]);
    }
    assert(text_a =~= text_b);
}

} // verus!
