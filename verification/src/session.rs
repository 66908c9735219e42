//! One run of the logger: the lines of the two streams arrive in whatever
//! order the system delivers them, and each goes to its sink once, in that
//! order. The caller reads the pipes, hands each line over, and writes what
//! the sinks give out.

use vstd::prelude::*;
use vstd::utf8::encode_utf8;
use crate::clock::{line_stamp, stamp_of_some_moment};
use crate::config::{Compress, Config};
use crate::format::{
    env_texts, format_line, header, header_text, line_text, recorded_env, trailer,
    trailer_text, Stream,
};
use crate::lines::{Arrival, Event};
use crate::sink::Sink;
use crate::template::RenderContext;

verus! {

/// One logged line: the stream it came from, its text, and the time stamp
/// that was written before it, if one was.
pub struct Record {
    pub origin: Stream,
    pub text: Seq<char>,
    pub stamp: Option<Seq<char>>,
}

/// The records that came from the stream `origin`, in their order.
pub open spec fn of_stream(records: Seq<Record>, origin: Stream) -> Seq<Record>
    decreases records.len(),
{
    if records.len() == 0 {
        Seq::empty()
    } else if records.last().origin == origin {
        of_stream(records.drop_last(), origin).push(records.last())
    } else {
        of_stream(records.drop_last(), origin)
    }
}

/// The records that belong in the log of the stream `which`: those of that
/// stream where each stream has its own log, all of them where the two
/// share one.
pub open spec fn records_for(records: Seq<Record>, split: bool, which: Stream) -> Seq<Record> {
    if split {
        of_stream(records, which)
    } else {
        records
    }
}

/// The bytes of the logged lines of `records`, one after another.
pub open spec fn lines_bytes(records: Seq<Record>, plain: bool) -> Seq<u8>
    decreases records.len(),
{
    if records.len() == 0 {
        Seq::empty()
    } else {
        let last = records.last();
        lines_bytes(records.drop_last(), plain) + encode_utf8(
            line_text(last.origin, last.text, last.stamp, plain),
        )
    }
}

/// The bytes of the trailer, once the exit code is known.
pub open spec fn trailer_bytes(exit: Option<int>) -> Seq<u8> {
    match exit {
        Some(code) => encode_utf8(trailer_text(code)),
        None => Seq::empty(),
    }
}

/// The bytes of a log: the header, the logged lines, and the trailer once
/// the exit code is known.
pub open spec fn log_bytes(header: Seq<char>, records: Seq<Record>, plain: bool, exit: Option<int>) -> Seq<
    u8,
> {
    encode_utf8(header) + lines_bytes(records, plain) + trailer_bytes(exit)
}

/// The exit code that a run reports: that of the command, or 1 where the
/// command gave none because a signal ended it.
pub open spec fn exit_code_of(status: Option<int>) -> int {
    match status {
        Some(code) => code,
        None => 1,
    }
}

/// How far a run has come.
#[derive(Clone, Copy, Debug, PartialEq, Eq, Structural)]
pub enum Phase {
    /// Lines may still arrive.
    Draining,
    /// The trailer is written.
    Finished,
    /// A sink failed; the logs are not complete.
    Failed,
}

/// Why a step of a run was refused.
#[derive(Clone, Copy, Debug, PartialEq, Eq, Structural)]
pub enum LogError {
    /// A sink had failed before.
    Failed,
    /// The run was finished before.
    Finished,
    /// The stream had reported its end before.
    StreamClosed,
    /// A stream has not reported its end yet.
    StillOpen,
    /// A sink could not take what was written to it.
    Write,
    /// The clock gave no time stamp.
    Clock,
}

/// What an error says in words.
pub open spec fn error_text(e: LogError) -> Seq<char> {
    match e {
        LogError::Failed => "a log could not be written earlier in this run"@,
        LogError::Finished => "the run is finished"@,
        LogError::StreamClosed => "the stream has ended"@,
        LogError::StillOpen => "a stream has not ended yet"@,
        LogError::Write => "a log could not be written"@,
        LogError::Clock => "the clock gave no time stamp"@,
    }
}

impl LogError {
    /// What went wrong, in words.
    pub fn message(&self) -> (text: String)
        ensures
            text@ == error_text(*self),
    {
        match self {
            LogError::Failed => "a log could not be written earlier in this run".to_owned(),
            LogError::Finished => "the run is finished".to_owned(),
            LogError::StreamClosed => "the stream has ended".to_owned(),
            LogError::StillOpen => "a stream has not ended yet".to_owned(),
            LogError::Write => "a log could not be written".to_owned(),
            LogError::Clock => "the clock gave no time stamp".to_owned(),
        }
    }
}

/// The streams that have not reported their end.
#[derive(Clone, Copy, Debug, PartialEq, Eq, Structural)]
pub struct Pending {
    pub out: bool,
    pub err: bool,
}

/// The last bytes of the logs of a run.
pub enum Remainder {
    Combined { log: Vec<u8> },
    Split { out: Vec<u8>, err: Vec<u8> },
}

enum Sinks {
    Combined { log: Sink },
    Split { out: Sink, err: Sink },
}

/// One run: its sinks, how its lines are written, and how far it has come.
pub struct Session {
    sinks: Sinks,
    tee: bool,
    timestamps: bool,
    plain: bool,
    out_open: bool,
    err_open: bool,
    phase: Phase,
    header: Ghost<Seq<char>>,
    records: Ghost<Seq<Record>>,
    exit: Ghost<Option<int>>,
}

/// Opens the sink of a log, of the kind that the settings ask for.
pub fn open_writer(cfg: &Config) -> (sink: Sink)
    ensures
        sink.kind() == cfg@.compress,
        sink.content() == Seq::<u8>::empty(),
        sink.given() == Seq::<u8>::empty(),
{
    Sink::open(cfg.compress)
}

/// Writes the header of the run `ctx` to a sink. The variables in `env` are
/// recorded where the settings ask for the environment. `false` where the
/// sink fails.
pub fn write_header(
    sink: &mut Sink,
    cfg: &Config,
    ctx: &RenderContext,
    env: &Vec<(String, String)>,
) -> (ok: bool)
    ensures
        final(sink).kind() == old(sink).kind(),
        final(sink).given() == old(sink).given(),
        ok ==> final(sink).content() == old(sink).content() + encode_utf8(
            header_text(ctx@, recorded_env(cfg@.log_env, env_texts(env@))),
        ),
        old(sink).kind() == Compress::Off ==> ok,
{
    let text = header(ctx, env, cfg.log_env);
    sink.append(text.as_str().as_bytes())
}

/// Writes one line of output to a sink, with `stamp` as its time stamp where
/// one is given and the line is not plain. `false` where the sink fails.
pub fn write_line_at(
    sink: &mut Sink,
    origin: Stream,
    line: &str,
    stamp: Option<&str>,
    plain_lines: bool,
) -> (ok: bool)
    ensures
        final(sink).kind() == old(sink).kind(),
        final(sink).given() == old(sink).given(),
        ok ==> final(sink).content() == old(sink).content() + encode_utf8(
            line_text(origin, line@, crate::format::str_text(stamp), plain_lines),
        ),
        old(sink).kind() == Compress::Off ==> ok,
{
    let text = format_line(origin, line, stamp, plain_lines);
    sink.append(text.as_str().as_bytes())
}

/// The time stamp of a line under the given policy: `stamp` where each line
/// gets one and lines are not plain, none where not.
pub open spec fn stamp_used(timestamps: bool, plain: bool, stamp: Seq<char>) -> Option<Seq<char>> {
    if timestamps && !plain {
        Some(stamp)
    } else {
        None
    }
}

/// What `write_line` has done when it has written the line with the stamp
/// `stamp`.
pub open spec fn line_written(
    before: Sink,
    after: Sink,
    origin: Stream,
    line: Seq<char>,
    ts_each: bool,
    plain: bool,
    stamp: Seq<char>,
) -> bool {
    after.content() == before.content() + encode_utf8(
        line_text(origin, line, stamp_used(ts_each, plain, stamp), plain),
    )
}

/// What `write_line` has done when it has written the line with `stamp`,
/// and `stamp` is what some moment reads as under the format of line
/// stamps.
pub open spec fn stamped_line_written(
    before: Sink,
    after: Sink,
    origin: Stream,
    line: Seq<char>,
    stamp: Seq<char>,
) -> bool {
    &&& stamp_of_some_moment(Some(stamp))
    &&& line_written(before, after, origin, line, true, false, stamp)
}

/// Writes one line of output to a sink. Where each line gets a time stamp
/// and lines are not plain, the clock is read for it: whatever it shows,
/// the line is written with the stamp of some moment, or refused because
/// that moment has no stamp. Else the line is written without a stamp.
pub fn write_line(sink: &mut Sink, origin: Stream, line: &str, ts_each: bool, plain_lines: bool) -> (r:
    Result<(), LogError>)
    ensures
        final(sink).kind() == old(sink).kind(),
        final(sink).given() == old(sink).given(),
        match r {
            Ok(()) => if ts_each && !plain_lines {
                exists|stamp: Seq<char>|
                    stamped_line_written(*old(sink), *final(sink), origin, line@, stamp)
            } else {
                line_written(
                    *old(sink),
                    *final(sink),
                    origin,
                    line@,
                    ts_each,
                    plain_lines,
                    Seq::empty(),
                )
            },
            Err(e) => (e == LogError::Clock && *final(sink) == *old(sink) && ts_each
                && !plain_lines && stamp_of_some_moment(None)) || (e == LogError::Write
                && old(sink).kind() == Compress::Gz),
        },
        !(ts_each && !plain_lines) && old(sink).kind() == Compress::Off ==> r is Ok,
{
    if ts_each && !plain_lines {
        match line_stamp() {
            Some(stamp) => {
                if write_line_at(sink, origin, line, Some(stamp.as_str()), plain_lines) {
                    assert(stamped_line_written(*old(sink), *sink, origin, line@, stamp@));
                    Ok(())
                } else {
                    Err(LogError::Write)
                }
            },
            None => Err(LogError::Clock),
        }
    } else {
        if write_line_at(sink, origin, line, None, plain_lines) {
            Ok(())
        } else {
            Err(LogError::Write)
        }
    }
}

/// Writes the trailer to a sink. `false` where the sink fails.
pub fn write_trailer(sink: &mut Sink, code: i32) -> (ok: bool)
    ensures
        final(sink).kind() == old(sink).kind(),
        final(sink).given() == old(sink).given(),
        ok ==> final(sink).content() == old(sink).content() + encode_utf8(
            trailer_text(code as int),
        ),
        old(sink).kind() == Compress::Off ==> ok,
{
    let text = trailer(code);
    sink.append(text.as_str().as_bytes())
}

/// The exit code that a run reports: that of the command, or 1 where the
/// command gave none.
pub fn exit_code(status: Option<i32>) -> (code: i32)
    ensures
        code as int == exit_code_of(crate::template::code_of(status)),
{
    match status {
        Some(code) => code,
        None => 1,
    }
}

impl Session {
    /// Whether each stream has a log of its own.
    pub closed spec fn split(&self) -> bool {
        self.sinks is Split
    }

    /// Whether each line is mirrored to the terminal.
    pub closed spec fn tee(&self) -> bool {
        self.tee
    }

    /// Whether each line gets a time stamp.
    pub closed spec fn timestamps(&self) -> bool {
        self.timestamps
    }

    /// Whether lines are written without stamp and stream name.
    pub closed spec fn plain(&self) -> bool {
        self.plain
    }

    /// Whether the stream `which` has not reported its end.
    pub closed spec fn is_open(&self, which: Stream) -> bool {
        match which {
            Stream::Stdout => self.out_open,
            Stream::Stderr => self.err_open,
        }
    }

    /// How far the run has come.
    pub closed spec fn phase(&self) -> Phase {
        self.phase
    }

    /// The header that was written to each log.
    pub closed spec fn header(&self) -> Seq<char> {
        self.header@
    }

    /// The lines that were handed over so far, in the order of their
    /// arrival.
    pub closed spec fn records(&self) -> Seq<Record> {
        self.records@
    }

    /// The exit code in the trailer, once it is written.
    pub closed spec fn exit(&self) -> Option<int> {
        self.exit@
    }

    /// How the logs are compressed.
    pub closed spec fn kind(&self) -> Compress {
        match self.sinks {
            Sinks::Combined { log } => log.kind(),
            Sinks::Split { out, err } => out.kind(),
        }
    }

    /// All bytes that were written to the log of the stream `which`.
    pub closed spec fn content(&self, which: Stream) -> Seq<u8> {
        match self.sinks {
            Sinks::Combined { log } => log.content(),
            Sinks::Split { out, err } => match which {
                Stream::Stdout => out.content(),
                Stream::Stderr => err.content(),
            },
        }
    }

    /// All bytes that the log of the stream `which` has given out for its
    /// file.
    pub closed spec fn given(&self, which: Stream) -> Seq<u8> {
        match self.sinks {
            Sinks::Combined { log } => log.given(),
            Sinks::Split { out, err } => match which {
                Stream::Stdout => out.given(),
                Stream::Stderr => err.given(),
            },
        }
    }

    /// The bytes of the log of the stream `which` that are ready for its
    /// file and were not taken out yet.
    pub closed spec fn ready(&self, which: Stream) -> Seq<u8> {
        match self.sinks {
            Sinks::Combined { log } => log.ready(),
            Sinks::Split { out, err } => match which {
                Stream::Stdout => out.ready(),
                Stream::Stderr => err.ready(),
            },
        }
    }

    /// The bytes that closing the log of the stream `which` hands out: from
    /// a log that is not compressed what is ready; from a compressed log
    /// what its encoder hands out when the stream is finished, `None`
    /// where it fails.
    pub closed spec fn last_bytes(&self, which: Stream) -> Option<Seq<u8>> {
        match self.sinks {
            Sinks::Combined { log } => log.last_bytes(),
            Sinks::Split { out, err } => match which {
                Stream::Stdout => out.last_bytes(),
                Stream::Stderr => err.last_bytes(),
            },
        }
    }

    closed spec fn kinds_agree(&self) -> bool {
        match self.sinks {
            Sinks::Combined { log } => true,
            Sinks::Split { out, err } => out.kind() == err.kind(),
        }
    }

    /// What each log holds while no sink has failed: the header, the lines
    /// that belong in it, in the order of their arrival, and the trailer
    /// once the run is finished.
    pub open spec fn logs_hold(&self, which: Stream) -> bool {
        self.content(which) == log_bytes(
            self.header(),
            records_for(self.records(), self.split(), which),
            self.plain(),
            self.exit(),
        )
    }

    /// The session is in order.
    pub closed spec fn wf(&self) -> bool {
        &&& self.kinds_agree()
        &&& self.phase is Draining ==> self.exit@ is None
        &&& self.phase is Finished ==> self.exit@ is Some && !self.out_open && !self.err_open
        &&& !(self.phase is Failed) ==> self.logs_hold(Stream::Stdout) && self.logs_hold(
            Stream::Stderr,
        )
    }

    /// A session in order holds in its logs what was handed to it, unless a
    /// sink has failed; the trailer is there when the run is finished, and
    /// then both streams have ended.
    pub proof fn lemma_wf(&self)
        requires
            self.wf(),
        ensures
            self.phase() is Draining ==> self.exit() is None,
            self.phase() is Finished ==> self.exit() is Some && !self.is_open(Stream::Stdout)
                && !self.is_open(Stream::Stderr),
            !(self.phase() is Failed) ==> self.logs_hold(Stream::Stdout) && self.logs_hold(
                Stream::Stderr,
            ),
    {
    }

    /// The settings and the header of `self` are those of `before`.
    pub open spec fn same_run(&self, before: Session) -> bool {
        &&& self.split() == before.split()
        &&& self.tee() == before.tee()
        &&& self.timestamps() == before.timestamps()
        &&& self.plain() == before.plain()
        &&& self.kind() == before.kind()
        &&& self.header() == before.header()
    }

    /// Nothing was given out between `before` and `self`.
    pub open spec fn same_given(&self, before: Session) -> bool {
        &&& self.given(Stream::Stdout) == before.given(Stream::Stdout)
        &&& self.given(Stream::Stderr) == before.given(Stream::Stderr)
    }

    /// The same streams are open in `self` as in `before`.
    pub open spec fn same_open(&self, before: Session) -> bool {
        &&& self.is_open(Stream::Stdout) == before.is_open(Stream::Stdout)
        &&& self.is_open(Stream::Stderr) == before.is_open(Stream::Stderr)
    }

    /// Why a line of the stream `origin` is refused, if it is.
    pub open spec fn line_refusal(&self, origin: Stream) -> Option<LogError> {
        if self.phase() is Failed {
            Some(LogError::Failed)
        } else if self.phase() is Finished {
            Some(LogError::Finished)
        } else if !self.is_open(origin) {
            Some(LogError::StreamClosed)
        } else {
            None
        }
    }

    /// Why the run cannot be finished, if it cannot.
    pub open spec fn finish_refusal(&self) -> Option<LogError> {
        if self.phase() is Failed {
            Some(LogError::Failed)
        } else if self.phase() is Finished {
            Some(LogError::Finished)
        } else if self.is_open(Stream::Stdout) || self.is_open(Stream::Stderr) {
            Some(LogError::StillOpen)
        } else {
            None
        }
    }

    /// What a line of `origin` with the text `text`, handed over with the
    /// stamp `stamp`, does to a session: `before` becomes `after`, and `r`
    /// is returned.
    ///
    /// A refused line changes nothing. An accepted line is recorded once,
    /// after all earlier lines, and `r` says whether the caller mirrors it
    /// to the terminal. Where a compressing sink fails, the session has
    /// failed.
    pub open spec fn line_step(
        before: Session,
        after: Session,
        origin: Stream,
        text: Seq<char>,
        stamp: Seq<char>,
        r: Result<bool, LogError>,
    ) -> bool {
        match before.line_refusal(origin) {
            Some(e) => r == Err::<bool, LogError>(e) && after == before,
            None => {
                &&& after.same_run(before)
                &&& after.same_given(before)
                &&& after.same_open(before)
                &&& match r {
                    Ok(mirror) => {
                        &&& mirror == before.tee()
                        &&& after.phase() is Draining
                        &&& after.records() == before.records().push(
                            Record {
                                origin,
                                text,
                                stamp: stamp_used(before.timestamps(), before.plain(), stamp),
                            },
                        )
                    },
                    Err(e) => e == LogError::Write && after.phase() is Failed && before.kind()
                        == Compress::Gz,
                }
            },
        }
    }

    /// What `line_step` says for `stamp`, where `stamp` is what some moment
    /// reads as under the format of line stamps.
    pub open spec fn stamped_step(
        before: Session,
        after: Session,
        origin: Stream,
        text: Seq<char>,
        stamp: Seq<char>,
        r: Result<bool, LogError>,
    ) -> bool {
        &&& stamp_of_some_moment(Some(stamp))
        &&& Session::line_step(before, after, origin, text, stamp, r)
    }

    /// What a line does to a session when the clock is read for its stamp.
    ///
    /// Refusal comes first: a line that is refused is refused as `line_step`
    /// says, and the clock does not matter. A line of a run that does not
    /// stamp its lines is taken as `line_step` says, without a stamp. A
    /// line of a run that stamps its lines is taken as `line_step` says
    /// for the stamp of some moment; or, where that moment has no stamp,
    /// it is refused for the clock and nothing has changed.
    pub open spec fn clock_line_step(
        before: Session,
        after: Session,
        origin: Stream,
        text: Seq<char>,
        r: Result<bool, LogError>,
    ) -> bool {
        if before.line_refusal(origin) is None && before.timestamps() && !before.plain() {
            ||| exists|stamp: Seq<char>|
                Session::stamped_step(before, after, origin, text, stamp, r)
            ||| (r == Err::<bool, LogError>(LogError::Clock) && after == before
                && stamp_of_some_moment(None))
        } else {
            Session::line_step(before, after, origin, text, Seq::empty(), r)
        }
    }

    fn open_sinks(cfg: &Config) -> (sinks: Sinks)
        ensures
            sinks is Split == cfg@.split_streams,
            match sinks {
                Sinks::Combined { log } => log.kind() == cfg@.compress && log.content()
                    == Seq::<u8>::empty() && log.given() == Seq::<u8>::empty(),
                Sinks::Split { out, err } => out.kind() == cfg@.compress && out.content()
                    == Seq::<u8>::empty() && out.given() == Seq::<u8>::empty() && err.kind()
                    == cfg@.compress && err.content() == Seq::<u8>::empty() && err.given()
                    == Seq::<u8>::empty(),
            },
    {
        if cfg.split_streams {
            Sinks::Split { out: open_writer(cfg), err: open_writer(cfg) }
        } else {
            Sinks::Combined { log: open_writer(cfg) }
        }
    }

    /// Begins a run: opens the sink of each log and writes the header to
    /// it. Fails where a compressing sink does.
    pub fn begin(cfg: &Config, ctx: &RenderContext, env: &Vec<(String, String)>) -> (r: Result<
        Session,
        LogError,
    >)
        ensures
            match r {
                Ok(s) => {
                    &&& s.wf()
                    &&& s.split() == cfg@.split_streams
                    &&& s.tee() == cfg@.tee
                    &&& s.timestamps() == cfg@.timestamp_each_line
                    &&& s.plain() == cfg@.plain_lines
                    &&& s.kind() == cfg@.compress
                    &&& s.header() == header_text(
                        ctx@,
                        recorded_env(cfg@.log_env, env_texts(env@)),
                    )
                    &&& s.records() == Seq::<Record>::empty()
                    &&& s.phase() is Draining
                    &&& s.is_open(Stream::Stdout)
                    &&& s.is_open(Stream::Stderr)
                    &&& s.given(Stream::Stdout) == Seq::<u8>::empty()
                    &&& s.given(Stream::Stderr) == Seq::<u8>::empty()
                },
                Err(e) => e == LogError::Write && cfg@.compress == Compress::Gz,
            },
    {
        let mut sinks = Session::open_sinks(cfg);
        let ok = match &mut sinks {
            Sinks::Combined { log } => write_header(log, cfg, ctx, env),
            Sinks::Split { out, err } => {
                let first = write_header(out, cfg, ctx, env);
                let second = write_header(err, cfg, ctx, env);
                first && second
            },
        };
        if !ok {
            return Err(LogError::Write);
        }
        let ghost head = header_text(ctx@, recorded_env(cfg@.log_env, env_texts(env@)));
        let s = Session {
            sinks,
            tee: cfg.tee,
            timestamps: cfg.timestamp_each_line,
            plain: cfg.plain_lines,
            out_open: true,
            err_open: true,
            phase: Phase::Draining,
            header: Ghost(head),
            records: Ghost(Seq::empty()),
            exit: Ghost(None),
        };
        proof {
            let empty = Seq::<Record>::empty();
            assert(of_stream(empty, Stream::Stdout) == empty);
            assert(of_stream(empty, Stream::Stderr) == empty);
            assert(log_bytes(head, empty, cfg@.plain_lines, None) =~= encode_utf8(head));
            assert(Seq::<u8>::empty() + encode_utf8(head) =~= encode_utf8(head));
        }
        Ok(s)
    }

    /// The streams that the caller still waits on.
    pub fn pending(&self) -> (p: Pending)
        ensures
            p.out == self.is_open(Stream::Stdout),
            p.err == self.is_open(Stream::Stderr),
    {
        Pending { out: self.out_open, err: self.err_open }
    }

    /// Whether both streams have reported their end.
    pub fn drained(&self) -> (b: bool)
        ensures
            b == (!self.is_open(Stream::Stdout) && !self.is_open(Stream::Stderr)),
    {
        !self.out_open && !self.err_open
    }

    /// How far the run has come.
    pub fn state(&self) -> (p: Phase)
        ensures
            p == self.phase(),
    {
        self.phase
    }

    /// Whether each line gets a time stamp from the clock.
    pub fn stamps_lines(&self) -> (b: bool)
        ensures
            b == (self.timestamps() && !self.plain()),
    {
        self.timestamps && !self.plain
    }

    fn refuse_line(&self, origin: Stream) -> (r: Option<LogError>)
        ensures
            r == self.line_refusal(origin),
    {
        match self.phase {
            Phase::Failed => Some(LogError::Failed),
            Phase::Finished => Some(LogError::Finished),
            Phase::Draining => {
                let open = match origin {
                    Stream::Stdout => self.out_open,
                    Stream::Stderr => self.err_open,
                };
                if open {
                    None
                } else {
                    Some(LogError::StreamClosed)
                }
            },
        }
    }

    /// Takes a line of the stream `origin` that arrived, with `stamp` as the
    /// time stamp to write where the run stamps its lines.
    pub fn line_at(&mut self, origin: Stream, text: &str, stamp: &str) -> (r: Result<
        bool,
        LogError,
    >)
        requires
            old(self).wf(),
        ensures
            final(self).wf(),
            Session::line_step(*old(self), *final(self), origin, text@, stamp@, r),
            old(self).line_refusal(origin) is None && old(self).kind() == Compress::Off ==> r is Ok,
    {
        match self.refuse_line(origin) {
            Some(e) => {
                return Err(e);
            },
            None => {},
        }
        let used = if self.timestamps && !self.plain {
            Some(stamp)
        } else {
            None
        };
        let plain = self.plain;
        let ok = match &mut self.sinks {
            Sinks::Combined { log } => write_line_at(log, origin, text, used, plain),
            Sinks::Split { out, err } => match origin {
                Stream::Stdout => write_line_at(out, origin, text, used, plain),
                Stream::Stderr => write_line_at(err, origin, text, used, plain),
            },
        };
        if !ok {
            self.phase = Phase::Failed;
            return Err(LogError::Write);
        }
        let ghost record = Record {
            origin,
            text: text@,
            stamp: stamp_used(self.timestamps, self.plain, stamp@),
        };
        let ghost earlier = self.records@;
        proof {
            self.records = Ghost(earlier.push(record));
            let later = earlier.push(record);
            assert(later.drop_last() == earlier);
            assert(later.last() == record);
            let line = encode_utf8(line_text(origin, text@, record.stamp, self.plain));
            let head = encode_utf8(self.header@);
            assert forall|which: Stream| self.logs_hold(which) by {
                let mine = records_for(earlier, old(self).split(), which);
                if !self.split() || which == origin {
                    let grown = mine.push(record);
                    assert(grown.drop_last() == mine);
                    assert(records_for(later, self.split(), which) == grown);
                    assert(head + lines_bytes(mine, self.plain) + Seq::<u8>::empty() + line
                        =~= head + lines_bytes(grown, self.plain) + Seq::<u8>::empty());
                } else {
                    assert(records_for(later, self.split(), which) == mine);
                }
            }
        }
        Ok(self.tee)
    }

    /// Takes a line of the stream `origin` that arrived. A line that is
    /// refused is refused before the clock is read. Where the run stamps
    /// its lines, the clock is then read: whatever it shows, the line is
    /// taken as `line_at` takes it with the stamp of some moment, or
    /// refused for want of a stamp, and nothing has changed.
    pub fn line(&mut self, origin: Stream, text: &str) -> (r: Result<bool, LogError>)
        requires
            old(self).wf(),
        ensures
            final(self).wf(),
            Session::clock_line_step(*old(self), *final(self), origin, text@, r),
            old(self).line_refusal(origin) is None && !(old(self).timestamps() && !old(
                self,
            ).plain()) && old(self).kind() == Compress::Off ==> r is Ok,
    {
        match self.refuse_line(origin) {
            Some(e) => {
                return Err(e);
            },
            None => {},
        }
        if self.stamps_lines() {
            match line_stamp() {
                Some(stamp) => {
                    let r = self.line_at(origin, text, stamp.as_str());
                    assert(Session::stamped_step(*old(self), *self, origin, text@, stamp@, r));
                    r
                },
                None => Err(LogError::Clock),
            }
        } else {
            let r = self.line_at(origin, text, "");
            proof {
                reveal_strlit("");
                assert(""@ =~= Seq::<char>::empty());
            }
            r
        }
    }

    /// What the end of the stream `origin` does to a session: `before`
    /// becomes `after`, and `r` is returned. A refused end changes nothing;
    /// an accepted one closes the stream and nothing else.
    pub open spec fn end_step(
        before: Session,
        after: Session,
        origin: Stream,
        r: Result<(), LogError>,
    ) -> bool {
        match before.line_refusal(origin) {
            Some(e) => r == Err::<(), LogError>(e) && after == before,
            None => {
                &&& r is Ok
                &&& after.same_run(before)
                &&& after.same_given(before)
                &&& after.records() == before.records()
                &&& after.phase() is Draining
                &&& !after.is_open(origin)
                &&& forall|other: Stream|
                    other != origin ==> after.is_open(other) == before.is_open(other)
            },
        }
    }

    /// Takes what a read from a pipe has told: a line is taken as `line`
    /// takes it, the end of a stream as `end_of_stream` does. The result
    /// says whether the caller mirrors a line to the terminal; there is
    /// nothing to mirror at the end of a stream.
    pub fn handle(&mut self, event: &Event) -> (r: Result<bool, LogError>)
        requires
            old(self).wf(),
        ensures
            final(self).wf(),
            match event@ {
                Arrival::Line { origin, text } => Session::clock_line_step(
                    *old(self),
                    *final(self),
                    origin,
                    text,
                    r,
                ),
                Arrival::End { origin } => match r {
                    Ok(mirror) => !mirror && Session::end_step(
                        *old(self),
                        *final(self),
                        origin,
                        Ok(()),
                    ),
                    Err(e) => Session::end_step(*old(self), *final(self), origin, Err(e)),
                },
            },
    {
        match event {
            Event::Line { origin, text } => {
                let r = self.line(*origin, text.as_str());
                proof {
                    assert(event@ == Arrival::Line { origin: *origin, text: text@ });
                }
                r
            },
            Event::End { origin } => match self.end_of_stream(*origin) {
                Ok(()) => Ok(false),
                Err(e) => Err(e),
            },
        }
    }

    /// Notes that the stream `origin` has reported its end. Refused where
    /// the run is over or the stream had ended before; nothing changes
    /// then.
    pub fn end_of_stream(&mut self, origin: Stream) -> (r: Result<(), LogError>)
        requires
            old(self).wf(),
        ensures
            final(self).wf(),
            Session::end_step(*old(self), *final(self), origin, r),
    {
        match self.refuse_line(origin) {
            Some(e) => {
                return Err(e);
            },
            None => {},
        }
        match origin {
            Stream::Stdout => {
                self.out_open = false;
            },
            Stream::Stderr => {
                self.err_open = false;
            },
        }
        Ok(())
    }

    fn refuse_finish(&self) -> (r: Option<LogError>)
        ensures
            r == self.finish_refusal(),
    {
        match self.phase {
            Phase::Failed => Some(LogError::Failed),
            Phase::Finished => Some(LogError::Finished),
            Phase::Draining => {
                if self.out_open || self.err_open {
                    Some(LogError::StillOpen)
                } else {
                    None
                }
            },
        }
    }

    /// Finishes the run once both streams have ended and the command has
    /// exited with `status`: writes the trailer to each log and returns the
    /// exit code that the run reports. Refused while a stream is open or
    /// once the run is over; nothing changes then.
    pub fn finish(&mut self, status: Option<i32>) -> (r: Result<i32, LogError>)
        requires
            old(self).wf(),
        ensures
            final(self).wf(),
            match old(self).finish_refusal() {
                Some(e) => r == Err::<i32, LogError>(e) && *final(self) == *old(self),
                None => {
                    &&& final(self).same_run(*old(self))
                    &&& final(self).same_given(*old(self))
                    &&& final(self).same_open(*old(self))
                    &&& final(self).records() == old(self).records()
                    &&& match r {
                        Ok(code) => {
                            &&& code as int == exit_code_of(crate::template::code_of(status))
                            &&& final(self).phase() is Finished
                            &&& final(self).exit() == Some(code as int)
                        },
                        Err(e) => e == LogError::Write && final(self).phase() is Failed
                            && old(self).kind() == Compress::Gz,
                    }
                },
            },
            old(self).finish_refusal() is None && old(self).kind() == Compress::Off ==> r is Ok,
    {
        match self.refuse_finish() {
            Some(e) => {
                return Err(e);
            },
            None => {},
        }
        let code = exit_code(status);
        let ok = match &mut self.sinks {
            Sinks::Combined { log } => write_trailer(log, code),
            Sinks::Split { out, err } => {
                let first = write_trailer(out, code);
                let second = write_trailer(err, code);
                first && second
            },
        };
        if !ok {
            self.phase = Phase::Failed;
            return Err(LogError::Write);
        }
        self.phase = Phase::Finished;
        proof {
            self.exit = Ghost(Some(code as int));
            let tail = encode_utf8(trailer_text(code as int));
            let head = encode_utf8(self.header@);
            assert forall|which: Stream| self.logs_hold(which) by {
                let mine = records_for(self.records@, self.split(), which);
                assert(head + lines_bytes(mine, self.plain) + Seq::<u8>::empty() + tail =~= head
                    + lines_bytes(mine, self.plain) + tail);
            }
        }
        Ok(code)
    }

    /// Takes out of the log of the stream `which` the bytes that are ready
    /// for its file: all of them, so that none is ready after it. From a
    /// log that is not compressed these are all the bytes written to it
    /// since the last time.
    pub fn take_output(&mut self, which: Stream) -> (out: Vec<u8>)
        requires
            old(self).wf(),
        ensures
            final(self).wf(),
            final(self).same_run(*old(self)),
            final(self).same_open(*old(self)),
            final(self).records() == old(self).records(),
            final(self).phase() == old(self).phase(),
            final(self).exit() == old(self).exit(),
            final(self).content(Stream::Stdout) == old(self).content(Stream::Stdout),
            final(self).content(Stream::Stderr) == old(self).content(Stream::Stderr),
            out@ == old(self).ready(which),
            final(self).ready(which) == Seq::<u8>::empty(),
            final(self).given(which) == old(self).given(which) + out@,
            forall|other: Stream|
                old(self).split() && other != which ==> final(self).given(other) == old(
                    self,
                ).given(other),
            old(self).kind() == Compress::Off ==> final(self).given(which) == final(self).content(
                which,
            ),
    {
        match &mut self.sinks {
            Sinks::Combined { log } => log.take_output(),
            Sinks::Split { out, err } => match which {
                Stream::Stdout => out.take_output(),
                Stream::Stderr => err.take_output(),
            },
        }
    }

    /// Compression does not change what is written to a log: two runs that
    /// were given the same header and the same lines, and ended alike, were
    /// handed the same bytes for the log of each stream, whether the logs
    /// are compressed or not. This compares what goes into the sinks: for a
    /// compressed log, the bytes that are handed to the encoder, not the
    /// bytes that it gives out for the file.
    pub proof fn lemma_compression_keeps_content(&self, other: Session, which: Stream)
        requires
            self.wf(),
            other.wf(),
            !(self.phase() is Failed),
            !(other.phase() is Failed),
            self.header() == other.header(),
            self.records() == other.records(),
            self.split() == other.split(),
            self.plain() == other.plain(),
            self.exit() == other.exit(),
        ensures
            self.content(which) == other.content(which),
    {
        match which {
            Stream::Stdout => {
                assert(self.logs_hold(Stream::Stdout));
                assert(other.logs_hold(Stream::Stdout));
            },
            Stream::Stderr => {
                assert(self.logs_hold(Stream::Stderr));
                assert(other.logs_hold(Stream::Stderr));
            },
        }
    }

    /// Closes the logs and hands out their last bytes. A compressed log
    /// finishes its stream for that: its bytes are those that its encoder
    /// hands out at the end of the stream. Fails where an encoder does.
    /// Once the last bytes of a log that is not compressed are written, its
    /// file holds all that was written to the log.
    pub fn close(self) -> (r: Result<Remainder, LogError>)
        requires
            self.wf(),
        ensures
            match r {
                Ok(Remainder::Combined { log }) => {
                    &&& !self.split()
                    &&& self.last_bytes(Stream::Stdout) == Some(log@)
                    &&& self.kind() == Compress::Off ==> self.given(Stream::Stdout) + log@
                        == self.content(Stream::Stdout)
                },
                Ok(Remainder::Split { out, err }) => {
                    &&& self.split()
                    &&& self.last_bytes(Stream::Stdout) == Some(out@)
                    &&& self.last_bytes(Stream::Stderr) == Some(err@)
                    &&& self.kind() == Compress::Off ==> self.given(Stream::Stdout) + out@
                        == self.content(Stream::Stdout) && self.given(Stream::Stderr) + err@
                        == self.content(Stream::Stderr)
                },
                Err(e) => {
                    &&& e == LogError::Write
                    &&& self.kind() == Compress::Gz
                    &&& self.last_bytes(Stream::Stdout) is None || self.last_bytes(
                        Stream::Stderr,
                    ) is None
                },
            },
    {
        match self.sinks {
            Sinks::Combined { log } => match log.close() {
                Some(bytes) => Ok(Remainder::Combined { log: bytes }),
                None => Err(LogError::Write),
            },
            Sinks::Split { out, err } => {
                let first = out.close();
                let second = err.close();
                match (first, second) {
                    (Some(a), Some(b)) => Ok(Remainder::Split { out: a, err: b }),
                    _ => Err(LogError::Write),
                }
            },
        }
    }
}

} // verus!
