//! The text of a log: the header, the logged lines and the trailer.

use vstd::prelude::*;
use crate::template::{RenderContext, RenderFacts};
use crate::text::{chars_of, decimal, decimal_chars, push_all, push_str, string_of};

verus! {

/// One of the two output streams of a command.
#[derive(Clone, Copy, Debug, PartialEq, Eq, Structural)]
pub enum Stream {
    Stdout,
    Stderr,
}

/// The name of a stream as it stands before a logged line.
pub open spec fn stream_tag(origin: Stream) -> Seq<char> {
    match origin {
        Stream::Stdout => seq!['S', 'T', 'D', 'O', 'U', 'T'],
        Stream::Stderr => seq!['S', 'T', 'D', 'E', 'R', 'R'],
    }
}

/// What stands before the text of a logged line: the time stamp in square
/// brackets where there is one, then the stream's name in square brackets
/// and a space.
pub open spec fn line_prefix(origin: Stream, stamp: Option<Seq<char>>) -> Seq<char> {
    match stamp {
        Some(t) => seq!['['] + t + seq![']', '['] + stream_tag(origin) + seq![']', ' '],
        None => seq!['['] + stream_tag(origin) + seq![']', ' '],
    }
}

/// A logged line. In plain mode it is the text and a line feed; else the
/// prefix, the text and a line feed.
pub open spec fn line_text(
    origin: Stream,
    text: Seq<char>,
    stamp: Option<Seq<char>>,
    plain: bool,
) -> Seq<char> {
    if plain {
        text + seq!['\n']
    } else {
        line_prefix(origin, stamp) + text + seq!['\n']
    }
}

/// The line of a header that records one variable of the environment.
pub open spec fn env_line(name: Seq<char>, value: Seq<char>) -> Seq<char> {
    "env["@ + name + "]="@ + value + "\n"@
}

/// The lines of a header that record the environment, in the order given.
pub open spec fn env_lines(env: Seq<(Seq<char>, Seq<char>)>) -> Seq<char>
    decreases env.len(),
{
    if env.len() == 0 {
        Seq::empty()
    } else {
        env_lines(env.drop_last()) + env_line(env.last().0, env.last().1)
    }
}

/// The names and values of the variables in `env`, as texts.
pub open spec fn env_texts(env: Seq<(String, String)>) -> Seq<(Seq<char>, Seq<char>)> {
    Seq::new(env.len(), |i: int| (env[i].0@, env[i].1@))
}

/// The variables that a header records: those given where the environment
/// is to be logged, none where not.
pub open spec fn recorded_env(log_env: bool, env: Seq<(Seq<char>, Seq<char>)>) -> Seq<
    (Seq<char>, Seq<char>),
> {
    if log_env {
        env
    } else {
        Seq::empty()
    }
}

/// The first lines of a header: the marker and the command, then the
/// arguments where there are any.
pub open spec fn header_start(facts: RenderFacts) -> Seq<char> {
    let start = "# lg log\n"@ + "cmd: "@ + facts.cmd + "\n"@;
    if facts.args.len() > 0 {
        start + "args: "@ + facts.args + "\n"@
    } else {
        start
    }
}

/// The header of a log: the marker, the command, its arguments where there
/// are any, the date and time, the working directory, the host, one line
/// for each recorded variable of the environment, and the line that opens
/// the output.
pub open spec fn header_text(facts: RenderFacts, env: Seq<(Seq<char>, Seq<char>)>) -> Seq<char> {
    header_start(facts) + "date: "@ + facts.date + " "@ + facts.time + "\n"@ + "cwd: "@
        + facts.cwd + "\n"@ + "host: "@ + facts.hostname + "\n"@ + env_lines(env)
        + "----- BEGIN OUTPUT -----\n"@
}

/// The trailer of a log: an empty line, then the exit code of the command.
pub open spec fn trailer_text(code: int) -> Seq<char> {
    "\n[exit_code] "@ + decimal(code) + "\n"@
}

fn tag_chars(origin: Stream) -> (v: Vec<char>)
    ensures
        v@ == stream_tag(origin),
{
    match origin {
        Stream::Stdout => vec!['S', 'T', 'D', 'O', 'U', 'T'],
        Stream::Stderr => vec!['S', 'T', 'D', 'E', 'R', 'R'],
    }
}

/// The text of a string slice that may be absent.
pub open spec fn str_text(s: Option<&str>) -> Option<Seq<char>> {
    match s {
        Some(t) => Some(t@),
        None => None,
    }
}

/// Formats one line of output for the log.
///
/// In plain mode the line is the text and a line feed, whatever stamp is
/// given. Else the stream's name stands before the text, and before that
/// the time stamp where one is given.
pub fn format_line(origin: Stream, text: &str, stamp: Option<&str>, plain_lines: bool) -> (out:
    String)
    ensures
        out@ == line_text(origin, text@, str_text(stamp), plain_lines),
{
    let mut v: Vec<char> = Vec::new();
    if !plain_lines {
        v.push('[');
        match stamp {
            Some(t) => {
                push_str(&mut v, t);
                v.push(']');
                v.push('[');
            },
            None => {},
        }
        let tag = tag_chars(origin);
        push_all(&mut v, &tag);
        v.push(']');
        v.push(' ');
        assert(v@ =~= line_prefix(origin, str_text(stamp)));
    }
    push_str(&mut v, text);
    v.push('\n');
    assert(v@ =~= line_text(origin, text@, str_text(stamp), plain_lines));
    string_of(&v)
}

fn push_env_lines(v: &mut Vec<char>, env: &Vec<(String, String)>)
    ensures
        final(v)@ == old(v)@ + env_lines(env_texts(env@)),
{
    let ghost all = env_texts(env@);
    let mut i: usize = 0;
    assert(v@ =~= old(v)@ + env_lines(all.take(0)));
    while i < env.len()
        invariant
            i <= env.len(),
            all == env_texts(env@),
            v@ == old(v)@ + env_lines(all.take(i as int)),
        decreases env.len() - i,
    {
        let ghost before = v@;
        push_str(v, "env[");
        push_str(v, env[i].0.as_str());
        push_str(v, "]=");
        push_str(v, env[i].1.as_str());
        push_str(v, "\n");
        proof {
            assert(all.take(i + 1).drop_last() == all.take(i as int));
            assert(all.take(i + 1).last() == (env@[i as int].0@, env@[i as int].1@));
            assert(v@ =~= before + env_line(env@[i as int].0@, env@[i as int].1@));
            assert(v@ =~= old(v)@ + env_lines(all.take(i + 1)));
        }
        i += 1;
    }
    assert(all.take(env.len() as int) == all);
}

/// The header of the log of the run `ctx`. The variables in `env` are
/// recorded where `log_env` is set, in the order given.
pub fn header(ctx: &RenderContext, env: &Vec<(String, String)>, log_env: bool) -> (out: String)
    ensures
        out@ == header_text(ctx@, recorded_env(log_env, env_texts(env@))),
{
    let mut v: Vec<char> = Vec::new();
    push_str(&mut v, "# lg log\n");
    push_str(&mut v, "cmd: ");
    push_str(&mut v, ctx.cmd.as_str());
    push_str(&mut v, "\n");
    let args = chars_of(ctx.args.as_str());
    if args.len() > 0 {
        push_str(&mut v, "args: ");
        push_all(&mut v, &args);
        push_str(&mut v, "\n");
    }
    assert(v@ =~= header_start(ctx@));
    push_str(&mut v, "date: ");
    push_str(&mut v, ctx.date.as_str());
    push_str(&mut v, " ");
    push_str(&mut v, ctx.time.as_str());
    push_str(&mut v, "\n");
    push_str(&mut v, "cwd: ");
    push_str(&mut v, ctx.cwd.as_str());
    push_str(&mut v, "\n");
    push_str(&mut v, "host: ");
    push_str(&mut v, ctx.hostname.as_str());
    push_str(&mut v, "\n");
    if log_env {
        push_env_lines(&mut v, env);
    } else {
        assert(v@ =~= v@ + env_lines(Seq::empty()));
    }
    push_str(&mut v, "----- BEGIN OUTPUT -----\n");
    assert(v@ =~= header_text(ctx@, recorded_env(log_env, env_texts(env@))));
    string_of(&v)
}

/// The trailer of a log whose command ended with `code`.
pub fn trailer(code: i32) -> (out: String)
    ensures
        out@ == trailer_text(code as int),
{
    let mut v: Vec<char> = Vec::new();
    push_str(&mut v, "\n[exit_code] ");
    let digits = decimal_chars(code as i64);
    push_all(&mut v, &digits);
    push_str(&mut v, "\n");
    assert(v@ =~= trailer_text(code as int));
    string_of(&v)
}

} // verus!
