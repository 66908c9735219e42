//! A run from its start to its end: the facts that are recorded of it, and
//! the renaming of its logs once the exit code is known.

use vstd::prelude::*;
use crate::clock::{format_moment, local_now, moment_text, Moment};
use crate::config::{Config, Settings};
use crate::paths::{final_files, finalize_files, FileNames, LogFiles};
use crate::template::{join_args, kept_args, texts, RenderContext, RenderFacts};
use crate::text::{decimal, decimal_chars, joined, string_of};

verus! {

/// The facts of a run that begins at the moment `at`: the command and its
/// recorded arguments, the date and the time of `at` under the formats of
/// the settings, the seconds of `at` in decimal, the host and the working
/// directory. The exit code is not known yet. `None` where a format of the
/// settings or the moment is not valid.
pub open spec fn run_facts(
    at: Moment,
    cfg: Settings,
    cmd: Seq<char>,
    args: Seq<Seq<char>>,
    cwd: Seq<char>,
    hostname: Seq<char>,
) -> Option<RenderFacts> {
    match (moment_text(at, cfg.date_format), moment_text(at, cfg.time_format)) {
        (Some(date), Some(time)) => Some(
            RenderFacts {
                cmd,
                args: joined(kept_args(args, cfg.include_full_args), seq![' ']),
                date,
                time,
                ts: decimal(at.secs as int),
                hostname,
                cwd,
                exit_code: None,
            },
        ),
        _ => None,
    }
}

/// The mathematical value of a context that may be absent.
pub open spec fn facts_of(ctx: Option<RenderContext>) -> Option<RenderFacts> {
    match ctx {
        Some(c) => Some(c@),
        None => None,
    }
}

/// Puts together the facts of a run that begins at the moment `at`.
pub fn describe_run_at(
    at: Moment,
    cfg: &Config,
    cmd: &str,
    args: &Vec<String>,
    cwd: &str,
    hostname: &str,
) -> (ctx: Option<RenderContext>)
    ensures
        facts_of(ctx) == run_facts(at, cfg@, cmd@, texts(args@), cwd@, hostname@),
{
    let date = match format_moment(at, cfg.date_format.as_str()) {
        Some(date) => date,
        None => {
            return None;
        },
    };
    let time = match format_moment(at, cfg.time_format.as_str()) {
        Some(time) => time,
        None => {
            return None;
        },
    };
    Some(
        RenderContext {
            cmd: cmd.to_owned(),
            args: join_args(args, cfg.include_full_args),
            date,
            time,
            ts: string_of(&decimal_chars(at.secs)),
            hostname: hostname.to_owned(),
            cwd: cwd.to_owned(),
            exit_code: None,
        },
    )
}

/// Puts together the facts of a run that begins now. Whatever the clock
/// shows, they are the facts of a run that begins at some moment.
pub fn describe_run(cfg: &Config, cmd: &str, args: &Vec<String>, cwd: &str, hostname: &str) -> (ctx:
    Option<RenderContext>)
    ensures
        exists|at: Moment|
            facts_of(ctx) == run_facts(at, cfg@, cmd@, texts(args@), cwd@, hostname@),
{
    let at = local_now();
    describe_run_at(at, cfg, cmd, args, cwd, hostname)
}

/// A file that gets another name.
pub struct Rename {
    pub from: String,
    pub to: String,
}

/// The mathematical value of a `Rename`.
pub struct Renaming {
    pub from: Seq<char>,
    pub to: Seq<char>,
}

impl View for Rename {
    type V = Renaming;

    open spec fn view(&self) -> Renaming {
        Renaming { from: self.from@, to: self.to@ }
    }
}

/// The mathematical values of the renames in `v`.
pub open spec fn renamings(v: Seq<Rename>) -> Seq<Renaming> {
    Seq::new(v.len(), |i: int| v[i]@)
}

/// The renames that give the files `written` the names `finals`: each file
/// to the name of the same stream. Files of another layout than the names
/// are left alone.
pub open spec fn renames_between(written: FileNames, finals: Option<FileNames>) -> Seq<Renaming> {
    match (written, finals) {
        (FileNames::Combined { path }, Some(FileNames::Combined { path: to })) => seq![
            Renaming { from: path, to },
        ],
        (
            FileNames::Split { out, err },
            Some(FileNames::Split { out: out_to, err: err_to }),
        ) => seq![Renaming { from: out, to: out_to }, Renaming { from: err, to: err_to }],
        _ => Seq::empty(),
    }
}

/// The renames that end a run whose command has exited with `code`: none
/// where the file names do not depend on the exit code, else one for each
/// file, from the name it was written under to the name with the exit code
/// in it.
pub open spec fn final_renames(
    cfg: Settings,
    facts: RenderFacts,
    cwd: Seq<char>,
    code: int,
    written: FileNames,
) -> Seq<Renaming> {
    renames_between(written, final_files(cfg, facts, cwd, code, written))
}

/// Decides which files are renamed at the end of a run, and to what. The
/// caller renames them; a rename that fails leaves the file under the name
/// it was written under.
pub fn finalize(cfg: &Config, ctx: &RenderContext, cwd: &str, code: i32, written: &LogFiles) -> (r:
    Vec<Rename>)
    ensures
        renamings(r@) == final_renames(cfg@, ctx@, cwd@, code as int, written@),
{
    let finals = finalize_files(cfg, ctx, cwd, code, written);
    let mut r: Vec<Rename> = Vec::new();
    match (written, finals) {
        (LogFiles::Combined { path }, Some(LogFiles::Combined { path: to })) => {
            r.push(Rename { from: path.as_str().to_owned(), to });
        },
        (LogFiles::Split { out, err }, Some(LogFiles::Split { out: out_to, err: err_to })) => {
            r.push(Rename { from: out.as_str().to_owned(), to: out_to });
            r.push(Rename { from: err.as_str().to_owned(), to: err_to });
        },
        _ => {},
    }
    assert(renamings(r@) =~= final_renames(cfg@, ctx@, cwd@, code as int, written@));
    r
}

} // verus!
