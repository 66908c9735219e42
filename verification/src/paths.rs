//! Where the log of a run is written, and what it is called once the exit
//! code of the command is known. Paths are taken apart and put together by
//! `std::path`.

use vstd::prelude::*;
use crate::config::{text_of, Compress, Config, Settings};
use crate::template::{
    code_of, names_exit_code, render_chars, rendered, token, with_exit_code, Placeholder,
    RenderContext, RenderFacts,
};
use crate::name_laws::lemma_rendered_holds_exit_code;
use crate::text::{
    chars_of, decimal, is_prefix_at, occurs_in, push_str, starts_at, string_of,
};

verus! {

/// The path that `std::path` makes of the directory `dir` and the name
/// `name`, on the platform that the library is built for.
pub uninterp spec fn path_joined(dir: Seq<char>, name: Seq<char>) -> Seq<char>;

/// The extension that `std::path` finds in the file name of `path`, if it
/// finds one, on the platform that the library is built for.
pub uninterp spec fn path_extension(path: Seq<char>) -> Option<Seq<char>>;

/// `path` with `ext` as the extension of its file name, as `std::path` sets
/// it on the platform that the library is built for.
pub uninterp spec fn path_with_extension(path: Seq<char>, ext: Seq<char>) -> Seq<char>;

/// Whether `c` separates the parts of a path on the platform that the
/// library is built for.
pub uninterp spec fn path_separator(c: char) -> bool;

/// Joins a directory and a name. Wraps `std::path::Path::join`; the result
/// depends on the two texts alone, so the contract names it.
#[verifier::external_body]
fn join_path(dir: &str, name: &str) -> (r: String)
    ensures
        r@ == path_joined(dir@, name@),
{
    std::path::Path::new(dir).join(name).to_string_lossy().into_owned()
}

/// The extension of a path. Wraps `std::path::Path::extension`; the result
/// depends on the text alone, so the contract names it.
#[verifier::external_body]
fn extension_of(path: &str) -> (r: Option<String>)
    ensures
        text_of(r) == path_extension(path@),
{
    std::path::Path::new(path).extension().map(|e| e.to_string_lossy().into_owned())
}

/// Sets the extension of a path. Wraps `std::path::Path::with_extension`,
/// which panics where the extension holds a path separator: those are left
/// out. The result depends on the two texts alone, so the contract names it.
#[verifier::external_body]
fn with_extension(path: &str, ext: &str) -> (r: String)
    requires
        separator_free(ext@),
    ensures
        r@ == path_with_extension(path@, ext@),
{
    std::path::Path::new(path).with_extension(ext).to_string_lossy().into_owned()
}

/// Whether a character separates the parts of a path. Wraps
/// `std::path::is_separator`.
#[verifier::external_body]
fn is_separator(c: char) -> (b: bool)
    ensures
        b == path_separator(c),
{
    std::path::is_separator(c)
}

/// No character of `s` separates the parts of a path.
pub open spec fn separator_free(s: Seq<char>) -> bool {
    forall|i: int| 0 <= i < s.len() ==> !path_separator(#[trigger] s[i])
}

/// `path` with `ext` as its extension; `path` itself where `ext` holds a
/// path separator and so can be no extension.
pub open spec fn extension_replaced(path: Seq<char>, ext: Seq<char>) -> Seq<char> {
    if separator_free(ext) {
        path_with_extension(path, ext)
    } else {
        path
    }
}

/// `s` ends with `suffix`.
pub open spec fn has_suffix(s: Seq<char>, suffix: Seq<char>) -> bool {
    suffix.len() <= s.len() && is_prefix_at(s, suffix, s.len() - suffix.len())
}

/// The name under which a log is written while its final name is not known
/// yet: hidden, and marked as partial.
pub open spec fn hidden_name(name: Seq<char>) -> Seq<char> {
    "."@ + name + ".partial"@
}

/// The extension of a compressed log, given the extension that the path
/// has so far: that extension with `.gz` after it, and `log.gz` where the
/// path has none.
pub open spec fn gz_extension(ext: Option<Seq<char>>) -> Seq<char> {
    match ext {
        Some(e) => e + ".gz"@,
        None => "log.gz"@,
    }
}

/// The directory that the logs go to: the one that the settings name, the
/// working directory where they name none.
pub open spec fn output_dir_of(cfg: Settings, cwd: Seq<char>) -> Seq<char> {
    match cfg.output_dir {
        Some(dir) => dir,
        None => cwd,
    }
}

/// The files of one run.
pub enum LogFiles {
    /// One file for both streams.
    Combined { path: String },
    /// One file for each stream.
    Split { out: String, err: String },
}

/// The mathematical value of a `LogFiles`.
pub enum FileNames {
    Combined { path: Seq<char> },
    Split { out: Seq<char>, err: Seq<char> },
}

impl View for LogFiles {
    type V = FileNames;

    open spec fn view(&self) -> FileNames {
        match self {
            LogFiles::Combined { path } => FileNames::Combined { path: path@ },
            LogFiles::Split { out, err } => FileNames::Split { out: out@, err: err@ },
        }
    }
}

/// Whether the file names of a run depend on the exit code of the command.
pub open spec fn needs_rename(cfg: Settings) -> bool {
    occurs_in(cfg.filename_template, token(Placeholder::ExitCode))
}

/// The name that the template of `cfg` gives for the run `facts` with the
/// exit code `code`.
pub open spec fn name_for(cfg: Settings, facts: RenderFacts, code: Option<int>) -> Seq<char> {
    rendered(
        cfg.filename_template,
        with_exit_code(facts, code),
        cfg.sanitize_filename,
        cfg.include_args_in_name,
    )
}

/// The name as it is while the run lasts: hidden where the final name will
/// depend on the exit code.
pub open spec fn working_name(cfg: Settings, name: Seq<char>) -> Seq<char> {
    if needs_rename(cfg) {
        hidden_name(name)
    } else {
        name
    }
}

/// The file that a run with both streams in one log writes to. A name
/// without an extension gets `.log`; a compressed log whose path does not
/// end in `.gz` gets `.gz` after its extension.
pub open spec fn combined_path(cfg: Settings, facts: RenderFacts, dir: Seq<char>) -> Seq<char> {
    let rendered = name_for(cfg, facts, None);
    let name = if path_extension(rendered) is None {
        rendered + ".log"@
    } else {
        rendered
    };
    let path = path_joined(dir, working_name(cfg, name));
    if cfg.compress == Compress::Gz && !has_suffix(path, ".gz"@) {
        extension_replaced(path, gz_extension(path_extension(path)))
    } else {
        path
    }
}

/// One of the two files that a run with a log for each stream writes to:
/// the run's path with the stream's extension in place of its own, and with
/// the compressed form of that extension set once more where the log is
/// compressed.
pub open spec fn split_path(
    cfg: Settings,
    facts: RenderFacts,
    dir: Seq<char>,
    ext: Seq<char>,
    gz_ext: Seq<char>,
) -> Seq<char> {
    let stem = path_joined(dir, working_name(cfg, name_for(cfg, facts, None)));
    let path = extension_replaced(stem, ext);
    if cfg.compress == Compress::Gz {
        extension_replaced(path, gz_ext)
    } else {
        path
    }
}

/// The files that a run writes to while it lasts.
pub open spec fn planned_files(cfg: Settings, facts: RenderFacts, cwd: Seq<char>) -> FileNames {
    let dir = output_dir_of(cfg, cwd);
    if cfg.split_streams {
        FileNames::Split {
            out: split_path(cfg, facts, dir, "out.log"@, "out.log.gz"@),
            err: split_path(cfg, facts, dir, "err.log"@, "err.log.gz"@),
        }
    } else {
        FileNames::Combined { path: combined_path(cfg, facts, dir) }
    }
}

/// Whether the log at `written` is compressed: the settings say so, or its
/// path ends in `.gz`.
pub open spec fn written_compressed(cfg: Settings, written: Seq<char>) -> bool {
    cfg.compress == Compress::Gz || has_suffix(written, ".gz"@)
}

/// The final path of a log with both streams, written at `written`: the
/// name with the exit code in it. A compressed log whose name does not end
/// in `.gz` gets `.gz` after its extension, `.log.gz` where it has none; a
/// log that is not compressed gets `.log` where its name has no extension.
pub open spec fn final_combined_path(
    cfg: Settings,
    facts: RenderFacts,
    dir: Seq<char>,
    code: int,
    written: Seq<char>,
) -> Seq<char> {
    let path = path_joined(dir, name_for(cfg, facts, Some(code)));
    if written_compressed(cfg, written) && !has_suffix(path, ".gz"@) {
        extension_replaced(path, gz_extension(path_extension(path)))
    } else if path_extension(path) is None {
        extension_replaced(path, "log"@)
    } else {
        path
    }
}

/// The final path of the log of one stream: the name with the exit code in
/// it, then the stream's suffix, then `.gz` where the log is compressed.
pub open spec fn final_split_path(
    cfg: Settings,
    facts: RenderFacts,
    dir: Seq<char>,
    code: int,
    suffix: Seq<char>,
) -> Seq<char> {
    let name = name_for(cfg, facts, Some(code)) + suffix;
    path_joined(
        dir,
        if cfg.compress == Compress::Gz {
            name + ".gz"@
        } else {
            name
        },
    )
}

/// The names that the files of a run get once the command has ended with
/// `code`; `None` where the names do not depend on the exit code, so that
/// the files stay as they are.
pub open spec fn final_files(
    cfg: Settings,
    facts: RenderFacts,
    cwd: Seq<char>,
    code: int,
    written: FileNames,
) -> Option<FileNames> {
    let dir = output_dir_of(cfg, cwd);
    if !needs_rename(cfg) {
        None
    } else {
        match written {
            FileNames::Combined { path } => Some(
                FileNames::Combined { path: final_combined_path(cfg, facts, dir, code, path) },
            ),
            FileNames::Split { out, err } => Some(
                FileNames::Split {
                    out: final_split_path(cfg, facts, dir, code, ".out.log"@),
                    err: final_split_path(cfg, facts, dir, code, ".err.log"@),
                },
            ),
        }
    }
}

/// Files are renamed at the end of a run if and only if their names depend
/// on the exit code. Then each file gets a new name, in the layout it was
/// written in, and the name that the template gives holds the exit code in
/// decimal; else the files keep their names.
pub proof fn lemma_renamed_iff_exit_code_named(
    cfg: Settings,
    facts: RenderFacts,
    cwd: Seq<char>,
    code: int,
    written: FileNames,
)
    ensures
        final_files(cfg, facts, cwd, code, written) is Some <==> needs_rename(cfg),
        needs_rename(cfg) ==> (final_files(cfg, facts, cwd, code, written)->0 is Split
            <==> written is Split),
        needs_rename(cfg) ==> occurs_in(name_for(cfg, facts, Some(code)), decimal(code)),
{
    if needs_rename(cfg) {
        lemma_rendered_holds_exit_code(
            cfg.filename_template,
            with_exit_code(facts, Some(code)),
            code,
            cfg.sanitize_filename,
            cfg.include_args_in_name,
        );
    }
}

/// While a run lasts, a log whose name depends on the exit code is written
/// under a hidden name, marked as partial; a log whose name does not is
/// written under its own name.
pub proof fn lemma_working_name(cfg: Settings, name: Seq<char>)
    ensures
        needs_rename(cfg) ==> working_name(cfg, name) == "."@ + name + ".partial"@,
        !needs_rename(cfg) ==> working_name(cfg, name) == name,
{
}

/// Whether no character of `s` separates the parts of a path.
pub fn is_separator_free(s: &str) -> (b: bool)
    ensures
        b == separator_free(s@),
{
    let v = chars_of(s);
    let mut i: usize = 0;
    while i < v.len()
        invariant
            i <= v.len(),
            v@ == s@,
            forall|j: int| 0 <= j < i ==> !path_separator(#[trigger] v@[j]),
        decreases v.len() - i,
    {
        if is_separator(v[i]) {
            return false;
        }
        i += 1;
    }
    true
}

/// `path` with `ext` as its extension; `path` itself where `ext` holds a
/// path separator.
pub fn replace_extension(path: &str, ext: &str) -> (r: String)
    ensures
        r@ == extension_replaced(path@, ext@),
{
    if is_separator_free(ext) {
        with_extension(path, ext)
    } else {
        string_of(&chars_of(path))
    }
}

/// Whether `s` ends with `suffix`.
pub fn ends_with(s: &str, suffix: &str) -> (b: bool)
    ensures
        b == has_suffix(s@, suffix@),
{
    let v = chars_of(s);
    let suf = chars_of(suffix);
    if suf.len() <= v.len() {
        starts_at(&v, v.len() - suf.len(), &suf)
    } else {
        false
    }
}

/// The name under which a log is written while its final name is not known.
pub fn temp_name(name: &str) -> (r: String)
    ensures
        r@ == hidden_name(name@),
{
    let mut v: Vec<char> = Vec::new();
    push_str(&mut v, ".");
    push_str(&mut v, name);
    push_str(&mut v, ".partial");
    assert(v@ =~= hidden_name(name@));
    string_of(&v)
}

/// The extension of a compressed log, given the extension that the path
/// has so far.
pub fn compressed_extension(ext: Option<String>) -> (r: String)
    ensures
        r@ == gz_extension(text_of(ext)),
{
    let mut v: Vec<char> = Vec::new();
    match ext {
        Some(e) => {
            push_str(&mut v, e.as_str());
            push_str(&mut v, ".gz");
        },
        None => {
            push_str(&mut v, "log.gz");
        },
    }
    assert(v@ =~= gz_extension(text_of(ext)));
    string_of(&v)
}

/// The directory that the logs go to.
pub fn output_dir(cfg: &Config, cwd: &str) -> (dir: String)
    ensures
        dir@ == output_dir_of(cfg@, cwd@),
{
    match &cfg.output_dir {
        Some(dir) => string_of(&chars_of(dir.as_str())),
        None => string_of(&chars_of(cwd)),
    }
}

fn working_name_of(cfg: &Config, name: &str) -> (r: String)
    ensures
        r@ == working_name(cfg@, name@),
{
    if names_exit_code(cfg.filename_template.as_str()) {
        temp_name(name)
    } else {
        string_of(&chars_of(name))
    }
}

fn name_of(cfg: &Config, ctx: &RenderContext, code: Option<i32>) -> (v: Vec<char>)
    ensures
        v@ == name_for(cfg@, ctx@, code_of(code)),
{
    render_chars(
        cfg.filename_template.as_str(),
        ctx,
        code,
        cfg.sanitize_filename,
        cfg.include_args_in_name,
    )
}

fn is_gz(c: Compress) -> (b: bool)
    ensures
        b == (c == Compress::Gz),
{
    match c {
        Compress::Gz => true,
        Compress::Off => false,
    }
}

fn plan_combined(cfg: &Config, ctx: &RenderContext, dir: &str) -> (path: String)
    ensures
        path@ == combined_path(cfg@, ctx@, dir@),
{
    let mut name = name_of(cfg, ctx, None);
    let rendered = string_of(&name);
    if extension_of(rendered.as_str()).is_none() {
        push_str(&mut name, ".log");
    }
    let name = string_of(&name);
    let working = working_name_of(cfg, name.as_str());
    let path = join_path(dir, working.as_str());
    if is_gz(cfg.compress) && !ends_with(path.as_str(), ".gz") {
        let ext = compressed_extension(extension_of(path.as_str()));
        replace_extension(path.as_str(), ext.as_str())
    } else {
        path
    }
}

fn plan_split(cfg: &Config, ctx: &RenderContext, dir: &str, ext: &str, gz_ext: &str) -> (path:
    String)
    ensures
        path@ == split_path(cfg@, ctx@, dir@, ext@, gz_ext@),
{
    let name = string_of(&name_of(cfg, ctx, None));
    let working = working_name_of(cfg, name.as_str());
    let stem = join_path(dir, working.as_str());
    let path = replace_extension(stem.as_str(), ext);
    if is_gz(cfg.compress) {
        replace_extension(path.as_str(), gz_ext)
    } else {
        path
    }
}

/// Decides which files a run writes to while it lasts.
pub fn plan_files(cfg: &Config, ctx: &RenderContext, cwd: &str) -> (files: LogFiles)
    ensures
        files@ == planned_files(cfg@, ctx@, cwd@),
{
    let dir = output_dir(cfg, cwd);
    if cfg.split_streams {
        LogFiles::Split {
            out: plan_split(cfg, ctx, dir.as_str(), "out.log", "out.log.gz"),
            err: plan_split(cfg, ctx, dir.as_str(), "err.log", "err.log.gz"),
        }
    } else {
        LogFiles::Combined { path: plan_combined(cfg, ctx, dir.as_str()) }
    }
}

fn finish_combined(cfg: &Config, ctx: &RenderContext, dir: &str, code: i32, written: &str) -> (path:
    String)
    ensures
        path@ == final_combined_path(cfg@, ctx@, dir@, code as int, written@),
{
    let name = string_of(&name_of(cfg, ctx, Some(code)));
    let path = join_path(dir, name.as_str());
    let compressed = is_gz(cfg.compress) || ends_with(written, ".gz");
    if compressed && !ends_with(path.as_str(), ".gz") {
        let ext = compressed_extension(extension_of(path.as_str()));
        replace_extension(path.as_str(), ext.as_str())
    } else if extension_of(path.as_str()).is_none() {
        replace_extension(path.as_str(), "log")
    } else {
        path
    }
}

fn finish_split(cfg: &Config, ctx: &RenderContext, dir: &str, code: i32, suffix: &str) -> (path:
    String)
    ensures
        path@ == final_split_path(cfg@, ctx@, dir@, code as int, suffix@),
{
    let mut name = name_of(cfg, ctx, Some(code));
    push_str(&mut name, suffix);
    if is_gz(cfg.compress) {
        push_str(&mut name, ".gz");
    }
    let name = string_of(&name);
    join_path(dir, name.as_str())
}

/// Decides what the files of a run are called once the command has ended
/// with `code`: `None` where their names do not depend on the exit code.
pub fn finalize_files(cfg: &Config, ctx: &RenderContext, cwd: &str, code: i32, written: &LogFiles) -> (r:
    Option<LogFiles>)
    ensures
        match r {
            Some(files) => final_files(cfg@, ctx@, cwd@, code as int, written@) == Some(files@),
            None => final_files(cfg@, ctx@, cwd@, code as int, written@) is None,
        },
{
    if !names_exit_code(cfg.filename_template.as_str()) {
        return None;
    }
    let dir = output_dir(cfg, cwd);
    match written {
        LogFiles::Combined { path } => Some(
            LogFiles::Combined {
                path: finish_combined(cfg, ctx, dir.as_str(), code, path.as_str()),
            },
        ),
        LogFiles::Split { out, err } => Some(
            LogFiles::Split {
                out: finish_split(cfg, ctx, dir.as_str(), code, ".out.log"),
                err: finish_split(cfg, ctx, dir.as_str(), code, ".err.log"),
            },
        ),
    }
}

} // verus!
