//! File names: how a name is rendered from a template and the facts of one
//! run, and how a piece of text is made safe to stand in a file name.

use vstd::prelude::*;
use crate::text::{
    chars_of, contains, decimal, decimal_chars, is_prefix_at, joined, occurs_in, push_all,
    squeeze, squeeze_chars, starts_at, string_of, strip, strip_chars,
};

verus! {

/// The characters that may stand in a file name as they are: ASCII letters
/// and digits, `-`, `_` and `.`.
pub open spec fn is_name_char(c: char) -> bool {
    ('a' <= c && c <= 'z') || ('A' <= c && c <= 'Z') || ('0' <= c && c <= '9') || c == '-'
        || c == '_' || c == '.'
}

/// `c` where it may stand in a file name, `_` in its place where not.
pub open spec fn name_char(c: char) -> char {
    if is_name_char(c) {
        c
    } else {
        '_'
    }
}

/// `s` with `_` in place of each character that may not stand in a file name.
pub open spec fn with_name_chars(s: Seq<char>) -> Seq<char> {
    Seq::new(s.len(), |i: int| name_char(s[i]))
}

/// `s` made safe for a file name: `_` replaces each character that may not
/// stand there, each run of `_` is shortened to one, and no `_` is left at
/// either end.
pub open spec fn sanitized(s: Seq<char>) -> Seq<char> {
    strip(squeeze(with_name_chars(s), '_'), '_', '_')
}

/// `s` as it goes into a file name: made safe where `sanitize` is set, as it
/// is where not.
pub open spec fn fragment(s: Seq<char>, sanitize: bool) -> Seq<char> {
    if sanitize {
        sanitized(s)
    } else {
        s
    }
}

/// An argument that begins with `-`.
pub open spec fn is_flag(arg: Seq<char>) -> bool {
    arg.len() > 0 && arg[0] == '-'
}

/// The arguments that are recorded: all of them where `include_full` is set,
/// those that are no flags where not.
pub open spec fn kept_args(args: Seq<Seq<char>>, include_full: bool) -> Seq<Seq<char>>
    decreases args.len(),
{
    if args.len() == 0 {
        Seq::empty()
    } else if include_full || !is_flag(args.last()) {
        kept_args(args.drop_last(), include_full).push(args.last())
    } else {
        kept_args(args.drop_last(), include_full)
    }
}

/// The text of each string of `v`.
pub open spec fn texts(v: Seq<String>) -> Seq<Seq<char>> {
    Seq::new(v.len(), |i: int| v[i]@)
}

/// The places of a name template that stand for a fact of the run.
#[derive(Clone, Copy, Debug, PartialEq, Eq, Structural)]
pub enum Placeholder {
    Cmd,
    Args,
    Date,
    Time,
    Ts,
    Hostname,
    Cwd,
    ExitCode,
}

/// How a placeholder is written in a template.
pub open spec fn token(p: Placeholder) -> Seq<char> {
    match p {
        Placeholder::Cmd => seq!['{', 'c', 'm', 'd', '}'],
        Placeholder::Args => seq!['{', 'a', 'r', 'g', 's', '}'],
        Placeholder::Date => seq!['{', 'd', 'a', 't', 'e', '}'],
        Placeholder::Time => seq!['{', 't', 'i', 'm', 'e', '}'],
        Placeholder::Ts => seq!['{', 't', 's', '}'],
        Placeholder::Hostname => seq!['{', 'h', 'o', 's', 't', 'n', 'a', 'm', 'e', '}'],
        Placeholder::Cwd => seq!['{', 'c', 'w', 'd', '}'],
        Placeholder::ExitCode => seq!['{', 'e', 'x', 'i', 't', '_', 'c', 'o', 'd', 'e', '}'],
    }
}

/// The placeholder written in `t` at position `i`, if there is one.
pub open spec fn placeholder_at(t: Seq<char>, i: int) -> Option<Placeholder> {
    if is_prefix_at(t, token(Placeholder::Cmd), i) {
        Some(Placeholder::Cmd)
    } else if is_prefix_at(t, token(Placeholder::Args), i) {
        Some(Placeholder::Args)
    } else if is_prefix_at(t, token(Placeholder::Date), i) {
        Some(Placeholder::Date)
    } else if is_prefix_at(t, token(Placeholder::Time), i) {
        Some(Placeholder::Time)
    } else if is_prefix_at(t, token(Placeholder::Ts), i) {
        Some(Placeholder::Ts)
    } else if is_prefix_at(t, token(Placeholder::Hostname), i) {
        Some(Placeholder::Hostname)
    } else if is_prefix_at(t, token(Placeholder::Cwd), i) {
        Some(Placeholder::Cwd)
    } else if is_prefix_at(t, token(Placeholder::ExitCode), i) {
        Some(Placeholder::ExitCode)
    } else {
        None
    }
}

/// The text that each placeholder stands for.
pub struct Fields {
    pub cmd: Seq<char>,
    pub args: Seq<char>,
    pub date: Seq<char>,
    pub time: Seq<char>,
    pub ts: Seq<char>,
    pub hostname: Seq<char>,
    pub cwd: Seq<char>,
    pub exit_code: Seq<char>,
}

impl Fields {
    /// The text that `p` stands for.
    pub open spec fn value(self, p: Placeholder) -> Seq<char> {
        match p {
            Placeholder::Cmd => self.cmd,
            Placeholder::Args => self.args,
            Placeholder::Date => self.date,
            Placeholder::Time => self.time,
            Placeholder::Ts => self.ts,
            Placeholder::Hostname => self.hostname,
            Placeholder::Cwd => self.cwd,
            Placeholder::ExitCode => self.exit_code,
        }
    }
}

/// The template `t` from position `i` on, read once from left to right, with
/// each placeholder replaced by its text. Text that was put in is not read
/// again.
pub open spec fn expanded(t: Seq<char>, i: int, f: Fields) -> Seq<char>
    decreases t.len() - i,
{
    if i < 0 || i >= t.len() {
        Seq::empty()
    } else {
        match placeholder_at(t, i) {
            Some(p) => f.value(p) + expanded(t, i + token(p).len(), f),
            None => seq![t[i]] + expanded(t, i + 1, f),
        }
    }
}

/// `s` read once from left to right, with `.` in place of each `..`.
pub open spec fn halved_dots(s: Seq<char>) -> Seq<char>
    decreases s.len(),
{
    if s.len() == 0 {
        s
    } else if s.len() >= 2 && s[0] == '.' && s[1] == '.' {
        seq!['.'] + halved_dots(s.skip(2))
    } else {
        seq![s[0]] + halved_dots(s.skip(1))
    }
}

/// A name after substitution, tidied: `..` halved, runs of `_` shortened to
/// one, and no `_` or `.` left at either end.
pub open spec fn tidied(s: Seq<char>) -> Seq<char> {
    strip(squeeze(halved_dots(s), '_'), '_', '.')
}

/// The facts of one run that a file name or a log header may show.
pub struct RenderContext {
    pub cmd: String,
    pub args: String,
    pub date: String,
    pub time: String,
    pub ts: String,
    pub hostname: String,
    pub cwd: String,
    pub exit_code: Option<i32>,
}

/// The mathematical value of a `RenderContext`.
pub struct RenderFacts {
    pub cmd: Seq<char>,
    pub args: Seq<char>,
    pub date: Seq<char>,
    pub time: Seq<char>,
    pub ts: Seq<char>,
    pub hostname: Seq<char>,
    pub cwd: Seq<char>,
    pub exit_code: Option<int>,
}

impl View for RenderContext {
    type V = RenderFacts;

    open spec fn view(&self) -> RenderFacts {
        RenderFacts {
            cmd: self.cmd@,
            args: self.args@,
            date: self.date@,
            time: self.time@,
            ts: self.ts@,
            hostname: self.hostname@,
            cwd: self.cwd@,
            exit_code: match self.exit_code {
                Some(code) => Some(code as int),
                None => None,
            },
        }
    }
}

/// How the exit code reads in a file name: in decimal once it is known, `NA`
/// before.
pub open spec fn exit_code_text(code: Option<int>) -> Seq<char> {
    match code {
        Some(n) => decimal(n),
        None => seq!['N', 'A'],
    }
}

/// The text that each placeholder stands for in a file name. The command,
/// the arguments, the host name and the working directory are made safe
/// where `sanitize` is set; the arguments are left out unless
/// `include_args` is set.
pub open spec fn name_fields(facts: RenderFacts, sanitize: bool, include_args: bool) -> Fields {
    Fields {
        cmd: fragment(facts.cmd, sanitize),
        args: fragment(
            if include_args {
                facts.args
            } else {
                Seq::empty()
            },
            sanitize,
        ),
        date: facts.date,
        time: facts.time,
        ts: facts.ts,
        hostname: fragment(facts.hostname, sanitize),
        cwd: fragment(facts.cwd, sanitize),
        exit_code: exit_code_text(facts.exit_code),
    }
}

/// The file name that the template `tpl` gives for the run `facts`.
pub open spec fn rendered(
    tpl: Seq<char>,
    facts: RenderFacts,
    sanitize: bool,
    include_args: bool,
) -> Seq<char> {
    tidied(expanded(tpl, 0, name_fields(facts, sanitize, include_args)))
}

fn is_name_char_exec(c: char) -> (b: bool)
    ensures
        b == is_name_char(c),
{
    ('a' <= c && c <= 'z') || ('A' <= c && c <= 'Z') || ('0' <= c && c <= '9') || c == '-'
        || c == '_' || c == '.'
}

fn sanitize_chars(s: &Vec<char>) -> (v: Vec<char>)
    ensures
        v@ == sanitized(s@),
{
    let mut mapped: Vec<char> = Vec::new();
    let mut i: usize = 0;
    while i < s.len()
        invariant
            i <= s.len(),
            mapped@.len() == i,
            forall|j: int| 0 <= j < i ==> mapped@[j] == name_char(s@[j]),
        decreases s.len() - i,
    {
        let c = s[i];
        if is_name_char_exec(c) {
            mapped.push(c);
        } else {
            mapped.push('_');
        }
        i += 1;
    }
    assert(mapped@ =~= with_name_chars(s@));
    let squeezed = squeeze_chars(&mapped, '_');
    strip_chars(&squeezed, '_', '_')
}

/// Makes `s` safe to stand in a file name.
pub fn sanitize_component(s: &str) -> (out: String)
    ensures
        out@ == sanitized(s@),
{
    let v = sanitize_chars(&chars_of(s));
    string_of(&v)
}

/// `input` as it goes into a file name: made safe where `sanitize` is set,
/// unchanged where not.
pub fn maybe_sanitize_component(input: &str, sanitize: bool) -> (out: String)
    ensures
        out@ == fragment(input@, sanitize),
{
    if sanitize {
        sanitize_component(input)
    } else {
        string_of(&chars_of(input))
    }
}

fn fragment_chars(input: &str, sanitize: bool) -> (v: Vec<char>)
    ensures
        v@ == fragment(input@, sanitize),
{
    let v = chars_of(input);
    if sanitize {
        sanitize_chars(&v)
    } else {
        v
    }
}

/// The arguments of a command as one text, a space between each two. Where
/// `include_full` is not set, the arguments that begin with `-` are left
/// out.
pub fn join_args(args: &Vec<String>, include_full: bool) -> (out: String)
    ensures
        out@ == joined(kept_args(texts(args@), include_full), seq![' ']),
{
    let ghost all = texts(args@);
    let mut v: Vec<char> = Vec::new();
    let mut any: bool = false;
    let mut i: usize = 0;
    while i < args.len()
        invariant
            i <= args.len(),
            all == texts(args@),
            any == (kept_args(all.take(i as int), include_full).len() > 0),
            v@ == joined(kept_args(all.take(i as int), include_full), seq![' ']),
        decreases args.len() - i,
    {
        let arg = chars_of(args[i].as_str());
        proof {
            assert(all.take(i + 1).drop_last() == all.take(i as int));
            assert(all.take(i + 1).last() == arg@);
        }
        let ghost before = kept_args(all.take(i as int), include_full);
        if include_full || !(arg.len() > 0 && arg[0] == '-') {
            if any {
                v.push(' ');
            }
            push_all(&mut v, &arg);
            proof {
                let kept = before.push(arg@);
                assert(kept.drop_last() == before);
                assert(v@ =~= joined(kept, seq![' ']));
            }
            any = true;
        }
        i += 1;
    }
    assert(all.take(args.len() as int) == all);
    string_of(&v)
}

fn token_chars(p: Placeholder) -> (v: Vec<char>)
    ensures
        v@ == token(p),
{
    match p {
        Placeholder::Cmd => vec!['{', 'c', 'm', 'd', '}'],
        Placeholder::Args => vec!['{', 'a', 'r', 'g', 's', '}'],
        Placeholder::Date => vec!['{', 'd', 'a', 't', 'e', '}'],
        Placeholder::Time => vec!['{', 't', 'i', 'm', 'e', '}'],
        Placeholder::Ts => vec!['{', 't', 's', '}'],
        Placeholder::Hostname => vec!['{', 'h', 'o', 's', 't', 'n', 'a', 'm', 'e', '}'],
        Placeholder::Cwd => vec!['{', 'c', 'w', 'd', '}'],
        Placeholder::ExitCode => vec!['{', 'e', 'x', 'i', 't', '_', 'c', 'o', 'd', 'e', '}'],
    }
}

fn is_token_at(t: &Vec<char>, i: usize, p: Placeholder) -> (b: bool)
    ensures
        b == is_prefix_at(t@, token(p), i as int),
{
    let tok = token_chars(p);
    starts_at(t, i, &tok)
}

fn find_placeholder(t: &Vec<char>, i: usize) -> (r: Option<Placeholder>)
    ensures
        r == placeholder_at(t@, i as int),
{
    if is_token_at(t, i, Placeholder::Cmd) {
        Some(Placeholder::Cmd)
    } else if is_token_at(t, i, Placeholder::Args) {
        Some(Placeholder::Args)
    } else if is_token_at(t, i, Placeholder::Date) {
        Some(Placeholder::Date)
    } else if is_token_at(t, i, Placeholder::Time) {
        Some(Placeholder::Time)
    } else if is_token_at(t, i, Placeholder::Ts) {
        Some(Placeholder::Ts)
    } else if is_token_at(t, i, Placeholder::Hostname) {
        Some(Placeholder::Hostname)
    } else if is_token_at(t, i, Placeholder::Cwd) {
        Some(Placeholder::Cwd)
    } else if is_token_at(t, i, Placeholder::ExitCode) {
        Some(Placeholder::ExitCode)
    } else {
        None
    }
}

/// Whether a name rendered from `tpl` depends on the exit code of the
/// command: whether `{exit_code}` is written in it.
pub fn names_exit_code(tpl: &str) -> (b: bool)
    ensures
        b == occurs_in(tpl@, token(Placeholder::ExitCode)),
{
    let t = chars_of(tpl);
    let tok = token_chars(Placeholder::ExitCode);
    contains(&t, &tok)
}

struct Fragments {
    cmd: Vec<char>,
    args: Vec<char>,
    date: Vec<char>,
    time: Vec<char>,
    ts: Vec<char>,
    hostname: Vec<char>,
    cwd: Vec<char>,
    exit_code: Vec<char>,
}

impl View for Fragments {
    type V = Fields;

    closed spec fn view(&self) -> Fields {
        Fields {
            cmd: self.cmd@,
            args: self.args@,
            date: self.date@,
            time: self.time@,
            ts: self.ts@,
            hostname: self.hostname@,
            cwd: self.cwd@,
            exit_code: self.exit_code@,
        }
    }
}

fn expand_chars(t: &Vec<char>, f: &Fragments) -> (v: Vec<char>)
    ensures
        v@ == expanded(t@, 0, f@),
{
    let mut v: Vec<char> = Vec::new();
    let mut i: usize = 0;
    while i < t.len()
        invariant
            i <= t.len(),
            v@ + expanded(t@, i as int, f@) == expanded(t@, 0, f@),
        decreases t.len() - i,
    {
        let ghost before = v@;
        match find_placeholder(t, i) {
            Some(p) => {
                let tok = token_chars(p);
                match p {
                    Placeholder::Cmd => push_all(&mut v, &f.cmd),
                    Placeholder::Args => push_all(&mut v, &f.args),
                    Placeholder::Date => push_all(&mut v, &f.date),
                    Placeholder::Time => push_all(&mut v, &f.time),
                    Placeholder::Ts => push_all(&mut v, &f.ts),
                    Placeholder::Hostname => push_all(&mut v, &f.hostname),
                    Placeholder::Cwd => push_all(&mut v, &f.cwd),
                    Placeholder::ExitCode => push_all(&mut v, &f.exit_code),
                }
                assert(v@ == before + f@.value(p));
                assert(v@ + expanded(t@, i + token(p).len(), f@) =~= before + expanded(
                    t@,
                    i as int,
                    f@,
                ));
                i += tok.len();
            },
            None => {
                v.push(t[i]);
                assert(v@ + expanded(t@, i + 1, f@) =~= before + expanded(t@, i as int, f@));
                i += 1;
            },
        }
    }
    assert(v@ + Seq::<char>::empty() =~= v@);
    v
}

fn halve_dots(s: &Vec<char>) -> (v: Vec<char>)
    ensures
        v@ == halved_dots(s@),
{
    let mut v: Vec<char> = Vec::new();
    let mut i: usize = 0;
    assert(s@.skip(0) == s@);
    assert(v@ + halved_dots(s@) =~= halved_dots(s@));
    while i < s.len()
        invariant
            i <= s.len(),
            v@ + halved_dots(s@.skip(i as int)) == halved_dots(s@),
        decreases s.len() - i,
    {
        let ghost before = v@;
        let ghost rest = s@.skip(i as int);
        assert(rest[0] == s@[i as int]);
        if s[i] == '.' && i + 1 < s.len() && s[i + 1] == '.' {
            assert(rest[1] == s@[i + 1]);
            assert(rest.skip(2) == s@.skip(i + 2));
            v.push('.');
            assert(v@ + halved_dots(s@.skip(i + 2)) =~= before + halved_dots(rest));
            i += 2;
        } else {
            if i + 1 < s.len() {
                assert(rest[1] == s@[i + 1]);
            }
            assert(rest.skip(1) == s@.skip(i + 1));
            v.push(s[i]);
            assert(v@ + halved_dots(s@.skip(i + 1)) =~= before + halved_dots(rest));
            i += 1;
        }
    }
    assert(s@.skip(s.len() as int) =~= Seq::<char>::empty());
    assert(v@ + Seq::<char>::empty() =~= v@);
    v
}

fn tidy_chars(s: &Vec<char>) -> (v: Vec<char>)
    ensures
        v@ == tidied(s@),
{
    let halved = halve_dots(s);
    let squeezed = squeeze_chars(&halved, '_');
    strip_chars(&squeezed, '_', '.')
}

fn exit_code_chars(code: Option<i32>) -> (v: Vec<char>)
    ensures
        v@ == exit_code_text(code_of(code)),
{
    match code {
        Some(n) => decimal_chars(n as i64),
        None => vec!['N', 'A'],
    }
}

/// The facts `facts` with `code` as the exit code.
pub open spec fn with_exit_code(facts: RenderFacts, code: Option<int>) -> RenderFacts {
    RenderFacts {
        cmd: facts.cmd,
        args: facts.args,
        date: facts.date,
        time: facts.time,
        ts: facts.ts,
        hostname: facts.hostname,
        cwd: facts.cwd,
        exit_code: code,
    }
}

/// The exit code as a mathematical integer, where there is one.
pub open spec fn code_of(code: Option<i32>) -> Option<int> {
    match code {
        Some(n) => Some(n as int),
        None => None,
    }
}

/// The characters of the file name that `tpl` gives for the run `ctx` with
/// `code` as its exit code, whatever exit code `ctx` holds.
pub(crate) fn render_chars(
    tpl: &str,
    ctx: &RenderContext,
    code: Option<i32>,
    sanitize: bool,
    include_args_in_name: bool,
) -> (v: Vec<char>)
    ensures
        v@ == rendered(tpl@, with_exit_code(ctx@, code_of(code)), sanitize, include_args_in_name),
{
    let args = if include_args_in_name {
        fragment_chars(ctx.args.as_str(), sanitize)
    } else {
        fragment_chars("", sanitize)
    };
    proof {
        reveal_strlit("");
        assert(""@ =~= Seq::<char>::empty());
    }
    let f = Fragments {
        cmd: fragment_chars(ctx.cmd.as_str(), sanitize),
        args,
        date: chars_of(ctx.date.as_str()),
        time: chars_of(ctx.time.as_str()),
        ts: chars_of(ctx.ts.as_str()),
        hostname: fragment_chars(ctx.hostname.as_str(), sanitize),
        cwd: fragment_chars(ctx.cwd.as_str(), sanitize),
        exit_code: exit_code_chars(code),
    };
    assert(f@ == name_fields(
        with_exit_code(ctx@, code_of(code)),
        sanitize,
        include_args_in_name,
    ));
    let t = chars_of(tpl);
    let raw = expand_chars(&t, &f);
    tidy_chars(&raw)
}

/// Renders the file name that the template `tpl` gives for the run `ctx`.
///
/// The template is read once from left to right and each placeholder is
/// replaced by its text; the result is then tidied as a whole.
pub fn render_template(
    tpl: &str,
    ctx: &RenderContext,
    sanitize: bool,
    include_args_in_name: bool,
) -> (out: String)
    ensures
        out@ == rendered(tpl@, ctx@, sanitize, include_args_in_name),
{
    let v = render_chars(tpl, ctx, ctx.exit_code, sanitize, include_args_in_name);
    assert(with_exit_code(ctx@, code_of(ctx.exit_code)) == ctx@);
    string_of(&v)
}

} // verus!
