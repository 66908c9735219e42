//! What holds of every file name that the library makes: a sanitized text
//! holds only characters that are safe in a file name, no two `_` in a row
//! and no `_` at either end, and sanitizing it again changes nothing; a
//! rendered name holds no two `_` in a row and neither `_` nor `.` at
//! either end; and a name whose template names the exit code holds the
//! exit code.

use vstd::prelude::*;
use crate::template::{
    expanded, halved_dots, is_name_char, name_fields, placeholder_at, rendered, sanitized,
    tidied, token, with_name_chars, Fields, Placeholder, RenderFacts,
};
use crate::text::{
    decimal, is_prefix_at, nat_digits, occurs_in, squeeze, strip, strip_end, strip_start,
};

verus! {

/// No two `c` stand side by side in `s`.
pub open spec fn no_run_of(s: Seq<char>, c: char) -> bool {
    forall|i: int, j: int|
        0 <= i && j == i + 1 && j < s.len() ==> !(#[trigger] s[i] == c && #[trigger] s[j] == c)
}

/// Neither `a` nor `b` stands at either end of `s`.
pub open spec fn trimmed(s: Seq<char>, a: char, b: char) -> bool {
    s.len() > 0 ==> s[0] != a && s[0] != b && s.last() != a && s.last() != b
}

/// Every character of `s` may stand in a file name.
pub open spec fn all_name_chars(s: Seq<char>) -> bool {
    forall|i: int| 0 <= i < s.len() ==> is_name_char(#[trigger] s[i])
}

/// `part` stands in `s` as one piece, from position `at` on.
pub open spec fn piece_of(part: Seq<char>, s: Seq<char>, at: int) -> bool {
    0 <= at && at + part.len() <= s.len() && part == s.subrange(at, at + part.len())
}

/// Shortening the runs of a character keeps the last character, keeps every
/// other character where it is safe for a file name, and leaves no run.
pub proof fn lemma_squeeze(s: Seq<char>, c: char)
    ensures
        squeeze(s, c).len() <= s.len(),
        s.len() > 0 ==> squeeze(s, c).len() > 0 && squeeze(s, c).last() == s.last(),
        no_run_of(squeeze(s, c), c),
        all_name_chars(s) ==> all_name_chars(squeeze(s, c)),
    decreases s.len(),
{
    if s.len() > 0 {
        let init = s.drop_last();
        lemma_squeeze(init, c);
        let before = squeeze(init, c);
        let after = squeeze(s, c);
        if !(s.last() == c && s.len() >= 2 && s[s.len() - 2] == c) {
            assert(after == before.push(s.last()));
            assert forall|i: int, j: int| 0 <= i && j == i + 1 && j < after.len() implies !(
            #[trigger] after[i] == c && #[trigger] after[j] == c) by {
                if j < before.len() {
                    assert(after[i] == before[i] && after[j] == before[j]);
                } else {
                    assert(after[j] == s.last());
                    assert(after[i] == before.last());
                    assert(before.last() == init.last());
                    assert(init.last() == s[s.len() - 2]);
                }
            }
            if all_name_chars(s) {
                assert forall|i: int| 0 <= i < init.len() implies is_name_char(
                    #[trigger] init[i],
                ) by {
                    assert(init[i] == s[i]);
                }
                assert forall|i: int| 0 <= i < after.len() implies is_name_char(
                    #[trigger] after[i],
                ) by {
                    if i < before.len() {
                        assert(after[i] == before[i]);
                    } else {
                        assert(after[i] == s[s.len() - 1]);
                    }
                }
            }
        } else {
            assert(init.last() == s[s.len() - 2]);
            if all_name_chars(s) {
                assert forall|i: int| 0 <= i < init.len() implies is_name_char(
                    #[trigger] init[i],
                ) by {
                    assert(init[i] == s[i]);
                }
            }
        }
    }
}

/// A text without runs of `c` stays as it is when its runs are shortened.
pub proof fn lemma_squeeze_of_no_run(s: Seq<char>, c: char)
    requires
        no_run_of(s, c),
    ensures
        squeeze(s, c) == s,
    decreases s.len(),
{
    if s.len() > 0 {
        let init = s.drop_last();
        assert forall|i: int, j: int| 0 <= i && j == i + 1 && j < init.len() implies !(
        #[trigger] init[i] == c && #[trigger] init[j] == c) by {
            assert(init[i] == s[i] && init[j] == s[j]);
        }
        lemma_squeeze_of_no_run(init, c);
        if s.len() >= 2 {
            let i = s.len() - 2;
            let j = s.len() - 1;
            assert(!(s[i] == c && s[j] == c));
        }
        assert(init.push(s.last()) =~= s);
    }
}

/// What is left when the start is stripped is the end of the text, and does
/// not begin with a stripped character.
pub proof fn lemma_strip_start_is_end(s: Seq<char>, a: char, b: char)
    ensures
        ({
            let r = strip_start(s, a, b);
            &&& piece_of(r, s, s.len() - r.len())
            &&& r.len() > 0 ==> r[0] != a && r[0] != b
            &&& forall|k: int| 0 <= k < s.len() - r.len() ==> s[k] == a || s[k] == b
        }),
    decreases s.len(),
{
    let r = strip_start(s, a, b);
    if s.len() > 0 && (s[0] == a || s[0] == b) {
        let rest = s.drop_first();
        lemma_strip_start_is_end(rest, a, b);
        assert(rest.subrange(rest.len() - r.len(), rest.len() as int) =~= s.subrange(
            s.len() - r.len(),
            s.len() as int,
        ));
        assert forall|k: int| 0 <= k < s.len() - r.len() implies s[k] == a || s[k] == b by {
            if k > 0 {
                assert(s[k] == rest[k - 1]);
            }
        }
    } else {
        assert(s.subrange(0, s.len() as int) =~= s);
    }
}

/// What is left when the end is stripped is the start of the text, and does
/// not end with a stripped character.
pub proof fn lemma_strip_end_is_start(s: Seq<char>, a: char, b: char)
    ensures
        ({
            let r = strip_end(s, a, b);
            &&& piece_of(r, s, 0)
            &&& r.len() > 0 ==> r.last() != a && r.last() != b
            &&& forall|k: int| r.len() <= k < s.len() ==> s[k] == a || s[k] == b
        }),
    decreases s.len(),
{
    let r = strip_end(s, a, b);
    if s.len() > 0 && (s.last() == a || s.last() == b) {
        let init = s.drop_last();
        lemma_strip_end_is_start(init, a, b);
        assert(init.subrange(0, r.len() as int) =~= s.subrange(0, r.len() as int));
        assert forall|k: int| r.len() <= k < s.len() implies s[k] == a || s[k] == b by {
            if k < init.len() {
                assert(s[k] == init[k]);
            }
        }
    } else {
        assert(s.subrange(0, s.len() as int) =~= s);
    }
}

/// What is left when both ends are stripped is one piece of the text, with
/// no stripped character at either end.
pub proof fn lemma_strip(s: Seq<char>, a: char, b: char)
    ensures
        exists|at: int| piece_of(strip(s, a, b), s, at),
        trimmed(strip(s, a, b), a, b),
{
    let mid = strip_start(s, a, b);
    let r = strip(s, a, b);
    lemma_strip_start_is_end(s, a, b);
    lemma_strip_end_is_start(mid, a, b);
    let at = s.len() - mid.len();
    assert(mid.subrange(0, r.len() as int) =~= s.subrange(at, at + r.len()));
    assert(piece_of(r, s, at));
    if r.len() > 0 {
        assert(r[0] == mid[0]);
    }
}

/// A text with no stripped character at either end stays as it is when its
/// ends are stripped.
pub proof fn lemma_strip_of_trimmed(s: Seq<char>, a: char, b: char)
    requires
        trimmed(s, a, b),
    ensures
        strip(s, a, b) == s,
{
}

/// One piece of a text has no run where the text has none, and holds only
/// characters that are safe for a file name where the text does.
pub proof fn lemma_piece(part: Seq<char>, s: Seq<char>, at: int, c: char)
    requires
        piece_of(part, s, at),
    ensures
        no_run_of(s, c) ==> no_run_of(part, c),
        all_name_chars(s) ==> all_name_chars(part),
{
    if no_run_of(s, c) {
        assert forall|i: int, j: int| 0 <= i && j == i + 1 && j < part.len() implies !(
        #[trigger] part[i] == c && #[trigger] part[j] == c) by {
            assert(part[i] == s[at + i] && part[j] == s[at + j]);
        }
    }
    if all_name_chars(s) {
        assert forall|i: int| 0 <= i < part.len() implies is_name_char(#[trigger] part[i]) by {
            assert(part[i] == s[at + i]);
        }
    }
}

/// A sanitized text is safe for a file name: all its characters are, no two
/// `_` stand side by side, and no `_` stands at either end.
pub proof fn lemma_sanitized_is_clean(s: Seq<char>)
    ensures
        all_name_chars(sanitized(s)),
        no_run_of(sanitized(s), '_'),
        trimmed(sanitized(s), '_', '_'),
        sanitized(s).len() <= s.len(),
{
    let mapped = with_name_chars(s);
    let squeezed = squeeze(mapped, '_');
    assert(all_name_chars(mapped));
    lemma_squeeze(mapped, '_');
    lemma_strip(squeezed, '_', '_');
    let at = choose|at: int| piece_of(sanitized(s), squeezed, at);
    lemma_piece(sanitized(s), squeezed, at, '_');
}

/// A text that is safe for a file name stays as it is when it is sanitized.
pub proof fn lemma_sanitized_of_clean(s: Seq<char>)
    requires
        all_name_chars(s),
        no_run_of(s, '_'),
        trimmed(s, '_', '_'),
    ensures
        sanitized(s) == s,
{
    assert(with_name_chars(s) =~= s);
    lemma_squeeze_of_no_run(s, '_');
    lemma_strip_of_trimmed(s, '_', '_');
}

/// Sanitizing twice is sanitizing once.
pub proof fn lemma_sanitized_twice(s: Seq<char>)
    ensures
        sanitized(sanitized(s)) == sanitized(s),
{
    lemma_sanitized_is_clean(s);
    lemma_sanitized_of_clean(sanitized(s));
}

/// A tidied name holds no two `_` side by side, and neither `_` nor `.` at
/// either end.
pub proof fn lemma_tidied_is_tidy(s: Seq<char>)
    ensures
        no_run_of(tidied(s), '_'),
        trimmed(tidied(s), '_', '.'),
{
    let halved = halved_dots(s);
    let squeezed = squeeze(halved, '_');
    lemma_squeeze(halved, '_');
    lemma_strip(squeezed, '_', '.');
    let at = choose|at: int| piece_of(tidied(s), squeezed, at);
    lemma_piece(tidied(s), squeezed, at, '_');
}

/// Every rendered file name is tidy, whatever the template and the facts
/// of the run.
pub proof fn lemma_rendered_is_tidy(
    tpl: Seq<char>,
    facts: RenderFacts,
    sanitize: bool,
    include_args: bool,
)
    ensures
        no_run_of(rendered(tpl, facts, sanitize, include_args), '_'),
        trimmed(rendered(tpl, facts, sanitize, include_args), '_', '.'),
{
    lemma_tidied_is_tidy(expanded(tpl, 0, name_fields(facts, sanitize, include_args)));
}

/// Neither `a` nor `b` stands in `s`.
pub open spec fn free_of(s: Seq<char>, a: char, b: char) -> bool {
    forall|i: int| 0 <= i < s.len() ==> #[trigger] s[i] != a && s[i] != b
}

proof fn lemma_digits_are_free(n: nat)
    ensures
        free_of(nat_digits(n), '_', '.'),
        nat_digits(n).len() > 0,
    decreases n,
{
    if n >= 10 {
        lemma_digits_are_free(n / 10);
        let front = nat_digits(n / 10);
        assert forall|i: int| 0 <= i < nat_digits(n).len() implies #[trigger] nat_digits(n)[i]
            != '_' && nat_digits(n)[i] != '.' by {
            if i < front.len() {
                assert(nat_digits(n)[i] == front[i]);
            }
        }
    }
}

/// A number in decimal holds neither `_` nor `.`, and is not empty.
pub proof fn lemma_decimal_is_free(n: int)
    ensures
        free_of(decimal(n), '_', '.'),
        decimal(n).len() > 0,
{
    if n < 0 {
        lemma_digits_are_free((-n) as nat);
        let digits = nat_digits((-n) as nat);
        assert forall|i: int| 0 <= i < decimal(n).len() implies #[trigger] decimal(n)[i] != '_'
            && decimal(n)[i] != '.' by {
            if i > 0 {
                assert(decimal(n)[i] == digits[i - 1]);
            }
        }
    } else {
        lemma_digits_are_free(n as nat);
    }
}

proof fn lemma_stands_after(x: Seq<char>, y: Seq<char>, pat: Seq<char>, j: int)
    requires
        is_prefix_at(y, pat, j),
    ensures
        is_prefix_at(x + y, pat, x.len() + j),
{
    assert((x + y).subrange(x.len() + j, x.len() + j + pat.len()) =~= y.subrange(
        j,
        j + pat.len(),
    ));
}

proof fn lemma_stands_before(x: Seq<char>, y: Seq<char>, pat: Seq<char>, j: int)
    requires
        is_prefix_at(x, pat, j),
    ensures
        is_prefix_at(x + y, pat, j),
{
    assert((x + y).subrange(j, j + pat.len()) =~= x.subrange(j, j + pat.len()));
}

proof fn lemma_stands_char(s: Seq<char>, pat: Seq<char>, i: int, k: int)
    requires
        is_prefix_at(s, pat, i),
        0 <= k < pat.len(),
    ensures
        s[i + k] == pat[k],
{
    assert(s.subrange(i, i + pat.len())[k] == s[i + k]);
}

proof fn lemma_halved_dots_keeps_start(s: Seq<char>, pat: Seq<char>)
    requires
        is_prefix_at(s, pat, 0),
        free_of(pat, '_', '.'),
    ensures
        is_prefix_at(halved_dots(s), pat, 0),
    decreases pat.len(),
{
    let halved = halved_dots(s);
    if pat.len() > 0 {
        lemma_stands_char(s, pat, 0, 0);
        let rest = s.skip(1);
        let tail = pat.skip(1);
        assert(rest.subrange(0, tail.len() as int) =~= tail) by {
            assert forall|k: int| 0 <= k < tail.len() implies rest[k] == tail[k] by {
                lemma_stands_char(s, pat, 0, k + 1);
            }
        }
        assert forall|k: int| 0 <= k < tail.len() implies #[trigger] tail[k] != '_' && tail[k]
            != '.' by {
            assert(tail[k] == pat[k + 1]);
        }
        lemma_halved_dots_keeps_start(rest, tail);
        assert(halved == seq![s[0]] + halved_dots(rest));
        assert forall|k: int| 0 <= k < pat.len() implies halved[k] == pat[k] by {
            if k > 0 {
                lemma_stands_char(halved_dots(rest), tail, 0, k - 1);
            }
        }
        assert(halved.subrange(0, pat.len() as int) =~= pat);
    } else {
        assert(halved.subrange(0, 0) =~= pat);
    }
}

proof fn lemma_halved_dots_keeps(s: Seq<char>, pat: Seq<char>, i: int)
    requires
        is_prefix_at(s, pat, i),
        free_of(pat, '_', '.'),
        pat.len() > 0,
    ensures
        occurs_in(halved_dots(s), pat),
    decreases s.len(),
{
    if i == 0 {
        lemma_halved_dots_keeps_start(s, pat);
    } else {
        lemma_stands_char(s, pat, i, 0);
        let step: int = if s.len() >= 2 && s[0] == '.' && s[1] == '.' {
            2
        } else {
            1
        };
        let rest = s.skip(step);
        assert(rest.subrange(i - step, i - step + pat.len()) =~= s.subrange(i, i + pat.len()));
        lemma_halved_dots_keeps(rest, pat, i - step);
        let j = choose|j: int| is_prefix_at(halved_dots(rest), pat, j);
        lemma_stands_after(seq![s[0]], halved_dots(rest), pat, j);
    }
}

proof fn lemma_squeeze_keeps_end(s: Seq<char>, pat: Seq<char>)
    requires
        pat.len() <= s.len(),
        is_prefix_at(s, pat, s.len() - pat.len()),
        free_of(pat, '_', '.'),
    ensures
        pat.len() <= squeeze(s, '_').len(),
        is_prefix_at(squeeze(s, '_'), pat, squeeze(s, '_').len() - pat.len()),
    decreases pat.len(),
{
    let squeezed = squeeze(s, '_');
    if pat.len() > 0 {
        let at = s.len() - pat.len();
        lemma_stands_char(s, pat, at, pat.len() - 1);
        let init = s.drop_last();
        let front = pat.drop_last();
        assert(init.subrange(at, at + front.len()) =~= front) by {
            assert forall|k: int| 0 <= k < front.len() implies init[at + k] == front[k] by {
                lemma_stands_char(s, pat, at, k);
            }
        }
        assert forall|k: int| 0 <= k < front.len() implies #[trigger] front[k] != '_'
            && front[k] != '.' by {
            assert(front[k] == pat[k]);
        }
        lemma_squeeze_keeps_end(init, front);
        let before = squeeze(init, '_');
        assert(squeezed == before.push(s.last()));
        let to = squeezed.len() - pat.len();
        assert forall|k: int| 0 <= k < pat.len() implies squeezed[to + k] == pat[k] by {
            if k < front.len() {
                lemma_stands_char(before, front, before.len() - front.len(), k);
            }
        }
        assert(squeezed.subrange(to, to + pat.len()) =~= pat);
    } else {
        assert(squeezed.subrange(squeezed.len() as int, squeezed.len() as int) =~= pat);
    }
}

proof fn lemma_squeeze_keeps(s: Seq<char>, pat: Seq<char>, i: int)
    requires
        is_prefix_at(s, pat, i),
        free_of(pat, '_', '.'),
    ensures
        occurs_in(squeeze(s, '_'), pat),
    decreases s.len(),
{
    if i + pat.len() == s.len() {
        lemma_squeeze_keeps_end(s, pat);
    } else {
        let init = s.drop_last();
        assert(init.subrange(i, i + pat.len()) =~= s.subrange(i, i + pat.len()));
        lemma_squeeze_keeps(init, pat, i);
        let before = squeeze(init, '_');
        let j = choose|j: int| is_prefix_at(before, pat, j);
        if squeeze(s, '_') != before {
            lemma_stands_before(before, seq![s.last()], pat, j);
            assert(before + seq![s.last()] =~= before.push(s.last()));
        }
    }
}

proof fn lemma_strip_keeps(s: Seq<char>, pat: Seq<char>, i: int)
    requires
        is_prefix_at(s, pat, i),
        free_of(pat, '_', '.'),
        pat.len() > 0,
    ensures
        occurs_in(strip(s, '_', '.'), pat),
{
    let mid = strip_start(s, '_', '.');
    let r = strip(s, '_', '.');
    lemma_strip_start_is_end(s, '_', '.');
    lemma_strip_end_is_start(mid, '_', '.');
    let lo = s.len() - mid.len();
    lemma_stands_char(s, pat, i, 0);
    assert(pat[0] != '_' && pat[0] != '.');
    assert(i >= lo);
    assert(mid.subrange(i - lo, i - lo + pat.len()) =~= s.subrange(i, i + pat.len()));
    let last = i - lo + pat.len() - 1;
    lemma_stands_char(mid, pat, i - lo, pat.len() - 1);
    assert(pat[pat.len() - 1] != '_' && pat[pat.len() - 1] != '.');
    assert(last < r.len());
    assert(r.subrange(i - lo, i - lo + pat.len()) =~= mid.subrange(i - lo, i - lo + pat.len()));
    assert(is_prefix_at(r, pat, i - lo));
}

/// Tidying a name keeps every piece of it that is not empty and holds
/// neither `_` nor `.`.
pub proof fn lemma_tidied_keeps(s: Seq<char>, pat: Seq<char>)
    requires
        occurs_in(s, pat),
        free_of(pat, '_', '.'),
        pat.len() > 0,
    ensures
        occurs_in(tidied(s), pat),
{
    let i = choose|i: int| is_prefix_at(s, pat, i);
    lemma_halved_dots_keeps(s, pat, i);
    let halved = halved_dots(s);
    let j = choose|j: int| is_prefix_at(halved, pat, j);
    lemma_squeeze_keeps(halved, pat, j);
    let squeezed = squeeze(halved, '_');
    let k = choose|k: int| is_prefix_at(squeezed, pat, k);
    lemma_strip_keeps(squeezed, pat, k);
}

proof fn lemma_token_shape(p: Placeholder)
    ensures
        token(p).len() >= 4,
        token(p)[0] == '{',
        forall|k: int| 1 <= k < token(p).len() ==> #[trigger] token(p)[k] != '{',
        (token(p)[1] == 'e') == (p == Placeholder::ExitCode),
{
    let t = token(p);
    assert forall|k: int| 1 <= k < t.len() implies #[trigger] t[k] != '{' by {
        if k == 1 {
        } else if k == 2 {
        } else if k == 3 {
        } else if k == 4 {
        } else if k == 5 {
        } else if k == 6 {
        } else if k == 7 {
        } else if k == 8 {
        } else if k == 9 {
        } else {
        }
    }
}

proof fn lemma_placeholder_at(t: Seq<char>, i: int)
    ensures
        match placeholder_at(t, i) {
            Some(p) => is_prefix_at(t, token(p), i),
            None => forall|p: Placeholder| !is_prefix_at(t, token(p), i),
        },
{
    if placeholder_at(t, i) is None {
        assert forall|p: Placeholder| !is_prefix_at(t, token(p), i) by {
            match p {
                Placeholder::Cmd => {},
                Placeholder::Args => {},
                Placeholder::Date => {},
                Placeholder::Time => {},
                Placeholder::Ts => {},
                Placeholder::Hostname => {},
                Placeholder::Cwd => {},
                Placeholder::ExitCode => {},
            }
        }
    }
}

proof fn lemma_expanded_holds_exit_code(t: Seq<char>, f: Fields, from: int, i: int)
    requires
        0 <= from <= i,
        is_prefix_at(t, token(Placeholder::ExitCode), i),
    ensures
        occurs_in(expanded(t, from, f), f.exit_code),
    decreases i - from,
{
    let code = token(Placeholder::ExitCode);
    lemma_token_shape(Placeholder::ExitCode);
    lemma_placeholder_at(t, from);
    lemma_stands_char(t, code, i, 0);
    lemma_stands_char(t, code, i, 1);
    match placeholder_at(t, from) {
        Some(p) => {
            lemma_token_shape(p);
            let next = from + token(p).len();
            if from == i {
                lemma_stands_char(t, token(p), i, 1);
                assert(p == Placeholder::ExitCode);
                let rest = expanded(t, next, f);
                assert((f.exit_code + rest).subrange(0, f.exit_code.len() as int)
                    =~= f.exit_code);
                assert(is_prefix_at(expanded(t, from, f), f.exit_code, 0));
            } else {
                if next > i {
                    lemma_stands_char(t, token(p), from, i - from);
                }
                lemma_expanded_holds_exit_code(t, f, next, i);
                let rest = expanded(t, next, f);
                let j = choose|j: int| is_prefix_at(rest, f.exit_code, j);
                lemma_stands_after(f.value(p), rest, f.exit_code, j);
            }
        },
        None => {
            assert(from != i);
            lemma_expanded_holds_exit_code(t, f, from + 1, i);
            let rest = expanded(t, from + 1, f);
            let j = choose|j: int| is_prefix_at(rest, f.exit_code, j);
            lemma_stands_after(seq![t[from]], rest, f.exit_code, j);
        },
    }
}

/// A name whose template names the exit code holds the exit code: once the
/// command has ended with `code`, the number stands in the rendered name in
/// decimal, whatever else the template and the facts of the run hold.
pub proof fn lemma_rendered_holds_exit_code(
    tpl: Seq<char>,
    facts: RenderFacts,
    code: int,
    sanitize: bool,
    include_args: bool,
)
    requires
        occurs_in(tpl, token(Placeholder::ExitCode)),
        facts.exit_code == Some(code),
    ensures
        occurs_in(rendered(tpl, facts, sanitize, include_args), decimal(code)),
{
    let f = name_fields(facts, sanitize, include_args);
    let i = choose|i: int| is_prefix_at(tpl, token(Placeholder::ExitCode), i);
    lemma_expanded_holds_exit_code(tpl, f, 0, i);
    lemma_decimal_is_free(code);
    lemma_tidied_keeps(expanded(tpl, 0, f), decimal(code));
}

} // verus!
