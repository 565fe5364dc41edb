//! The executable expander: a single left-to-right scan.

use vstd::prelude::*;

use crate::error::EnvExpansionError;
use crate::grammar::{
    expanded, find_from, is_word_char, lemma_word_end_from, lookup_or_empty, unix_expanded,
    unix_expanded_from, windows_expanded, windows_expanded_from, word_end_from, word_span,
    SyntaxMode,
};
use crate::lookup::EnvMap;

verus! {

/// Whether `c` is a word character: an ASCII letter, digit or underscore.
pub fn check_word_char(c: char) -> (r: bool)
    ensures
        r == is_word_char(c),
{
    let u = c as u32;
    (97 <= u && u <= 122) || (65 <= u && u <= 90) || (48 <= u && u <= 57) || u == 95
}

/// The position of the first `t` in `s` at or after `start`, or the
/// length of `s` when there is none.
fn find_char_from(s: &str, start: usize, t: char) -> (j: usize)
    requires
        start <= s@.len(),
    ensures
        j as int == find_from(s@, start as int, t),
        start <= j <= s@.len(),
{
    let n = s.unicode_len();
    let mut j = start;
    while j < n
        invariant
            n == s@.len(),
            start <= j <= n,
            find_from(s@, start as int, t) == find_from(s@, j as int, t),
        decreases n - j,
    {
        if s.get_char(j) == t {
            return j;
        }
        j = j + 1;
    }
    j
}

/// The end of the maximal run of word characters starting at `start`.
fn scan_word_end(s: &str, start: usize) -> (j: usize)
    requires
        start <= s@.len(),
    ensures
        j as int == word_end_from(s@, start as int),
        start <= j <= s@.len(),
{
    let n = s.unicode_len();
    let mut j = start;
    while j < n
        invariant
            n == s@.len(),
            start <= j <= n,
            word_end_from(s@, start as int) == word_end_from(s@, j as int),
        decreases n - j,
    {
        if !check_word_char(s.get_char(j)) {
            return j;
        }
        j = j + 1;
    }
    j
}

/// Whether the span `[lo, hi)` of `s` is a non-empty run of word characters.
fn check_word_span(s: &str, lo: usize, hi: usize) -> (r: bool)
    requires
        lo <= hi <= s@.len(),
    ensures
        r == word_span(s@, lo as int, hi as int),
{
    if lo >= hi {
        return false;
    }
    let mut k = lo;
    while k < hi
        invariant
            lo <= k <= hi <= s@.len(),
            forall|m: int| lo <= m < k ==> is_word_char(#[trigger] s@[m]),
        decreases hi - k,
    {
        if !check_word_char(s.get_char(k)) {
            return false;
        }
        k = k + 1;
    }
    true
}

/// Appends to `out` the value the table substitutes for `name`: the
/// stored value when present, nothing when absent.
fn append_value(out: &mut String, env: &EnvMap, name: &str)
    ensures
        final(out)@ == old(out)@ + lookup_or_empty(env@, name@),
{
    match env.get(name) {
        Some(value) => {
            out.append(value.as_str());
        },
        None => {
            proof {
                assert(old(out)@ + lookup_or_empty(env@, name@) =~= old(out)@);
            }
        },
    }
}

/// Expands `$VAR` and `${VAR}` placeholders in `input` against `env`.
///
/// A `${` with no closing `}` — or with anything other than a non-empty
/// run of word characters before the `}` — is not a token: the `$` is
/// emitted literally and the scan resumes at the following character.
pub fn expand_unix(input: &str, env: &EnvMap) -> (out: String)
    ensures
        out@ == unix_expanded(input@, env@),
{
    let n = input.unicode_len();
    let mut out = String::new();
    let mut i: usize = 0;
    while i < n
        invariant
            n == input@.len(),
            i <= n,
            unix_expanded(input@, env@) == out@ + unix_expanded_from(input@, env@, i as int),
        decreases n - i,
    {
        let ghost s = input@;
        let ghost e = env@;
        let ghost prefix = out@;
        let c = input.get_char(i);
        if c == '$' {
            if i + 1 < n && input.get_char(i + 1) == '{' {
                let j = find_char_from(input, i + 2, '}');
                if j < n && check_word_span(input, i + 2, j) {
                    let name = input.substring_char(i + 2, j);
                    append_value(&mut out, env, name);
                    proof {
                        let piece = lookup_or_empty(e, s.subrange(i + 2, j as int));
                        let rest = unix_expanded_from(s, e, j + 1);
                        assert(unix_expanded_from(s, e, i as int) == piece + rest);
                        assert((prefix + piece) + rest =~= prefix + (piece + rest));
                    }
                    i = j + 1;
                } else {
                    out.append("$");
                    proof {
                        reveal_strlit("$");
                        let rest = unix_expanded_from(s, e, i + 1);
                        assert(unix_expanded_from(s, e, i as int) == seq!['$'] + rest);
                        assert((prefix + "$"@) + rest =~= prefix + (seq!['$'] + rest));
                    }
                    i = i + 1;
                }
            } else {
                let j = scan_word_end(input, i + 1);
                if i + 1 < j {
                    let name = input.substring_char(i + 1, j);
                    append_value(&mut out, env, name);
                    proof {
                        lemma_word_end_from(s, i + 1);
                        let piece = lookup_or_empty(e, s.subrange(i + 1, j as int));
                        let rest = unix_expanded_from(s, e, j as int);
                        assert(unix_expanded_from(s, e, i as int) == piece + rest);
                        assert((prefix + piece) + rest =~= prefix + (piece + rest));
                    }
                    i = j;
                } else {
                    out.append("$");
                    proof {
                        reveal_strlit("$");
                        let rest = unix_expanded_from(s, e, i + 1);
                        assert(unix_expanded_from(s, e, i as int) == seq!['$'] + rest);
                        assert((prefix + "$"@) + rest =~= prefix + (seq!['$'] + rest));
                    }
                    i = i + 1;
                }
            }
        } else {
            let piece = input.substring_char(i, i + 1);
            out.append(piece);
            proof {
                let rest = unix_expanded_from(s, e, i + 1);
                assert(s.subrange(i as int, i + 1) =~= seq![s[i as int]]);
                assert(unix_expanded_from(s, e, i as int) == seq![s[i as int]] + rest);
                assert((prefix + piece@) + rest =~= prefix + (seq![s[i as int]] + rest));
            }
            i = i + 1;
        }
    }
    proof {
        assert(out@ + unix_expanded_from(input@, env@, n as int) =~= out@);
    }
    out
}

/// Expands `%VAR%` placeholders in `input` against `env`.
///
/// The span between two `%` delimiters is looked up whatever it holds,
/// even when it is empty. A `%` with no closing `%` is emitted literally
/// and the scan resumes at the following character.
pub fn expand_windows(input: &str, env: &EnvMap) -> (out: String)
    ensures
        out@ == windows_expanded(input@, env@),
{
    let n = input.unicode_len();
    let mut out = String::new();
    let mut i: usize = 0;
    while i < n
        invariant
            n == input@.len(),
            i <= n,
            windows_expanded(input@, env@) == out@ + windows_expanded_from(input@, env@, i as int),
        decreases n - i,
    {
        let ghost s = input@;
        let ghost e = env@;
        let ghost prefix = out@;
        let c = input.get_char(i);
        if c == '%' {
            let j = find_char_from(input, i + 1, '%');
            if j < n {
                let name = input.substring_char(i + 1, j);
                append_value(&mut out, env, name);
                proof {
                    let piece = lookup_or_empty(e, s.subrange(i + 1, j as int));
                    let rest = windows_expanded_from(s, e, j + 1);
                    assert(windows_expanded_from(s, e, i as int) == piece + rest);
                    assert((prefix + piece) + rest =~= prefix + (piece + rest));
                }
                i = j + 1;
            } else {
                out.append("%");
                proof {
                    reveal_strlit("%");
                    let rest = windows_expanded_from(s, e, i + 1);
                    assert(windows_expanded_from(s, e, i as int) == seq!['%'] + rest);
                    assert((prefix + "%"@) + rest =~= prefix + (seq!['%'] + rest));
                }
                i = i + 1;
            }
        } else {
            let piece = input.substring_char(i, i + 1);
            out.append(piece);
            proof {
                let rest = windows_expanded_from(s, e, i + 1);
                assert(s.subrange(i as int, i + 1) =~= seq![s[i as int]]);
                assert(windows_expanded_from(s, e, i as int) == seq![s[i as int]] + rest);
                assert((prefix + piece@) + rest =~= prefix + (seq![s[i as int]] + rest));
            }
            i = i + 1;
        }
    }
    proof {
        assert(out@ + windows_expanded_from(input@, env@, n as int) =~= out@);
    }
    out
}

/// Expands every placeholder of the grammar that `mode` selects,
/// resolving each occurrence against `env` and substituting the empty
/// string for a name the table does not hold.
///
/// The expansion is total: it returns `Ok` for every input. The error
/// type is kept for a strict mode that would reject missing variables.
pub fn expand_env_vars(input: &str, mode: SyntaxMode, env: &EnvMap) -> (r: Result<
    String,
    EnvExpansionError,
>)
    ensures
        r matches Ok(out) && out@ == expanded(input@, mode, env@),
{
    match mode {
        SyntaxMode::UnixStyle => Ok(expand_unix(input, env)),
        SyntaxMode::WindowsStyle => Ok(expand_windows(input, env)),
    }
}

} // verus!
