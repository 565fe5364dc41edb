//! The two placeholder grammars and the mathematical model of expansion.
//!
//! `unix_expanded` and `windows_expanded` define, over sequences of
//! characters, exactly what the executable scanner produces: a single
//! left-to-right pass that substitutes each recognised token once and
//! copies everything else verbatim.

use vstd::prelude::*;

verus! {

/// The placeholder grammar in effect: `$VAR` / `${VAR}` or `%VAR%`.
#[derive(Clone, Copy, Debug)]
pub enum SyntaxMode {
    UnixStyle,
    WindowsStyle,
}

/// A word character: an ASCII letter, an ASCII digit, or an underscore.
/// These are the characters a Unix-style variable name is made of.
pub open spec fn is_word_char(c: char) -> bool {
    (97 <= c as int && c as int <= 122)  // 'a' ..= 'z'
    || (65 <= c as int && c as int <= 90)  // 'A' ..= 'Z'
    || (48 <= c as int && c as int <= 57)  // '0' ..= '9'
    || c as int == 95  // '_'
}

/// The position of the first occurrence of `t` in `s` at or after `i`,
/// or `s.len()` when there is none.
pub open spec fn find_from(s: Seq<char>, i: int, t: char) -> int
    decreases s.len() - i,
{
    if i < 0 || i >= s.len() {
        s.len() as int
    } else if s[i] == t {
        i
    } else {
        find_from(s, i + 1, t)
    }
}

/// The end of the maximal run of word characters that starts at `i`.
pub open spec fn word_end_from(s: Seq<char>, i: int) -> int
    decreases s.len() - i,
{
    if i < 0 || i >= s.len() || !is_word_char(s[i]) {
        i
    } else {
        word_end_from(s, i + 1)
    }
}

/// The span `[lo, hi)` of `s` is a non-empty run of word characters.
pub open spec fn word_span(s: Seq<char>, lo: int, hi: int) -> bool {
    lo < hi && forall|k: int| lo <= k < hi ==> is_word_char(#[trigger] s[k])
}

/// The value an environment table substitutes for `name`: the stored
/// value when the table holds the name, the empty string otherwise.
pub open spec fn lookup_or_empty(env: Map<Seq<char>, Seq<char>>, name: Seq<char>) -> Seq<char> {
    if env.dom().contains(name) {
        env[name]
    } else {
        Seq::<char>::empty()
    }
}

/// The Unix-style expansion of the suffix of `s` that starts at `i`.
///
/// At a `$` the braced form is tried first: it substitutes only when a
/// closing `}` exists and encloses a non-empty run of word characters;
/// otherwise the `$` is emitted literally and the scan resumes at the
/// next character. A bare `$` followed by word characters substitutes
/// the maximal run; a `$` followed by neither is emitted literally.
pub open spec fn unix_expanded_from(
    s: Seq<char>,
    env: Map<Seq<char>, Seq<char>>,
    i: int,
) -> Seq<char>
    decreases s.len() - i,
{
    if i < 0 || i >= s.len() {
        Seq::<char>::empty()
    } else if s[i] == '$' {
        if i + 1 < s.len() && s[i + 1] == '{' {
            let close = find_from(s, i + 2, '}');
            if close < s.len() && word_span(s, i + 2, close) {
                lookup_or_empty(env, s.subrange(i + 2, close)) + unix_expanded_from(
                    s,
                    env,
                    close + 1,
                )
            } else {
                seq!['$'] + unix_expanded_from(s, env, i + 1)
            }
        } else {
            let stop = word_end_from(s, i + 1);
            if i + 1 < stop && stop <= s.len() {
                lookup_or_empty(env, s.subrange(i + 1, stop)) + unix_expanded_from(s, env, stop)
            } else {
                seq!['$'] + unix_expanded_from(s, env, i + 1)
            }
        }
    } else {
        seq![s[i]] + unix_expanded_from(s, env, i + 1)
    }
}

/// The Windows-style expansion of the suffix of `s` that starts at `i`.
///
/// A `%` with a later closing `%` substitutes the span between the two
/// delimiters, whatever it holds — even the empty span. A `%` with no
/// closing `%` is emitted literally and the scan resumes at the next
/// character.
pub open spec fn windows_expanded_from(
    s: Seq<char>,
    env: Map<Seq<char>, Seq<char>>,
    i: int,
) -> Seq<char>
    decreases s.len() - i,
{
    if i < 0 || i >= s.len() {
        Seq::<char>::empty()
    } else if s[i] == '%' {
        let close = find_from(s, i + 1, '%');
        if i + 1 <= close && close < s.len() {
            lookup_or_empty(env, s.subrange(i + 1, close)) + windows_expanded_from(
                s,
                env,
                close + 1,
            )
        } else {
            seq!['%'] + windows_expanded_from(s, env, i + 1)
        }
    } else {
        seq![s[i]] + windows_expanded_from(s, env, i + 1)
    }
}

/// The Unix-style expansion of the whole of `s`.
pub open spec fn unix_expanded(s: Seq<char>, env: Map<Seq<char>, Seq<char>>) -> Seq<char> {
    unix_expanded_from(s, env, 0)
}

/// The Windows-style expansion of the whole of `s`.
pub open spec fn windows_expanded(s: Seq<char>, env: Map<Seq<char>, Seq<char>>) -> Seq<char> {
    windows_expanded_from(s, env, 0)
}

/// The expansion of `s` under the grammar that `mode` selects.
pub open spec fn expanded(
    s: Seq<char>,
    mode: SyntaxMode,
    env: Map<Seq<char>, Seq<char>>,
) -> Seq<char> {
    match mode {
        SyntaxMode::UnixStyle => unix_expanded(s, env),
        SyntaxMode::WindowsStyle => windows_expanded(s, env),
    }
}

/// The scan of the suffix of `s` that starts at `i` recognises at least
/// one Unix-style token. The branch structure mirrors `unix_expanded_from`:
/// a position counts only where that scan would substitute.
pub open spec fn unix_has_token_from(s: Seq<char>, i: int) -> bool
    decreases s.len() - i,
{
    if i < 0 || i >= s.len() {
        false
    } else if s[i] == '$' {
        if i + 1 < s.len() && s[i + 1] == '{' {
            let close = find_from(s, i + 2, '}');
            if close < s.len() && word_span(s, i + 2, close) {
                true
            } else {
                unix_has_token_from(s, i + 1)
            }
        } else {
            let stop = word_end_from(s, i + 1);
            if i + 1 < stop && stop <= s.len() {
                true
            } else {
                unix_has_token_from(s, i + 1)
            }
        }
    } else {
        unix_has_token_from(s, i + 1)
    }
}

/// The scan of the suffix of `s` that starts at `i` recognises at least
/// one Windows-style token.
pub open spec fn windows_has_token_from(s: Seq<char>, i: int) -> bool
    decreases s.len() - i,
{
    if i < 0 || i >= s.len() {
        false
    } else if s[i] == '%' {
        let close = find_from(s, i + 1, '%');
        if i + 1 <= close && close < s.len() {
            true
        } else {
            windows_has_token_from(s, i + 1)
        }
    } else {
        windows_has_token_from(s, i + 1)
    }
}

/// A scan of the whole of `s` under the grammar that `mode` selects
/// recognises at least one placeholder token.
pub open spec fn has_placeholder(s: Seq<char>, mode: SyntaxMode) -> bool {
    match mode {
        SyntaxMode::UnixStyle => unix_has_token_from(s, 0),
        SyntaxMode::WindowsStyle => windows_has_token_from(s, 0),
    }
}

/// `find_from` returns exactly the first occurrence: an index that holds
/// `t` and is preceded by no `t` is the result.
pub proof fn lemma_find_from_unique(s: Seq<char>, i: int, j: int, t: char)
    requires
        0 <= i <= j < s.len(),
        s[j] == t,
        forall|k: int| i <= k < j ==> s[k] != t,
    ensures
        find_from(s, i, t) == j,
    decreases j - i,
{
    if i < j {
        lemma_find_from_unique(s, i + 1, j, t);
    }
}

/// What `word_end_from` returns: the first position at or after `i` that
/// is the end of the input or holds a non-word character, with word
/// characters everywhere before it in `[i, ..)`.
pub proof fn lemma_word_end_from(s: Seq<char>, i: int)
    requires
        0 <= i <= s.len(),
    ensures
        i <= word_end_from(s, i) <= s.len(),
        word_end_from(s, i) < s.len() ==> !is_word_char(s[word_end_from(s, i)]),
        forall|k: int| i <= k < word_end_from(s, i) ==> is_word_char(#[trigger] s[k]),
    decreases s.len() - i,
{
    if i < s.len() && is_word_char(s[i]) {
        lemma_word_end_from(s, i + 1);
    }
}

/// A run of word characters reaching the end of the input: `word_end_from`
/// returns the input's length.
pub proof fn lemma_word_end_from_full(s: Seq<char>, i: int)
    requires
        0 <= i <= s.len(),
        forall|k: int| i <= k < s.len() ==> is_word_char(#[trigger] s[k]),
    ensures
        word_end_from(s, i) == s.len(),
    decreases s.len() - i,
{
    if i < s.len() {
        lemma_word_end_from_full(s, i + 1);
    }
}

} // verus!
