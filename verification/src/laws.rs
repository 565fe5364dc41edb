//! General facts about the expansion, stated and proved once for all
//! inputs and all environment tables.

use vstd::prelude::*;

use crate::grammar::{
    expanded, find_from, has_placeholder, is_word_char, lemma_find_from_unique,
    lemma_word_end_from_full, lookup_or_empty, unix_expanded, unix_expanded_from,
    unix_has_token_from, windows_expanded, windows_expanded_from, windows_has_token_from,
    word_span, SyntaxMode,
};

verus! {

/// `s` holds no character that can open a placeholder of the grammar
/// `mode` selects: no `$` in Unix style, no `%` in Windows style.
pub open spec fn plain_text(s: Seq<char>, mode: SyntaxMode) -> bool {
    match mode {
        SyntaxMode::UnixStyle => forall|k: int| 0 <= k < s.len() ==> s[k] != '$',
        SyntaxMode::WindowsStyle => forall|k: int| 0 <= k < s.len() ==> s[k] != '%',
    }
}

proof fn lemma_unix_token_free_suffix(s: Seq<char>, env: Map<Seq<char>, Seq<char>>, i: int)
    requires
        0 <= i <= s.len(),
        !unix_has_token_from(s, i),
    ensures
        unix_expanded_from(s, env, i) == s.subrange(i, s.len() as int),
    decreases s.len() - i,
{
    if i == s.len() {
        assert(s.subrange(i, s.len() as int) =~= Seq::<char>::empty());
    } else {
        lemma_unix_token_free_suffix(s, env, i + 1);
        if s[i] == '$' {
            assert(seq!['$'] =~= seq![s[i]]);
        }
        assert(seq![s[i]] + s.subrange(i + 1, s.len() as int) =~= s.subrange(i, s.len() as int));
    }
}

proof fn lemma_windows_token_free_suffix(s: Seq<char>, env: Map<Seq<char>, Seq<char>>, i: int)
    requires
        0 <= i <= s.len(),
        !windows_has_token_from(s, i),
    ensures
        windows_expanded_from(s, env, i) == s.subrange(i, s.len() as int),
    decreases s.len() - i,
{
    if i == s.len() {
        assert(s.subrange(i, s.len() as int) =~= Seq::<char>::empty());
    } else {
        lemma_windows_token_free_suffix(s, env, i + 1);
        if s[i] == '%' {
            assert(seq!['%'] =~= seq![s[i]]);
        }
        assert(seq![s[i]] + s.subrange(i + 1, s.len() as int) =~= s.subrange(i, s.len() as int));
    }
}

/// Identity on token-free text: a string in which the scan recognises no
/// placeholder expands to itself, under every environment table.
pub proof fn lemma_token_free_is_identity(
    s: Seq<char>,
    mode: SyntaxMode,
    env: Map<Seq<char>, Seq<char>>,
)
    requires
        !has_placeholder(s, mode),
    ensures
        expanded(s, mode, env) == s,
{
    match mode {
        SyntaxMode::UnixStyle => lemma_unix_token_free_suffix(s, env, 0),
        SyntaxMode::WindowsStyle => lemma_windows_token_free_suffix(s, env, 0),
    }
    assert(s.subrange(0, s.len() as int) =~= s);
}

proof fn lemma_plain_has_no_token(s: Seq<char>, mode: SyntaxMode, i: int)
    requires
        0 <= i <= s.len(),
        plain_text(s, mode),
    ensures
        mode is UnixStyle ==> !unix_has_token_from(s, i),
        mode is WindowsStyle ==> !windows_has_token_from(s, i),
    decreases s.len() - i,
{
    if i < s.len() {
        lemma_plain_has_no_token(s, mode, i + 1);
    }
}

/// Identity on plain text: a string free of the characters that can open
/// a placeholder of the active grammar expands to itself, under every
/// environment table.
pub proof fn lemma_identity_on_plain_text(
    s: Seq<char>,
    mode: SyntaxMode,
    env: Map<Seq<char>, Seq<char>>,
)
    requires
        plain_text(s, mode),
    ensures
        expanded(s, mode, env) == s,
{
    lemma_plain_has_no_token(s, mode, 0);
    lemma_token_free_is_identity(s, mode, env);
}

/// Idempotence once no placeholder remains: when an expansion's result
/// holds no remaining placeholder token, expanding that result again
/// changes nothing.
pub proof fn lemma_expansion_idempotent_without_remaining_placeholders(
    s: Seq<char>,
    mode: SyntaxMode,
    env: Map<Seq<char>, Seq<char>>,
)
    requires
        !has_placeholder(expanded(s, mode, env), mode),
    ensures
        expanded(expanded(s, mode, env), mode, env) == expanded(s, mode, env),
{
    lemma_token_free_is_identity(expanded(s, mode, env), mode, env);
}

/// No nested expansion, bare Unix form: `$` followed by exactly a name
/// expands to the value the table substitutes for that name, verbatim —
/// whatever that value holds, placeholder syntax included.
pub proof fn lemma_bare_value_verbatim(name: Seq<char>, env: Map<Seq<char>, Seq<char>>)
    requires
        word_span(name, 0, name.len() as int),
    ensures
        unix_expanded(seq!['$'] + name, env) == lookup_or_empty(env, name),
{
    let s = seq!['$'] + name;
    assert(s[0] == '$');
    assert(is_word_char(s[1]));
    assert forall|k: int| 1 <= k < s.len() implies is_word_char(#[trigger] s[k]) by {
        assert(s[k] == name[k - 1]);
    }
    lemma_word_end_from_full(s, 1);
    assert(s.subrange(1, s.len() as int) =~= name);
    assert(unix_expanded(s, env) == lookup_or_empty(env, name) + unix_expanded_from(
        s,
        env,
        s.len() as int,
    ));
    assert(lookup_or_empty(env, name) + Seq::<char>::empty() =~= lookup_or_empty(env, name));
}

/// No nested expansion, braced Unix form: `${`, a name, `}` expands to
/// the value the table substitutes for that name, verbatim.
pub proof fn lemma_braced_value_verbatim(name: Seq<char>, env: Map<Seq<char>, Seq<char>>)
    requires
        word_span(name, 0, name.len() as int),
    ensures
        unix_expanded(seq!['$', '{'] + name + seq!['}'], env) == lookup_or_empty(env, name),
{
    let s = seq!['$', '{'] + name + seq!['}'];
    let close = 2 + name.len() as int;
    assert(s[0] == '$');
    assert(s[1] == '{');
    assert(s[close] == '}');
    assert forall|k: int| 2 <= k < close implies s[k] != '}' && is_word_char(#[trigger] s[k]) by {
        assert(s[k] == name[k - 2]);
        assert(is_word_char(name[k - 2]));
    }
    lemma_find_from_unique(s, 2, close, '}');
    assert(find_from(s, 2, '}') == close);
    assert(word_span(s, 2, close));
    assert(s.subrange(2, close) =~= name);
    assert(unix_expanded(s, env) == lookup_or_empty(env, name) + unix_expanded_from(
        s,
        env,
        close + 1,
    ));
    assert(lookup_or_empty(env, name) + Seq::<char>::empty() =~= lookup_or_empty(env, name));
}

/// No nested expansion, Windows form: `%`, a span free of `%`, `%`
/// expands to the value the table substitutes for that span, verbatim.
pub proof fn lemma_windows_value_verbatim(name: Seq<char>, env: Map<Seq<char>, Seq<char>>)
    requires
        forall|k: int| 0 <= k < name.len() ==> name[k] != '%',
    ensures
        windows_expanded(seq!['%'] + name + seq!['%'], env) == lookup_or_empty(env, name),
{
    let s = seq!['%'] + name + seq!['%'];
    let close = 1 + name.len() as int;
    assert(s[0] == '%');
    assert(s[close] == '%');
    assert forall|k: int| 1 <= k < close implies #[trigger] s[k] != '%' by {
        assert(s[k] == name[k - 1]);
    }
    lemma_find_from_unique(s, 1, close, '%');
    assert(find_from(s, 1, '%') == close);
    assert(s.subrange(1, close) =~= name);
    assert(windows_expanded(s, env) == lookup_or_empty(env, name) + windows_expanded_from(
        s,
        env,
        close + 1,
    ));
    assert(lookup_or_empty(env, name) + Seq::<char>::empty() =~= lookup_or_empty(env, name));
}

} // verus!
