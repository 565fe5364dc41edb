//! Unix-style expansion: `$VAR` and `${VAR}`.

use env_expand::expand::expand_env_vars;
use env_expand::grammar::SyntaxMode;
use env_expand::lookup::EnvMap;

#[test]
fn test_single_var_unix() {
    let mut env = EnvMap::new();
    env.insert(String::from("USER"), String::from("alice"));
    let input = "Hello $USER!";
    let output = expand_env_vars(input, SyntaxMode::UnixStyle, &env).unwrap();
    assert_eq!(output, "Hello alice!");
}

#[test]
fn test_braced_var_unix() {
    let mut env = EnvMap::new();
    env.insert(String::from("HOME"), String::from("/home/alice"));
    let input = "Path: ${HOME}/code";
    let output = expand_env_vars(input, SyntaxMode::UnixStyle, &env).unwrap();
    assert_eq!(output, "Path: /home/alice/code");
}

#[test]
fn test_multiple_vars_unix() {
    let mut env = EnvMap::new();
    env.insert(String::from("USER"), String::from("bob"));
    env.insert(String::from("SHELL"), String::from("/bin/bash"));
    let input = "$USER uses $SHELL";
    let output = expand_env_vars(input, SyntaxMode::UnixStyle, &env).unwrap();
    assert_eq!(output, "bob uses /bin/bash");
}

#[test]
fn test_missing_var_unix() {
    let env = EnvMap::new();
    let input = "This is $DOES_NOT_EXIST";
    let output = expand_env_vars(input, SyntaxMode::UnixStyle, &env).unwrap();
    assert_eq!(output, "This is ");
}

#[test]
fn test_single_var_unix_regex() {
    let mut env = EnvMap::new();
    env.insert(String::from("USER"), String::from("alice"));
    let input = "Hello $USER!";
    let output = expand_env_vars(input, SyntaxMode::UnixStyle, &env).unwrap();
    assert_eq!(output, "Hello alice!");
}

#[test]
fn test_braced_var_unix_regex() {
    let mut env = EnvMap::new();
    env.insert(String::from("HOME"), String::from("/home/alice"));
    let input = "Path: ${HOME}/code";
    let output = expand_env_vars(input, SyntaxMode::UnixStyle, &env).unwrap();
    assert_eq!(output, "Path: /home/alice/code");
}

#[test]
fn test_multiple_vars_unix_regex() {
    let mut env = EnvMap::new();
    env.insert(String::from("USER"), String::from("bob"));
    env.insert(String::from("SHELL"), String::from("/bin/bash"));
    let input = "$USER uses $SHELL";
    let output = expand_env_vars(input, SyntaxMode::UnixStyle, &env).unwrap();
    assert_eq!(output, "bob uses /bin/bash");
}

#[test]
fn test_missing_var_unix_regex() {
    let env = EnvMap::new();
    let input = "This is $DOES_NOT_EXIST";
    let output = expand_env_vars(input, SyntaxMode::UnixStyle, &env).unwrap();
    assert_eq!(output, "This is ");
}

#[test]
fn test_identity_on_plain_text_unix() {
    let env = EnvMap::new();
    let input = "no placeholders here: {braces}, percent-free words, punctuation!";
    let output = expand_env_vars(input, SyntaxMode::UnixStyle, &env).unwrap();
    assert_eq!(output, input);
}

#[test]
fn test_unterminated_brace_emits_literally() {
    let mut env = EnvMap::new();
    env.insert(String::from("UNCLOSED"), String::from("value"));
    let input = "${UNCLOSED";
    let output = expand_env_vars(input, SyntaxMode::UnixStyle, &env).unwrap();
    assert_eq!(output, "${UNCLOSED");
}

#[test]
fn test_empty_braces_are_literal() {
    let env = EnvMap::new();
    let input = "a${}b";
    let output = expand_env_vars(input, SyntaxMode::UnixStyle, &env).unwrap();
    assert_eq!(output, "a${}b");
}

#[test]
fn test_braced_span_with_non_word_chars_is_literal() {
    let mut env = EnvMap::new();
    env.insert(String::from("FOO BAR"), String::from("oops"));
    let input = "${FOO BAR}";
    let output = expand_env_vars(input, SyntaxMode::UnixStyle, &env).unwrap();
    assert_eq!(output, "${FOO BAR}");
}

#[test]
fn test_bare_dollar_is_literal() {
    let env = EnvMap::new();
    let input = "cost: $ 5 and more$";
    let output = expand_env_vars(input, SyntaxMode::UnixStyle, &env).unwrap();
    assert_eq!(output, "cost: $ 5 and more$");
}

#[test]
fn test_adjacent_vars_unix() {
    let mut env = EnvMap::new();
    env.insert(String::from("A"), String::from("1"));
    env.insert(String::from("B"), String::from("2"));
    let output = expand_env_vars("$A$B", SyntaxMode::UnixStyle, &env).unwrap();
    assert_eq!(output, "12");
}

#[test]
fn test_value_with_placeholder_is_not_rescanned_unix() {
    let mut env = EnvMap::new();
    env.insert(String::from("A"), String::from("$OTHER"));
    env.insert(String::from("OTHER"), String::from("boom"));
    let output = expand_env_vars("x $A y", SyntaxMode::UnixStyle, &env).unwrap();
    assert_eq!(output, "x $OTHER y");
}

#[test]
fn test_idempotent_when_result_is_plain_unix() {
    let mut env = EnvMap::new();
    env.insert(String::from("USER"), String::from("alice"));
    let once = expand_env_vars("Hello $USER!", SyntaxMode::UnixStyle, &env).unwrap();
    let twice = expand_env_vars(once.as_str(), SyntaxMode::UnixStyle, &env).unwrap();
    assert_eq!(twice, once);
}

#[test]
fn test_later_insert_shadows_earlier() {
    let mut env = EnvMap::new();
    env.insert(String::from("X"), String::from("first"));
    env.insert(String::from("X"), String::from("second"));
    let output = expand_env_vars("$X", SyntaxMode::UnixStyle, &env).unwrap();
    assert_eq!(output, "second");
}
