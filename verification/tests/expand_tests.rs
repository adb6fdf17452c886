use cargo_condep::envmap::EnvMap;
use cargo_condep::envstr::{expand_str, EnvStr};

fn env_of(pairs: &[(&str, &str)]) -> EnvMap {
    let mut env = EnvMap::new();
    for (k, v) in pairs {
        env.set(k.to_string(), v.to_string());
    }
    env
}

#[test]
fn expansion_without_tokens_is_identity() {
    let env = env_of(&[("AAA", "_aaa_")]);
    assert_eq!(expand_str("", &env), "");
    assert_eq!(expand_str("plain/path", &env), "plain/path");
    assert_eq!(expand_str("no dollars here", &env), "no dollars here");
    assert_eq!(expand_str("trailing dollar $", &env), "trailing dollar $");
    assert_eq!(expand_str("$1 is no name", &env), "$1 is no name");
}

#[test]
fn unresolved_token_round_trips() {
    let env = EnvMap::new();
    assert_eq!(expand_str("$MISSING", &env), "$MISSING");
    assert_eq!(expand_str("$MISSING/sub", &env), "$MISSING/sub");
    assert_eq!(expand_str("a $GONE b", &env), "a $GONE b");
}

#[test]
fn single_token_expands() {
    let env = env_of(&[("AAA", "_aaa_")]);
    let value = EnvStr::from_str("$AAA");
    assert_eq!(value.to_string(&env), "_aaa_");
}

#[test]
fn tokens_between_text_expand() {
    let env = env_of(&[("AAA", "_aaa_"), ("BBB", "_bbb_")]);
    let value = EnvStr::from_str("$AAA/some_text/$BBB");
    assert_eq!(value.to_string(&env), "_aaa_/some_text/_bbb_");
}

#[test]
fn adjacent_tokens_expand() {
    let env = env_of(&[("AAA", "_aaa_"), ("BBB", "_bbb_"), ("CCC", "_ccc_")]);
    let value = EnvStr::from_str("$AAA$BBB$CCC");
    assert_eq!(value.to_string(&env), "_aaa__bbb__ccc_");
}

#[test]
fn expansion_does_not_recurse() {
    let env = env_of(&[("A", "$B"), ("B", "x")]);
    assert_eq!(expand_str("$A", &env), "$B");
}

#[test]
fn token_names_are_maximal() {
    let env = env_of(&[("AB", "long"), ("A", "short")]);
    assert_eq!(expand_str("$AB", &env), "long");
    assert_eq!(expand_str("$A-B", &env), "short-B");
    assert_eq!(expand_str("$A_B", &env), "$A_B");
}

#[test]
fn underscore_and_digit_names() {
    let env = env_of(&[("_X1", "ok")]);
    assert_eq!(expand_str("$_X1", &env), "ok");
}
