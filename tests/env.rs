use ezcron::env::{expand, set_var, Env};

#[test]
fn test_parse_env_base() {
    let mut env = Env::new();
    assert!(set_var(&mut env, "AAA", "BBB"));
    assert_eq!(env.get("AAA"), "BBB");
    assert!(set_var(&mut env, "AAA", ""));
    assert_eq!(env.get("AAA"), "");
    assert!(set_var(&mut env, "a1", "value"));
    assert_eq!(env.get("a1"), "value");
    assert!(set_var(&mut env, "1a", "value"));
    assert_eq!(env.get("1a"), "value");
}

#[test]
fn test_parse_env_value() {
    let mut env = Env::new();
    env.set("TEST_A", "aaaa");
    env.set("TEST_B", "bbbb");
    assert!(set_var(&mut env, "TEST_C", "${TEST_A}:$TEST_B"));
    assert_eq!(env.get("TEST_C"), "aaaa:bbbb");
}

#[test]
fn expand_bare_and_braced_references() {
    let mut env = Env::new();
    env.set("A", "aaaa");
    env.set("B", "bbbb");
    assert_eq!(expand("$A:${B}", &env), Some("aaaa:bbbb".to_string()));
}

#[test]
fn expand_leaves_plain_values_alone() {
    let mut env = Env::new();
    env.set("A", "aaaa");
    assert_eq!(expand("/var/log/job", &env), Some("/var/log/job".to_string()));
    assert_eq!(expand("", &env), Some(String::new()));
    let once = expand("plain-value_1", &env).unwrap();
    assert_eq!(expand(&once, &env), Some(once.clone()));
}

#[test]
fn expand_unset_variable_is_empty() {
    let env = Env::new();
    assert_eq!(expand("x$NOPE-y", &env), Some("x-y".to_string()));
    assert_eq!(expand("x${NOPE}y", &env), Some("xy".to_string()));
}

#[test]
fn expand_takes_longest_name_and_keeps_non_references() {
    let mut env = Env::new();
    env.set("AB", "long");
    env.set("A", "short");
    assert_eq!(expand("$AB", &env), Some("long".to_string()));
    assert_eq!(expand("$ 1 $1 ${A", &env), Some("$ 1 $1 ${A".to_string()));
    assert_eq!(expand("$A_", &env), Some(String::new()));
}

#[test]
fn expand_substitutes_first_reference_only_each_time() {
    let mut env = Env::new();
    env.set("A", "1");
    env.set("AB", "2");
    assert_eq!(expand("$A.$AB", &env), Some("1.2".to_string()));
}

#[test]
fn expand_follows_references_brought_in_by_values() {
    let mut env = Env::new();
    env.set("INNER", "deep");
    env.set("OUTER", "${INNER}!");
    assert_eq!(expand("<$OUTER>", &env), Some("<deep!>".to_string()));
}

#[test]
fn expand_gives_up_on_self_reference() {
    let mut env = Env::new();
    env.set("LOOP", "$LOOP");
    assert_eq!(expand("$LOOP", &env), None);
    assert!(!set_var(&mut env, "X", "${LOOP}"));
    assert_eq!(env.get("X"), "");
}

#[test]
fn env_last_assignment_wins() {
    let mut env = Env::new();
    env.set("K", "one");
    env.set("K", "two");
    assert_eq!(env.get("K"), "two");
    assert_eq!(env.get("missing"), "");
}
