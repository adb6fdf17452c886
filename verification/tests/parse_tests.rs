use cargo_condep::envmap::EnvMap;
use cargo_condep::parse::{lookup_value, parse_env_dump, parse_rustc_vv};
use cargo_condep::profile::merge_environment;

#[test]
fn dump_lines_split_at_the_first_equals_sign() {
    let out = "A=1\nB=2\n".to_string();
    assert_eq!(
        parse_env_dump(&out),
        vec![
            ("A".to_string(), "1".to_string()),
            ("B".to_string(), "2".to_string()),
        ]
    );
}

#[test]
fn dump_values_may_hold_equals_signs() {
    let out = "X=a=b".to_string();
    assert_eq!(parse_env_dump(&out), vec![("X".to_string(), "a=b".to_string())]);
}

#[test]
fn dump_lines_without_equals_are_skipped() {
    let out = "garbage\nA=1\n\nmore garbage".to_string();
    assert_eq!(parse_env_dump(&out), vec![("A".to_string(), "1".to_string())]);
}

#[test]
fn empty_dump_yields_nothing() {
    assert_eq!(parse_env_dump(&"".to_string()), vec![]);
}

#[test]
fn harvested_entries_merge_into_the_environment_in_order() {
    let pairs = parse_env_dump(&"A=1\nA=2\nB=3\n".to_string());
    let mut env = EnvMap::new();
    env.set("A".to_string(), "0".to_string());
    merge_environment(&pairs, &mut env);
    // the later harvested line wins, and existing variables are overwritten
    assert_eq!(env.get(&"A".to_string()), Some(&"2".to_string()));
    assert_eq!(env.get(&"B".to_string()), Some(&"3".to_string()));
}

#[test]
fn tool_report_drops_the_banner_and_trims_fields() {
    let out = "rustc 1.70.0 (abcdef 2023-06-01)\nhost: x86_64-unknown-linux-gnu\nrelease: 1.70.0\nLLVM version: 16.0.2\n"
        .to_string();
    let report = parse_rustc_vv(&out);
    assert_eq!(
        report,
        vec![
            ("host".to_string(), "x86_64-unknown-linux-gnu".to_string()),
            ("release".to_string(), "1.70.0".to_string()),
            ("LLVM version".to_string(), "16.0.2".to_string()),
        ]
    );
    assert_eq!(
        lookup_value(&report, &"host".to_string()),
        Some(&"x86_64-unknown-linux-gnu".to_string())
    );
    assert_eq!(lookup_value(&report, &"missing".to_string()), None);
}

#[test]
fn tool_report_without_lines_after_banner_is_empty() {
    assert_eq!(parse_rustc_vv(&"rustc 1.70.0".to_string()), vec![]);
}

#[test]
fn tool_report_fields_are_trimmed_on_both_sides() {
    let out = "banner\n  key  :\t value \n".to_string();
    assert_eq!(
        parse_rustc_vv(&out),
        vec![("key".to_string(), "value".to_string())]
    );
}
