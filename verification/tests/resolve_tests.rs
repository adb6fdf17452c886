use cargo_condep::action::VarAction;
use cargo_condep::candidates::{EnvPair, ValueAlternatives};
use cargo_condep::envmap::EnvMap;
use cargo_condep::envstr::EnvStr;
use cargo_condep::profile::BuildConfiguration;

#[test]
fn resolution_picks_the_first_satisfying_candidate() {
    let alts = ValueAlternatives::new(
        vec![
            EnvStr::from_str("/nope/one"),
            EnvStr::from_str("/yes/two"),
            EnvStr::from_str("/yes/three"),
        ],
        VarAction::Overwrite,
    );
    let mut env = EnvMap::new();
    let picked = alts.get_env_pair(
        "TOOL".to_string(),
        &|s: &String| s.starts_with("/yes"),
        &mut env,
    );
    // the first satisfying candidate wins; the later satisfying one is ignored
    assert_eq!(picked, Some(("TOOL".to_string(), "/yes/two".to_string())));
    assert_eq!(env.get(&"TOOL".to_string()), Some(&"/yes/two".to_string()));
}

#[test]
fn resolution_with_every_candidate_denied_leaves_env_alone() {
    let alts = ValueAlternatives::new(
        vec![EnvStr::from_str("/a"), EnvStr::from_str("/b")],
        VarAction::Overwrite,
    );
    let mut env = EnvMap::new();
    env.set("KEEP".to_string(), "x".to_string());
    let picked = alts.setup_env(&"TOOL".to_string(), &|_s: &String| false, &mut env);
    assert_eq!(picked, None);
    assert!(!env.contains(&"TOOL".to_string()));
    assert_eq!(env.get(&"KEEP".to_string()), Some(&"x".to_string()));
}

#[test]
fn candidates_are_expanded_before_the_predicate_sees_them() {
    let mut env = EnvMap::new();
    env.set("SDK".to_string(), "/opt/sdk".to_string());
    let alts = ValueAlternatives::one_str("$SDK/bin/gcc", VarAction::Overwrite);
    let picked = alts.into_env(
        &"CC".to_string(),
        &|s: &String| s == "/opt/sdk/bin/gcc",
        &mut env,
    );
    assert_eq!(picked, Some("/opt/sdk/bin/gcc".to_string()));
}

#[test]
fn profile_entries_resolve_in_order_and_observe_earlier_writes() {
    // an entry may reference a variable the previous entry just set
    let pairs = vec![
        EnvPair {
            key: "CC".to_string(),
            value: ValueAlternatives::one_str("/bin/gcc", VarAction::Overwrite),
        },
        EnvPair {
            key: "FLAGS".to_string(),
            value: ValueAlternatives::one_str("$CC", VarAction::Overwrite),
        },
    ];
    let profile = BuildConfiguration::new(pairs, vec![], vec![], None, vec![]);
    let mut env = EnvMap::new();
    let out = profile.to_env(&|_s: &String| true, &mut env);
    assert_eq!(
        out,
        vec![
            ("CC".to_string(), "/bin/gcc".to_string()),
            ("FLAGS".to_string(), "/bin/gcc".to_string()),
        ]
    );
}

#[test]
fn unresolved_entry_is_skipped_and_its_variable_left_untouched() {
    // one entry resolves, the other finds no satisfying candidate
    let pairs = vec![
        EnvPair {
            key: "CC".to_string(),
            value: ValueAlternatives::one_str("/bin/gcc", VarAction::Overwrite),
        },
        EnvPair {
            key: "PATH".to_string(),
            value: ValueAlternatives::one_str("/bin/gcc-dir", VarAction::Append),
        },
    ];
    let profile = BuildConfiguration::new(pairs, vec![], vec![], None, vec![]);
    let mut env = EnvMap::new();
    env.set("PATH".to_string(), "/usr/bin".to_string());
    let out = profile.to_env(&|s: &String| s == "/bin/gcc", &mut env);
    assert_eq!(out, vec![("CC".to_string(), "/bin/gcc".to_string())]);
    assert_eq!(env.get(&"CC".to_string()), Some(&"/bin/gcc".to_string()));
    // the pre-existing PATH value is left untouched
    assert_eq!(env.get(&"PATH".to_string()), Some(&"/usr/bin".to_string()));
}
