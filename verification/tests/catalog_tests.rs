use cargo_condep::action::VarAction;
use cargo_condep::candidates::{EnvPair, ValueAlternatives};
use cargo_condep::catalog::BuildMultitargetConfig;
use cargo_condep::envmap::EnvMap;
use cargo_condep::envstr::EnvStr;
use cargo_condep::links::{LinkError, LinkSource, LinkSourceType};
use cargo_condep::profile::BuildConfiguration;

fn profile_with_linker(linker: &str) -> BuildConfiguration {
    BuildConfiguration::new(
        vec![],
        vec![],
        vec![],
        Some(EnvStr::from_str(linker)),
        vec![],
    )
}

fn catalog() -> BuildMultitargetConfig {
    BuildMultitargetConfig::new(
        vec![("armv7-unknown-linux-gnueabi".to_string(), profile_with_linker("/arm/g++"))],
        profile_with_linker("/host/g++"),
    )
}

#[test]
fn selecting_no_target_yields_the_default_profile() {
    let env = EnvMap::new();
    let picked = catalog().get_or_default(&None).unwrap();
    assert_eq!(picked.expanded_linker(&env), Some("/host/g++".to_string()));
}

#[test]
fn selecting_a_known_target_yields_its_profile() {
    let env = EnvMap::new();
    let picked = catalog()
        .get_or_default(&Some("armv7-unknown-linux-gnueabi".to_string()))
        .unwrap();
    assert_eq!(picked.expanded_linker(&env), Some("/arm/g++".to_string()));
}

#[test]
fn selecting_an_unknown_target_yields_nothing_not_the_default() {
    let picked = catalog().get_or_default(&Some("unknown-target".to_string()));
    assert!(picked.is_none());
}

#[test]
fn config_for_explicit_target_records_target_and_linker() {
    let mut env = EnvMap::new();
    let config = catalog()
        .to_config_toml(
            &Some("armv7-unknown-linux-gnueabi".to_string()),
            &|_s: &String| true,
            &mut env,
            &"x86_64-unknown-linux-gnu".to_string(),
            vec![("deploy".to_string(), "condep deploy".to_string())],
        )
        .unwrap();
    assert!(config.build.jobs >= 1);
    assert_eq!(config.build.target, Some("armv7-unknown-linux-gnueabi".to_string()));
    assert_eq!(
        config.target_val(
            &"armv7-unknown-linux-gnueabi".to_string(),
            &"linker".to_string()
        ),
        Some(&"/arm/g++".to_string())
    );
    assert_eq!(
        config.alias,
        vec![("deploy".to_string(), "condep deploy".to_string())]
    );
}

#[test]
fn config_for_host_build_installs_the_runner_indirection() {
    let mut env = EnvMap::new();
    let config = catalog()
        .to_config_toml(
            &None,
            &|_s: &String| true,
            &mut env,
            &"x86_64-unknown-linux-gnu".to_string(),
            vec![],
        )
        .unwrap();
    assert_eq!(config.build.target, None);
    assert_eq!(
        config.target_val(
            &"x86_64-unknown-linux-gnu".to_string(),
            &"runner".to_string()
        ),
        Some(&"cargo condep run".to_string())
    );
}

#[test]
fn config_for_unknown_target_is_refused() {
    let mut env = EnvMap::new();
    let config = catalog().to_config_toml(
        &Some("unknown-target".to_string()),
        &|_s: &String| true,
        &mut env,
        &"x86_64-unknown-linux-gnu".to_string(),
        vec![],
    );
    assert!(config.is_none());
}

#[test]
fn config_collects_resolved_pairs_and_link_flags() {
    let profile = BuildConfiguration::new(
        vec![EnvPair {
            key: "CC".to_string(),
            value: ValueAlternatives::one_str("/bin/gcc", VarAction::Overwrite),
        }],
        vec![],
        vec![],
        None,
        vec![EnvStr::from_str("/opt/sdk/lib")],
    );
    let cat = BuildMultitargetConfig::new(vec![("t".to_string(), profile)], profile_with_linker("/x"));
    let mut env = EnvMap::new();
    let config = cat
        .to_config_toml(
            &Some("t".to_string()),
            &|_s: &String| true,
            &mut env,
            &"host".to_string(),
            vec![],
        )
        .unwrap();
    assert_eq!(config.env, vec![("CC".to_string(), "/bin/gcc".to_string())]);
    assert_eq!(config.build.rustflags, vec!["-L".to_string(), "/opt/sdk/lib".to_string()]);
}

#[test]
fn failed_link_does_not_abort_the_pipeline() {
    // a link whose environment variable is unset is reported, and the
    // rest of the resolution still completes
    let profile = BuildConfiguration::new(
        vec![EnvPair {
            key: "CC".to_string(),
            value: ValueAlternatives::one_str("/bin/gcc", VarAction::Overwrite),
        }],
        vec![],
        vec![LinkSource::new(LinkSourceType::Env, "DEVICE_ROOT".to_string())],
        None,
        vec![],
    );
    let env = EnvMap::new();
    let plans = profile.plan_links(&"/work".to_string(), &env);
    assert_eq!(plans.len(), 1);
    assert!(matches!(plans[0], Err(LinkError::VarError)));

    let cat = BuildMultitargetConfig::new(
        vec![("t".to_string(), profile)],
        profile_with_linker("/x"),
    );
    let mut env2 = EnvMap::new();
    let config = cat.to_config_toml(
        &Some("t".to_string()),
        &|_s: &String| true,
        &mut env2,
        &"host".to_string(),
        vec![],
    );
    assert!(config.is_some());
    assert_eq!(config.unwrap().env, vec![("CC".to_string(), "/bin/gcc".to_string())]);
}
