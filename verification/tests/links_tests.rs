use cargo_condep::envmap::EnvMap;
use cargo_condep::links::{base_name_exec, link_path_exec, LinkError, LinkSource, LinkSourceType};

#[test]
fn base_name_takes_the_last_component() {
    assert_eq!(base_name_exec(&"/a/b/c".to_string()), "c");
    assert_eq!(base_name_exec(&"plain".to_string()), "plain");
    assert_eq!(base_name_exec(&"/dir/".to_string()), "");
    assert_eq!(base_name_exec(&"".to_string()), "");
}

#[test]
fn link_path_joins_dir_and_base_name() {
    assert_eq!(
        link_path_exec(&"/work".to_string(), &"/opt/sdk/fs".to_string()),
        "/work/fs"
    );
}

#[test]
fn direct_link_plans_with_its_own_value() {
    let env = EnvMap::new();
    let link = LinkSource::new(LinkSourceType::Direct, "/opt/sdk/fs".to_string());
    let planned = link.plan(&"/work".to_string(), &env).unwrap();
    assert_eq!(planned, ("/opt/sdk/fs".to_string(), "/work/fs".to_string()));
}

#[test]
fn env_link_reads_the_named_variable() {
    let mut env = EnvMap::new();
    env.set("DEVICE_ROOT".to_string(), "/opt/device/root".to_string());
    let link = LinkSource::new(LinkSourceType::Env, "DEVICE_ROOT".to_string());
    let planned = link.plan(&"/work".to_string(), &env).unwrap();
    assert_eq!(planned, ("/opt/device/root".to_string(), "/work/root".to_string()));
}

#[test]
fn env_link_with_unset_variable_reports_var_error() {
    let env = EnvMap::new();
    let link = LinkSource::new(LinkSourceType::Env, "DEVICE_ROOT".to_string());
    let planned = link.plan(&"/work".to_string(), &env);
    assert!(matches!(planned, Err(LinkError::VarError)));
}
