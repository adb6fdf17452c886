use cargo_condep::defaults::{
    pb_default_config, pb_default_deploy_config, pb_default_deploy_ssh_user_host,
};
use cargo_condep::envmap::EnvMap;

#[test]
fn default_deploy_directories_match_the_device_layout() {
    let conf = pb_default_deploy_config();
    assert_eq!(conf.execs_path, "/ebrmain/bin");
    assert_eq!(conf.libs_path, "/ebrmain/lib");
    assert_eq!(conf.config_path, "/ebrmain/config");
    assert_eq!(conf.user_path, "/mnt/ext1/system");
}

#[test]
fn default_deploy_identity_is_the_device_address() {
    let ssh = pb_default_deploy_ssh_user_host();
    assert_eq!(ssh.user, "root");
    assert_eq!(ssh.host, "192.168.205.1");
}

#[test]
fn built_in_catalog_knows_the_device_triple() {
    let mut env = EnvMap::new();
    env.set("PB_SDK_DIR".to_string(), "/opt/sdk".to_string());
    let config = pb_default_config()
        .to_config_toml(
            &Some("armv7-unknown-linux-gnueabi".to_string()),
            &|_s: &String| false,
            &mut env,
            &"x86_64-unknown-linux-gnu".to_string(),
            vec![],
        )
        .unwrap();
    assert_eq!(config.build.target, Some("armv7-unknown-linux-gnueabi".to_string()));
    // the linker override is expanded against the environment
    assert_eq!(
        config.target_val(
            &"armv7-unknown-linux-gnueabi".to_string(),
            &"linker".to_string()
        ),
        Some(&"/opt/sdk/usr/bin/arm-obreey-linux-gnueabi-g++".to_string())
    );
}

#[test]
fn built_in_catalog_refuses_unknown_triples() {
    let mut env = EnvMap::new();
    let config = pb_default_config().to_config_toml(
        &Some("riscv64gc-unknown-linux-gnu".to_string()),
        &|_s: &String| false,
        &mut env,
        &"x86_64-unknown-linux-gnu".to_string(),
        vec![],
    );
    assert!(config.is_none());
}

#[test]
fn built_in_default_profile_serves_host_builds() {
    let mut env = EnvMap::new();
    let config = pb_default_config()
        .to_config_toml(
            &None,
            &|_s: &String| false,
            &mut env,
            &"x86_64-unknown-linux-gnu".to_string(),
            vec![],
        )
        .unwrap();
    assert_eq!(config.build.target, None);
    assert_eq!(
        config.target_val(
            &"x86_64-unknown-linux-gnu".to_string(),
            &"runner".to_string()
        ),
        Some(&"cargo condep run".to_string())
    );
}
