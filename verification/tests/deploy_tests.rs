use std::cell::Cell;

use cargo_condep::deploy::{
    select_artifact, CallRemote, Deploy, DeployConfig, DeployError, DeployPaths, Noop,
};

fn conf() -> DeployConfig {
    DeployConfig {
        execs_path: "/ebrmain/bin".to_string(),
        libs_path: "/ebrmain/lib".to_string(),
        config_path: "/ebrmain/config".to_string(),
        user_path: "/mnt/ext1/system".to_string(),
    }
}

fn base_name(p: &str) -> &str {
    p.rsplit('/').next().unwrap()
}

#[test]
fn copies_every_category_in_order_into_its_directory() {
    let src = DeployPaths {
        execs: vec!["/build/app".to_string()],
        libs: vec!["/build/libx.so".to_string()],
        config_files: vec!["/build/app.conf".to_string()],
        user_files: vec!["/build/data".to_string()],
    };
    let log: Cell<u32> = Cell::new(0);
    let out = conf()
        .copy_files(src, &|s: &String, d: &String| {
            log.set(log.get() + 1);
            Ok(format!("{}/{}", d, base_name(s)))
        })
        .unwrap();
    assert_eq!(log.get(), 4);
    assert_eq!(out.execs, vec!["/ebrmain/bin/app".to_string()]);
    assert_eq!(out.libs, vec!["/ebrmain/lib/libx.so".to_string()]);
    assert_eq!(out.config_files, vec!["/ebrmain/config/app.conf".to_string()]);
    assert_eq!(out.user_files, vec!["/mnt/ext1/system/data".to_string()]);
}

#[test]
fn first_copy_failure_aborts_the_remaining_copies() {
    // two executables, no libraries, one configuration file, no user files;
    // the second executable's copy is forced to fail
    let src = DeployPaths {
        execs: vec!["/build/one".to_string(), "/build/two".to_string()],
        libs: vec![],
        config_files: vec!["/build/app.conf".to_string()],
        user_files: vec![],
    };
    let copied: Cell<u32> = Cell::new(0);
    let result = conf().copy_files(src, &|s: &String, d: &String| {
        if s == "/build/two" {
            Err(DeployError::new_copy_err("channel closed".to_string()))
        } else {
            copied.set(copied.get() + 1);
            Ok(format!("{}/{}", d, base_name(s)))
        }
    });
    let err = result.err().expect("the failed copy must surface");
    assert_eq!(err.cause(), "channel closed");
    // exactly one file (the first executable) was copied before the abort
    assert_eq!(copied.get(), 1);
}

#[test]
fn noop_transport_refuses_to_deploy() {
    let mut noop = Noop {};
    let result = noop.deploy(
        DeployPaths::default(),
        DeployConfig::default(),
    );
    assert!(result.is_err());
    assert!(noop.call_remote(b"echo hi").is_err());
}

#[test]
fn artifact_selection_prefers_the_release_build() {
    let target = Some("armv7-unknown-linux-gnueabi".to_string());
    let name = "app".to_string();
    assert_eq!(
        select_artifact(&target, &name, true, true),
        Some("target/armv7-unknown-linux-gnueabi/release/app".to_string())
    );
    assert_eq!(
        select_artifact(&target, &name, false, true),
        Some("target/armv7-unknown-linux-gnueabi/debug/app".to_string())
    );
    assert_eq!(select_artifact(&target, &name, false, false), None);
    assert_eq!(
        select_artifact(&None, &name, true, false),
        Some("target/release/app".to_string())
    );
}
