use vstd::prelude::*;
use crate::action::VarAction;
use crate::candidates::{EnvPair, ValueAlternatives};
use crate::catalog::BuildMultitargetConfig;
use crate::deploy::{DeployConfig, SSHUserAndHost};
use crate::envstr::EnvStr;
use crate::links::{LinkSource, LinkSourceType};
use crate::profile::BuildConfiguration;

verus! {

fn pair(key: &str, value: &str, action: VarAction) -> (r: EnvPair)
    ensures
        r.key@ == key@,
        r.value.alts().len() == 1,
        r.value.alts()[0].text() == value@,
        r.value.spec_action() == action,
{
    EnvPair { key: key.to_owned(), value: ValueAlternatives::one_str(value, action) }
}

/// The built-in profile for the reader device's cross-compilation target,
/// keyed by its triple, plus the default profile used when no target is
/// requested.
pub fn pb_default_config() -> (r: BuildMultitargetConfig)
    ensures
        r.spec_targets().len() == 1,
        r.spec_targets()[0].0@ == "armv7-unknown-linux-gnueabi"@,
        ({
            let p = r.spec_targets()[0].1;
            &&& p.env_pairs().len() == 7
            &&& p.env_pairs()[0].key@ == "CC"@
            &&& p.env_pairs()[0].value.alts().len() == 1
            &&& p.env_pairs()[0].value.alts()[0].text()
                == "$PB_SDK_DIR/usr/bin/arm-obreey-linux-gnueabi-gcc"@
            &&& p.env_pairs()[0].value.spec_action() matches VarAction::Overwrite
            &&& p.env_pairs()[1].key@ == "CXX"@
            &&& p.env_pairs()[1].value.alts().len() == 1
            &&& p.env_pairs()[1].value.alts()[0].text()
                == "$PB_SDK_DIR/usr/bin/arm-obreey-linux-gnueabi-g++"@
            &&& p.env_pairs()[2].key@ == "QMAKE"@
            &&& p.env_pairs()[2].value.alts().len() == 1
            &&& p.env_pairs()[2].value.alts()[0].text()
                == "$TOOLCHAIN_PATH/$TOOLCHAIN_PREFIX/sysroot/ebrmain/bin/qmake"@
            &&& p.env_pairs()[3].key@ == "QT_INCLUDE_PATH"@
            &&& p.env_pairs()[3].value.alts().len() == 1
            &&& p.env_pairs()[3].value.alts()[0].text()
                == "$TOOLCHAIN_PATH/$TOOLCHAIN_PREFIX/sysroot/ebrmain/include"@
            &&& p.env_pairs()[4].key@ == "QT_LIBRARY_PATH"@
            &&& p.env_pairs()[4].value.alts().len() == 1
            &&& p.env_pairs()[4].value.alts()[0].text()
                == "$TOOLCHAIN_PATH/$TOOLCHAIN_PREFIX/sysroot/ebrmain/lib"@
            &&& p.env_pairs()[5].key@ == "LD_LIBRARY_PATH"@
            &&& p.env_pairs()[5].value.alts().len() == 1
            &&& p.env_pairs()[5].value.alts()[0].text() == "$QT_LIBRARY_PATH"@
            &&& p.env_pairs()[5].value.spec_action() matches VarAction::Append
            &&& p.env_pairs()[6].key@ == "PATH"@
            &&& p.env_pairs()[6].value.alts().len() == 1
            &&& p.env_pairs()[6].value.alts()[0].text() == "$PB_SDK_DIR/usr/bin"@
            &&& p.env_pairs()[6].value.spec_action() matches VarAction::Append
            &&& p.spec_sources().len() == 1
            &&& p.spec_sources()[0].text() == "$PB_SDK_DIR/../env_set.sh"@
            &&& p.spec_links().len() == 1
            &&& p.spec_links()[0].spec_source_type() matches LinkSourceType::Env
            &&& p.spec_links()[0].spec_value() == "PB_SYSTEM_PATH"@
            &&& p.spec_linker() matches Some(l) && l.text()
                == "$PB_SDK_DIR/usr/bin/arm-obreey-linux-gnueabi-g++"@
            &&& p.spec_link_paths().len() == 1
            &&& p.spec_link_paths()[0].text()
                == "$TOOLCHAIN_PATH/$TOOLCHAIN_PREFIX/sysroot/usr/local/lib"@
        }),
        ({
            let d = r.spec_default();
            &&& d.env_pairs().len() == 5
            &&& d.env_pairs()[0].key@ == "QMAKE"@
            &&& d.env_pairs()[0].value.alts().len() == 1
            &&& d.env_pairs()[0].value.alts()[0].text() == "$PB_SDK_DIR/local/qt5/bin/qmake"@
            &&& d.env_pairs()[1].key@ == "QT_INCLUDE_PATH"@
            &&& d.env_pairs()[1].value.alts().len() == 1
            &&& d.env_pairs()[1].value.alts()[0].text() == "$PB_SDK_DIR/local/qt5/include"@
            &&& d.env_pairs()[2].key@ == "QT_LIBRARY_PATH"@
            &&& d.env_pairs()[2].value.alts().len() == 1
            &&& d.env_pairs()[2].value.alts()[0].text() == "$PB_SDK_DIR/local/qt5/lib"@
            &&& d.env_pairs()[3].key@ == "LD_LIBRARY_PATH"@
            &&& d.env_pairs()[3].value.alts().len() == 1
            &&& d.env_pairs()[3].value.alts()[0].text() == "$PB_SDK_DIR/usr/local/lib"@
            &&& d.env_pairs()[3].value.spec_action() matches VarAction::Append
            &&& d.env_pairs()[4].key@ == "LD_LIBRARY_PATH"@
            &&& d.env_pairs()[4].value.alts().len() == 1
            &&& d.env_pairs()[4].value.alts()[0].text() == "$QT_LIBRARY_PATH"@
            &&& d.env_pairs()[4].value.spec_action() matches VarAction::Append
            &&& d.spec_sources().len() == 0
            &&& d.spec_links().len() == 1
            &&& d.spec_links()[0].spec_source_type() matches LinkSourceType::Env
            &&& d.spec_links()[0].spec_value() == "PB_SYSTEM_PATH"@
            &&& d.spec_linker() is None
            &&& d.spec_link_paths().len() == 1
            &&& d.spec_link_paths()[0].text() == "$PB_SDK_DIR/usr/local/lib"@
        }),
{
    let mut env: Vec<EnvPair> = Vec::new();
    env.push(pair("CC", "$PB_SDK_DIR/usr/bin/arm-obreey-linux-gnueabi-gcc", VarAction::Overwrite));
    env.push(pair("CXX", "$PB_SDK_DIR/usr/bin/arm-obreey-linux-gnueabi-g++", VarAction::Overwrite));
    env.push(
        pair(
            "QMAKE",
            "$TOOLCHAIN_PATH/$TOOLCHAIN_PREFIX/sysroot/ebrmain/bin/qmake",
            VarAction::Overwrite,
        ),
    );
    env.push(
        pair(
            "QT_INCLUDE_PATH",
            "$TOOLCHAIN_PATH/$TOOLCHAIN_PREFIX/sysroot/ebrmain/include",
            VarAction::Overwrite,
        ),
    );
    env.push(
        pair(
            "QT_LIBRARY_PATH",
            "$TOOLCHAIN_PATH/$TOOLCHAIN_PREFIX/sysroot/ebrmain/lib",
            VarAction::Overwrite,
        ),
    );
    env.push(pair("LD_LIBRARY_PATH", "$QT_LIBRARY_PATH", VarAction::Append));
    env.push(pair("PATH", "$PB_SDK_DIR/usr/bin", VarAction::Append));

    let mut sources: Vec<EnvStr> = Vec::new();
    sources.push(EnvStr::from_str("$PB_SDK_DIR/../env_set.sh"));
    let mut links: Vec<LinkSource> = Vec::new();
    links.push(LinkSource::new(LinkSourceType::Env, String::from_str("PB_SYSTEM_PATH")));
    let mut link_paths: Vec<EnvStr> = Vec::new();
    link_paths.push(EnvStr::from_str("$TOOLCHAIN_PATH/$TOOLCHAIN_PREFIX/sysroot/usr/local/lib"));
    let arm = BuildConfiguration::new(
        env,
        sources,
        links,
        Some(EnvStr::from_str("$PB_SDK_DIR/usr/bin/arm-obreey-linux-gnueabi-g++")),
        link_paths,
    );

    let mut denv: Vec<EnvPair> = Vec::new();
    denv.push(pair("QMAKE", "$PB_SDK_DIR/local/qt5/bin/qmake", VarAction::Overwrite));
    denv.push(pair("QT_INCLUDE_PATH", "$PB_SDK_DIR/local/qt5/include", VarAction::Overwrite));
    denv.push(pair("QT_LIBRARY_PATH", "$PB_SDK_DIR/local/qt5/lib", VarAction::Overwrite));
    denv.push(pair("LD_LIBRARY_PATH", "$PB_SDK_DIR/usr/local/lib", VarAction::Append));
    denv.push(pair("LD_LIBRARY_PATH", "$QT_LIBRARY_PATH", VarAction::Append));
    let mut dlinks: Vec<LinkSource> = Vec::new();
    dlinks.push(LinkSource::new(LinkSourceType::Env, String::from_str("PB_SYSTEM_PATH")));
    let mut dlink_paths: Vec<EnvStr> = Vec::new();
    dlink_paths.push(EnvStr::from_str("$PB_SDK_DIR/usr/local/lib"));
    let default = BuildConfiguration::new(denv, Vec::new(), dlinks, None, dlink_paths);

    let mut targets: Vec<(String, BuildConfiguration)> = Vec::new();
    targets.push((String::from_str("armv7-unknown-linux-gnueabi"), arm));
    BuildMultitargetConfig::new(targets, default)
}

/// The built-in deployment identity: the device's fixed address and user.
pub fn pb_default_deploy_ssh_user_host() -> (r: SSHUserAndHost)
    ensures
        r.user@ == "root"@,
        r.host@ == "192.168.205.1"@,
{
    SSHUserAndHost { user: String::from_str("root"), host: String::from_str("192.168.205.1") }
}

/// The built-in category destinations on the device.
pub fn pb_default_deploy_config() -> (r: DeployConfig)
    ensures
        r.execs_path@ == "/ebrmain/bin"@,
        r.libs_path@ == "/ebrmain/lib"@,
        r.config_path@ == "/ebrmain/config"@,
        r.user_path@ == "/mnt/ext1/system"@,
{
    DeployConfig {
        execs_path: String::from_str("/ebrmain/bin"),
        libs_path: String::from_str("/ebrmain/lib"),
        config_path: String::from_str("/ebrmain/config"),
        user_path: String::from_str("/mnt/ext1/system"),
    }
}

} // verus!
