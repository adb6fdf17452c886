use cargo_condep::emit::{Build, CargoConfigFile, Config};
use cargo_condep::strutil::usize_to_string;

fn empty_config() -> Config {
    Config {
        alias: vec![],
        build: Build::empty_target(vec![]),
        env: vec![],
        target: vec![],
    }
}

#[test]
fn decimal_rendering_is_exact() {
    assert_eq!(usize_to_string(0), "0");
    assert_eq!(usize_to_string(7), "7");
    assert_eq!(usize_to_string(42), "42");
    assert_eq!(usize_to_string(1234567), "1234567");
}

#[test]
fn build_sections_carry_a_positive_job_hint() {
    let with = Build::with_target("t".to_string(), vec!["-L".to_string()]);
    assert!(with.jobs >= 1);
    assert_eq!(with.target, Some("t".to_string()));
    assert_eq!(with.rustflags, vec!["-L".to_string()]);
    let without = Build::empty_target(vec![]);
    assert!(without.jobs >= 1);
    assert_eq!(without.target, None);
}

#[test]
fn target_mono_holds_one_value() {
    let tbl = Config::target_mono("t".to_string(), "linker".to_string(), "/g++".to_string());
    let config = Config {
        alias: vec![],
        build: Build::empty_target(vec![]),
        env: vec![],
        target: tbl,
    };
    assert_eq!(
        config.target_val(&"t".to_string(), &"linker".to_string()),
        Some(&"/g++".to_string())
    );
    assert_eq!(config.target_val(&"t".to_string(), &"runner".to_string()), None);
    assert_eq!(config.target_val(&"other".to_string(), &"linker".to_string()), None);
}

#[test]
fn set_target_val_inserts_and_replaces() {
    let mut config = empty_config();
    let old = config.set_target_val("t".to_string(), "linker".to_string(), "/one".to_string());
    assert_eq!(old, None);
    assert_eq!(
        config.target_val(&"t".to_string(), &"linker".to_string()),
        Some(&"/one".to_string())
    );
    let old = config.set_target_val("t".to_string(), "linker".to_string(), "/two".to_string());
    assert_eq!(old, Some("/one".to_string()));
    assert_eq!(
        config.target_val(&"t".to_string(), &"linker".to_string()),
        Some(&"/two".to_string())
    );
}

#[test]
fn set_target_val_keeps_other_entries() {
    let mut config = empty_config();
    config.set_target_val("a".to_string(), "linker".to_string(), "/a-linker".to_string());
    config.set_target_val("b".to_string(), "runner".to_string(), "/b-runner".to_string());
    config.set_target_val("a".to_string(), "runner".to_string(), "/a-runner".to_string());
    assert_eq!(
        config.target_val(&"a".to_string(), &"linker".to_string()),
        Some(&"/a-linker".to_string())
    );
    assert_eq!(
        config.target_val(&"a".to_string(), &"runner".to_string()),
        Some(&"/a-runner".to_string())
    );
    assert_eq!(
        config.target_val(&"b".to_string(), &"runner".to_string()),
        Some(&"/b-runner".to_string())
    );
}

#[test]
fn env_section_renders_one_quoted_line_per_pair() {
    let pairs = vec![
        ("CC".to_string(), "/bin/gcc".to_string()),
        ("PATH".to_string(), "/a:/b".to_string()),
    ];
    let file = CargoConfigFile::from_env_pairs(&pairs);
    assert_eq!(
        file.into_content(),
        "[env]\n\nCC = \"/bin/gcc\"\nPATH = \"/a:/b\"\n"
    );
}

#[test]
fn target_section_records_the_linker() {
    let file = CargoConfigFile::from_target_options(&"armv7".to_string(), &"/g++".to_string());
    assert_eq!(file.into_content(), "[target.armv7]\n\nlinker = \"/g++\"");
}

#[test]
fn build_section_records_target_and_job_hint() {
    let text = CargoConfigFile::from_build_options(&"armv7".to_string()).into_content();
    let prefix = "[build]\n\ntarget = \"armv7\"\njobs = ";
    assert!(text.starts_with(prefix));
    let jobs: usize = text[prefix.len()..].parse().unwrap();
    assert!(jobs >= 1);
}

#[test]
fn empty_and_concat_compose_file_text() {
    let empty = CargoConfigFile::empty();
    let tail = CargoConfigFile::from_target_options(&"t".to_string(), &"/g".to_string());
    let both = empty.concat(tail);
    assert_eq!(both.into_content(), "[target.t]\n\nlinker = \"/g\"");
}
