use cargo_condep::envmap::EnvMap;
use cargo_condep::profile::LogLevel;

#[test]
fn set_then_get_round_trips() {
    let mut env = EnvMap::new();
    assert!(!env.contains(&"A".to_string()));
    env.set("A".to_string(), "1".to_string());
    assert!(env.contains(&"A".to_string()));
    assert_eq!(env.get(&"A".to_string()), Some(&"1".to_string()));
    assert_eq!(env.get(&"B".to_string()), None);
}

#[test]
fn set_overwrites_the_previous_binding() {
    let mut env = EnvMap::new();
    env.set("A".to_string(), "1".to_string());
    env.set("A".to_string(), "2".to_string());
    assert_eq!(env.get(&"A".to_string()), Some(&"2".to_string()));
    assert_eq!(env.entries().len(), 1);
}

#[test]
fn entries_export_every_binding() {
    let mut env = EnvMap::new();
    env.set("A".to_string(), "1".to_string());
    env.set("B".to_string(), "2".to_string());
    let mut exported = env.entries().clone();
    exported.sort();
    assert_eq!(
        exported,
        vec![
            ("A".to_string(), "1".to_string()),
            ("B".to_string(), "2".to_string()),
        ]
    );
}

#[test]
fn log_levels_control_reporting_only() {
    assert!(!LogLevel::Off.print_pretty());
    assert!(!LogLevel::Off.print_verbose());
    assert!(LogLevel::Pretty.print_pretty());
    assert!(!LogLevel::Pretty.print_verbose());
    assert!(LogLevel::Verbose.print_pretty());
    assert!(LogLevel::Verbose.print_verbose());
}

#[test]
fn log_level_parses_its_three_names() {
    assert!(matches!(LogLevel::from_str("off"), LogLevel::Off));
    assert!(matches!(LogLevel::from_str("pretty"), LogLevel::Pretty));
    assert!(matches!(LogLevel::from_str("verbose"), LogLevel::Verbose));
    assert!(matches!(LogLevel::from_str("anything"), LogLevel::Pretty));
}
