use cargo_condep::action::VarAction;
use cargo_condep::envmap::EnvMap;

#[test]
fn overwrite_sets_the_variable() {
    let mut env = EnvMap::new();
    env.set("CC".to_string(), "old".to_string());
    let ok = VarAction::Overwrite.do_action(&"CC".to_string(), &"gcc".to_string(), &mut env);
    assert!(ok);
    assert_eq!(env.get(&"CC".to_string()), Some(&"gcc".to_string()));
}

#[test]
fn append_to_unset_variable_behaves_like_overwrite() {
    let mut set_env = EnvMap::new();
    let mut append_env = EnvMap::new();
    let key = "PATH2".to_string();
    let value = "/opt/bin".to_string();
    VarAction::Overwrite.do_action(&key, &value, &mut set_env);
    let appended = VarAction::Append.do_action(&key, &value, &mut append_env);
    assert!(!appended);
    assert_eq!(set_env.get(&key), append_env.get(&key));
    assert_eq!(append_env.get(&key), Some(&"/opt/bin".to_string()));
}

#[test]
fn append_prepends_to_existing_path_list() {
    let mut env = EnvMap::new();
    env.set("P".to_string(), "/a:/b".to_string());
    let ok = VarAction::Append.do_action(&"P".to_string(), &"/c".to_string(), &mut env);
    assert!(ok);
    assert_eq!(env.get(&"P".to_string()), Some(&"/c:/a:/b".to_string()));
}

#[test]
fn append_of_value_holding_separator_falls_back_to_overwrite() {
    let mut env = EnvMap::new();
    env.set("P".to_string(), "/a:/b".to_string());
    let ok = VarAction::Append.do_action(&"P".to_string(), &"/c:/d".to_string(), &mut env);
    assert!(!ok);
    assert_eq!(env.get(&"P".to_string()), Some(&"/c:/d".to_string()));
}

#[test]
fn convert_returns_the_written_pair() {
    let mut env = EnvMap::new();
    env.set("P".to_string(), "/a".to_string());
    let (k, v) = VarAction::Append.convert("P".to_string(), "/c".to_string(), &mut env);
    assert_eq!(k, "P");
    assert_eq!(v, "/c:/a");
    assert_eq!(env.get(&"P".to_string()), Some(&"/c:/a".to_string()));
}

#[test]
fn convert_overwrite_returns_value_unchanged() {
    let mut env = EnvMap::new();
    let (k, v) = VarAction::Overwrite.convert("K".to_string(), "val".to_string(), &mut env);
    assert_eq!((k.as_str(), v.as_str()), ("K", "val"));
    assert_eq!(env.get(&"K".to_string()), Some(&"val".to_string()));
}

#[test]
fn repeated_appends_build_the_list_newest_first() {
    let mut env = EnvMap::new();
    env.set("P".to_string(), "/a".to_string());
    VarAction::Append.do_action(&"P".to_string(), &"/b".to_string(), &mut env);
    VarAction::Append.do_action(&"P".to_string(), &"/c".to_string(), &mut env);
    assert_eq!(env.get(&"P".to_string()), Some(&"/c:/b:/a".to_string()));
}
