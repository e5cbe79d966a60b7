use configurations::config::{
    load_base_document, merge_layer, Config, ConfigErr, LoadError, Opt, BASE_DOCUMENT,
};
use serde_yaml::Value;

fn doc(text: &str) -> Value {
    serde_yaml::from_str(text).unwrap()
}

fn opt(daemon: bool, conf: Vec<&str>) -> Opt {
    Opt {
        daemon,
        log_level: 1,
        test: false,
        notest: false,
        conf: conf.into_iter().map(|s| s.to_string()).collect(),
    }
}

#[test]
fn config_err_keeps_its_message() {
    let e = ConfigErr::new("No path specified");
    assert_eq!(e.message(), "No path specified");
}

#[test]
fn default_config_is_all_zero() {
    let c = Config::default();
    assert_eq!(c, Config { version: 0, daemon: false, nonoverride: 0, override_: 0 });
}

#[test]
fn new_config_has_version_one() {
    assert_eq!(
        Config::new(),
        Some(Config { version: 1, daemon: false, nonoverride: 0, override_: 0 })
    );
}

#[test]
fn new_with_opt_override_follows_the_daemon_flag() {
    assert_eq!(Config::new_with_opt_override(&opt(true, vec![])).unwrap().daemon, true);
    assert_eq!(Config::new_with_opt_override(&opt(false, vec![])).unwrap().daemon, false);
    assert_eq!(Config::new_with_opt_override(&opt(true, vec![])).unwrap().version, 1);
}

#[test]
fn opt_override_never_switches_daemon_off() {
    let mut c = Config { version: 3, daemon: true, nonoverride: 4, override_: -5 };
    c.apply_opt_override(&opt(false, vec![]));
    assert_eq!(c, Config { version: 3, daemon: true, nonoverride: 4, override_: -5 });
    let mut d = Config { version: 3, daemon: false, nonoverride: 4, override_: -5 };
    d.apply_opt_override(&opt(true, vec![]));
    assert_eq!(d, Config { version: 3, daemon: true, nonoverride: 4, override_: -5 });
}

#[test]
fn validate_accepts_as_is() {
    let c = Config { version: 2, daemon: true, nonoverride: 1, override_: 2 };
    assert_eq!(c.validate().unwrap(), Config { version: 2, daemon: true, nonoverride: 1, override_: 2 });
}

#[test]
fn load_without_paths_fails() {
    match load_base_document(&opt(false, vec![])) {
        Err(LoadError::Config(e)) => assert_eq!(e.message(), "No path specified"),
        other => panic!("unexpected {:?}", other),
    }
}

#[test]
fn load_starts_from_version_one() {
    let base = load_base_document(&opt(false, vec!["example.yml"])).unwrap();
    assert_eq!(base, doc("version: 1"));
    assert_eq!(BASE_DOCUMENT, "---\nversion: 1");
}

#[test]
fn load_file_layer_sets_daemon() {
    let conf_str = "\n---\nversion: 1\ndaemon: true\n        ".to_string();
    let mut target = load_base_document(&opt(false, vec!["a.yml"])).unwrap();
    merge_layer(&mut target, &conf_str).unwrap();
    assert_eq!(target["daemon"], Value::Bool(true));
    assert_eq!(target["version"], doc("1"));
}

#[test]
fn layers_override_by_key() {
    let mut target = load_base_document(&opt(false, vec!["a.yml", "b.yml"])).unwrap();
    merge_layer(&mut target, "daemon: true\noverride: 1\nnonoverride: 1").unwrap();
    merge_layer(&mut target, "override: 2").unwrap();
    assert_eq!(target, doc("version: 1\ndaemon: true\noverride: 2\nnonoverride: 1"));
}

#[test]
fn bad_layer_leaves_target() {
    let mut target = doc("version: 1\na: 1");
    match merge_layer(&mut target, "a: [1, 2") {
        Err(LoadError::Yaml(_)) => {}
        other => panic!("unexpected {:?}", other),
    }
    assert_eq!(target, doc("version: 1\na: 1"));
}
