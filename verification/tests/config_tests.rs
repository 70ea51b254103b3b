use oli::config::{Config, ConfigError, Profile};

fn profile(name: &str, options: &[(&str, &str)]) -> Profile {
    Profile {
        name: name.to_string(),
        options: options
            .iter()
            .map(|(k, v)| (k.to_string(), v.to_string()))
            .collect(),
    }
}

#[test]
fn load_empty_source() {
    let cfg = Config::load(Vec::new()).unwrap();
    assert!(cfg.profile_names().is_empty());
    assert!(cfg.profile("anything").is_none());
}

#[test]
fn load_keeps_every_profile() {
    let cfg = Config::load(vec![
        profile("beta", &[("type", "fs"), ("root", "/tmp/b")]),
        profile("alpha", &[("type", "memory")]),
        profile("gamma", &[("type", "fs")]),
    ])
    .unwrap();
    let names = cfg.profile_names();
    assert_eq!(names, vec!["beta", "alpha", "gamma"]);
}

#[test]
fn profile_returns_matching_options() {
    let cfg = Config::load(vec![
        profile("a", &[("type", "fs"), ("root", "/data")]),
        profile("b", &[("type", "memory")]),
    ])
    .unwrap();
    let opts = cfg.profile("a").unwrap();
    assert_eq!(
        opts,
        &vec![
            ("type".to_string(), "fs".to_string()),
            ("root".to_string(), "/data".to_string())
        ]
    );
    let opts = cfg.profile("b").unwrap();
    assert_eq!(opts, &vec![("type".to_string(), "memory".to_string())]);
}

#[test]
fn profile_absent_name_is_none() {
    let cfg = Config::load(vec![profile("a", &[("type", "fs")])]).unwrap();
    assert!(cfg.profile("c").is_none());
    assert!(cfg.profile("A").is_none());
}

#[test]
fn load_rejects_duplicate_profile_name() {
    let r = Config::load(vec![
        profile("a", &[("type", "fs")]),
        profile("b", &[("type", "fs")]),
        profile("a", &[("type", "memory")]),
    ]);
    assert!(matches!(r, Err(ConfigError::DuplicateProfile(n)) if n == "a"));
}

#[test]
fn load_rejects_duplicate_option_key() {
    let r = Config::load(vec![profile(
        "a",
        &[("type", "fs"), ("root", "/x"), ("root", "/y")],
    )]);
    assert!(matches!(r, Err(ConfigError::DuplicateOptionKey(n, k)) if n == "a" && k == "root"));
}
