use oli::config::{Config, Profile};
use oli::order::{ordered_entries, sort_strings, str_eq, str_le};
use oli::view::{ConfigCmd, ConfigParams, ConfigSubcommand, ConfigViewCmd, Selection, ViewOutcome, ViewStep};

fn profile(name: &str, options: &[(&str, &str)]) -> Profile {
    Profile {
        name: name.to_string(),
        options: options
            .iter()
            .map(|(k, v)| (k.to_string(), v.to_string()))
            .collect(),
    }
}

fn view_cmd() -> ConfigViewCmd {
    ConfigViewCmd {
        config_params: ConfigParams {
            config: "oli.toml".to_string(),
        },
    }
}

#[test]
fn view_with_zero_profiles_plans_no_prompt() {
    let cfg = Config::load(Vec::new()).unwrap();
    let cmd = ConfigCmd {
        subcommand: ConfigSubcommand::View(view_cmd()),
    };
    assert!(matches!(cmd.run(&cfg), ViewStep::NoProfiles));
}

#[test]
fn view_prompts_with_sorted_names() {
    let cfg = Config::load(vec![
        profile("zeta", &[("type", "fs")]),
        profile("alpha", &[("type", "memory")]),
        profile("mid", &[("type", "fs")]),
    ])
    .unwrap();
    let cmd = ConfigCmd {
        subcommand: ConfigSubcommand::View(view_cmd()),
    };
    match cmd.run(&cfg) {
        ViewStep::Prompt(names) => assert_eq!(names, vec!["alpha", "mid", "zeta"]),
        ViewStep::NoProfiles => panic!("expected a prompt"),
    }
}

#[test]
fn view_cancellation_is_a_quiet_success() {
    let cfg = Config::load(vec![profile("a", &[("type", "fs")])]).unwrap();
    let out = view_cmd().respond(&cfg, Selection::Cancelled);
    assert!(matches!(out, ViewOutcome::Done));
}

#[test]
fn view_selection_shows_entries_sorted_by_key() {
    let cfg = Config::load(vec![profile(
        "a",
        &[("type", "fs"), ("root", "/data"), ("acl", "private")],
    )])
    .unwrap();
    let out = view_cmd().respond(&cfg, Selection::Chosen("a".to_string()));
    match out {
        ViewOutcome::Show(name, entries) => {
            assert_eq!(name, "a");
            assert_eq!(
                entries,
                vec![
                    ("acl".to_string(), "private".to_string()),
                    ("root".to_string(), "/data".to_string()),
                    ("type".to_string(), "fs".to_string()),
                ]
            );
        }
        _ => panic!("expected the profile to be shown"),
    }
}

#[test]
fn view_vanished_selection_is_reported_missing() {
    let cfg = Config::load(vec![profile("a", &[("type", "fs")])]).unwrap();
    let out = view_cmd().respond(&cfg, Selection::Chosen("gone".to_string()));
    assert!(matches!(out, ViewOutcome::Missing(n) if n == "gone"));
}

#[test]
fn sort_strings_orders_lexicographically() {
    let names = vec![
        "b".to_string(),
        "a".to_string(),
        "ab".to_string(),
        "".to_string(),
        "a".to_string(),
    ];
    let sorted_names = sort_strings(&names);
    assert_eq!(sorted_names, vec!["", "a", "a", "ab", "b"]);
}

#[test]
fn ordered_entries_sorts_by_key() {
    let options = vec![
        ("c".to_string(), "3".to_string()),
        ("a".to_string(), "1".to_string()),
        ("b".to_string(), "2".to_string()),
    ];
    let entries = ordered_entries(&options);
    assert_eq!(
        entries,
        vec![
            ("a".to_string(), "1".to_string()),
            ("b".to_string(), "2".to_string()),
            ("c".to_string(), "3".to_string()),
        ]
    );
}

#[test]
fn string_order_and_equality_helpers() {
    assert!(str_le("", "a"));
    assert!(str_le("a", "ab"));
    assert!(!str_le("b", "ab"));
    assert!(str_le("abc", "abc"));
    assert!(str_eq("abc", "abc"));
    assert!(!str_eq("abc", "abd"));
    assert!(!str_eq("ab", "abc"));
}
