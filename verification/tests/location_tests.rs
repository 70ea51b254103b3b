use oli::config::{Config, Profile};
use oli::location::{Kind, LocationError, OperatorError};

fn store() -> Config {
    Config::load(vec![
        Profile {
            name: "p".to_string(),
            options: vec![
                ("type".to_string(), "fs".to_string()),
                ("root".to_string(), "/data".to_string()),
            ],
        },
        Profile {
            name: "mem".to_string(),
            options: vec![("type".to_string(), "memory".to_string())],
        },
        Profile {
            name: "bare".to_string(),
            options: vec![("root".to_string(), "/x".to_string())],
        },
        Profile {
            name: "odd".to_string(),
            options: vec![("type".to_string(), "tape".to_string())],
        },
    ])
    .unwrap()
}

#[test]
fn parse_location_resolves_profile_and_path() {
    let cfg = store();
    let (op, path) = cfg.parse_location("p:path/to/obj").unwrap();
    assert_eq!(op.profile, "p");
    assert_eq!(op.kind, Kind::Fs);
    assert_eq!(
        op.options,
        vec![
            ("type".to_string(), "fs".to_string()),
            ("root".to_string(), "/data".to_string())
        ]
    );
    assert_eq!(path, "path/to/obj");
}

#[test]
fn parse_location_selector_is_shortest_prefix() {
    let cfg = store();
    let (op, path) = cfg.parse_location("mem:a:b:c").unwrap();
    assert_eq!(op.profile, "mem");
    assert_eq!(op.kind, Kind::Memory);
    assert_eq!(path, "a:b:c");
}

#[test]
fn parse_location_empty_path_is_allowed() {
    let cfg = store();
    let (op, path) = cfg.parse_location("mem:").unwrap();
    assert_eq!(op.profile, "mem");
    assert_eq!(path, "");
}

#[test]
fn parse_location_without_delimiter_is_syntax_error() {
    let cfg = store();
    assert!(matches!(
        cfg.parse_location("no-delimiter-here"),
        Err(LocationError::Syntax)
    ));
}

#[test]
fn parse_location_unknown_profile_names_it() {
    let cfg = store();
    assert!(matches!(
        cfg.parse_location("ghost:path"),
        Err(LocationError::ProfileNotFound(n)) if n == "ghost"
    ));
}

#[test]
fn parse_location_profile_without_kind() {
    let cfg = store();
    assert!(matches!(
        cfg.parse_location("bare:path"),
        Err(LocationError::OperatorConstruction(OperatorError::MissingKind))
    ));
}

#[test]
fn parse_location_unknown_kind_names_it() {
    let cfg = store();
    assert!(matches!(
        cfg.parse_location("odd:path"),
        Err(LocationError::OperatorConstruction(OperatorError::UnknownKind(k))) if k == "tape"
    ));
}
