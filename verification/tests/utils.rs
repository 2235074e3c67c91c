use lachesis::utils::{
    check_catalog, get_cli_params, validate_definitions, Definition, Options, Service, Versions,
};
use lachesis::version::extract_version;

fn args(list: &[&str]) -> Vec<String> {
    list.iter().map(|s| s.to_string()).collect()
}

fn plain_def(name: &str, protocol: &str, message: Option<&str>, versions: Option<Versions>) -> Definition {
    Definition {
        name: name.to_string(),
        protocol: protocol.to_string(),
        options: Options {
            ports: vec![80],
            timeout: None,
            message: message.map(|m| m.to_string()),
        },
        service: Service { regex: "x".to_string(), log: false },
        versions,
    }
}

#[test]
fn extraction_appends_missing_patch_component() {
    assert_eq!(extract_version("4.6\"rest"), "4.6.0");
    assert_eq!(extract_version("4.6.2\"rest"), "4.6.2");
    assert_eq!(extract_version("4"), "4.0.0");
}

#[test]
fn extraction_stops_at_first_quote() {
    assert_eq!(extract_version("1.2.3\"4.5.6\""), "1.2.3");
    assert_eq!(extract_version("\"1.2.3\""), ".0.0");
}

#[test]
fn cli_parses_all_parameters() {
    let conf = get_cli_params(args(&[
        "lachesis",
        "--file",
        "defs.json",
        "--debug",
        "--threads",
        "8",
        "--max-targets",
        "50",
        "--print-records",
    ]))
    .unwrap();
    assert_eq!(conf.file_path, "defs.json");
    assert!(conf.debug);
    assert!(!conf.help);
    assert_eq!(conf.threads, 8);
    assert_eq!(conf.max_targets, 50);
    assert!(conf.print_records);
}

#[test]
fn cli_defaults_hold_when_not_set() {
    let conf = get_cli_params(args(&["lachesis", "--file", "defs.json"])).unwrap();
    assert_eq!(conf.threads, 4);
    assert_eq!(conf.max_targets, 1000);
    assert!(!conf.debug);
    assert!(!conf.help);
    assert!(!conf.print_records);
}

#[test]
fn cli_file_is_mandatory() {
    assert_eq!(
        get_cli_params(args(&["lachesis"])).unwrap_err(),
        "Parameter --file is mandatory"
    );
    assert!(get_cli_params(args(&["lachesis", "--help"])).is_ok());
    assert!(get_cli_params(args(&["lachesis", "--print-records"])).is_ok());
}

#[test]
fn cli_rejects_missing_or_invalid_values() {
    assert_eq!(
        get_cli_params(args(&["lachesis", "--file"])).unwrap_err(),
        "Invalid value for parameter --file"
    );
    assert_eq!(
        get_cli_params(args(&["lachesis", "--file", "f", "--threads"])).unwrap_err(),
        "Invalid value for parameter --threads"
    );
    assert_eq!(
        get_cli_params(args(&["lachesis", "--file", "f", "--threads", "many"])).unwrap_err(),
        "Invalid value for parameter --threads"
    );
    assert_eq!(
        get_cli_params(args(&["lachesis", "--file", "f", "--threads", "70000"])).unwrap_err(),
        "Invalid value for parameter --threads"
    );
    assert_eq!(
        get_cli_params(args(&["lachesis", "--file", "f", "--max-targets", "-3"])).unwrap_err(),
        "Invalid value for parameter --max-targets"
    );
}

#[test]
fn cli_rejects_more_threads_than_targets() {
    assert_eq!(
        get_cli_params(args(&["lachesis", "--file", "f", "--threads", "10", "--max-targets", "5"]))
            .unwrap_err(),
        "The number of threads can't be greater than the number of max targets"
    );
}

#[test]
fn cli_ignores_unknown_arguments() {
    let conf = get_cli_params(args(&["lachesis", "stray", "--file", "f", "-x"])).unwrap();
    assert_eq!(conf.file_path, "f");
}

#[test]
fn validation_requires_message_for_custom_tcp() {
    let good = vec![
        plain_def("Web", "http", None, None),
        plain_def("Echo", "tcp/custom", Some("ping"), None),
    ];
    assert!(validate_definitions(&good).is_ok());

    let bad = vec![
        plain_def("Web", "http", None, None),
        plain_def("Mute", "tcp/custom", None, None),
    ];
    assert_eq!(
        validate_definitions(&bad).unwrap_err(),
        "Missing mandatory option 'message' for protocol tcp/custom. Service: Mute"
    );
}

#[test]
fn catalog_check_demands_exactly_one_strategy() {
    let with_none = vec![plain_def(
        "Odd",
        "tcp",
        None,
        Some(Versions { semver: None, regex: None }),
    )];
    assert!(!check_catalog(&with_none));

    let strategyless = vec![plain_def("Plain", "tcp", None, None)];
    assert!(check_catalog(&strategyless));

    let table = vec![plain_def(
        "Tbl",
        "tcp",
        None,
        Some(Versions { semver: None, regex: Some(Vec::new()) }),
    )];
    assert!(check_catalog(&table));
}
