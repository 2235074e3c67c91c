use lachesis::detector::{detect, Detector, DetectorResponse};
use lachesis::utils::{Definition, Options, RangeVersion, RegexVersion, SemverVersions, Service, Versions};

fn options() -> Options {
    Options { ports: vec![80], timeout: None, message: None }
}

fn semver_def(name: &str, pattern: &str, log: bool, ranges: Vec<(&str, &str, &str)>) -> Definition {
    Definition {
        name: name.to_string(),
        protocol: "tcp".to_string(),
        options: options(),
        service: Service { regex: pattern.to_string(), log },
        versions: Some(Versions {
            semver: Some(SemverVersions {
                regex: String::new(),
                ranges: ranges
                    .into_iter()
                    .map(|(from, to, description)| RangeVersion {
                        from: from.to_string(),
                        to: to.to_string(),
                        description: description.to_string(),
                    })
                    .collect(),
            }),
            regex: None,
        }),
    }
}

fn table_def(name: &str, pattern: &str, log: bool, entries: Vec<(&str, &str, &str)>) -> Definition {
    Definition {
        name: name.to_string(),
        protocol: "tcp".to_string(),
        options: options(),
        service: Service { regex: pattern.to_string(), log },
        versions: Some(Versions {
            semver: None,
            regex: Some(
                entries
                    .into_iter()
                    .map(|(regex, version, description)| RegexVersion {
                        regex: regex.to_string(),
                        version: version.to_string(),
                        description: description.to_string(),
                    })
                    .collect(),
            ),
        }),
    }
}

fn bare_def(name: &str, pattern: &str, log: bool) -> Definition {
    Definition {
        name: name.to_string(),
        protocol: "tcp".to_string(),
        options: options(),
        service: Service { regex: pattern.to_string(), log },
        versions: None,
    }
}

fn fields(r: &DetectorResponse) -> (String, String, String, String, u16) {
    (
        r.service.clone(),
        r.version.clone(),
        r.description.clone(),
        r.host.clone(),
        r.port,
    )
}

#[test]
fn semver_end_to_end() {
    let defs = vec![semver_def(
        "ExampleSrv",
        "ExampleSrv/",
        false,
        vec![("1.0.0", "1.9.9", "legacy"), ("2.0.0", "2.9.9", "current")],
    )];
    let out = detect(&defs, "10.0.0.1", 80, "ExampleSrv/1.5\"\r\n");
    assert_eq!(out.len(), 1);
    assert_eq!(
        fields(&out[0]),
        (
            "ExampleSrv".to_string(),
            "1.5.0".to_string(),
            "legacy".to_string(),
            "10.0.0.1".to_string(),
            80
        )
    );
}

#[test]
fn table_entry_absent_yields_nothing() {
    let defs = vec![table_def(
        "Widget",
        "HTTP",
        false,
        vec![("X-Powered-By: Widget v3", "3.0", "stable")],
    )];
    let out = detect(&defs, "h", 8080, "HTTP/1.1 200 OK\r\n");
    assert_eq!(out.len(), 0);
}

#[test]
fn table_entry_present_pins_version() {
    let defs = vec![table_def(
        "Widget",
        "HTTP",
        false,
        vec![("X-Powered-By: Widget v3", "3.0", "stable")],
    )];
    let out = detect(&defs, "h", 8080, "HTTP/1.1 200 OK\r\nX-Powered-By: Widget v3\r\n");
    assert_eq!(out.len(), 1);
    assert_eq!(out[0].service, "Widget");
    assert_eq!(out[0].version, "3.0");
    assert_eq!(out[0].description, "stable");
}

#[test]
fn unmatched_pattern_yields_no_result() {
    let defs = vec![
        semver_def("A", "NoSuchBanner/", true, vec![("1.0.0", "9.0.0", "any")]),
        table_def("B", "AlsoAbsent", true, vec![(".*", "1.0", "wild")]),
        bare_def("C", "Absent too", true),
    ];
    let out = detect(&defs, "h", 1, "completely unrelated body");
    assert_eq!(out.len(), 0);
}

#[test]
fn bare_result_logged_once_besides_version_result() {
    let defs = vec![semver_def(
        "Srv",
        "Srv/",
        true,
        vec![("1.0.0", "2.0.0", "old")],
    )];
    let out = detect(&defs, "h", 22, "Srv/1.2.3\"");
    assert_eq!(out.len(), 2);
    assert_eq!(out[0].service, "Srv");
    assert_eq!(out[0].version, "");
    assert_eq!(out[0].description, "");
    assert_eq!(out[1].version, "1.2.3");
    assert_eq!(out[1].description, "old");
    let bare = out.iter().filter(|r| r.version.is_empty() && r.description.is_empty()).count();
    assert_eq!(bare, 1);
}

#[test]
fn bare_result_logged_without_any_strategy() {
    let defs = vec![bare_def("Plain", "Plain-Banner", true)];
    let out = detect(&defs, "h", 7, "some Plain-Banner here");
    assert_eq!(out.len(), 1);
    assert_eq!(out[0].service, "Plain");
    assert_eq!(out[0].version, "");
    assert_eq!(out[0].description, "");
}

#[test]
fn no_bare_result_without_log() {
    let defs = vec![bare_def("Plain", "Plain-Banner", false)];
    let out = detect(&defs, "h", 7, "some Plain-Banner here");
    assert_eq!(out.len(), 0);
}

#[test]
fn inclusive_bounds_match_exactly() {
    let defs = vec![semver_def(
        "Srv",
        "Srv/",
        false,
        vec![("1.0.0", "2.0.0", "range")],
    )];
    let low = detect(&defs, "h", 1, "Srv/1.0.0\"");
    assert_eq!(low.len(), 1);
    assert_eq!(low[0].version, "1.0.0");
    let high = detect(&defs, "h", 1, "Srv/2.0.0\"");
    assert_eq!(high.len(), 1);
    assert_eq!(high[0].version, "2.0.0");
    let above = detect(&defs, "h", 1, "Srv/2.0.1\"");
    assert_eq!(above.len(), 0);
    let below = detect(&defs, "h", 1, "Srv/0.9.9\"");
    assert_eq!(below.len(), 0);
}

#[test]
fn overlapping_ranges_yield_two_results() {
    let defs = vec![semver_def(
        "Srv",
        "Srv/",
        false,
        vec![("1.0.0", "2.0.0", "first"), ("1.5.0", "3.0.0", "second")],
    )];
    let out = detect(&defs, "h", 1, "Srv/1.6\"");
    assert_eq!(out.len(), 2);
    assert_eq!(out[0].version, "1.6.0");
    assert_eq!(out[0].description, "first");
    assert_eq!(out[1].version, "1.6.0");
    assert_eq!(out[1].description, "second");
}

#[test]
fn invalid_version_skips_definition_but_not_catalog() {
    let defs = vec![
        semver_def("Bad", "Bad/", false, vec![("1.0.0", "9.0.0", "any")]),
        table_def("Good", "Good", false, vec![("Good", "1.0", "fine")]),
    ];
    let out = detect(&defs, "h", 1, "Bad/not-a-version\" and Good");
    assert_eq!(out.len(), 1);
    assert_eq!(out[0].service, "Good");
    assert_eq!(out[0].version, "1.0");
}

#[test]
fn version_without_quote_runs_to_end_of_input() {
    let defs = vec![semver_def("Srv", "Srv/", false, vec![("4.0.0", "4.9.9", "four")])];
    let out = detect(&defs, "h", 1, "Srv/4.6");
    assert_eq!(out.len(), 1);
    assert_eq!(out[0].version, "4.6.0");
    assert_eq!(out[0].description, "four");
}

#[test]
fn empty_catalog_and_empty_body() {
    let none: Vec<Definition> = Vec::new();
    assert_eq!(detect(&none, "h", 1, "anything").len(), 0);
    let defs = vec![semver_def("Srv", "Srv/", true, vec![("1.0.0", "2.0.0", "x")])];
    assert_eq!(detect(&defs, "h", 1, "").len(), 0);
}

#[test]
fn results_keep_catalog_order() {
    let defs = vec![
        table_def("Second", "shared", false, vec![("shared", "2.0", "b")]),
        table_def("First", "shared", false, vec![("shared", "1.0", "a")]),
    ];
    let out = detect(&defs, "h", 1, "shared banner");
    assert_eq!(out.len(), 2);
    assert_eq!(out[0].service, "Second");
    assert_eq!(out[1].service, "First");
}

#[test]
fn each_run_yields_a_fresh_result_list() {
    let defs = vec![semver_def(
        "ExampleSrv",
        "ExampleSrv/",
        false,
        vec![("1.0.0", "1.9.9", "legacy"), ("2.0.0", "2.9.9", "current")],
    )];
    let mut detector = Detector::new(defs);
    assert_eq!(detector.response.len(), 0);
    detector.run("a".to_string(), 80, "ExampleSrv/1.5\"".to_string());
    assert_eq!(detector.response.len(), 1);
    assert_eq!(detector.response[0].description, "legacy");
    assert_eq!(detector.response[0].host, "a");
    detector.run("b".to_string(), 443, "ExampleSrv/2.1\"".to_string());
    assert_eq!(detector.response.len(), 1);
    assert_eq!(detector.response[0].description, "current");
    assert_eq!(detector.response[0].host, "b");
    assert_eq!(detector.response[0].port, 443);
    assert_eq!(detector.host, "b");
    assert_eq!(detector.port, 443);
    assert_eq!(detector.res_body, "ExampleSrv/2.1\"");
    detector.run("c".to_string(), 80, "no match here".to_string());
    assert_eq!(detector.response.len(), 0);
}
