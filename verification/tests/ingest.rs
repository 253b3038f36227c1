//! Reports of other tools become facts.
use matrix::construct::{UpsertOutcome, extract_facts, upsert_fact};
use matrix::context::Surroundings;
use matrix::ingest::{
    IngestArgs, Source, default_zone, ingest_source, json_strip_nulls, normalize_adapter,
    normalize_nox, normalize_tox, slug, test_status,
};
use matrix::json::Json;
use matrix::junit::{self, JunitState, XmlAttribute, XmlEvent, XmlTag};
use matrix::sbom;
use matrix::stages::{
    JunitFile, Request, normalize, normalize_k6, normalize_microcks, upload_body,
};
use serde_json::Value;

const JUNIT: &str = r#"<?xml version="1.0" encoding="UTF-8"?>
<testsuites>
  <testsuite name="api-contract" tests="2" failures="1" errors="0" skipped="0" time="1.25">
    <testcase name="lists &amp; pages" classname="api.list" time="0.5"/>
    <testcase name="creates" classname="api.create" time="0.75">
      <failure message="expected 201">trace</failure>
    </testcase>
  </testsuite>
</testsuites>"#;

const CYCLONEDX: &str = r#"{
  "bomFormat": "CycloneDX",
  "specVersion": "1.5",
  "metadata": {"component": {"name": "payments-api", "version": "1.2.3"}},
  "components": [
    {
      "type": "library",
      "name": "serde",
      "version": "1.0.219",
      "purl": "pkg:cargo/serde@1.0.219",
      "hashes": [{"alg": "SHA-256", "content": "abc"}]
    }
  ]
}"#;

const TOX: &str = r#"{"testenvs": {
  "py311": {"status": "passed", "retcode": 0},
  "py312": {"retcode": 1}
}}"#;

const NOX: &str = r#"{"sessions": [
  {"name": "tests", "result": "success"},
  {"session": "lint", "returncode": 2}
]}"#;

const K6: &str = r#"{"metrics": {
  "http_req_duration": {"value": 12, "thresholds": {"p(95)<10": {"ok": false}}},
  "checks": {"rate": 1, "thresholds": {"rate>0.9": {"ok": true}}}
}}"#;

const MICROCKS: &str = r#"{"testResult": {"serviceName": "Payments API", "success": true}}"#;

fn j(text: &str) -> Json {
    Json::parse(text).unwrap()
}

fn show(json: &Json) -> Value {
    serde_json::from_str(&json.to_text()).unwrap()
}

fn shown(facts: Vec<Json>) -> Vec<Value> {
    facts.iter().map(show).collect()
}

fn some(text: &str) -> Option<String> {
    Some(text.to_string())
}

fn fixture_source(adapter: &str) -> Source {
    Source {
        adapter: adapter.to_string(),
        zone: default_zone(adapter).to_string(),
        repo: some("example/payments-api"),
        component: "payments-api".to_string(),
        version: some("1.2.3"),
        sha: some("abc123"),
        reference: some("refs/heads/main"),
    }
}

#[test]
fn junit_suites_keep_their_cases_and_counts() {
    let facts = shown(junit::normalize(JUNIT, &fixture_source("junit")).unwrap());
    assert_eq!(facts[0]["id"], "junit.payments-api.api-contract.1.2.3");
    assert_eq!(facts[0]["members"][0]["component"], "lists & pages");
    assert_eq!(facts[0]["members"][0]["status"], "passed");
    assert_eq!(facts[0]["members"][1]["status"], "failed");
    assert_eq!(facts[0]["metrics"]["failures"], 1);
    assert_eq!(facts[0]["metrics"]["time"], "1.25");
}

#[test]
fn components_are_required_and_provided() {
    let facts = shown(sbom::normalize(CYCLONEDX, &fixture_source("sbom")).unwrap());
    assert_eq!(facts[0]["requires"][0]["capability"], "package:serde");
    assert_eq!(facts[1]["provides"][0]["version"], "1.0.219");
    assert_eq!(facts[1]["provides"][0]["digest"], "sha-256:abc");
}

#[test]
fn attached_files_come_behind_the_report() {
    let facts = normalize(&request("tox", TOX, Ok(vec![file(Some(JUNIT))]))).unwrap();
    let body = show(&upload_body(facts));
    assert_eq!(body["facts"].as_array().unwrap().len(), 3);
    assert_eq!(body["facts"][2]["source"]["adapter"], "junit");
}

#[test]
fn junit_reports_that_are_none_are_refused() {
    let source = fixture_source("junit");
    assert_eq!(
        junit::normalize("<a/>", &source).unwrap_err(),
        "JUnit input did not include any testsuite elements"
    );
    assert!(junit::normalize("<testsuite></wrong>", &source).is_err());
    assert!(junit::normalize("<testsuite name=\"&nope;\"/>", &source).is_err());
}

fn tag(name: &str, attributes: &[(&str, &str)]) -> XmlTag {
    let list = attributes
        .iter()
        .map(|(key, value)| XmlAttribute { key: key.to_string(), value: value.to_string() })
        .collect();
    XmlTag { name: name.to_string(), attributes: Ok(list) }
}

#[test]
fn junit_events_make_suites_and_cases() {
    let events = vec![
        XmlEvent::Empty(tag("testcase", &[("name", "outside")])),
        XmlEvent::Empty(tag("testsuite", &[("name", "empty"), ("tests", "x")])),
        XmlEvent::Start(tag("testsuite", &[("name", "first"), ("name", "last")])),
        XmlEvent::Start(tag("testcase", &[("name", "a")])),
        XmlEvent::Empty(tag("skipped", &[])),
        XmlEvent::End("testcase".to_string()),
        XmlEvent::Other,
        XmlEvent::End("testsuite".to_string()),
        XmlEvent::End("testsuite".to_string()),
    ];
    let mut state = JunitState::new();
    for event in &events {
        state = state.step(event).unwrap();
    }
    assert_eq!(state.suites.len(), 2);
    assert_eq!(state.suites[0].tests, 0);
    assert_eq!(state.suites[1].name, "last");
    assert_eq!(state.suites[1].cases[0].status, "skipped");
    let broken = XmlTag { name: "testcase".to_string(), attributes: Err("bad".to_string()) };
    assert_eq!(JunitState::new().step(&XmlEvent::Start(broken)).unwrap_err(), "bad");
}

#[test]
fn normalizes_spdx_packages() {
    let source = fixture_source("sbom");
    let spdx = r#"{"spdxVersion":"SPDX-2.3","packages":[
        {"SPDXID":"SPDXRef-a","versionInfo":"1","checksums":[{"algorithm":"SHA1","checksumValue":"ff"}]},
        {"versionInfo":"2"}
    ]}"#;
    let facts = shown(sbom::normalize(spdx, &source).unwrap());
    assert_eq!(facts.len(), 2);
    assert_eq!(facts[0]["id"], "sbom.payments-api");
    assert_eq!(facts[0]["members"][1]["component"], "unknown");
    assert_eq!(facts[1]["id"], "package.spdxref-a.1");
    assert_eq!(facts[1]["provides"][0]["digest"], "sha1:ff");
    let refused = |text: &str| sbom::normalize(text, &source).unwrap_err();
    assert_eq!(
        refused(r#"{"spdxVersion":"SPDX-2.3"}"#),
        "SPDX SBOM did not include packages"
    );
    assert_eq!(refused("{}"), "unsupported SBOM JSON; expected CycloneDX or SPDX");
    assert_eq!(refused("<x/>"), "SBOM input was not valid JSON");
}

#[test]
fn normalizes_tox_and_nox_sessions() {
    let tox = shown(normalize_tox(TOX, &fixture_source("tox")).unwrap());
    assert_eq!(tox.len(), 2);
    assert!(tox.iter().any(|fact| fact["status"] == "passed"));
    assert!(tox.iter().any(|fact| fact["status"] == "failed"));

    let nox = shown(normalize_nox(NOX, &fixture_source("nox")).unwrap());
    assert_eq!(nox.len(), 2);
    assert_eq!(nox[0]["subjectType"], "nox-session");
    assert_eq!(nox[1]["status"], "failed");
}

#[test]
fn whole_runs_are_facts_where_nothing_is_listed() {
    let tox = shown(normalize_tox(r#"{"testenvs":{}}"#, &fixture_source("tox")).unwrap());
    assert_eq!(tox[0]["subjectType"], "tox-run");
    assert_eq!(tox[0]["status"], "observed");
    let nox = shown(normalize_nox(r#"{"success":true}"#, &fixture_source("nox")).unwrap());
    assert_eq!(nox[0]["subjectType"], "nox-run");
    assert_eq!(nox[0]["status"], "passed");
    let unnamed = shown(normalize_nox("{\"sessions\":[{}]}", &fixture_source("nox")).unwrap());
    assert_eq!(unnamed[0]["subjectName"], "session-0");
    assert_eq!(
        normalize_tox("", &fixture_source("tox")).unwrap_err(),
        "tox input was not valid JSON"
    );
    assert_eq!(
        normalize_nox("", &fixture_source("nox")).unwrap_err(),
        "nox input was not valid JSON"
    );
}

fn request(adapter: &str, input: &str, junit: Result<Vec<JunitFile>, String>) -> Request {
    Request {
        adapter: adapter.to_string(),
        input: input.to_string(),
        source: fixture_source(adapter),
        junit,
    }
}

fn file(text: Option<&str>) -> JunitFile {
    JunitFile {
        path: "fixtures/ingest/junit.xml".to_string(),
        text: text.map(|text| text.to_string()),
    }
}

#[test]
fn attached_files_are_refused_in_order() {
    let refused = |request: &Request| normalize(request).unwrap_err();
    assert_eq!(
        refused(&request("sbom", CYCLONEDX, Ok(vec![file(Some(JUNIT))]))),
        "--junit-file and --junit-glob are only supported with tox or nox ingest"
    );
    assert_eq!(
        refused(&request("nox", NOX, Ok(vec![file(None)]))),
        "failed to read JUnit file fixtures/ingest/junit.xml"
    );
    assert_eq!(
        refused(&request("nox", NOX, Ok(vec![file(Some("<a/>"))]))),
        "failed to normalize JUnit file fixtures/ingest/junit.xml"
    );
    assert_eq!(refused(&request("nox", NOX, Err("bad glob".to_string()))), "bad glob");
    assert_eq!(normalize(&request("k6", K6, Ok(Vec::new()))).unwrap().len(), 1);
}

#[test]
fn normalizes_test_stage_adapters() {
    let k6 = shown(normalize_k6(K6, &fixture_source("k6")).unwrap());
    assert_eq!(k6.len(), 1);
    assert_eq!(k6[0]["subjectType"], "load-test");
    assert_eq!(k6[0]["status"], "failed");
    assert_eq!(k6[0]["members"].as_array().unwrap().len(), 2);

    let microcks = shown(normalize_microcks(MICROCKS, &fixture_source("microcks")).unwrap());
    assert_eq!(microcks.len(), 1);
    assert_eq!(microcks[0]["subjectType"], "api-contract-test");
    assert_eq!(microcks[0]["status"], "passed");
}

#[test]
fn stages_say_how_they_went() {
    let quiet = shown(normalize_k6("{}", &fixture_source("k6")).unwrap());
    assert_eq!(quiet[0]["status"], "passed");
    assert!(quiet[0].get("members").is_none());
    let failed = shown(
        normalize_microcks(r#"{"name":"A b","status":"FAILED"}"#, &fixture_source("microcks"))
            .unwrap(),
    );
    assert_eq!(failed[0]["status"], "failed");
    assert_eq!(failed[0]["id"], "microcks.a-b");
    assert_eq!(
        normalize_k6("", &fixture_source("k6")).unwrap_err(),
        "k6 input was not valid JSON"
    );
    assert_eq!(
        normalize_microcks("", &fixture_source("microcks")).unwrap_err(),
        "Microcks input was not valid JSON"
    );
}

#[test]
fn adapters_are_named() {
    assert_eq!(normalize_adapter(" JUnit ").unwrap(), "junit");
    assert_eq!(
        normalize_adapter("pytest").unwrap_err(),
        "unsupported ingest adapter \"pytest\"; supported adapters: junit, sbom, tox, nox, k6, microcks"
    );
    assert_eq!(default_zone("other"), "evidence");
    assert_eq!(slug(" Payments API/v2 "), "payments-api-v2");
    assert_eq!(slug("//"), "unknown");
}

#[test]
fn statuses_are_words_or_codes() {
    assert_eq!(test_status(&j(r#"{"outcome":" OK "}"#)), "passed");
    assert_eq!(test_status(&j(r#"{"status":"Errored"}"#)), "failed");
    assert_eq!(test_status(&j(r#"{"status":"odd","success":false}"#)), "failed");
    assert_eq!(test_status(&j(r#"{"exit_code":0}"#)), "passed");
    assert_eq!(test_status(&j(r#"{"retcode":"0","exit_code":1}"#)), "observed");
    assert_eq!(
        json_strip_nulls(&j(r#"{"a":null,"b":[null,{"c":null}]}"#)).to_text(),
        r#"{"b":[null,{}]}"#
    );
}

#[test]
fn sources_come_from_the_command_line_or_git() {
    let around = Surroundings {
        zone: None,
        remote: some("https://github.com/example/payments-api.git"),
        tag: None,
        sha: some("abc\n"),
        branch: some("main\n"),
    };
    let args = IngestArgs {
        zone: None,
        repo: None,
        component: None,
        version: some("1.2.3"),
        sha: None,
        reference: None,
    };
    let source = ingest_source("junit".to_string(), &args, &around);
    assert_eq!(source.zone, "test");
    assert_eq!(source.repo.as_deref(), Some("example/payments-api"));
    assert_eq!(source.component, "payments-api");
    assert_eq!(source.sha.as_deref(), Some("abc"));
    assert_eq!(source.reference.as_deref(), Some("main"));
}

#[test]
fn every_adapter_gives_complete_facts_that_are_accepted() {
    let reports = [
        ("junit", JUNIT),
        ("sbom", CYCLONEDX),
        ("tox", TOX),
        ("nox", NOX),
        ("k6", K6),
        ("microcks", MICROCKS),
    ];
    for (adapter, input) in reports {
        let facts = normalize(&request(adapter, input, Ok(Vec::new()))).unwrap();
        assert!(!facts.is_empty());
        let count = facts.len();
        let uploaded = extract_facts(&upload_body(facts)).unwrap();
        assert_eq!(uploaded.len(), count);
        for fact in &uploaded {
            let shown = show(fact);
            assert_eq!(shown["kind"], "evidence");
            assert_eq!(shown["zone"], fixture_source(adapter).zone.as_str());
            assert!(["passed", "failed", "observed"].contains(&shown["status"].as_str().unwrap()));
            assert!(shown["id"].is_string());
            assert!(shown["subject"]["type"].is_string());
            assert!(shown["subject"]["name"].is_string());
            let outcome = upsert_fact(fact, "2026-06-19T16:00:00Z", &None, 0);
            assert!(matches!(outcome, Ok(UpsertOutcome::Accepted { .. })));
        }
    }
}
