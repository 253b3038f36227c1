//! What is printed of values and query results.
use matrix::cache::human_bytes;
use matrix::config::OutputFormat;
use matrix::human::{
    cache_human_line, fact_get_human_text, fact_history_human_text, human_query_result_text,
    human_value_text,
};
use matrix::json::Json;
use matrix::output::{generic_table_text, print_value};
use matrix::render::{
    count_label, csv_escape, display_cell, error_detail, human_label, looks_like_html,
    normalize_query_result_value, query_rows, truncate_cell,
};
use serde_json::Value;

fn j(text: &str) -> Json {
    Json::parse(text).unwrap()
}

fn v(text: &str) -> Value {
    serde_json::from_str(text).unwrap()
}

fn show(json: &Json) -> Value {
    v(&json.to_text())
}

#[test]
fn cache_human_line_warns_when_local_cache_is_stale() {
    let cache = j(r#"{
        "source": "cache",
        "factCount": 10,
        "ageHuman": "2d",
        "stale": true
    }"#);
    let text = cache_human_line(&cache);
    assert!(text.contains("last refreshed 2d ago"));
    assert!(text.contains("Warning: using stale local Matrix cache"));
}

#[test]
fn query_json_keeps_cache_metadata_when_present() {
    let value = j(r#"{
        "columns": ["id"],
        "rows": [{"id": "fact-1"}],
        "cache": {"source": "cache", "factCount": 1}
    }"#);
    let normalized = show(&normalize_query_result_value(&value));
    assert_eq!(normalized["rows"][0]["id"], "fact-1");
    assert_eq!(normalized["cache"]["source"], "cache");
}

#[test]
fn renders_objects_as_field_value_tables() {
    let text = generic_table_text(&j(r#"{
        "track": "runtime",
        "eligible": false,
        "blockers": [],
        "latest": {
            "closure": {
                "edges": []
            },
            "status": "partial"
        }
    }"#));
    assert!(text.contains("+"));
    assert!(text.contains("| field"));
    assert!(text.contains("| value"));
    assert!(text.contains("| Track"));
    assert!(text.contains("| runtime"));
    assert!(text.contains("| Eligible"));
    assert!(text.contains("| no"));
    assert!(text.contains("| Blockers"));
    assert!(text.contains("| 0 items"));
    assert!(text.contains("| Latest"));
    assert!(text.contains("| 2 fields"));
    assert!(!text.contains("{\"closure\""));
}

#[test]
fn renders_object_arrays_as_tables() {
    let text = generic_table_text(&j(r#"[
        {"zone": "runtime", "facts": 3},
        {"zone": "agent-admin", "facts": 2}
    ]"#));
    assert!(text.contains("| zone"));
    assert!(text.contains("| facts"));
    assert!(text.contains("| runtime"));
    assert!(text.contains("| agent-admin"));
    assert!(text.contains("(2 rows)"));
}

#[test]
fn renders_nested_scalar_fields_compactly() {
    let text = generic_table_text(&j(r#"[
        {
            "component": "identity_contract",
            "services": ["did"],
            "aliases": ["did", "api"],
            "digest": "sha256:735ce2ccadf47e3098ab3c0c6ac682ff0573e214a4decb1ee2f9f93a4d5b9e72"
        },
        {
            "component": "profile_contract",
            "services": "[\"anoncreds\",\"csr\",\"query\",\"vc\"]",
            "aliases": []
        }
    ]"#));
    assert!(text.contains("| identity_contract"));
    assert!(text.contains("| did"));
    assert!(text.contains("| did, api"));
    assert!(text.contains("| anoncreds, csr, query, vc"));
    assert!(!text.contains("[\"anoncreds\""));
    assert!(text.contains("sha256:735ce2ccadf47e3098ab3c0c6ac682ff"));
    assert!(text.contains("..."));
    assert!(!text.contains("9f93a4d5b9e72"));
}

#[test]
fn renders_fact_history_as_audit_records() {
    let value = j(r#"{
        "factId": "release-bundle.api.1.0.0",
        "events": [
            {
                "eventId": "event.current",
                "revision": 2,
                "acceptedAt": "2026-06-19T16:00:00Z",
                "contentHash": "sha256:new",
                "sourceRepository": "example/api",
                "sourceSha": "222",
                "status": "current"
            },
            {
                "eventId": "event.old",
                "revision": 1,
                "acceptedAt": "2026-06-19T15:00:00Z",
                "contentHash": "sha256:old",
                "sourceRepository": "example/api",
                "sourceSha": "111",
                "status": "superseded",
                "supersededBy": "event.current",
                "supersededAt": "2026-06-19T16:00:00Z"
            }
        ]
    }"#);
    let text = fact_history_human_text(&value);
    assert!(text.contains("Fact history: release-bundle.api.1.0.0"));
    assert!(text.contains("- r2 current accepted 2026-06-19T16:00:00Z"));
    assert!(text.contains("- r1 superseded accepted 2026-06-19T15:00:00Z"));
    assert!(text.contains("Superseded by: event.current"));
}

#[test]
fn renders_fact_get_as_selected_fact() {
    let value = j(r#"{
        "factId": "release-bundle.api.1.0.0",
        "event": {
            "eventId": "event.current",
            "revision": 2,
            "acceptedAt": "2026-06-19T16:00:00Z",
            "contentHash": "sha256:new",
            "status": "current"
        },
        "fact": {
            "id": "release-bundle.api.1.0.0",
            "zone": "runtime",
            "status": "passed",
            "sourceRepository": "example/api",
            "sourceSha": "222",
            "subject": {
                "type": "release-bundle",
                "name": "api",
                "version": "1.0.0"
            }
        }
    }"#);
    let text = fact_get_human_text(&value);
    assert!(text.contains("Fact: release-bundle.api.1.0.0"));
    assert!(text.contains("Revision: 2"));
    assert!(text.contains("Revision status: current"));
    assert!(text.contains("  Zone: runtime"));
    assert!(text.contains("  Subject Version: 1.0.0"));
}

#[test]
fn renders_query_human_output_as_records() {
    let text = human_query_result_text(&j(r#"{
        "columns": ["component", "version", "physical_chaincode", "services"],
        "rows": [
            {
                "component": "identity_contract",
                "version": "0.4.9",
                "physical_chaincode": "identity_contract_v0_4_9",
                "services": "[\"did\"]"
            },
            {
                "component": "profile_contract",
                "version": "0.2.7",
                "physical_chaincode": "profile_contract_v0_2_7",
                "services": "[\"anoncreds\",\"csr\"]"
            }
        ]
    }"#));
    assert!(text.starts_with("2 rows\n"));
    assert!(text.contains("- identity_contract 0.4.9\n"));
    assert!(text.contains("  Physical chaincode: identity_contract_v0_4_9\n"));
    assert!(text.contains("  Services: did\n"));
    assert!(text.contains("- profile_contract 0.2.7\n"));
    assert!(text.contains("  Services: anoncreds, csr\n"));
    assert!(!text.contains("+"));
    assert!(!text.contains("[\"anoncreds\""));
}

#[test]
fn renders_csv_cells_as_spreadsheet_text() {
    assert_eq!(display_cell(&j(r#"["did", "api"]"#)), "did, api");
    assert_eq!(display_cell(&j(r#""[\"did\",\"api\"]""#)), "did, api");
    assert_eq!(
        csv_escape(&display_cell(&j(r#"["did", "api"]"#))),
        "\"did, api\""
    );
    assert_eq!(display_cell(&j(r#"{"requires": ["a", "b"]}"#)), "1 field");
}

#[test]
fn renders_query_structured_outputs_as_rows() {
    let value = j(r#"{
        "columns": ["component", "services"],
        "rows": [
            {"component": "identity_contract", "services": "[\"did\"]"},
            {"component": "profile_contract", "services": "[\"anoncreds\",\"csr\"]"}
        ]
    }"#);
    let rows = Json::array(query_rows(&value));
    assert_eq!(
        show(&rows),
        v(r#"[
            {"component": "identity_contract", "services": ["did"]},
            {"component": "profile_contract", "services": ["anoncreds", "csr"]}
        ]"#)
    );

    let yaml = print_value(&value, OutputFormat::Yaml).unwrap();
    assert!(yaml.starts_with("- component: identity_contract"));
    assert!(yaml.contains("services:\n  - did"));
    assert!(yaml.contains("- component: profile_contract"));
    assert!(yaml.contains("  - anoncreds\n  - csr"));
    assert!(!yaml.contains("columns:"));
    assert!(!yaml.contains("rows:"));
    assert!(!yaml.contains("'[\""));

    let json = print_value(&value, OutputFormat::Json).unwrap();
    assert!(json.starts_with("["));
    assert!(json.contains("\"services\": ["));
    assert!(!json.contains("\"columns\""));
    assert!(!json.contains("\"rows\""));
    assert!(!json.contains("\"[\\\""));
}

#[test]
fn values_are_printed_for_people() {
    assert_eq!(human_value_text(&j("null")), "No data.\n");
    assert_eq!(human_value_text(&j("true")), "yes\n");
    assert_eq!(human_value_text(&j("\"a\"")), "a\n");
    assert_eq!(human_value_text(&j("12")), "12\n");
    assert_eq!(count_label(1, "row"), "1 row");
    assert_eq!(count_label(2, "row"), "2 rows");
    assert_eq!(human_label("subject_name"), "Subject name");
    assert_eq!(human_bytes(1023), "1023 B");
}

#[test]
fn csv_is_for_query_results_alone() {
    assert_eq!(
        print_value(&j("{}"), OutputFormat::Csv).unwrap_err(),
        "csv output is only available for tabular query results"
    );
    let result = j(r#"{"columns":["a"],"rows":[{"a":"x,y"}]}"#);
    assert_eq!(print_value(&result, OutputFormat::Csv).unwrap(), "a\n\"x,y\"\n");
}

#[test]
fn long_cells_are_cut() {
    let long = "x".repeat(200);
    let cut = truncate_cell(&long);
    assert!(cut.len() < 200);
    assert!(cut.ends_with("..."));
    assert_eq!(truncate_cell("short"), "short");
}

#[test]
fn errors_of_replies_are_told() {
    assert_eq!(error_detail(&j(r#"{"error":"gone"}"#), "x"), "gone");
    assert_eq!(error_detail(&j(r#"{"message":"gone"}"#), "x"), "gone");
    assert!(looks_like_html("text/html; charset=utf-8", ""));
    assert!(looks_like_html("", " <!DOCTYPE html><html>"));
    assert!(!looks_like_html("application/json", "{}"));
}

#[test]
fn json_texts_read_back() {
    for text in ["null", "[1,-2,18446744073709551615]", r#"{"a":{"b":["\u00e4\n\"",true]},"c":null}"#] {
        let once = j(text);
        let again = j(&once.to_text());
        assert_eq!(once.to_text(), again.to_text());
        assert_eq!(show(&once), v(text));
    }
    assert!(Json::parse("{").is_err());
}

#[test]
fn csv_fields_say_what_they_were_made_of() {
    assert_eq!(csv_escape("plain text"), "plain text");
    assert_eq!(csv_escape("a,b"), "\"a,b\"");
    assert_eq!(csv_escape("say \"hi\""), "\"say \"\"hi\"\"\"");
    assert_eq!(csv_escape("two\nlines"), "\"two\nlines\"");
}

#[test]
fn zero_has_two_signs_and_is_one_version() {
    let value = j(r#"{
        "kind": "graph-versions-for",
        "versions": [0.0, 1.5, 2],
        "versionCandidates": [
            {"version": -0.0, "confidence": "high", "score": 5},
            {"version": 1.5, "confidence": "low", "score": 3},
            {"version": 2.0, "confidence": "low", "score": 3}
        ]
    }"#);
    let text = print_value(&value, OutputFormat::Human).unwrap();
    assert!(text.contains("- 0.0 (high, score 5)\n"));
    assert!(text.contains("- 1.5 (low, score 3)\n"));
    assert!(text.contains("- 2\n"));
}
