//! The small client of one oracle.
use matrix::cache::FetchState;
use matrix::calls::{CandidateArgs, TraceArgs};
use matrix::context::Surroundings;
use matrix::json::Json;
use matrix::oracle::{
    ORACLE_INSERT_SQL, ORACLE_TABLE_SQL, OracleClient, OracleConfig, OracleLine, OracleSetting,
    accept_facts, candidate_path, check_query, config_command, doctor, gate_path, ingest_payload,
    oracle_row, print_value, read_line, read_oracle_reply, trace_path, zone_path,
};
use rusqlite::{Connection, params_from_iter};

fn j(text: &str) -> Json {
    Json::parse(text).unwrap()
}

fn some(text: &str) -> Option<String> {
    Some(text.to_string())
}

fn client(oracle: Option<String>, file: Option<String>) -> OracleClient {
    OracleClient::load(
        oracle,
        None,
        None,
        some("/env/"),
        "/tmp/c.json".to_string(),
        OracleConfig { oracle: file, api_prefix: some("/file"), token: some("hidden") },
        false,
    )
}

#[test]
fn the_command_line_comes_before_the_environment_and_the_file() {
    let given = client(some("https://o//"), some("https://file"));
    assert_eq!(given.request_url("/facts").unwrap(), "https://o/env/facts");
    assert_eq!(given.token(&some("env")).as_deref(), Some("env"));
    assert_eq!(given.token(&None).as_deref(), Some("hidden"));
    let kept = client(None, some("https://file/"));
    assert_eq!(kept.oracle.as_deref(), Some("https://file"));
    assert!(client(None, None).request_url("").unwrap_err().starts_with("no oracle configured"));
}

#[test]
fn the_token_of_the_oracle_is_not_shown() {
    let mut here = client(some("https://o"), None);
    let listed = config_command(&mut here, OracleSetting::List).unwrap().to_text();
    assert!(listed.contains("\"hasToken\":true"));
    assert!(!listed.contains("hidden"));
    let token = config_command(&mut here, OracleSetting::Get { key: "token".to_string() });
    assert_eq!(token.unwrap().to_text(), r#"{"hasToken":true}"#);
    let put = OracleSetting::Put { key: "apiPrefix".to_string(), value: "/v2".to_string() };
    assert_eq!(config_command(&mut here, put).unwrap().to_text(), r#"{"saved":"/tmp/c.json"}"#);
    assert_eq!(here.config.api_prefix.as_deref(), Some("/v2"));
    let wrong = OracleSetting::Put { key: "colour".to_string(), value: "red".to_string() };
    assert_eq!(
        config_command(&mut here, wrong).unwrap_err(),
        "unknown config key \"colour\"; expected oracle, api-prefix, or token"
    );
}

#[test]
fn requests_to_the_oracle_are_on_tracks() {
    assert_eq!(zone_path("a b"), "/tracks/a%20b");
    assert_eq!(gate_path("z", "preview"), "/tracks/z/promotion-gates/preview");
    let wanted = CandidateArgs {
        zone: "z".to_string(),
        level: "preview".to_string(),
        repo: some("example/a"),
        sha: None,
        reference: None,
        tag: some("v1"),
        capability: None,
    };
    let alone = Surroundings { zone: None, remote: None, tag: None, sha: None, branch: None };
    assert_eq!(
        candidate_path(&wanted, &alone).unwrap(),
        "/tracks/z/promotion-candidates/preview?repo=example%2Fa&ref=v1"
    );
    let traced = TraceArgs { zone: some("z"), subject: some("s"), id: None, limit: 50 };
    assert_eq!(trace_path(&traced), "/facts?track=z&subjectName=s&limit=50");
    assert_eq!(
        read_oracle_reply(false, "500 Internal Server Error", "", "broken").unwrap_err(),
        "oracle 500 Internal Server Error: \"broken\""
    );
    assert_eq!(
        read_oracle_reply(true, "200 OK", "text/html", "<p>").unwrap_err(),
        "received HTML from the oracle; authenticate or use a machine/API oracle URL"
    );
    assert_eq!(
        ingest_payload("tox", j("[1]")).to_text(),
        r#"{"adapter":"tox","format":"matrix.ingest.v1","payload":[1]}"#
    );
}

#[test]
fn facts_of_the_oracle_are_queried() {
    assert!(check_query(" WITH x as (select 1) select * from x").is_ok());
    assert!(check_query("with x as (select 1) delete from facts").is_err());
    assert_eq!(
        check_query("explain query plan select 1").unwrap_err(),
        "matrix query only allows read-only SELECT/WITH statements"
    );
    let mut state = FetchState::new();
    assert_eq!(state.next_request(5).as_deref(), Some("/facts?limit=5"));
    accept_facts(
        &mut state,
        &j(r#"{"facts":[{"id":"a","zone":"z","track":"t","status":"passed"}],"items":[1]}"#),
    );
    assert_eq!(state.next_request(5), None);
    let db = Connection::open_in_memory().unwrap();
    db.execute_batch(ORACLE_TABLE_SQL).unwrap();
    for fact in &state.facts {
        let row = oracle_row(fact);
        db.execute(
            ORACLE_INSERT_SQL,
            params_from_iter([
                row.id,
                row.zone,
                row.kind,
                row.status,
                row.source_repository,
                row.source_sha,
                row.subject_type,
                row.subject_name,
                row.channel,
                row.observed_at,
                Some(row.json),
            ]),
        )
        .unwrap();
    }
    let zone: String = db.query_row("select zone from facts", [], |row| row.get(0)).unwrap();
    assert_eq!(zone, "t");
}

#[test]
fn lines_of_the_plain_shell_are_words_or_queries() {
    assert!(matches!(read_line("  "), OracleLine::Nothing));
    assert!(matches!(read_line("exit\n"), OracleLine::Quit));
    assert!(matches!(read_line("clear"), OracleLine::Clear));
    assert!(matches!(read_line("help"), OracleLine::Help));
    match read_line(" select 1 ") {
        OracleLine::Query(sql) => assert_eq!(sql, "select 1"),
        other => panic!("expected a query, got {other:?}"),
    }
    assert_eq!(print_value(&j("\"a\""), false), "a\n");
    assert_eq!(print_value(&j("\"a\""), true), "\"a\"\n");
    assert_eq!(print_value(&j("[]"), false), "[]\n");
    assert!(doctor(&client(None, None), true).to_text().contains("\"reachable\":false"));
}
