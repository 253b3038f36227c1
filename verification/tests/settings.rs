//! Configuration, tokens, the cache and updates.
use matrix::cache::{
    CacheEntry, CacheStep, FactCacheMetadata, FactCacheSource, FactCacheSummary, FactsHead,
    FetchState, cache_clear_value, cache_head_matches, cache_source_for_policy, fact_cache_dir,
    fact_cache_key, human_bytes, human_duration, new_cache_metadata, read_fact_cache_metadata,
    read_facts_head, step_after_head, unix_age_seconds, with_cache_summary,
    write_fact_cache_metadata,
};
use matrix::config::{
    AuthCandidate, CachePolicy, Config, ConfigProfile, Environment, Matrix, OutputFormat,
    RED_WIZ_API_PREFIX, RED_WIZ_CONSTRUCT_URL, RED_WIZ_TOKEN_COMMAND, auth_diagnostic,
    parse_sql_pack_list, read_reply, token_from_command_stdout, token_from_file_text,
};
use matrix::json::Json;
use matrix::request::{
    PageArgs, QueryPair, normalize_repo_url, page_values, push_page_query, push_query,
    query_string, query_suffix,
};
use matrix::settings::{ConfigSubcommand, config_command, config_get, config_set};
use matrix::update::{
    HomebrewState, UpdateCommand, UpdateStep, asset_download_error, asset_name,
    cargo_install_update_command, direct_update_unavailable_message, github_token,
    homebrew_installed_version, homebrew_outdated_version, is_homebrew_install,
    latest_matrix_version, linux_manual_update_command, normalize_version, notice_is_fresh,
    notice_wanted, release_asset_api_url, release_lookup_error, staged_name, update_install_method,
    update_next, update_notice, update_notice_cache_path, update_start, update_temp_name,
    version_is_newer, version_parts,
};
use serde_json::Value;

fn j(text: &str) -> Json {
    Json::parse(text).unwrap()
}

fn show(json: &Json) -> Value {
    serde_json::from_str(&json.to_text()).unwrap()
}

fn no_environment() -> Environment {
    Environment {
        profile: None,
        construct: None,
        api_prefix: None,
        token: None,
        token_file: None,
        token_command: None,
        sql_init: None,
        sql_packs: None,
        cache_policy: None,
        max_facts: None,
    }
}

fn test_matrix(config: Config, profile: Option<ConfigProfile>) -> Matrix {
    Matrix {
        config_path: "/tmp/matrix-test-config.json".to_string(),
        config,
        environment: no_environment(),
        profile,
        construct: Some("https://matrix.example.test".to_string()),
        api_prefix: "/v1/compatibility".to_string(),
        output: OutputFormat::Json,
    }
}

fn some(text: &str) -> Option<String> {
    Some(text.to_string())
}

#[test]
fn extracts_token_command_output_from_raw_and_json() {
    let raw = token_from_command_stdout("test", b"  raw-token\n".to_vec()).unwrap();
    assert_eq!(raw.as_deref(), Some("raw-token"));

    let credential_process = token_from_command_stdout(
        "test",
        br#"{"access_token":"json-token","expires_at":"2026-06-25T12:34:56Z"}"#.to_vec(),
    )
    .unwrap();
    assert_eq!(credential_process.as_deref(), Some("json-token"));
}

#[test]
fn rejects_json_token_command_without_a_real_token() {
    let err = token_from_command_stdout(
        RED_WIZ_TOKEN_COMMAND,
        br#"{"environment":[{"name":"MATRIX_TOKEN","secret":true,"value":"wiz-token"}]}"#.to_vec(),
    )
    .unwrap_err();
    assert!(err.to_string().contains("emitted JSON without a token"));
}

#[test]
fn token_command_output_that_is_no_text_is_refused() {
    assert!(token_from_command_stdout("test", vec![0xff, 0xfe]).is_err());
}

#[test]
fn token_file_is_trimmed_and_may_be_blank() {
    assert_eq!(token_from_file_text(" secret \n").as_deref(), Some("secret"));
    assert_eq!(token_from_file_text("  \n"), None);
}

#[test]
fn auth_diagnostic_reports_source_without_leaking_config_token() {
    let matrix = test_matrix(
        Config { token: some("secret-token"), ..Config::default() },
        None,
    );

    let candidate = matrix.auth_candidate();
    let token = match &candidate {
        Some(candidate) => candidate.token(),
        None => None,
    };
    let diagnostic = auth_diagnostic(&candidate, &Ok(token));
    let shown = show(&diagnostic);
    assert_eq!(shown["configured"], true);
    assert_eq!(shown["available"], true);
    assert_eq!(shown["source"], "config-token");
    assert!(!diagnostic.to_text().contains("secret-token"));
}

#[test]
fn auth_diagnostic_reports_errors_and_absence() {
    let none = show(&auth_diagnostic(&None, &Ok(None)));
    assert_eq!(none["configured"], false);
    assert_eq!(none["source"], Value::Null);
    let failed = show(&auth_diagnostic(
        &Some(AuthCandidate::EnvTokenFile("/tmp/t".to_string())),
        &Err("failed to read token file".to_string()),
    ));
    assert_eq!(failed["available"], false);
    assert_eq!(failed["tokenFile"], "/tmp/t");
    assert_eq!(failed["error"], "failed to read token file");
}

#[test]
fn red_wiz_profile_selects_profile_token_command_candidate() {
    let matrix = test_matrix(Config::default(), Some(ConfigProfile::RedWiz));

    let candidate = matrix.auth_candidate().expect("profile token command");
    assert_eq!(candidate.source(), "profile-token-command");
    assert_eq!(candidate.token_command().as_deref(), Some(RED_WIZ_TOKEN_COMMAND));
}

#[test]
fn config_use_red_wiz_replaces_stored_token_with_profile_command() {
    let mut matrix = test_matrix(
        Config {
            token: some("stale-token"),
            token_file: some("/tmp/stale-matrix-token"),
            token_command: some("old-command"),
            ..Config::default()
        },
        None,
    );

    let output = config_command(
        &mut matrix,
        ConfigSubcommand::Use { profile: ConfigProfile::RedWiz },
    )
    .unwrap();

    let shown = show(&output.value);
    assert_eq!(shown["hasToken"], false);
    assert_eq!(shown["tokenFile"], Value::Null);
    assert_eq!(shown["hasTokenCommand"], true);
    assert!(output.save);
    assert!(matrix.config.token.is_none());
    assert!(matrix.config.token_file.is_none());
    assert_eq!(matrix.config.token_command.as_deref(), Some(RED_WIZ_TOKEN_COMMAND));
    assert_eq!(matrix.config.construct.as_deref(), Some(RED_WIZ_CONSTRUCT_URL));
    assert_eq!(matrix.config.api_prefix.as_deref(), Some(RED_WIZ_API_PREFIX));
}

#[test]
fn settings_are_put_shown_and_refused() {
    let mut config = Config::default();
    assert!(config_set(&mut config, "token", "hidden".to_string()).is_ok());
    assert_eq!(config.token.as_deref(), Some("hidden"));
    let shown = config_get(&config, "token").unwrap().to_text();
    assert!(!shown.contains("hidden"));
    assert!(config_set(&mut config, "cachePolicy", "sometimes".to_string()).is_err());
    assert!(config_get(&config, "colour").is_err());
}

#[test]
fn page_values_accepts_facts_or_items_pages() {
    let facts = page_values(&j(r#"{"facts": [{"id": "fact-1"}]}"#), "facts");
    assert_eq!(show(&facts[0])["id"], "fact-1");
    let items = page_values(&j(r#"{"items": [{"id": "item-1"}]}"#), "facts");
    assert_eq!(show(&items[0])["id"], "item-1");
}

fn metadata() -> FactCacheMetadata {
    FactCacheMetadata {
        construct: some("https://matrix.example.test"),
        api_prefix: "/v1/compatibility".to_string(),
        profile: Some(ConfigProfile::RedWiz),
        schema_version: 2,
        fetched_at_unix: 1_750_000_000,
        checked_at_unix: Some(1_750_000_100),
        fact_count: 1,
        max_facts: 1000,
        head_digest: some("sha256:test-head"),
        head_fact_count: Some(1),
        head_latest_accepted_at: some("2026-05-22T00:00:00.000Z"),
        head_latest_fact_id: some("fact-1"),
        head_latest_content_hash: some("sha256:test-fact"),
    }
}

#[test]
fn cache_metadata_reads_back() {
    let read = read_fact_cache_metadata(&write_fact_cache_metadata(&metadata()));
    assert_eq!(read.schema_version, 2);
    assert_eq!(read.profile, Some(ConfigProfile::RedWiz));
    assert_eq!(read.fact_count, 1);
    assert_eq!(read.head_digest.as_deref(), Some("sha256:test-head"));
    assert_eq!(read.checked_at_unix, Some(1_750_000_100));
}

#[test]
fn cache_metadata_of_nothing_is_empty() {
    let read = read_fact_cache_metadata(&vec![CacheEntry {
        key: "factCount".to_string(),
        value: "seven".to_string(),
    }]);
    assert_eq!(read.fact_count, 0);
    assert_eq!(read.head_digest, None);
}

#[test]
fn human_bytes_formats_cache_sizes() {
    assert_eq!(human_bytes(512), "512 B");
    assert_eq!(human_bytes(2048), "2.0 KiB");
}

#[test]
fn human_sizes_and_durations_take_the_largest_unit() {
    assert_eq!(human_bytes(1536), "1.5 KiB");
    assert_eq!(human_bytes(5 * 1024 * 1024), "5.0 MiB");
    assert_eq!(human_duration(59), "59s");
    assert_eq!(human_duration(2 * 86400), "2d");
    assert_eq!(unix_age_seconds(Some(100), 40), Some(60));
}

#[test]
fn cache_policy_parses_common_aliases() {
    assert_eq!(CachePolicy::parse("auto").unwrap(), CachePolicy::Auto);
    assert_eq!(CachePolicy::parse("prefer-cache").unwrap(), CachePolicy::PreferCache);
    assert_eq!(CachePolicy::parse("cache-first").unwrap(), CachePolicy::PreferCache);
    assert_eq!(CachePolicy::parse("refresh").unwrap(), CachePolicy::Refresh);
    assert_eq!(CachePolicy::parse("offline").unwrap(), CachePolicy::Offline);
}

#[test]
fn cache_policy_refuses_other_words() {
    assert_eq!(
        CachePolicy::parse("never").unwrap_err(),
        "unknown cache policy \"never\"; expected auto, prefer-cache, refresh, or offline"
    );
}

#[test]
fn matrix_uses_configured_cache_defaults() {
    let matrix = test_matrix(
        Config {
            cache_policy: Some(CachePolicy::PreferCache),
            cache_max_facts: Some(2500),
            ..Config::default()
        },
        Some(ConfigProfile::RedWiz),
    );
    assert_eq!(matrix.max_facts(None).unwrap(), 2500);
    assert_eq!(matrix.max_facts(Some(99)).unwrap(), 99);
    assert_eq!(matrix.cache_policy().unwrap(), CachePolicy::PreferCache);
    assert_eq!(matrix.fact_load_options(false, false).unwrap(), CachePolicy::PreferCache);
    assert_eq!(matrix.fact_load_options(true, false).unwrap(), CachePolicy::Offline);
}

#[test]
fn offline_and_refresh_contradict_each_other() {
    let matrix = test_matrix(Config::default(), None);
    assert_eq!(
        matrix.fact_load_options(true, true).unwrap_err(),
        "--offline cannot be combined with --refresh-cache"
    );
}

#[test]
fn fact_cache_path_uses_sqlite_extension() {
    let matrix = test_matrix(Config::default(), Some(ConfigProfile::RedWiz));
    let path = format!("{}/{}.sqlite", fact_cache_dir("/cache"), fact_cache_key(&matrix));
    assert!(path.starts_with("/cache/facts/profile-red-wiz-"));
    assert_eq!(path.rsplit('.').next(), Some("sqlite"));
    assert_eq!(fact_cache_key(&matrix), fact_cache_key(&matrix));
}

#[test]
fn fact_cache_keys_differ_between_constructs() {
    let one = test_matrix(Config::default(), None);
    let mut other = test_matrix(Config::default(), None);
    other.construct = some("https://other.example.test");
    assert_ne!(fact_cache_key(&one), fact_cache_key(&other));
    assert!(fact_cache_key(&one).starts_with("custom-"));
}

#[test]
fn cache_is_kept_while_the_head_is_the_same() {
    let head = FactsHead {
        kind: "facts-head".to_string(),
        schema_version: 2,
        digest: "sha256:test-head".to_string(),
        fact_count: 1,
        generated_at: None,
        latest_accepted_at: some("2026-05-22T00:00:00.000Z"),
        latest_fact_id: some("fact-1"),
        latest_content_hash: some("sha256:test-fact"),
    };
    let known = Some(metadata());
    let seen = Some(head);
    assert!(cache_head_matches(&known, &seen));
    assert_eq!(step_after_head(&known, &seen), CacheStep::UseCache);
    assert_eq!(step_after_head(&known, &None), CacheStep::Sync);
    assert!(read_facts_head(&None).unwrap().is_none());
}

#[test]
fn heads_are_objects_or_lists_of_their_fields() {
    let read = |text: &str| read_facts_head(&Some(Json::parse(text).unwrap()));
    let object = r#"{"kind":"compatibility-facts-head","schemaVersion":1,"factCount":2,"digest":"d"}"#;
    let list = r#"["compatibility-facts-head",1,2,"d",null,"t","f",null]"#;
    for text in [object, list] {
        let head = read(text).unwrap().unwrap();
        assert_eq!(head.schema_version, 1);
        assert_eq!(head.fact_count, 2);
        assert_eq!(head.digest, "d");
        assert!(head.generated_at.is_none());
    }
    let head = read(list).unwrap().unwrap();
    assert_eq!(head.latest_accepted_at.as_deref(), Some("t"));
    assert_eq!(head.latest_fact_id.as_deref(), Some("f"));
    for text in [
        r#"["compatibility-facts-head",1,2,"d",null,null,null]"#,
        r#"["compatibility-facts-head",1,2,"d",null,null,null,null,null]"#,
        r#"["compatibility-facts-head",1,2,"d",null,null,null,7]"#,
        r#"["other",1,2,"d",null,null,null,null]"#,
        "[]",
        "null",
    ] {
        assert_eq!(read(text).unwrap_err(), "construct returned an invalid facts head");
    }
}

#[test]
fn cache_summary_is_added_to_answers() {
    let summary = FactCacheSummary::from_metadata(
        FactCacheSource::Cache,
        "/cache/facts/x.sqlite".to_string(),
        metadata(),
        Some(1_750_000_060),
    );
    assert_eq!(summary.fact_count(), 1);
    let shown = show(&with_cache_summary(
        j(r#"{"kind":"x"}"#),
        &summary.to_value(Some(2048)),
    ));
    assert_eq!(shown["cache"]["source"], "cache");
    assert_eq!(shown["cache"]["factCount"], 1);
    let cleared = show(&cache_clear_value(3, "/cache", true));
    assert_eq!(cleared["removed"], 3);
    assert_eq!(cleared["path"], Value::Null);
}

#[test]
fn facts_are_fetched_page_by_page() {
    let mut state = FetchState::new();
    let first = state.next_request(3).unwrap();
    assert_eq!(first, "/facts?limit=3");
    state.accept_page(&j(
        r#"{"facts":[{"id":"a"},{"id":"b"}],"page":{"nextCursor":"Mg"}}"#,
    ));
    let second = state.next_request(3).unwrap();
    assert_eq!(second, "/facts?limit=1&cursor=Mg");
    state.accept_page(&j(r#"{"facts":[{"id":"c"}],"page":{"nextCursor":null}}"#));
    assert_eq!(state.next_request(3), None);
}

#[test]
fn replies_are_read_by_status_and_type() {
    let ok = read_reply(true, "200 OK", "application/json", r#"{"a":1}"#).unwrap();
    assert_eq!(show(&ok)["a"], 1);
    assert!(read_reply(false, "404 Not Found", "application/json", r#"{"error":"gone"}"#)
        .unwrap_err()
        .contains("gone"));
}

#[test]
fn lib_normalizes_github_repos() {
    assert_eq!(
        normalize_repo_url("git@github.com:example/project.git").as_deref(),
        Some("example/project")
    );
    assert_eq!(
        normalize_repo_url("https://github.com/example/project.git").as_deref(),
        Some("example/project")
    );
}

#[test]
fn main_normalizes_github_repos() {
    assert_eq!(
        normalize_repo_url("git@github.com:example/project.git").as_deref(),
        Some("example/project")
    );
    assert_eq!(
        normalize_repo_url("https://github.com/example/project.git").as_deref(),
        Some("example/project")
    );
}

fn pair(key: &str, value: &str) -> QueryPair {
    QueryPair { key: key.to_string(), value: value.to_string() }
}

#[test]
fn lib_builds_query_strings() {
    assert_eq!(
        query_string(&vec![pair("repo", "example/project"), pair("level", "preview")]),
        "repo=example%2Fproject&level=preview"
    );
}

#[test]
fn main_builds_query_strings() {
    assert_eq!(
        query_string(&vec![pair("repo", "example/project"), pair("level", "preview")]),
        "repo=example%2Fproject&level=preview"
    );
}

#[test]
fn blank_parameters_are_left_out() {
    let mut query = Vec::new();
    push_query(&mut query, "status", some("  "));
    push_query(&mut query, "track", some("odin ä"));
    push_page_query(&mut query, PageArgs { limit: Some(10), cursor: None });
    assert_eq!(query_suffix(&query), "?track=odin%20%C3%A4&limit=10");
    assert_eq!(query_suffix(&Vec::new()), "");
}

#[test]
fn parses_sql_pack_lists() {
    assert_eq!(
        parse_sql_pack_list("base.sql, runtime.sql,,team.sql"),
        vec!["base.sql", "runtime.sql", "team.sql"]
    );
}

#[test]
fn compares_versions_without_tag_prefix() {
    assert!(version_is_newer("0.3.0", "v0.3.1"));
    assert!(version_is_newer("0.3.9", "0.4.0"));
    assert!(!version_is_newer("0.4.0", "0.3.9"));
    assert!(!version_is_newer("1.0.0", "V1.0.0"));
}

#[test]
fn versions_are_numbers_up_to_the_first_word() {
    assert_eq!(version_parts(" v1.20.3-rc.1"), vec![1, 20, 3]);
    assert_eq!(version_parts("1..2"), vec![1, 2]);
    assert_eq!(version_parts("99999999999999999999.1"), vec![1]);
    assert!(version_parts("next").is_empty());
    assert_eq!(normalize_version(" vV2.0 "), "2.0");
    assert!(!version_is_newer("1.2", "1.2.0"));
    assert!(!version_is_newer("1.2.0", "1.2"));
    assert!(version_is_newer("1.2.0", "V1.3") && version_is_newer("V1.2", "1.3.0"));
    assert!(version_is_newer("1.2", "1.2.0.1"));
}

#[test]
fn linux_manual_update_command_uses_release_archive() {
    let install_path = some("/usr/local/bin/matrix");
    let command = linux_manual_update_command("0.3.12", &install_path);

    assert!(command.contains("gh release download v0.3.12"));
    assert!(command.contains("adrianmross/matrix"));
    assert!(command.contains("matrix-0.3.12-x86_64-unknown-linux-gnu.tar.gz"));
    assert!(command.ends_with(
        "sudo install /tmp/matrix-update/matrix-0.3.12-x86_64-unknown-linux-gnu/matrix /usr/local/bin/matrix"
    ));
}

#[test]
fn linux_manual_update_command_uses_plain_install_for_user_path() {
    let command = linux_manual_update_command("0.3.12", &some("/home/me/bin/matrix"));

    assert!(command.ends_with(
        "install /tmp/matrix-update/matrix-0.3.12-x86_64-unknown-linux-gnu/matrix /home/me/bin/matrix"
    ));
}

#[test]
fn linux_manual_update_command_uses_plain_install_for_cargo_home_path() {
    let command = linux_manual_update_command("0.3.12", &None);

    assert!(command.ends_with(
        "install /tmp/matrix-update/matrix-0.3.12-x86_64-unknown-linux-gnu/matrix ~/.cargo/bin/matrix"
    ));
}

#[test]
fn direct_update_message_includes_source_and_archive_paths() {
    let message = direct_update_unavailable_message("0.3.12", &None);

    assert!(message.contains("brew upgrade adrianmross/tap/matrix"));
    assert!(message.contains("gh release download v0.3.12"));
    assert!(message.contains(
        "cargo install --locked --git https://github.com/adrianmross/matrix --tag v0.3.12 matrix --force"
    ));
    assert!(message.contains(&cargo_install_update_command("0.3.12")));
}

fn update(check: bool, force: bool) -> UpdateCommand {
    UpdateCommand { check, force, install_path: None }
}

#[test]
fn update_installs_what_is_newer_or_forced() {
    let program = some("/home/me/bin/matrix");
    let next = |command: &UpdateCommand, latest: &str, direct: bool| {
        update_next(command, "0.3.0", latest, direct, &program)
    };
    assert!(matches!(next(&update(false, false), "0.3.1", true), UpdateStep::Install));
    assert!(matches!(next(&update(false, true), "0.3.0", true), UpdateStep::Install));
    match next(&update(false, false), "0.3.0", true) {
        UpdateStep::Done(value) => {
            assert_eq!(show(&value), "Already on latest version, 0.3.0");
        }
        _ => panic!("expected no update"),
    }
    assert!(matches!(next(&update(false, false), "0.3.1", false), UpdateStep::Refuse(_)));
    match next(&update(true, true), "0.3.1", true) {
        UpdateStep::Done(value) => {
            let shown = show(&value);
            assert_eq!(shown["updateAvailable"], true);
            assert_eq!(shown["installMethod"], "direct-linux");
            assert_eq!(shown["installPath"], "/home/me/bin/matrix");
        }
        _ => panic!("expected a report"),
    }
}

#[test]
fn homebrew_updates_itself() {
    let state = HomebrewState { installed: some("0.3.0"), outdated: some("0.3.2") };
    assert!(matches!(update_start(&None, false, "0.3.0"), UpdateStep::LookUp));
    match update_start(&Some(state), true, "0.2.9") {
        UpdateStep::Done(value) => {
            let shown = show(&value);
            assert_eq!(shown["current"], "0.3.0");
            assert_eq!(shown["latest"], "0.3.2");
            assert_eq!(shown["installMethod"], "homebrew");
        }
        _ => panic!("expected a report"),
    }
    let current = HomebrewState { installed: None, outdated: None };
    assert!(matches!(update_start(&Some(current), false, "0.3.0"), UpdateStep::Upgrade));
    assert!(is_homebrew_install(true, &some("/opt/homebrew/bin/matrix")));
    assert!(!is_homebrew_install(true, &some("/home/me/bin/matrix")));
    assert!(!is_homebrew_install(false, &some("/opt/homebrew/bin/matrix")));
    assert_eq!(homebrew_installed_version("matrix 0.3.1 0.3.0\n").as_deref(), Some("0.3.1"));
    assert_eq!(
        homebrew_outdated_version("==> x\nmatrix (0.3.0) < 0.3.2 [pinned]\n").as_deref(),
        Some("0.3.2")
    );
    assert_eq!(update_install_method(true, true), "homebrew");
    assert_eq!(update_install_method(false, false), "manual");
}

#[test]
fn releases_name_versions_and_assets() {
    let release = j(
        r#"{"tag_name":"v0.3.2","assets":[{"name":"other","url":"u0"},{"name":"matrix-0.3.2-x86_64-unknown-linux-gnu.tar.gz","url":"u1"}]}"#,
    );
    assert_eq!(latest_matrix_version(&release).unwrap(), "0.3.2");
    assert_eq!(release_asset_api_url(&release, &asset_name("0.3.2")).as_deref(), Some("u1"));
    assert_eq!(release_asset_api_url(&release, "missing"), None);
    assert_eq!(
        latest_matrix_version(&j("{}")).unwrap_err(),
        "latest release response did not include tag_name"
    );
    assert!(release_lookup_error(404, "404 Not Found", false, &j("{}")).contains("GITHUB_TOKEN"));
    assert_eq!(
        release_lookup_error(500, "500 Internal Server Error", false, &j(r#"{"message":"no"}"#)),
        "GitHub release lookup failed with 500 Internal Server Error: no"
    );
    assert_eq!(
        asset_download_error(404, "404 Not Found", true, "gone"),
        "GitHub release asset download failed with 404 Not Found: gone"
    );
    assert_eq!(github_token(&some(" "), &some("t")).as_deref(), Some("t"));
    assert_eq!(staged_name("matrix", 7, "0.3.2"), ".matrix-update-7-0.3.2");
    assert_eq!(update_temp_name("0.3.2", 7, 12), "matrix-update-0.3.2-7-12");
}

#[test]
fn notices_are_for_people_and_newer_versions() {
    assert!(notice_wanted(OutputFormat::Human, false, false, true));
    assert!(!notice_wanted(OutputFormat::Json, false, false, true));
    assert_eq!(
        update_notice(false, &None, "0.3.0", &some("0.3.1")),
        "Update 0.3.1 available, run `matrix update`\n"
    );
    assert_eq!(update_notice(false, &None, "0.3.0", &None), "");
    assert_eq!(update_notice(true, &None, "0.3.0", &some("9.0.0")), "");
    assert!(notice_is_fresh(86400, 0));
    assert!(!notice_is_fresh(86400, 1));
    assert_eq!(update_notice_cache_path("/cache"), "/cache/update_notice");
}

#[test]
fn cache_steps_follow_the_policy() {
    assert_eq!(cache_source_for_policy(CachePolicy::Offline, &None, 1000), CacheStep::UseCache);
    assert_eq!(cache_source_for_policy(CachePolicy::Refresh, &None, 1000), CacheStep::Sync);
    let fresh = new_cache_metadata(&test_matrix(Config::default(), None), 99, 10, 1000, None);
    assert_eq!(fresh.fact_count, 10);
    assert_eq!(fresh.fetched_at_unix, 99);
    let summary = FactCacheSummary::from_metadata(
        FactCacheSource::Cache,
        "/cache".to_string(),
        fresh,
        Some(99 + 3 * 86400),
    );
    assert!(summary.stale);
    let known = Some(summary);
    assert_eq!(
        cache_source_for_policy(CachePolicy::PreferCache, &known, 1000),
        CacheStep::UseCache
    );
    assert_eq!(cache_source_for_policy(CachePolicy::Auto, &known, 1000), CacheStep::CheckHead);
    assert_eq!(cache_source_for_policy(CachePolicy::Auto, &known, 5000), CacheStep::Sync);
}
