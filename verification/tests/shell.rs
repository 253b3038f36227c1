//! The shell: its lines, its commands and what they do to a session.
use matrix::calls::{
    ArtifactListArgs, CandidateArgs, FactGetArgs, HistoryArgs, RemoteCommand, RevisionSelectorArgs,
    TraceArgs, append_context_args, current, remote_call, revision_selector_query, shell_args,
    trace_reply,
};
use matrix::config::{CachePolicy, Config, Environment, Matrix, OutputFormat};
use matrix::console::{expanded_result_text, print_query_result, print_session_value};
use matrix::context::{ContextArgs, MatrixContext, Surroundings};
use matrix::explain::{MATRIX_GRAPHQL_SCHEMA, answer_query, explain_query, schema_value};
use matrix::facts::component_key;
use matrix::graph::GraphIndex;
use matrix::graph_query::{GraphRequest, parse_graph_query};
use matrix::json::Json;
use matrix::queries::{
    ComponentQueryOptions, SqlCell, component_subject_filter_sql, query_text, readonly_sql,
    row_value, sqlite_value_to_json, stdin_text, why_answer, why_kind,
};
use matrix::repl::{ReplCommand, parse_command};
use matrix::repl_args::{
    SnippetFile, SnippetKind, is_repl_graph_snippet, list_repl_snippets_value,
    parse_compare_repl_args, parse_component_query_options, parse_repl_graph_args,
    repl_graph_query_text, repl_snippet_path, resolve_repl_snippet_path,
    sanitize_repl_snippet_name, snippet_kind, snippet_not_found,
};
use matrix::reports::{
    Reach, SessionFacts, blue_pill, doctor, is_cache_file, red_pill, session_greeting,
    session_status,
};
use matrix::request::QueryPair;
use matrix::session::{
    OpenedQuery, OutputMode, ReloadKind, ReplAction, ReplState, opened_query, reload_message,
    reload_policy,
};
use matrix::shell::{
    LineAction, LineBuffer, MatrixCompleter, TokenStyle, highlight, is_complete_sql,
    is_inside_string_literal, is_repl_command, token_style,
};
use matrix::sql::{
    is_sql_identifier, normalize_matrix_sql, quote_identifier, sql_literal, tokenize_sql,
};
use matrix::views::{apply_sql_init, drop_view_sql, strip_sql_line_comments, zone_view_sql};
use serde_json::Value;

fn j(text: &str) -> Json {
    Json::parse(text).unwrap()
}

fn show(json: &Json) -> Value {
    serde_json::from_str(&json.to_text()).unwrap()
}

fn some(text: &str) -> Option<String> {
    Some(text.to_string())
}

fn args(words: &[&str]) -> Vec<String> {
    words.iter().map(|word| word.to_string()).collect()
}

fn no_context() -> ContextArgs {
    ContextArgs {
        zone: None,
        repo: None,
        component: None,
        tag: None,
        version: None,
        sha: None,
        reference: None,
    }
}

fn in_repository() -> Surroundings {
    Surroundings {
        zone: None,
        remote: some("git@github.com:example/here.git\n"),
        tag: some("v1.0.0\n"),
        sha: some("abc123\n"),
        branch: some("main\n"),
    }
}

fn session() -> ReplState {
    ReplState::new(MatrixContext::empty(), 1000, OutputFormat::Human)
}

fn act(state: &mut ReplState, line: &str) -> Result<ReplAction, String> {
    state.handle_command(&parse_command(line), &None, "/queries")
}

fn said(state: &mut ReplState, line: &str) -> String {
    match act(state, line).unwrap() {
        ReplAction::Say(text) => text,
        other => panic!("expected words, got {other:?}"),
    }
}

fn sql_of(state: &mut ReplState, line: &str) -> String {
    match act(state, line).unwrap() {
        ReplAction::RunSql(sql) => sql,
        other => panic!("expected a statement, got {other:?}"),
    }
}

#[test]
fn normalizes_short_matrix_sql() {
    assert_eq!(
        normalize_matrix_sql("select * from zone where type==chaincode and status==failed"),
        "select * from zone where type='chaincode' and status='failed'"
    );
    assert_eq!(
        normalize_matrix_sql(
            "select * from zone where repo==example/ledger-service and status!=failed"
        ),
        "select * from zone where repo='example/ledger-service' and status!='failed'"
    );
    assert_eq!(
        normalize_matrix_sql("select * from zone where type==chaincode and status==valid"),
        "select * from zone where type='chaincode' and status in ('compatible','passed','observed','candidate','valid','ready')"
    );
    assert_eq!(
        normalize_matrix_sql("select * from deref where fact_id==release-bundle.api.1.0.0"),
        "select * from deref where fact_id='release-bundle.api.1.0.0'"
    );
    assert_eq!(
        normalize_matrix_sql("select * from requirements r where r.fact_id = runtime.id"),
        "select * from requirements r where r.fact_id = runtime.id"
    );
}

#[test]
fn sql_texts_are_quoted() {
    assert_eq!(sql_literal("it's"), "'it''s'");
    assert_eq!(quote_identifier("zone"), "\"zone\"");
    assert!(is_sql_identifier("zone_1"));
    assert!(!is_sql_identifier("zone-1"));
    let tokens = tokenize_sql("select  'a b' from x");
    assert_eq!(tokens.concat(), "select  'a b' from x");
}

#[test]
fn derives_short_component_keys() {
    assert_eq!(component_key("@example/ledger-service"), "ledger-service");
    assert_eq!(component_key("identity_contract"), "identity_contract");
}

#[test]
fn repo_override_does_not_inherit_git_source_context() {
    let context = MatrixContext::detect(
        ContextArgs { repo: some("example/ledger-service"), ..no_context() },
        &in_repository(),
    );
    assert_eq!(context.repo.as_deref(), Some("example/ledger-service"));
    assert!(context.sha.is_none());
    assert!(context.reference.is_none());
    assert!(context.tag.is_none());
}

#[test]
fn zone_browsing_does_not_inherit_git_source_context() {
    let context = MatrixContext::detect_browsing(
        ContextArgs { zone: some("runtime"), ..no_context() },
        &in_repository(),
    );
    assert_eq!(context.zone.as_deref(), Some("runtime"));
    assert!(context.repo.is_none());
    assert!(context.sha.is_none());
    assert!(context.reference.is_none());
    assert!(context.tag.is_none());
}

#[test]
fn the_working_directory_gives_the_context() {
    let context = MatrixContext::detect(no_context(), &in_repository());
    assert_eq!(context.repo.as_deref(), Some("example/here"));
    assert_eq!(context.tag.as_deref(), Some("v1.0.0"));
    assert_eq!(context.sha.as_deref(), Some("abc123"));
    assert_eq!(context.reference.as_deref(), Some("main"));
}

#[test]
fn forwards_enter_context_to_shell_binary_args() {
    let mut command = Vec::new();
    append_context_args(
        &mut command,
        &ContextArgs {
            repo: some("example/payments-api"),
            version: some("v0.6.3"),
            ..no_context()
        },
    );
    assert_eq!(
        command,
        vec!["--repo", "example/payments-api", "--target-version", "v0.6.3"]
    );
}

#[test]
fn the_shell_is_started_with_what_is_configured() {
    assert_eq!(
        shell_args(&some("https://c"), "/v1/matrix", OutputFormat::Json, &no_context()),
        vec!["--construct", "https://c", "--api-prefix", "/v1/matrix", "-o", "json"]
    );
    assert_eq!(
        shell_args(&None, "/v1", OutputFormat::Human, &no_context()),
        vec!["--api-prefix", "/v1"]
    );
}

#[test]
fn parses_repl_graph_args_for_native_graphql() {
    let args = parse_repl_graph_args(&args(&[
        "--var",
        "component=eunomia",
        "--var=for=aphrodite",
        "--limit",
        "3",
        "query",
        "Matrix($component:String!,$for:String!)",
        "{",
        "versions(component:$component,",
        "for:$for)",
        "{",
        "versions",
        "}",
        "}",
    ]))
    .unwrap();

    assert_eq!(
        args.query,
        Some(
            "query Matrix($component:String!,$for:String!) { versions(component:$component, for:$for) { versions } }"
                .to_string()
        )
    );
    assert_eq!(args.vars, vec!["component=eunomia", "for=aphrodite"]);
    assert_eq!(args.limit, 3);
}

#[test]
fn graph_args_are_refused_where_values_are_missing() {
    let refused = |words: &[&str]| parse_repl_graph_args(&args(words)).unwrap_err();
    assert_eq!(refused(&["-f"]), "-f requires a file path");
    assert_eq!(refused(&["--file"]), "--file requires a file path");
    assert_eq!(refused(&["--var"]), "--var requires NAME=VALUE");
    assert_eq!(refused(&["--limit"]), "--limit requires a number");
    assert_eq!(refused(&["--limit=many"]), "invalid graph limit \"many\"");
    assert_eq!(
        refused(&["-f", "q.graphql", "a", "->", "b"]),
        "provide a graph query inline or with --file, not both"
    );
    let schema = parse_repl_graph_args(&args(&["--schema", "--limit=0"])).unwrap();
    assert!(schema.schema);
    assert_eq!(schema.limit, 1);
    assert_eq!(schema.query, None);
}

#[test]
fn repl_snippet_names_stay_inside_query_directory() {
    assert!(sanitize_repl_snippet_name("aphrodite-path").is_ok());
    assert!(sanitize_repl_snippet_name("../secret").is_err());
    assert!(sanitize_repl_snippet_name("nested/query").is_err());
    assert!(sanitize_repl_snippet_name("bad name").is_err());

    let file = |name: &str, query: &str| {
        let path = repl_snippet_path("/config/queries", name, Some(query)).unwrap();
        path.strip_prefix("/config/queries/").unwrap().to_string()
    };
    let graphql = file("aphrodite-path", "{ path(from:\"a\", to:\"b\") }");
    assert_eq!(graphql, "aphrodite-path.graphql");
    let shorthand = file("short-path", "aphrodite -> eunomia");
    assert_eq!(shorthand, "short-path.graphql");
    let sql = file("current", "select * from current");
    assert_eq!(sql, "current.sql");
}

#[test]
fn snippet_names_say_why_they_are_refused() {
    let refused = |name: &str| sanitize_repl_snippet_name(name).unwrap_err();
    assert_eq!(refused("  "), "snippet name cannot be empty");
    assert_eq!(refused(".."), "snippet names cannot include path separators");
    assert_eq!(
        refused("a b"),
        "snippet names can only use letters, numbers, '.', '-', and '_'"
    );
    assert_eq!(
        resolve_repl_snippet_path("/q", "x").unwrap(),
        vec!["/q/x.sql", "/q/x.graphql", "/q/x.gql", "/q/x.sql"]
    );
    assert_eq!(resolve_repl_snippet_path("/q", "x.gql").unwrap()[0], "/q/x.gql");
    assert_eq!(repl_snippet_path("/q", ".hidden", None).unwrap(), "/q/.hidden.sql");
    assert_eq!(snippet_not_found("x"), "saved query \"x\" was not found");
    assert!(is_repl_graph_snippet("a -> b"));
    assert!(!is_repl_graph_snippet("select 1"));
}

#[test]
fn snippets_are_listed_by_name() {
    let file = |name: &str| SnippetFile {
        name: name.to_string(),
        path: format!("/q/{name}"),
    };
    let listed = show(&list_repl_snippets_value(
        "/q",
        &vec![file("b.sql"), file("c.txt"), file("a.gql")],
    ));
    assert_eq!(listed["directory"], "/q");
    assert_eq!(listed["queries"][0]["name"], "a.gql");
    assert_eq!(listed["queries"][0]["kind"], "graphql");
    assert_eq!(listed["queries"][1]["kind"], "sql");
    assert_eq!(listed["queries"][2]["kind"], "query");
    assert_eq!(snippet_kind("x.sql", "{ a }"), SnippetKind::Sql);
    assert_eq!(snippet_kind("x", "{ a }"), SnippetKind::Graph);
}

#[test]
fn matrix_graphql_schema_documents_root_fields() {
    assert!(MATRIX_GRAPHQL_SCHEMA.contains("type Query"));
    assert!(MATRIX_GRAPHQL_SCHEMA.contains("worksWith"));
    assert!(MATRIX_GRAPHQL_SCHEMA.contains("producers"));
    assert_eq!(show(&schema_value())["schema"], MATRIX_GRAPHQL_SCHEMA);
}

#[test]
fn parses_graphql_like_queries_for_agents() {
    match parse_graph_query("{ path(from:\"aphrodite\", to:\"eunomia\") { status paths { nodes { component version } } } }").unwrap() {
        GraphRequest::Path { source, target } => {
            assert_eq!(source, "aphrodite");
            assert_eq!(target, "eunomia");
        }
        _ => panic!("expected path request"),
    }

    match parse_graph_query(
        "query Matrix($ignored:String) { versions(component:\"putto\", for:\"aphrodite\") { versions } }",
    )
    .unwrap()
    {
        GraphRequest::VersionsFor { component, for_component } => {
            assert_eq!(component, "putto");
            assert_eq!(for_component, "aphrodite");
        }
        _ => panic!("expected versions request"),
    }
}

#[test]
fn graph_queries_are_answered_and_explained_in_both_forms() {
    let graph = GraphIndex::new();
    let none = Vec::new();
    let short = answer_query(&graph, "a -> b", &none, 5, &none_found()).unwrap();
    assert_eq!(show(&short)["found"], false);
    let explained = explain_query(&graph, "a -> b", &none, 5, &none_found()).unwrap();
    let explained = show(&explained);
    assert_eq!(explained["dialect"], "matrix-graph-shorthand");
    assert_eq!(explained["request"]["type"], "path");
    let native = explain_query(
        &graph,
        "{ mine: path(from:$f, to:\"b\", limit:2) { status } }",
        &args(&["f=a"]),
        5,
        &none_found(),
    )
    .unwrap();
    let native = show(&native);
    assert_eq!(native["dialect"], "graphql");
    assert_eq!(native["rootFields"][0]["responseKey"], "mine");
    assert_eq!(native["rootFields"][0]["arguments"][0]["name"], "from");
    assert_eq!(native["rootFields"][0]["arguments"][0]["value"]["kind"], "variable");
    assert_eq!(native["rootFields"][0]["arguments"][1]["name"], "limit");
    assert_eq!(native["rootFields"][0]["arguments"][1]["value"]["value"], 2);
    assert_eq!(native["rootFields"][0]["arguments"][2]["name"], "to");
    let repeated = explain_query(
        &graph,
        "{ path(to:\"x\", from:\"a\", to:\"b\") { status } }",
        &none,
        5,
        &none_found(),
    )
    .unwrap();
    let repeated = show(&repeated);
    let listed = repeated["rootFields"][0]["arguments"].as_array().unwrap();
    assert_eq!(listed.len(), 2);
    assert_eq!(listed[0]["name"], "from");
    assert_eq!(listed[1]["name"], "to");
    assert_eq!(listed[1]["value"]["value"], "b");
    assert_eq!(native["rootFields"][0]["selection"][0]["field"], "status");
    assert_eq!(native["resultKeys"][0], "mine");
    let many = answer_query(&graph, "a -> b", &none, 81, &none_found()).unwrap();
    assert_eq!(show(&many)["pathCount"], 0);
    assert!(answer_query(&graph, "nonsense", &none, 5, &none_found()).is_err());
}

fn none_found() -> Vec<Json> {
    Vec::new()
}

#[test]
fn lines_become_commands_and_statements() {
    let mut buffer = LineBuffer::new();
    assert!(matches!(buffer.accept("   "), LineAction::Wait));
    match buffer.accept(" .help ") {
        LineAction::Command(line) => assert_eq!(line, ".help"),
        other => panic!("expected a command, got {other:?}"),
    }
    assert!(matches!(buffer.accept("select ';'"), LineAction::Wait));
    assert!(buffer.is_begun());
    match buffer.accept(".x from facts; ") {
        LineAction::Sql(sql) => assert_eq!(sql, "select ';'\n.x from facts"),
        other => panic!("expected a statement, got {other:?}"),
    }
    assert_eq!(buffer.interrupt(), "Use `red` to exit.");
    buffer.accept("select 1");
    assert_eq!(buffer.interrupt(), "Cleared query buffer.");
    assert!(!buffer.is_begun());
}

#[test]
fn statements_end_outside_quotes() {
    assert!(is_complete_sql("select 1;"));
    assert!(!is_complete_sql("select ';'"));
    assert!(!is_complete_sql("select \";\""));
    assert!(is_complete_sql("select 'a\"b';"));
    assert!(is_repl_command("quit"));
    assert!(is_repl_command("/help"));
    assert!(!is_repl_command("select"));
}

#[test]
fn words_are_completed() {
    let completer = MatrixCompleter::new();
    let (start, found) = completer.complete("select * from ZON");
    assert_eq!(start, 14);
    let values: Vec<(&str, bool)> =
        found.iter().map(|c| (c.value.as_str(), c.append_whitespace)).collect();
    assert_eq!(values, vec![("zone", true), ("zones", false)]);
    let (start, commands) = completer.complete(".gra");
    assert_eq!(start, 0);
    assert_eq!(commands[0].value, ".graph");
    assert!(!commands[0].append_whitespace);
}

#[test]
fn tokens_are_styled() {
    let parts = highlight("select 'a', x from facts;");
    let shown: Vec<(TokenStyle, &str)> =
        parts.iter().map(|part| (part.style, part.text.as_str())).collect();
    assert_eq!(shown[0], (TokenStyle::Keyword, "select "));
    assert_eq!(shown[1], (TokenStyle::Quoted, "'a',"));
    assert_eq!(shown[2], (TokenStyle::Plain, " "));
    assert_eq!(shown[5], (TokenStyle::Table, "facts;"));
    let line: String = parts.iter().map(|part| part.text.clone()).collect();
    assert_eq!(line, "select 'a', x from facts;");
    assert_eq!(token_style(".help"), TokenStyle::Command);
    assert!(is_inside_string_literal("select 'a"));
    assert!(!is_inside_string_literal("select 'a'"));
}

#[test]
fn commands_are_read_by_name() {
    assert!(matches!(parse_command("."), ReplCommand::Nothing));
    assert!(matches!(parse_command("red"), ReplCommand::Quit));
    assert!(matches!(parse_command("/q"), ReplCommand::Quit));
    match parse_command(" .zone  my   zone ") {
        ReplCommand::SetField { field, value } => {
            assert_eq!(field, "zone");
            assert_eq!(value, "my zone");
        }
        other => panic!("expected a field, got {other:?}"),
    }
    match parse_command(".dance") {
        ReplCommand::Unknown(name) => assert_eq!(name, "dance"),
        other => panic!("expected an unknown command, got {other:?}"),
    }
}

#[test]
fn the_context_is_set_and_cleared() {
    let mut state = session();
    for line in [".tag v1", ".sha abc", ".ref main", ".zone runtime"] {
        assert!(matches!(act(&mut state, line).unwrap(), ReplAction::Rebuild));
    }
    assert!(matches!(act(&mut state, ".repo example/api").unwrap(), ReplAction::Rebuild));
    assert_eq!(state.context.repo.as_deref(), Some("example/api"));
    assert_eq!(state.context.zone.as_deref(), Some("runtime"));
    assert!(state.context.tag.is_none() && state.context.sha.is_none());
    assert!(state.context.reference.is_none());
    assert!(matches!(act(&mut state, ".context clear zone").unwrap(), ReplAction::Rebuild));
    assert!(state.context.zone.is_none());
    assert!(matches!(act(&mut state, ".context").unwrap(), ReplAction::ShowContext));
    assert!(matches!(act(&mut state, ".ctx set component api").unwrap(), ReplAction::Rebuild));
    assert_eq!(state.context.component.as_deref(), Some("api"));
    assert!(matches!(act(&mut state, ".context clear all").unwrap(), ReplAction::Rebuild));
    assert!(state.context.component.is_none());
    assert!(matches!(act(&mut state, ".context auto").unwrap(), ReplAction::Detect));
    for line in [".zone runtime", ".repo a/b", ".component c", ".version 1", ".tag t", ".sha s"] {
        act(&mut state, line).unwrap();
    }
    act(&mut state, ".ref main").unwrap();
    assert!(matches!(act(&mut state, "blue").unwrap(), ReplAction::Rebuild));
    let context = &state.context;
    assert!(context.zone.is_none() && context.repo.is_none() && context.component.is_none());
    assert!(context.version.is_none() && context.tag.is_none() && context.sha.is_none());
    assert!(context.reference.is_none());
    assert_eq!(act(&mut state, ".zone").unwrap_err(), "usage: .zone <value>");
    assert_eq!(
        act(&mut state, ".context colour red").unwrap_err(),
        "unknown context field \"colour\""
    );
    assert_eq!(
        act(&mut state, ".context clear colour").unwrap_err(),
        "unknown context field \"colour\""
    );
}

#[test]
fn listed_values_are_picked() {
    let mut state = session();
    let result = j(r#"{"columns":["version"],"rows":[{"version":"1.0"},{"version":null},{"version":"0.9"}]}"#);
    assert_eq!(
        state.keep_choices("version", &result).as_deref(),
        Some("Use `.use <pick>` to focus one of these version values.")
    );
    assert_eq!(state.choices.len(), 2);
    assert!(matches!(act(&mut state, ".use 2").unwrap(), ReplAction::Rebuild));
    assert_eq!(state.context.version.as_deref(), Some("0.9"));
    assert_eq!(
        act(&mut state, ".use 3").unwrap_err(),
        "pick 3 is not available; run `.versions`, `.tags`, or `.components` first"
    );
    assert!(matches!(act(&mut state, ".use zone sdk").unwrap(), ReplAction::Rebuild));
    assert_eq!(state.context.zone.as_deref(), Some("sdk"));
    assert_eq!(
        act(&mut state, ".use").unwrap_err(),
        "usage: .use <pick> or .use <field> <value>"
    );
    assert_eq!(state.keep_choices("tag", &result), None);
}

#[test]
fn commands_run_statements() {
    let mut state = session();
    assert_eq!(sql_of(&mut state, ".zones"), "select * from zones order by zone");
    assert_eq!(
        sql_of(&mut state, ".schema it's"),
        "select sql from sqlite_master where name = 'it''s'"
    );
    assert_eq!(sql_of(&mut state, ".d"), "select * from pragma_table_info('facts')");
    assert_eq!(
        sql_of(&mut state, ".explain select 1"),
        "explain query plan select 1"
    );
    assert!(sql_of(&mut state, ".deref f.1").contains("where fact_id = 'f.1'"));
    assert!(sql_of(&mut state, ".trace a b").contains("subject_name = 'a b'"));
    assert!(sql_of(&mut state, ".compare api --target-version 1.0").contains("u.version = '1.0'"));
    match act(&mut state, ".versions --all api").unwrap() {
        ReplAction::Choose { field, sql } => {
            assert_eq!(field, "version");
            assert!(sql.contains("limit 50"));
            assert!(sql.contains("'api'"));
        }
        other => panic!("expected choices, got {other:?}"),
    }
    assert_eq!(
        act(&mut state, ".components api").unwrap_err(),
        "usage: .components [--all] [--type <type>] [--include-applications] [--include-dependencies]"
    );
    assert_eq!(said(&mut state, ".read"), "Usage: .read <query.sql>");
    assert_eq!(said(&mut state, ".supersedes"), "Usage: .supersedes <fact-id>");
    assert_eq!(said(&mut state, ".dance"), "Unknown command \"dance\". Try `.help`.");
}

#[test]
fn commands_ask_the_graph_and_the_construct() {
    let mut state = session();
    match act(&mut state, ".path a b --limit 3").unwrap() {
        ReplAction::Path { source, target, limit } => {
            assert_eq!((source.as_str(), target.as_str(), limit), ("a", "b", 3));
        }
        other => panic!("expected a path, got {other:?}"),
    }
    assert_eq!(
        said(&mut state, ".path a"),
        "Usage: .path <from-component> <to-component> [--limit N]"
    );
    match act(&mut state, ".gate my/zone").unwrap() {
        ReplAction::Remote(call) => {
            assert_eq!(call.path, "/zones/my%2Fzone/gates/preview");
            assert_eq!(
                call.fallback.as_deref(),
                Some("/tracks/my%2Fzone/promotion-gates/preview")
            );
        }
        other => panic!("expected a request, got {other:?}"),
    }
    match act(&mut state, ".save mine { path(from:\"a\", to:\"b\") }").unwrap() {
        ReplAction::Save { path, text } => {
            assert_eq!(path, "/queries/mine.graphql");
            assert_eq!(text, "{ path(from:\"a\", to:\"b\") }");
        }
        other => panic!("expected a snippet, got {other:?}"),
    }
    match act(&mut state, ".open mine --limit 2").unwrap() {
        ReplAction::Open { name, files, args } => {
            assert_eq!(name, "mine");
            assert_eq!(files.len(), 4);
            match opened_query("mine.graphql", "a -> b", &args).unwrap() {
                OpenedQuery::Graph { query, limit, .. } => {
                    assert_eq!((query.as_str(), limit), ("a -> b", 2));
                }
                other => panic!("expected a graph query, got {other:?}"),
            }
            match opened_query("mine.sql", " select 1 ;; ", &Vec::new()).unwrap() {
                OpenedQuery::Sql(sql) => assert_eq!(sql, "select 1"),
                other => panic!("expected a statement, got {other:?}"),
            }
        }
        other => panic!("expected a file, got {other:?}"),
    }
    assert!(matches!(act(&mut state, ".graphql --schema").unwrap(), ReplAction::Schema));
    assert!(matches!(
        act(&mut state, ".explain graph a -> b").unwrap(),
        ReplAction::Explain(_)
    ));
}

#[test]
fn switches_change_the_session() {
    let mut state = session();
    assert_eq!(said(&mut state, ".mode"), "Output mode: Human");
    assert_eq!(said(&mut state, ".mode yml"), "Output mode: yaml");
    assert_eq!(state.output_mode, OutputMode::Yaml);
    assert_eq!(
        said(&mut state, ".mode loud"),
        "Unknown mode \"loud\"; expected human, table, json, yaml, or csv."
    );
    assert_eq!(said(&mut state, ".x"), "Expanded output: on");
    assert_eq!(said(&mut state, ".timing"), "Timing: on");
    assert_eq!(said(&mut state, ".limit 0"), "Usage: .limit 2000");
    assert!(matches!(
        act(&mut state, ".limit 20").unwrap(),
        ReplAction::Reload(ReloadKind::Limit)
    ));
    assert_eq!(state.max_facts, 20);
    assert_eq!(reload_policy(ReloadKind::Limit), CachePolicy::Refresh);
    assert_eq!(reload_policy(ReloadKind::Offline), CachePolicy::Offline);
    assert_eq!(
        reload_message(ReloadKind::Limit, 20, 7),
        "Fact limit: 20; loaded 7 facts."
    );
}

#[test]
fn filters_of_components_are_read() {
    let (options, rest) = parse_component_query_options(&args(&[
        "--applications",
        "-t",
        "npm",
        "api",
        "--include-dependencies",
    ]))
    .unwrap();
    assert!(options.include_applications && options.include_dependencies && !options.all);
    assert_eq!(options.type_filter.as_deref(), Some("npm"));
    assert_eq!(rest, vec!["api"]);
    assert_eq!(
        parse_component_query_options(&args(&["--type"])).unwrap_err(),
        "--type requires a value"
    );
    assert_eq!(component_subject_filter_sql(&options, false), " and type = 'npm'");
    assert_eq!(
        component_subject_filter_sql(&ComponentQueryOptions::default(), true),
        " and (subject_class is null or subject_class != 'dependency')"
    );
    let (target, version) =
        parse_compare_repl_args(&args(&["a", "--target-version=2", "b"])).unwrap();
    assert_eq!(target, "a b");
    assert_eq!(version.as_deref(), Some("2"));
    assert!(parse_compare_repl_args(&args(&["--target-version", "2"])).is_err());
}

#[test]
fn query_texts_come_from_one_place() {
    let none = None;
    assert_eq!(query_text(&some("q"), &none, &none, "SQL query").unwrap(), "q");
    assert_eq!(query_text(&none, &some("f"), &some(" q\n"), "SQL query").unwrap(), "q");
    let refused = |inline: Option<String>, file: Option<String>, text: Option<String>| {
        query_text(&inline, &file, &text, "SQL query").unwrap_err()
    };
    assert_eq!(
        refused(some("q"), some("f"), None),
        "provide SQL query inline or with --file, not both"
    );
    assert_eq!(refused(some(" "), None, None), "provide SQL query inline or with --file");
    assert_eq!(refused(None, some("f"), None), "failed to read SQL query file f");
    assert_eq!(refused(None, some("f"), some(" ")), "SQL query file was empty");
    let graph = parse_repl_graph_args(&args(&["-f", "g"])).unwrap();
    assert_eq!(repl_graph_query_text(&graph, &some("a -> b")).unwrap(), "a -> b");
}

#[test]
fn only_reading_statements_are_run() {
    assert_eq!(readonly_sql(" SELECT 1").unwrap(), " SELECT 1");
    assert_eq!(
        readonly_sql("delete from facts").unwrap_err(),
        "matrix query only allows read-only SELECT/WITH/EXPLAIN statements"
    );
    for sql in [
        "with x as (select 1) select * from x where 'insert' <> \"update\" -- delete",
        "with x as (select 1) select replace(a, 'b', 'c') from [delete], `insert`",
        "explain query plan delete from facts",
        "with a$delete as (select 1) select 1",
        "with \u{e4}delete as (select 1) select * from \u{e4}delete",
        "with x as (select 1) select * from x where 1 = :delete",
    ] {
        assert_eq!(readonly_sql(sql).unwrap(), sql);
    }
    for sql in [
        "with x as (select 1) delete from facts",
        "with x as (select 1) Insert into facts select * from x",
        "with x as (select 1) update/**/facts set a = 1",
        "with x as (select 1) replace into facts select * from x",
        "with x as (select 1)\u{feff}delete from facts",
    ] {
        assert!(readonly_sql(sql).is_err());
    }
    let row = row_value(
        &args(&["n", "x", "b", "none"]),
        &vec![
            SqlCell::Integer(-3),
            SqlCell::Real("0.5".to_string()),
            SqlCell::Blob(vec![1, 255]),
            SqlCell::Null,
        ],
    );
    let shown = show(&row);
    assert_eq!(shown["n"], -3);
    assert_eq!(shown["x"], 0.5);
    assert_eq!(shown["b"], "[1, 255]");
    assert_eq!(shown["none"], Value::Null);
    assert_eq!(show(&sqlite_value_to_json(&SqlCell::Blob(Vec::new()))), "[]");
    assert_eq!(show(&why_answer(j("{}")))["kind"], "graph-why");
}

#[test]
fn views_of_users_are_temporary() {
    let plan = apply_sql_init("-- x\nCREATE VIEW a as select 1;\ncreate temp view b as select 2;");
    assert_eq!(
        plan.statements,
        vec!["create temp view a as select 1;", "create temp view b as select 2;"]
    );
    assert!(!plan.refused);
    let refused = apply_sql_init("create view a as select 1; drop table facts; create view c");
    assert_eq!(refused.statements.len(), 1);
    assert!(refused.refused);
    assert_eq!(strip_sql_line_comments("a\n  -- b\nc"), "a\nc");
    assert_eq!(zone_view_sql("facts"), None);
    assert_eq!(zone_view_sql("my-zone"), None);
    assert!(zone_view_sql("sdk").unwrap().contains("zone = 'sdk'"));
    assert_eq!(drop_view_sql("a b"), None);
}

#[test]
fn results_are_printed_in_each_mode() {
    let result = j(r#"{"columns":["name","n"],"rows":[{"name":"api","n":1}]}"#);
    assert_eq!(
        expanded_result_text(&result),
        "-[ RECORD 1 ]-------------------------\nname                 api\nn                    1\n(1 rows)\n"
    );
    let table = print_query_result(&result, OutputMode::Table, false);
    assert!(table.contains("api"));
    assert!(table.contains("┌"));
    assert!(table.ends_with("(1 rows)\n"));
    assert!(print_query_result(&result, OutputMode::Yaml, false).contains("name: api"));
    assert!(print_query_result(&result, OutputMode::Csv, false).starts_with("name,n\n"));
    assert!(print_query_result(&result, OutputMode::Json, false).starts_with("["));
    assert!(print_session_value(&j(r#"{"a":1}"#), OutputMode::Table).contains("| A"));
}

fn remote(command: RemoteCommand) -> Result<(String, Option<String>), String> {
    remote_call(&command, &in_repository()).map(|call| (call.path, call.fallback))
}

fn selector() -> RevisionSelectorArgs {
    RevisionSelectorArgs { revision: None, event: None, relative: None, as_of: None }
}

#[test]
fn commands_become_requests() {
    let zone = remote(RemoteCommand::View { zone: "a b".to_string() }).unwrap();
    assert_eq!(zone, ("/zones/a%20b".to_string(), some("/tracks/a%20b")));
    let trace = remote(RemoteCommand::Trace(TraceArgs {
        zone: some("z"),
        subject: None,
        id: some("f"),
        limit: 5,
    }))
    .unwrap();
    assert_eq!(trace.0, "/facts?zone=z&id=f&limit=5");
    assert_eq!(trace.1.as_deref(), Some("/facts?track=z&id=f&limit=5"));
    assert_eq!(show(&trace_reply(j("[]")))["trace"], show(&j("[]")));
    let get = remote(RemoteCommand::Get(FactGetArgs {
        fact_id: "f/1".to_string(),
        history: true,
        limit: 0,
        selector: RevisionSelectorArgs { relative: Some(-1), ..selector() },
    }))
    .unwrap();
    assert_eq!(get.0, "/facts/f%2F1?relative=-1&limit=1&history=true");
    let blockers = remote(RemoteCommand::Blockers {
        track: "t".to_string(),
        within: some("qa"),
    })
    .unwrap();
    assert_eq!(blockers.0, "/tracks/t/blockers?environment=qa");
    let artifacts = remote(RemoteCommand::Artifacts(ArtifactListArgs {
        track: some("odin"),
        subject_type: some("npm"),
        subject_name: None,
        subject_repo: None,
        status: None,
        page: matrix::request::PageArgs { limit: Some(10), cursor: None },
    }))
    .unwrap();
    assert_eq!(artifacts.0, "/artifacts?track=odin&subjectType=npm&limit=10");
    assert_eq!(remote(RemoteCommand::List).unwrap().0, "");
}

#[test]
fn selections_on_the_command_line_may_contradict_themselves() {
    let refused = |selector: RevisionSelectorArgs| {
        remote(RemoteCommand::History(HistoryArgs {
            fact_id: "f".to_string(),
            limit: 25,
            selector,
        }))
        .unwrap_err()
    };
    assert_eq!(
        refused(RevisionSelectorArgs {
            relative: Some(-1),
            revision: Some(3),
            as_of: some("2026-06-19"),
            ..selector()
        }),
        "--as-of cannot be combined with --revision, --event, or --relative"
    );
    assert_eq!(
        refused(RevisionSelectorArgs { revision: Some(3), event: some("e"), ..selector() }),
        "use only one of --revision or --event"
    );
    let pairs: Vec<QueryPair> = revision_selector_query(&RevisionSelectorArgs {
        event: some("event.abc"),
        relative: Some(-1),
        ..selector()
    })
    .unwrap();
    assert_eq!(pairs[0].key, "eventId");
    assert_eq!(pairs[1].value, "-1");
}

#[test]
fn candidates_are_asked_for_by_repository() {
    let wanted = CandidateArgs {
        zone: "z".to_string(),
        level: "preview".to_string(),
        repo: None,
        sha: None,
        reference: None,
        tag: None,
        capability: some("c"),
    };
    let call = current(&wanted, &in_repository()).unwrap();
    assert_eq!(
        call.path,
        "/zones/z/candidates/preview?repo=example%2Fhere&sha=abc123&ref=v1.0.0&capability=c"
    );
    let alone = Surroundings { zone: None, remote: None, tag: None, sha: None, branch: None };
    assert_eq!(
        current(&wanted, &alone).unwrap_err(),
        "--repo is required when git remote origin cannot be detected"
    );
}

fn configured() -> Matrix {
    Matrix {
        config_path: "/tmp/c.json".to_string(),
        config: Config::default(),
        environment: Environment {
            profile: None,
            construct: None,
            api_prefix: None,
            token: None,
            token_file: None,
            token_command: None,
            sql_init: None,
            sql_packs: None,
            cache_policy: None,
            max_facts: None,
        },
        profile: None,
        construct: some("https://c"),
        api_prefix: "/v1/matrix".to_string(),
        output: OutputFormat::Human,
    }
}

#[test]
fn the_program_reports_on_itself() {
    let reached = doctor(&configured(), Json::Null, &Reach::Reached);
    assert_eq!(show(&reached)["reachable"], true);
    let failed = show(&doctor(&configured(), Json::Null, &Reach::Failed("down".to_string())));
    assert_eq!(failed["reachable"], false);
    assert_eq!(failed["reachability"]["error"], "down");
    let unset = show(&doctor(&configured(), Json::Null, &Reach::Unset));
    assert_eq!(unset["reachability"]["error"], "no construct configured");
    assert_eq!(show(&red_pill(reached, None))["overview"], Value::Null);
    assert_eq!(show(&blue_pill(Json::Null))["mode"], "blue-pill");
    let status = show(&session_status(
        &configured(),
        &session(),
        &SessionFacts {
            context: Json::object(),
            fact_count: 3,
            refreshed_seconds: Some(9),
            cache: Json::Null,
        },
    ));
    assert_eq!(status["mode"], "human");
    assert_eq!(status["refreshed"], "9s ago");
    assert_eq!(status["facts"], 3);
    assert_eq!(session_greeting(3), "Loaded 3 facts into the local session.");
    assert!(is_cache_file("x.sqlite"));
    assert!(!is_cache_file("x.txt"));
}

#[test]
fn piped_text_is_trimmed_and_needed() {
    assert_eq!(stdin_text("  {\"id\":1}\n").unwrap(), "{\"id\":1}");
    assert_eq!(stdin_text(" \n\t").unwrap_err(), "stdin was empty");
}

#[test]
fn a_why_in_the_shell_has_no_hint() {
    let answer = show(&why_kind(j("{\"kind\":\"graph-works-with\",\"found\":true}")));
    assert_eq!(answer["kind"], "graph-why");
    assert_eq!(answer["found"], true);
    assert!(answer.get("hint").is_none());
}

#[test]
fn plain_sql_is_kept() {
    for sql in [
        "select id, zone, status from facts order by accepted_at desc limit 25",
        "select count(*) from components c where c.status = 'failed' and 'a=b' <> 'c'",
        "with x as (select 1 as n) select n from x where n >= 1",
    ] {
        assert_eq!(normalize_matrix_sql(sql), sql);
    }
}

#[test]
fn normalizing_twice_is_normalizing_once() {
    for sql in [
        "select * from zone where type==service and status==valid",
        "select * from x where c.status != invalid and version=1.0 and repo == a/b",
        "select * from x where status = type = y, kind=='a''b'",
        "select * from x where status = (select 1) and status=\"valid",
    ] {
        let once = normalize_matrix_sql(sql);
        assert_eq!(normalize_matrix_sql(&once), once);
    }
}
