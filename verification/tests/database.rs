//! Facts in a database: the tables, the views and the queries run as they are written.
use matrix::cache::{
    CACHE_ENTRIES_SQL, CACHE_ENTRY_SQL, CACHE_TABLE_SQL, CacheEntry, FactCacheMetadata,
    read_fact_cache_metadata, write_fact_cache_metadata,
};
use matrix::config::{ConfigProfile, OutputFormat};
use matrix::context::{ContextArgs, MatrixContext, Surroundings};
use matrix::context::{active_context_where, infer_context_zone_sql};
use matrix::facts::insert_facts;
use matrix::graph::{AliasRow, GraphEdge, GraphIndex, NodeRow, graph_key};
use matrix::graph_query::{self, GraphQlCall, parse_graphql_variables, plan_graphql_document};
use matrix::human::graph_answer_human_text;
use matrix::inventory;
use matrix::ingest::{Source, default_zone};
use matrix::json::Json;
use matrix::junit;
use matrix::queries::{
    self, ComponentQueryOptions, ContextView, FactView, SqlCell, fact_view_sql, query_result_value,
    readonly_sql, row_value,
};
use matrix::repl::parse_command;
use matrix::reports::CONTEXT_SQL;
use matrix::sbom;
use matrix::session::{ReplAction, ReplState};
use matrix::stages::{JunitFile, Request, normalize};
use matrix::views::{
    self, FACTS_TABLE_SQL, FACT_ZONES_SQL, GRAPH_ALIASES_SQL, GRAPH_EDGES_SQL, GRAPH_NODES_SQL,
    INSERT_FACT_SQL, MATRIX_VIEWS_SQL, VIEW_NAMES_SQL,
};
use rusqlite::types::ValueRef;
use rusqlite::{Connection, Row, params_from_iter};
use serde_json::Value;

const JUNIT: &str = r#"<?xml version="1.0" encoding="UTF-8"?>
<testsuites>
  <testsuite name="api-contract" tests="2" failures="1" errors="0" skipped="0" time="1.25">
    <testcase name="lists &amp; pages" classname="api.list" time="0.5"/>
    <testcase name="creates" classname="api.create" time="0.75">
      <failure message="expected 201">trace</failure>
    </testcase>
  </testsuite>
</testsuites>"#;

const CYCLONEDX: &str = r#"{
  "bomFormat": "CycloneDX",
  "specVersion": "1.5",
  "metadata": {"component": {"name": "payments-api", "version": "1.2.3"}},
  "components": [
    {
      "type": "library",
      "name": "serde",
      "version": "1.0.219",
      "purl": "pkg:cargo/serde@1.0.219",
      "hashes": [{"alg": "SHA-256", "content": "abc"}]
    }
  ]
}"#;

const TOX: &str = r#"{"testenvs": {
  "py311": {"status": "passed", "retcode": 0},
  "py312": {"retcode": 1}
}}"#;

fn j(text: &str) -> Json {
    Json::parse(text).unwrap()
}

fn v(text: &str) -> Value {
    serde_json::from_str(text).unwrap()
}

fn show(json: &Json) -> Value {
    v(&json.to_text())
}

fn no_context() -> ContextArgs {
    ContextArgs {
        zone: None,
        repo: None,
        component: None,
        tag: None,
        version: None,
        sha: None,
        reference: None,
    }
}

fn alone() -> Surroundings {
    Surroundings { zone: None, remote: None, tag: None, sha: None, branch: None }
}

fn cell(value: ValueRef<'_>) -> SqlCell {
    match value {
        ValueRef::Null => SqlCell::Null,
        ValueRef::Integer(n) => SqlCell::Integer(n),
        ValueRef::Real(x) => SqlCell::Real(serde_json::to_string(&x).unwrap()),
        ValueRef::Text(t) => SqlCell::Text(String::from_utf8_lossy(t).to_string()),
        ValueRef::Blob(b) => SqlCell::Blob(b.to_vec()),
    }
}

fn query(db: &Connection, sql: &str) -> Result<Json, String> {
    let sql = readonly_sql(sql)?;
    let mut stmt = db.prepare(&sql).map_err(|error| error.to_string())?;
    let columns: Vec<String> = stmt.column_names().map(|name| name.to_string()).collect();
    let rows = stmt
        .query_map([], |row| {
            let mut cells = Vec::new();
            for index in 0..columns.len() {
                cells.push(cell(row.get_ref(index)?));
            }
            Ok(row_value(&columns, &cells))
        })
        .map_err(|error| error.to_string())?
        .collect::<Result<Vec<_>, _>>()
        .map_err(|error| error.to_string())?;
    Ok(query_result_value(&columns, rows))
}

fn execute_readonly_sql(db: &Connection, sql: &str) -> Result<Value, String> {
    query(db, sql).map(|json| show(&json))
}

fn names(db: &Connection, sql: &str) -> Vec<String> {
    let mut stmt = db.prepare(sql).unwrap();
    let rows = stmt.query_map([], |row| row.get::<_, String>(0)).unwrap();
    rows.map(|row| row.unwrap()).collect()
}

fn build_facts_db(facts: &Vec<Json>, context: &MatrixContext) -> Result<Connection, String> {
    build_facts_db_with_init(facts, context, None)
}

fn build_facts_db_with_init(
    facts: &Vec<Json>,
    context: &MatrixContext,
    sql_init: Option<&str>,
) -> Result<Connection, String> {
    let db = Connection::open_in_memory().unwrap();
    db.execute_batch(FACTS_TABLE_SQL).unwrap();
    for row in insert_facts(facts) {
        db.execute(
            INSERT_FACT_SQL,
            params_from_iter([
                row.id.clone(),
                row.zone.clone(),
                row.kind.clone(),
                row.status.clone(),
                row.subject_type.clone(),
                row.component.clone(),
                row.canonical_component.clone(),
                row.identity.clone(),
                row.subject_class.clone(),
                row.version.clone(),
                row.repo.clone(),
                row.source_repo.clone(),
                row.source_repo.clone(),
                row.source_sha.clone(),
                row.source_ref.clone(),
                row.subject_type.clone(),
                row.subject_name.clone(),
                row.channel.clone(),
                row.tag.clone(),
                row.observed_at.clone(),
                row.accepted_at.clone(),
                row.requirements.clone(),
                row.provides.clone(),
                row.aliases.clone(),
                Some(row.json.clone()),
            ]),
        )
        .unwrap();
    }
    for name in names(&db, VIEW_NAMES_SQL) {
        if let Some(sql) = views::drop_view_sql(&name) {
            db.execute_batch(&sql).unwrap();
        }
    }
    let zones = names(&db, FACT_ZONES_SQL);
    db.execute_batch(MATRIX_VIEWS_SQL).unwrap();
    let inferred = db
        .query_row(&infer_context_zone_sql(&active_context_where(context)), [], |row| {
            row.get::<_, String>(0)
        })
        .ok();
    for statement in views::create_matrix_views(context, &inferred, &zones) {
        db.execute_batch(&statement).unwrap();
    }
    if let Some(sql) = sql_init {
        let plan = views::apply_sql_init(sql);
        for statement in &plan.statements {
            db.execute_batch(statement).map_err(|error| error.to_string())?;
        }
        if plan.refused {
            return Err(views::init_refused_message());
        }
    }
    Ok(db)
}

fn view_zone(db: &Connection) -> Option<String> {
    db.query_row("select zone from context limit 1", [], |row| row.get::<_, Option<String>>(0))
        .ok()
        .flatten()
}

fn components_query_sql(
    db: &Connection,
    context: &MatrixContext,
    options: ComponentQueryOptions,
    limit: usize,
) -> String {
    queries::components_query_sql(context, &view_zone(db), &options, limit)
}

fn versions_query_sql(
    db: &Connection,
    context: &MatrixContext,
    component: Option<&str>,
    options: ComponentQueryOptions,
    limit: usize,
) -> String {
    let component = component.map(|name| name.to_string());
    queries::versions_query_sql(context, &view_zone(db), &component, &options, limit)
}

fn context_view_sql(view: ContextView, limit: usize) -> String {
    queries::context_view_sql(view, limit)
}

fn compare_query_sql(target: &str, version: Option<&str>, limit: usize) -> String {
    queries::compare_query_sql(target, &version.map(|v| v.to_string()), limit)
}

fn producer_inventory_value(
    db: &Connection,
    context: &MatrixContext,
    limit: usize,
    stale_days: i64,
) -> Result<Value, String> {
    let result = query(db, &inventory::producer_inventory_sql(context, limit, stale_days))?;
    Ok(show(&inventory::producer_inventory_value(&result, stale_days)))
}

fn text(row: &Row<'_>, index: usize) -> Option<String> {
    row.get::<_, Option<String>>(index).unwrap()
}

fn graph_of(db: &Connection) -> GraphIndex {
    let mut graph = GraphIndex::new();
    let mut stmt = db.prepare(GRAPH_NODES_SQL).unwrap();
    let nodes = stmt
        .query_map([], |row| {
            Ok(NodeRow {
                component: row.get(0)?,
                identity: text(row, 2),
                subject_name: text(row, 3),
                repo: text(row, 4),
                version: text(row, 5),
                status: text(row, 6),
                last_observed_at: text(row, 7),
            })
        })
        .unwrap()
        .map(|row| row.unwrap())
        .collect();
    let mut stmt = db.prepare(GRAPH_ALIASES_SQL).unwrap();
    let aliases = stmt
        .query_map([], |row| {
            Ok(AliasRow {
                identity: text(row, 0),
                canonical_component: text(row, 1),
                subject_name: text(row, 2),
                repo: text(row, 3),
                alias: row.get(4)?,
            })
        })
        .unwrap()
        .map(|row| row.unwrap())
        .collect();
    graph.load_nodes(nodes, aliases);
    let mut stmt = db.prepare(GRAPH_EDGES_SQL).unwrap();
    let edges = stmt
        .query_map([], |row| {
            Ok(GraphEdge {
                source: graph_key(&row.get::<_, String>(0)?),
                target: graph_key(&row.get::<_, String>(1)?),
                relationship: row.get(2)?,
                capability: text(row, 3),
                capability_version: text(row, 4),
                source_version: text(row, 5),
                target_version: text(row, 6),
                source_fact_id: text(row, 7),
                target_fact_id: text(row, 8),
                status: text(row, 9),
                observed_at: text(row, 10),
            })
        })
        .unwrap()
        .map(|row| row.unwrap())
        .collect();
    graph.load_edges(edges);
    graph
}

/// The inventories that a document asks for, each at the place of its field.
fn inventories(
    db: &Connection,
    document: &str,
    vars: &Json,
    limit: usize,
) -> Result<Vec<Json>, String> {
    let plan = plan_graphql_document(document, vars, limit)?;
    let mut out = Vec::new();
    for call in &plan.calls {
        out.push(match call {
            GraphQlCall::Producers { limit, stale_days } => query(
                db,
                &inventory::producer_inventory_sql(
                    &MatrixContext::empty(),
                    *limit,
                    *stale_days,
                ),
            )?,
            _ => Json::Null,
        });
    }
    Ok(out)
}

fn execute_graphql_document(
    db: &Connection,
    graph: &GraphIndex,
    document: &str,
    vars: &Json,
    limit: usize,
) -> Result<Value, String> {
    let found = inventories(db, document, vars, limit)?;
    graph_query::execute_graphql_document(graph, document, vars, limit, &found)
        .map(|answer| show(&answer))
}

fn graph_fixture_facts() -> Vec<Json> {
    vec![
        j(r#"{
            "id": "aphrodite.1.2.0",
            "track": "odin",
            "status": "passed",
            "subject": {"type": "service", "name": "aphrodite", "version": "1.2.0", "repo": "red-wiz/aphrodite"},
            "requires": [
                {"capability": "eos-platform", "version": "24.6"},
                {"capability": "putto-client", "version": "0.8"}
            ]
        }"#),
        j(r#"{
            "id": "eos.24.6.0",
            "track": "odin",
            "status": "passed",
            "subject": {"type": "release-bundle", "name": "eos", "version": "24.6.0", "repo": "red-wiz/eos"},
            "provides": [{"capability": "eos-platform", "version": "24.6"}],
            "members": [
                {"component": "eunomia", "version": "3.1.0"},
                {"component": "aglaea", "version": "5.0.0"},
                {"component": "athena", "version": "2.4.0"}
            ]
        }"#),
        j(r#"{
            "id": "eunomia.3.1.0",
            "track": "odin",
            "status": "passed",
            "subject": {"type": "service", "name": "eunomia", "version": "3.1.0", "repo": "red-wiz/eunomia"}
        }"#),
        j(r#"{
            "id": "putto.0.8.1",
            "track": "odin",
            "status": "passed",
            "subject": {"type": "service", "name": "putto", "version": "0.8.1", "repo": "red-wiz/putto"},
            "provides": [{"capability": "putto-client", "version": "0.8"}]
        }"#),
    ]
}

fn graph_fixture_db() -> Connection {
    let facts = graph_fixture_facts();
    build_facts_db(&facts, &MatrixContext::empty()).unwrap()
}

fn graph_fixture() -> GraphIndex {
    let db = graph_fixture_db();
    graph_of(&db)
}

#[test]
fn creates_contextual_zone_view() {
    let facts = vec![
        j(r#"{
            "id": "payments-api",
            "track": "runtime",
            "status": "candidate",
            "source": {"repo": "example/payments-api"},
            "subject": {"type": "npm", "name": "@example/payments-sdk", "version": "0.6.12", "repo": "example/payments-api"}
        }"#),
        j(r#"{
            "id": "did",
            "track": "runtime",
            "status": "observed",
            "subject": {"type": "chaincode", "name": "identity_contract", "version": "0.4.8", "repo": "example/identity-contracts"}
        }"#),
        j(r#"{
            "id": "other",
            "track": "sdk",
            "status": "observed",
            "subject": {"type": "chaincode", "name": "other", "version": "1.0.0", "repo": "example/other"}
        }"#),
    ];
    let db = build_facts_db(
        &facts,
        &MatrixContext {
            repo: Some("example/payments-api".to_string()),
            ..MatrixContext::empty()
        },
    )
    .unwrap();
    let result = execute_readonly_sql(
        &db,
        "select component, version from zone where type==chaincode order by component",
    )
    .unwrap();
    assert_eq!(result["rows"].as_array().unwrap().len(), 1);
    assert_eq!(result["rows"][0]["component"], "identity_contract");
}

#[test]
fn exposes_one_shot_context_views() {
    let facts = vec![
        j(r#"{
            "id": "payments-api-1",
            "zone": "runtime",
            "status": "valid",
            "subject": {"type": "app", "name": "payments-api", "version": "v0.6.3", "repo": "example/payments-api"},
            "observedAt": "2026-06-18T00:00:00Z",
            "provides": [{"capability": "cap.payments-api", "version": "1"}],
            "requires": [{"capability": "cap.auth-service", "version": "2"}]
        }"#),
        j(r#"{
            "id": "auth-service-1",
            "zone": "runtime",
            "status": "valid",
            "subject": {"type": "service", "name": "auth-service", "version": "v1.2.0", "repo": "example/auth-service"},
            "observedAt": "2026-06-18T00:01:00Z",
            "provides": [{"capability": "cap.auth-service", "version": "2"}]
        }"#),
        j(r#"{
            "id": "ledger-service-1",
            "zone": "runtime",
            "status": "valid",
            "subject": {"type": "service", "name": "ledger-service", "version": "v2.0.0", "repo": "example/ledger-service"},
            "observedAt": "2026-06-18T00:02:00Z",
            "requires": [{"capability": "cap.payments-api", "version": "1"}]
        }"#),
    ];
    let context = MatrixContext::detect(ContextArgs {
        zone: Some("runtime".to_string()),
        repo: Some("example/payments-api".to_string()),
        component: Some("payments-api".to_string()),
        version: Some("v0.6.3".to_string()),
        ..no_context()
    }, &alone());
    let db = build_facts_db_with_init(&facts, &context, None).unwrap();

    let components = execute_readonly_sql(
        &db,
        &components_query_sql(&db, &context, ComponentQueryOptions::default(), 10),
    )
    .unwrap();
    assert_eq!(components["rows"].as_array().unwrap().len(), 1);
    assert_eq!(components["rows"][0]["component"], "payments-api");

    let versions = execute_readonly_sql(
        &db,
        &versions_query_sql(
            &db,
            &context,
            Some("payments-api"),
            ComponentQueryOptions::default(),
            10,
        ),
    )
    .unwrap();
    assert_eq!(versions["rows"][0]["version"], "v0.6.3");

    let upstream =
        execute_readonly_sql(&db, &context_view_sql(ContextView::Upstream, 10)).unwrap();
    assert_eq!(upstream["rows"][0]["component"], "auth-service");

    let compatible =
        execute_readonly_sql(&db, &context_view_sql(ContextView::Compatible, 10)).unwrap();
    assert_eq!(compatible["rows"][0]["component"], "ledger-service");

    let compare_ledger_service =
        execute_readonly_sql(&db, &compare_query_sql("example/ledger-service", None, 10))
            .unwrap();
    assert_eq!(
        compare_ledger_service["rows"][0]["relationship"],
        "target_requires_current"
    );
    assert_eq!(
        compare_ledger_service["rows"][0]["target_component"],
        "ledger-service"
    );
    assert_eq!(
        compare_ledger_service["rows"][0]["capability"],
        "cap.payments-api"
    );

    let compare_auth_service =
        execute_readonly_sql(&db, &compare_query_sql("auth-service", Some("v1.2.0"), 10))
            .unwrap();
    assert_eq!(
        compare_auth_service["rows"][0]["relationship"],
        "current_requires_target"
    );
    assert_eq!(
        compare_auth_service["rows"][0]["target_subject"],
        "auth-service"
    );
    assert_eq!(
        compare_auth_service["rows"][0]["capability"],
        "cap.auth-service"
    );
}

#[test]
fn filters_dependency_subjects_from_default_component_views() {
    let facts = vec![j(r#"{
        "id": "dep-core",
        "zone": "runtime",
        "status": "observed",
        "subject": {
            "type": "npm-dependency",
            "name": "@credo-ts/core",
            "version": "0.6.3",
            "repo": "example/web-client"
        },
        "observedAt": "2026-06-18T00:00:00Z"
    }"#)];
    let context = MatrixContext::detect(ContextArgs {
        repo: Some("example/web-client".to_string()),
        ..no_context()
    }, &alone());
    let db = build_facts_db_with_init(&facts, &context, None).unwrap();

    let default_components = execute_readonly_sql(
        &db,
        &components_query_sql(&db, &context, ComponentQueryOptions::default(), 10),
    )
    .unwrap();
    assert!(default_components["rows"].as_array().unwrap().is_empty());

    let dependency_components = execute_readonly_sql(
        &db,
        &components_query_sql(
            &db,
            &context,
            ComponentQueryOptions {
                include_dependencies: true,
                ..ComponentQueryOptions::default()
            },
            10,
        ),
    )
    .unwrap();
    assert_eq!(dependency_components["rows"][0]["component"], "core");
    assert_eq!(
        dependency_components["rows"][0]["subject_name"],
        "@credo-ts/core"
    );

    let typed_components = execute_readonly_sql(
        &db,
        &components_query_sql(
            &db,
            &context,
            ComponentQueryOptions {
                type_filter: Some("npm-dependency".to_string()),
                ..ComponentQueryOptions::default()
            },
            10,
        ),
    )
    .unwrap();
    assert_eq!(
        typed_components["rows"][0]["subject_name"],
        "@credo-ts/core"
    );
}

#[test]
fn exposes_canonical_identity_and_alias_matching() {
    let facts = vec![j(r#"{
        "id": "dep-core",
        "zone": "runtime",
        "status": "observed",
        "subject": {
            "type": "npm-dependency",
            "name": "@credo-ts/core",
            "version": "0.6.3",
            "repo": "example/web-client",
            "aliases": ["credo-core"]
        },
        "observedAt": "2026-06-18T00:00:00Z"
    }"#)];
    let context = MatrixContext {
        component: Some("credo-core".to_string()),
        ..MatrixContext::empty()
    };
    let db = build_facts_db_with_init(&facts, &context, None).unwrap();

    let identities = execute_readonly_sql(
        &db,
        "select identity, canonical_component, subject_class from identities",
    )
    .unwrap();
    assert_eq!(
        identities["rows"][0]["identity"],
        "npm-dependency:@credo-ts/core"
    );
    assert_eq!(identities["rows"][0]["canonical_component"], "core");
    assert_eq!(identities["rows"][0]["subject_class"], "dependency");

    let aliases = execute_readonly_sql(
        &db,
        "select alias from identity_aliases where identity = 'npm-dependency:@credo-ts/core' order by alias",
    )
    .unwrap();
    let alias_values = aliases["rows"]
        .as_array()
        .unwrap()
        .iter()
        .map(|row| row["alias"].as_str().unwrap())
        .collect::<Vec<_>>();
    assert!(alias_values.contains(&"@credo-ts/core"));
    assert!(alias_values.contains(&"core"));
    assert!(alias_values.contains(&"credo-core"));

    let active =
        execute_readonly_sql(&db, "select subject_name, identity from active").unwrap();
    assert_eq!(active["rows"].as_array().unwrap().len(), 1);
    assert_eq!(active["rows"][0]["subject_name"], "@credo-ts/core");
}

#[test]
fn filters_active_context_by_version_and_component_key() {
    let facts = vec![
        j(r#"{
            "id": "ledger-service-1",
            "track": "runtime",
            "status": "candidate",
            "subject": {"type": "npm", "name": "@example/ledger-service", "version": "0.19.1", "repo": "example/ledger-service"}
        }"#),
        j(r#"{
            "id": "ledger-service-2",
            "track": "runtime",
            "status": "candidate",
            "subject": {"type": "npm", "name": "@example/ledger-service", "version": "0.19.2", "repo": "example/ledger-service"}
        }"#),
    ];
    let db = build_facts_db(
        &facts,
        &MatrixContext {
            repo: Some("example/ledger-service".to_string()),
            component: Some("ledger-service".to_string()),
            version: Some("0.19.2".to_string()),
            ..MatrixContext::empty()
        },
    )
    .unwrap();
    let result =
        execute_readonly_sql(&db, "select id, component, version from active").unwrap();
    assert_eq!(result["rows"].as_array().unwrap().len(), 1);
    assert_eq!(result["rows"][0]["id"], "ledger-service-2");
    assert_eq!(result["rows"][0]["component"], "ledger-service");
}

#[test]
fn flattens_construct_wrapped_facts() {
    let facts = vec![
        j(r#"{
            "acceptedAt": "2026-06-17T21:49:24.064Z",
            "id": "chaincode.profile_contract.0.2.9.6d562df953ec",
            "kind": "CompatibilityFact",
            "source": {"repository": "example/contract-service"},
            "track": "runtime",
            "fact": {
                "id": "chaincode.profile_contract.0.2.9.6d562df953ec",
                "kind": "CompatibilityFact",
                "observedAt": "2026-06-17T21:49:21.392Z",
                "source": {
                    "ref": "refs/tags/v0.2.9",
                    "repo": "example/contract-service",
                    "sha": "6d562df953eca829f918a6ea956482f761dccba8"
                },
                "status": "candidate",
                "subject": {
                    "name": "profile_contract",
                    "repo": "example/contract-service",
                    "type": "chaincode",
                    "version": "0.2.9"
                },
                "track": "runtime"
            }
        }"#),
        j(r#"{
            "acceptedAt": "2026-06-17T21:49:24.133Z",
            "id": "validation.runtime.profile_contract.0.2.9",
            "kind": "ValidationFact",
            "track": "runtime",
            "fact": {
                "id": "validation.runtime.profile_contract.0.2.9",
                "kind": "ValidationFact",
                "observedAt": "2026-06-17T21:49:21.392Z",
                "source": {
                    "repo": "example/contract-service",
                    "sha": "6d562df953eca829f918a6ea956482f761dccba8"
                },
                "status": "not-run",
                "track": "runtime"
            }
        }"#),
    ];
    let db = build_facts_db(
        &facts,
        &MatrixContext {
            zone: Some("runtime".to_string()),
            ..MatrixContext::empty()
        },
    )
    .unwrap();
    let result = execute_readonly_sql(
        &db,
        "select component, version, repo, source_sha, status, observed_at, accepted_at from zone where type==chaincode and status==valid",
    )
    .unwrap();
    assert_eq!(result["rows"].as_array().unwrap().len(), 1);
    assert_eq!(result["rows"][0]["component"], "profile_contract");
    assert_eq!(result["rows"][0]["version"], "0.2.9");
    assert_eq!(result["rows"][0]["repo"], "example/contract-service");
    assert_eq!(
        result["rows"][0]["source_sha"],
        "6d562df953eca829f918a6ea956482f761dccba8"
    );
    assert_eq!(result["rows"][0]["status"], "candidate");
    assert_eq!(result["rows"][0]["observed_at"], "2026-06-17T21:49:21.392Z");
    assert_eq!(result["rows"][0]["accepted_at"], "2026-06-17T21:49:24.064Z");
}

#[test]
fn supports_nested_capability_queries() {
    let facts = vec![
        j(r#"{
            "id": "auth-service",
            "track": "runtime",
            "status": "passed",
            "subject": {"type": "npm", "name": "@example/auth-service", "version": "1.2.3", "repo": "example/auth-service"},
            "provides": [{"capability": "native-askar", "version": "1.2.3"}]
        }"#),
        j(r#"{
            "id": "ledger-service",
            "track": "runtime",
            "status": "candidate",
            "subject": {"type": "service", "name": "ledger-service", "version": "2.0.0", "repo": "example/ledger-service"},
            "requires": [{"capability": "native-askar", "version": "1.2.3"}]
        }"#),
    ];
    let db = build_facts_db(
        &facts,
        &MatrixContext {
            zone: Some("runtime".to_string()),
            ..MatrixContext::empty()
        },
    )
    .unwrap();
    let result = execute_readonly_sql(
        &db,
        "select id, component from runtime
         where repo==example/ledger-service
           and exists (
             select 1 from requirements r
             where r.fact_id = runtime.id
               and r.capability in (
                 select p.capability from capabilities p
                 where p.repo==example/auth-service and p.status==passed
               )
           )",
    )
    .unwrap();
    assert_eq!(result["rows"].as_array().unwrap().len(), 1);
    assert_eq!(result["rows"][0]["component"], "ledger-service");
}

#[test]
fn graph_finds_implicit_paths_through_release_bundles() {
    let graph = graph_fixture();

    let path = show(&graph.path_answer("aphrodite", "eunomia", 5));
    assert_eq!(path["found"], true);
    assert_eq!(path["paths"][0]["nodes"][0]["component"], "aphrodite");
    assert_eq!(path["paths"][0]["nodes"][1]["component"], "eos");
    assert_eq!(path["paths"][0]["nodes"][2]["component"], "eunomia");
    assert_eq!(path["paths"][0]["edges"][0]["relationship"], "requires");
    assert_eq!(path["paths"][0]["edges"][1]["relationship"], "contains");

    let siblings = show(&graph.path_answer("aglaea", "athena", 5));
    assert_eq!(siblings["found"], true);
    assert_eq!(
        siblings["paths"][0]["edges"][0]["relationship"],
        "member-of"
    );
    assert_eq!(siblings["paths"][0]["edges"][1]["relationship"], "contains");
}

#[test]
fn graph_answers_works_with_and_versions_for() {
    let graph = graph_fixture();

    let works_with = show(&graph.works_with_answer("putto", "aphrodite", 5));
    assert_eq!(works_with["compatible"], true);
    assert_eq!(works_with["direction"], "right_to_left");
    assert_eq!(
        works_with["paths"][0]["edges"][0]["capability"],
        "putto-client"
    );

    let versions = show(&graph.versions_for_answer("eunomia", "aphrodite", 5));
    assert_eq!(versions["versions"], v(r#"["3.1.0"]"#));
    assert_eq!(versions["versionCandidates"][0]["confidence"], "medium");
}

#[test]
fn graph_paths_include_ranked_confidence() {
    let graph = graph_fixture();

    let path = show(&graph.path_answer("aphrodite", "eunomia", 5));
    assert_eq!(path["confidence"], "medium");
    assert_eq!(path["recommended"]["confidence"], "medium");
    assert!(path["paths"][0]["score"].as_i64().unwrap() > 0);
    assert!(
        path["paths"][0]["reasons"]
            .as_array()
            .unwrap()
            .iter()
            .any(|reason| reason == "inferred multi-hop path")
    );
}

#[test]
fn native_graphql_binds_variables_and_projects_selection() {
    let db = graph_fixture_db();
    let graph = graph_of(&db);
    let vars = parse_graphql_variables(&vec![
        "component=eunomia".to_string(),
        "for=aphrodite".to_string(),
    ])
    .unwrap();
    let value = execute_graphql_document(
        &db,
        &graph,
        "query Matrix($component:String!,$for:String!) {
            versions(component:$component, for:$for) {
                versions
                versionCandidates { version confidence score }
            }
        }",
        &vars,
        5,
    )
    .unwrap();

    assert_eq!(value["kind"], "graphql-result");
    assert_eq!(value["data"]["versions"]["versions"], v(r#"["3.1.0"]"#));
    assert_eq!(
        value["data"]["versions"]["versionCandidates"][0],
        v(r#"{"version": "3.1.0", "confidence": "medium", "score": 119}"#)
    );
    assert!(value["data"]["versions"].get("kind").is_none());
}

#[test]
fn native_graphql_supports_aliases_paths_and_producers() {
    let db = graph_fixture_db();
    let graph = graph_of(&db);
    let value = execute_graphql_document(
        &db,
        &graph,
        "{
            aphroditePath: path(from:\"aphrodite\", to:\"eunomia\", limit:1) {
                status
                paths { confidence nodes { component version } }
            }
            producers(limit:10) { summary { producers facts } rows { producer facts freshness } }
        }",
        &Json::object(),
        5,
    )
    .unwrap();

    assert_eq!(value["data"]["aphroditePath"]["status"], "connected");
    assert_eq!(
        value["data"]["aphroditePath"]["paths"][0]["nodes"][1]["component"],
        "eos"
    );
    assert_eq!(value["data"]["producers"]["summary"]["facts"], 4);
    assert!(
        value["data"]["producers"]["rows"]
            .as_array()
            .unwrap()
            .iter()
            .any(|row| row["producer"] == "red-wiz/putto")
    );
}

#[test]
fn native_graphql_reports_missing_variables_and_unknown_fields() {
    let db = graph_fixture_db();
    let graph = graph_of(&db);
    let missing = execute_graphql_document(
        &db,
        &graph,
        "{ versions(component:$component, for:\"aphrodite\") { versions } }",
        &Json::object(),
        5,
    )
    .unwrap_err();
    assert!(missing.contains("missing GraphQL variable $component"));

    let unsupported = execute_graphql_document(
        &db,
        &graph,
        "{ ask(question:\"no\") { answer } }",
        &Json::object(),
        5,
    )
    .unwrap_err();
    assert!(unsupported.contains("unsupported GraphQL root field"));
}

#[test]
fn producer_inventory_summarizes_fact_sources() {
    let facts = vec![
        j(r#"{
            "id": "producer-a-1",
            "track": "odin",
            "status": "passed",
            "sourceRepository": "red-wiz/aphrodite",
            "observedAt": "2026-06-28T00:00:00Z",
            "subject": {"type": "service", "name": "aphrodite", "version": "1.2.0", "repo": "red-wiz/aphrodite"}
        }"#),
        j(r#"{
            "id": "producer-a-2",
            "track": "odin",
            "status": "failed",
            "sourceRepository": "red-wiz/aphrodite",
            "observedAt": "2026-06-28T00:01:00Z",
            "subject": {"type": "service", "name": "eos", "version": "24.6.0", "repo": "red-wiz/eos"}
        }"#),
        j(r#"{
            "id": "producer-b-1",
            "track": "odin",
            "status": "passed",
            "source": {"repo": "red-wiz/putto"},
            "observedAt": "2026-06-28T00:02:00Z",
            "subject": {"type": "service", "name": "putto", "version": "0.8.1", "repo": "red-wiz/putto"}
        }"#),
        j(r#"{
            "id": "producer-c-1",
            "track": "runtime",
            "status": "passed",
            "observedAt": "2026-06-28T00:03:00Z",
            "subject": {"type": "service", "name": "athena", "version": "4.0.0", "repo": "red-wiz/athena"}
        }"#),
    ];
    let db = build_facts_db(&facts, &MatrixContext::empty()).unwrap();
    let value = producer_inventory_value(&db, &MatrixContext::empty(), 10, 14).unwrap();

    assert_eq!(value["kind"], "producer-inventory");
    assert_eq!(value["summary"]["producers"], 3);
    assert_eq!(value["summary"]["facts"], 4);
    assert_eq!(value["summary"]["sourceRepoFacts"], 3);
    assert_eq!(value["summary"]["inferredSubjectRepoFacts"], 1);
    assert_eq!(value["summary"]["missingProducerMetadataFacts"], 1);
    assert_eq!(value["rows"][0]["producer"], "red-wiz/athena");
    assert_eq!(
        value["rows"][0]["producer_metadata"],
        "inferred-subject-repo"
    );
    assert_eq!(value["rows"][2]["invalid_facts"], 1);

    let odin = producer_inventory_value(
        &db,
        &MatrixContext {
            zone: Some("odin".to_string()),
            ..MatrixContext::empty()
        },
        10,
        14,
    )
    .unwrap();
    assert_eq!(odin["summary"]["producers"], 2);
    assert_eq!(odin["summary"]["facts"], 3);
    assert_eq!(odin["summary"]["missingProducerMetadataFacts"], 0);
}

#[test]
fn graph_resolve_explains_alias_matches() {
    let graph = graph_fixture();

    let answer = graph.resolve_answer("red-wiz/eunomia");
    let resolved = show(&answer);
    assert_eq!(resolved["kind"], "graph-resolve");
    assert_eq!(resolved["resolved"]["component"], "eunomia");
    assert_eq!(resolved["matches"][0]["aliasKinds"], v(r#"["repo"]"#));

    let text = graph_answer_human_text(&answer);
    assert!(text.contains("Resolve: red-wiz/eunomia -> eunomia 3.1.0"));
    assert!(text.contains("through repo"));
}

#[test]
fn renders_graph_answers_as_readable_human_text() {
    let graph = graph_fixture();
    let path = graph.path_answer("aphrodite", "eunomia", 5);
    let text = graph_answer_human_text(&path);

    assert!(text.starts_with("Path: connected"));
    assert!(text.contains("aphrodite 1.2.0 -> eos 24.6.0 -> eunomia 3.1.0"));
    assert!(text.contains("aphrodite 1.2.0 requires eos 24.6.0 via eos-platform 24.6"));
}

#[test]
fn exposes_context_aware_dependency_views() {
    let facts = vec![
        j(r#"{
            "id": "auth-service",
            "track": "runtime",
            "status": "passed",
            "subject": {"type": "npm", "name": "@example/auth-service", "version": "1.2.3", "repo": "example/auth-service"},
            "provides": [{"capability": "native-askar", "version": "1.2.3"}]
        }"#),
        j(r#"{
            "id": "ledger-service",
            "track": "runtime",
            "status": "candidate",
            "subject": {"type": "service", "name": "ledger-service", "version": "2.0.0", "repo": "example/ledger-service"},
            "requires": [{"capability": "native-askar", "version": "1.2.3"}]
        }"#),
    ];

    let ledger_service_db = build_facts_db(
        &facts,
        &MatrixContext {
            repo: Some("example/ledger-service".to_string()),
            ..MatrixContext::empty()
        },
    )
    .unwrap();
    let upstream = execute_readonly_sql(
        &ledger_service_db,
        "select component, version from upstream",
    )
    .unwrap();
    assert_eq!(upstream["rows"].as_array().unwrap().len(), 1);
    assert_eq!(upstream["rows"][0]["component"], "auth-service");

    let auth_service_db = build_facts_db(
        &facts,
        &MatrixContext {
            repo: Some("example/auth-service".to_string()),
            ..MatrixContext::empty()
        },
    )
    .unwrap();
    let downstream = execute_readonly_sql(
        &auth_service_db,
        "select component, version, status from compatible_with_current",
    )
    .unwrap();
    assert_eq!(downstream["rows"].as_array().unwrap().len(), 1);
    assert_eq!(downstream["rows"][0]["component"], "ledger-service");
    assert_eq!(downstream["rows"][0]["status"], "candidate");
}

#[test]
fn exposes_fact_dereference_views() {
    let facts = vec![j(r#"{
        "id": "release-bundle.api.1.0.0",
        "kind": "CompatibilityFact",
        "track": "runtime",
        "status": "observed",
        "subject": {
            "type": "release-bundle",
            "name": "api",
            "version": "0.1.0",
            "repo": "example/matrix-facts"
        },
        "members": [
            {
                "component": "identity_contract",
                "version": "0.4.9",
                "logicalChaincode": "identity_contract",
                "physicalChaincode": "identity_contract_v0_4_9",
                "channel": "dev",
                "network": "obpcs",
                "services": ["did"]
            }
        ],
        "requires": [{"capability": "chaincode:identity_contract", "version": "0.4.9"}],
        "provides": [{"capability": "release-bundle:api", "version": "0.1.0"}]
    }"#)];
    let db = build_facts_db(
        &facts,
        &MatrixContext {
            zone: Some("runtime".to_string()),
            ..MatrixContext::empty()
        },
    )
    .unwrap();

    let members = execute_readonly_sql(
        &db,
        "select component, version, physical_chaincode from members where fact_id==release-bundle.api.1.0.0",
    )
    .unwrap();
    assert_eq!(members["rows"].as_array().unwrap().len(), 1);
    assert_eq!(members["rows"][0]["component"], "identity_contract");
    assert_eq!(
        members["rows"][0]["physical_chaincode"],
        "identity_contract_v0_4_9"
    );

    let deref = execute_readonly_sql(
        &db,
        "select edge, target, target_version from deref where fact_id==release-bundle.api.1.0.0 order by edge",
    )
    .unwrap();
    let rows = deref["rows"].as_array().unwrap();
    assert_eq!(rows.len(), 3);
    assert!(rows.iter().any(|row| row["edge"] == "member"));
    assert!(rows.iter().any(|row| row["edge"] == "requires"));
    assert!(rows.iter().any(|row| row["edge"] == "provides"));

    let command_members = execute_readonly_sql(
        &db,
        &fact_view_sql("release-bundle.api.1.0.0", FactView::Members),
    )
    .unwrap();
    assert_eq!(command_members["rows"].as_array().unwrap().len(), 1);

    let command_deref = execute_readonly_sql(
        &db,
        &fact_view_sql("release-bundle.api.1.0.0", FactView::Deref),
    )
    .unwrap();
    assert_eq!(command_deref["rows"].as_array().unwrap().len(), 3);
}

#[test]
fn applies_custom_sql_init_views() {
    let facts = vec![j(r#"{
        "id": "release-bundle.api.1.0.0",
        "kind": "CompatibilityFact",
        "track": "runtime",
        "status": "observed",
        "subject": {"type": "release-bundle", "name": "api", "version": "0.1.0"},
        "members": [
            {
                "component": "identity_contract",
                "version": "0.4.9",
                "physicalChaincode": "identity_contract_v0_4_9"
            }
        ]
    }"#)];
    let db = build_facts_db_with_init(
        &facts,
        &MatrixContext::empty(),
        Some(
            "-- Matrix local shortcuts\n\
             create view api_bundle as\n\
             select component, version, physical_chaincode\n\
             from members\n\
             where fact_id = 'release-bundle.api.1.0.0';",
        ),
    )
    .unwrap();
    let result = execute_readonly_sql(&db, "select * from api_bundle").unwrap();
    assert_eq!(result["rows"].as_array().unwrap().len(), 1);
    assert_eq!(result["rows"][0]["component"], "identity_contract");
}

#[test]
fn applies_sql_pack_views() {
    let facts = vec![j(r#"{
        "id": "release-bundle.api.1.0.0",
        "kind": "CompatibilityFact",
        "track": "runtime",
        "status": "observed",
        "subject": {"type": "release-bundle", "name": "api", "version": "0.1.0"},
        "members": [
            {
                "component": "identity_contract",
                "version": "0.4.9",
                "physicalChaincode": "identity_contract_v0_4_9"
            }
        ],
        "provides": [{"capability": "release-bundle:api", "version": "0.1.0"}]
    }"#)];
    let db = build_facts_db_with_init(
        &facts,
        &MatrixContext::empty(),
        Some(
            "create view pack_members as select * from members;\n\
             create view pack_edges as select * from deref;",
        ),
    )
    .unwrap();
    let members = execute_readonly_sql(&db, "select component from pack_members").unwrap();
    assert_eq!(members["rows"].as_array().unwrap().len(), 1);
    let edges = execute_readonly_sql(&db, "select edge from pack_edges").unwrap();
    assert_eq!(edges["rows"].as_array().unwrap().len(), 2);
}

#[test]
fn rejects_mutating_sql_init() {
    let result =
        build_facts_db_with_init(&Vec::new(), &MatrixContext::empty(), Some("drop table facts;"));
    assert!(result.is_err());
}


fn fixture_source(adapter: &str) -> Source {
    Source {
        adapter: adapter.to_string(),
        zone: default_zone(adapter).to_string(),
        repo: Some("example/payments-api".to_string()),
        component: "payments-api".to_string(),
        version: Some("1.2.3".to_string()),
        sha: Some("abc123".to_string()),
        reference: Some("refs/heads/main".to_string()),
    }
}

fn shown(facts: &Vec<Json>) -> Vec<Value> {
    facts.iter().map(show).collect()
}

#[test]
fn normalizes_junit_as_validation_facts() {
    let source = fixture_source("junit");
    let report = junit::normalize(JUNIT, &source).unwrap();
    let facts = shown(&report);
    assert_eq!(facts.len(), 1);
    assert_eq!(facts[0]["zone"], "test");
    assert_eq!(facts[0]["status"], "failed");
    assert_eq!(facts[0]["subjectType"], "junit-suite");
    assert_eq!(facts[0]["subjectName"], "api-contract");
    assert_eq!(facts[0]["members"].as_array().unwrap().len(), 2);

    let db = build_facts_db(&report, &MatrixContext::empty()).unwrap();
    let rows = execute_readonly_sql(
        &db,
        "select component, version, status from components where type==junit-suite",
    )
    .unwrap();
    assert_eq!(rows["rows"][0]["component"], "api-contract");
    assert_eq!(rows["rows"][0]["version"], "1.2.3");
    assert_eq!(rows["rows"][0]["status"], "failed");
}

#[test]
fn normalizes_cyclonedx_sbom_to_root_and_package_facts() {
    let source = fixture_source("sbom");
    let report = sbom::normalize(CYCLONEDX, &source).unwrap();
    let facts = shown(&report);
    assert_eq!(facts.len(), 2);
    assert_eq!(facts[0]["zone"], "supply-chain");
    assert_eq!(facts[0]["subjectType"], "sbom");
    assert_eq!(facts[0]["members"].as_array().unwrap().len(), 1);
    assert_eq!(facts[1]["subjectType"], "dependency");
    assert_eq!(facts[1]["subjectName"], "serde");

    let db = build_facts_db(&report, &MatrixContext::empty()).unwrap();
    let capabilities = execute_readonly_sql(
        &db,
        "select capability, capability_version from capabilities order by capability",
    )
    .unwrap();
    assert!(
        capabilities["rows"]
            .as_array()
            .unwrap()
            .iter()
            .any(|row| row["capability"] == "package:serde"
                && row["capability_version"] == "1.0.219")
    );
}

#[test]
fn tox_nox_can_attach_canonical_junit_facts() {
    let report = normalize(&Request {
        adapter: "tox".to_string(),
        input: TOX.to_string(),
        source: fixture_source("tox"),
        junit: Ok(vec![JunitFile {
            path: "fixtures/ingest/junit.xml".to_string(),
            text: Some(JUNIT.to_string()),
        }]),
    })
    .unwrap();
    let facts = shown(&report);

    assert!(facts.iter().any(|fact| fact["subjectType"] == "tox-env"));
    assert!(facts.iter().any(|fact| fact["subjectType"] == "junit-suite"));

    let db = build_facts_db(&report, &MatrixContext::empty()).unwrap();
    let rows = execute_readonly_sql(
        &db,
        "select type, component, status from components where type in ('tox-env', 'junit-suite') order by type, component",
    )
    .unwrap();
    assert_eq!(rows["rows"].as_array().unwrap().len(), 3);
}

#[test]
fn producer_fact_batch_example_populates_query_views() {
    let batch = j(r#"{"facts": [
        {
            "id": "service.example-api.1.2.3",
            "zone": "runtime",
            "status": "passed",
            "subject": {"type": "service", "name": "example-api", "version": "1.2.3", "repo": "example/example-api"},
            "provides": [{"capability": "http-api:example-api", "version": "1"}]
        },
        {
            "id": "service.example-worker.2.0.0",
            "zone": "runtime",
            "status": "passed",
            "subject": {"type": "service", "name": "example-worker", "version": "2.0.0", "repo": "example/example-worker"},
            "requires": [{"capability": "http-api:example-api", "version": "1"}]
        },
        {
            "id": "sbom.example-api.1.2.3",
            "zone": "supply-chain",
            "status": "observed",
            "subject": {"type": "sbom", "name": "example-api", "version": "1.2.3", "repo": "example/example-api"},
            "provides": [{"capability": "sbom:example-api", "version": "1.2.3"}],
            "members": [{"component": "example-api", "version": "1.2.3", "digest": "sha256:abc"}]
        }
    ]}"#);
    let facts = batch.items_at("facts");
    let db = build_facts_db(&facts, &MatrixContext::empty()).unwrap();

    let capabilities = execute_readonly_sql(
        &db,
        "select capability, capability_version, component from capabilities order by capability",
    )
    .unwrap();
    assert!(capabilities["rows"].as_array().unwrap().iter().any(|row| {
        row["capability"] == "http-api:example-api"
            && row["capability_version"] == "1"
            && row["component"] == "example-api"
    }));
    assert!(capabilities["rows"].as_array().unwrap().iter().any(|row| {
        row["capability"] == "sbom:example-api"
            && row["capability_version"] == "1.2.3"
            && row["component"] == "example-api"
    }));

    let requirements = execute_readonly_sql(
        &db,
        "select capability, capability_version, component from requirements order by capability",
    )
    .unwrap();
    assert_eq!(
        requirements["rows"][0],
        v(r#"{
            "capability": "http-api:example-api",
            "capability_version": "1",
            "component": "example-worker"
        }"#)
    );

    let members = execute_readonly_sql(
        &db,
        "select component, version, digest from members order by component",
    )
    .unwrap();
    assert_eq!(members["rows"][0]["component"], "example-api");
    assert_eq!(members["rows"][0]["version"], "1.2.3");
    assert!(members["rows"][0]["digest"].as_str().unwrap().starts_with("sha256:"));
}

#[test]
fn fact_cache_round_trips_metadata_and_facts() {
    let facts = vec![j(r#"{
        "id": "fact-1",
        "zone": "runtime",
        "status": "passed",
        "subjectType": "service",
        "subjectName": "ledger-service"
    }"#)];
    let db = build_facts_db(&facts, &MatrixContext::empty()).unwrap();
    db.execute_batch(CACHE_TABLE_SQL).unwrap();
    for entry in write_fact_cache_metadata(&FactCacheMetadata {
        construct: Some("https://matrix.example.test".to_string()),
        api_prefix: "/v1/compatibility".to_string(),
        profile: Some(ConfigProfile::RedWiz),
        schema_version: 2,
        fetched_at_unix: 1_750_000_000,
        checked_at_unix: Some(1_750_000_000),
        fact_count: 1,
        max_facts: 1000,
        head_digest: Some("sha256:test-head".to_string()),
        head_fact_count: Some(1),
        head_latest_accepted_at: Some("2026-05-22T00:00:00.000Z".to_string()),
        head_latest_fact_id: Some("fact-1".to_string()),
        head_latest_content_hash: Some("sha256:test-fact".to_string()),
    }) {
        db.execute(CACHE_ENTRY_SQL, [&entry.key, &entry.value]).unwrap();
    }
    let mut stmt = db.prepare(CACHE_ENTRIES_SQL).unwrap();
    let entries = stmt
        .query_map([], |row| Ok(CacheEntry { key: row.get(0)?, value: row.get(1)? }))
        .unwrap()
        .map(|row| row.unwrap())
        .collect();
    let metadata = read_fact_cache_metadata(&entries);
    let one = |sql: &str| db.query_row(sql, [], |row| row.get::<_, i64>(0)).unwrap();
    assert_eq!(metadata.schema_version, 2);
    assert_eq!(metadata.profile, Some(ConfigProfile::RedWiz));
    assert_eq!(metadata.fact_count, 1);
    assert_eq!(metadata.head_digest.as_deref(), Some("sha256:test-head"));
    assert_eq!(one("select count(*) from facts"), 1);
    assert_eq!(one("select count(*) from zones"), 1);
    assert_eq!(one("select count(*) from sqlite_master where type = 'view'"), 0);
}

#[test]
fn members_show_their_runtime_and_platform() {
    let facts = vec![j(r#"{
        "id": "release-bundle.api.1.0.0",
        "zone": "runtime",
        "subject": {"type": "release-bundle", "name": "api", "version": "1.0.0"},
        "members": [{"component": "api", "version": "1.0.0", "runtime": "node", "platform": "linux"}],
        "provides": [{"capability": "release-bundle:api"}]
    }"#)];
    let db = build_facts_db(&facts, &MatrixContext::empty()).unwrap();
    let members = execute_readonly_sql(
        &db,
        "select component, version, runtime, platform from members where fact_id==release-bundle.api.1.0.0",
    )
    .unwrap();
    assert_eq!(members["rows"][0]["runtime"], "node");
    let deref = execute_readonly_sql(
        &db,
        "select edge, target, target_version, runtime, platform from deref where fact_id==release-bundle.api.1.0.0 order by edge",
    )
    .unwrap();
    assert_eq!(deref["rows"][0]["platform"], "linux");
    assert_eq!(deref["rows"][1]["platform"], Value::Null);
}

#[test]
fn statements_of_the_shell_run() {
    let facts = graph_fixture_facts();
    let db = build_facts_db(&facts, &MatrixContext::empty()).unwrap();
    let mut state = ReplState::new(MatrixContext::empty(), 1000, OutputFormat::Human);
    for line in [
        ".zones",
        ".subjects",
        ".tables",
        ".schema",
        ".schema facts",
        ".describe components",
        ".deref eos.24.6.0",
        ".members eos.24.6.0",
        ".trace eos",
        ".compare eunomia",
        ".explain select 1",
    ] {
        match state.handle_command(&parse_command(line), &None, "/queries").unwrap() {
            ReplAction::RunSql(sql) => {
                execute_readonly_sql(&db, &sql).unwrap();
            }
            other => panic!("expected a statement for {line}, got {other:?}"),
        }
    }
    for line in [".components --all", ".versions eunomia", ".tags"] {
        match state.handle_command(&parse_command(line), &view_zone(&db), "/queries").unwrap() {
            ReplAction::Choose { sql, .. } => {
                execute_readonly_sql(&db, &sql).unwrap();
            }
            other => panic!("expected choices for {line}, got {other:?}"),
        }
    }
    assert!(execute_readonly_sql(&db, CONTEXT_SQL).is_ok());
}

#[test]
fn native_graphql_refuses_fields_that_answers_do_not_have() {
    let db = graph_fixture_db();
    let graph = graph_of(&db);
    let refused = |document: &str| {
        execute_graphql_document(&db, &graph, document, &Json::object(), 5).unwrap_err()
    };
    assert_eq!(
        refused("{ status(component:\"eos\") { colour } }"),
        "unsupported GraphQL field \"colour\" on GraphStatusAnswer"
    );
    assert_eq!(
        refused("{ path(from:\"eos\", to:\"eunomia\") { paths { nodes { component { name } } } } }"),
        "unsupported GraphQL field \"name\" on Scalar"
    );
}

#[test]
fn graphql_variables_are_texts_where_texts_are_expected() {
    let db = graph_fixture_db();
    let graph = graph_of(&db);
    let vars = parse_graphql_variables(&vec![
        "name=24.60".to_string(),
        "flag=true".to_string(),
        "limit=2".to_string(),
        "most=500".to_string(),
        "minus=-0".to_string(),
        "quoted=\"a b\"".to_string(),
    ])
    .unwrap();
    let asked = |name: &str| {
        let document = format!("{{ resolve(name:${name}) {{ requested }} }}");
        let value = execute_graphql_document(&db, &graph, &document, &vars, 5).unwrap();
        value["data"]["resolve"]["requested"].clone()
    };
    assert_eq!(asked("name"), "24.60");
    assert_eq!(asked("flag"), "true");
    assert_eq!(asked("quoted"), "a b");
    let limited = execute_graphql_document(
        &db,
        &graph,
        "{ path(from:\"eos\", to:\"eunomia\", limit:$limit) { pathCount } }",
        &vars,
        5,
    )
    .unwrap();
    assert_eq!(limited["data"]["path"]["pathCount"], 1);
    let document = |limit: &str| {
        format!("{{ path(from:\"eos\", to:\"eunomia\", limit:{limit}) {{ pathCount }} }}")
    };
    let many = execute_graphql_document(&db, &graph, &document("$most"), &vars, 5).unwrap();
    assert_eq!(many["data"]["path"]["pathCount"], 1);
    assert_eq!(
        execute_graphql_document(&db, &graph, &document("$minus"), &vars, 5).unwrap_err(),
        "GraphQL argument expected integer"
    );
}

#[test]
fn changing_statements_are_not_run() {
    let db = graph_fixture_db();
    let count = |db: &Connection| -> i64 {
        db.query_row("select count(*) from facts", [], |row| row.get(0)).unwrap()
    };
    let before = count(&db);
    assert!(before > 0);
    for sql in [
        "with x as (select 1) delete from facts",
        "WITH x as (select 1) DELETE/**/from facts",
        "with x as (select 1) /* ' */ update facts set zone = 'z' /* ' */",
        "with x as (select 1) insert into facts(id) select 'new'",
        "with x as (select 1) replace -- a comment\n into facts(id) select 'new'",
    ] {
        assert!(execute_readonly_sql(&db, sql).is_err());
        assert_eq!(count(&db), before);
    }
    let read = execute_readonly_sql(
        &db,
        "with x as (select replace('delete', 'd', 'D') as word) select word, \"update\" from x, (select 1 as \"update\")",
    )
    .unwrap();
    assert_eq!(read["rows"][0]["word"], "Delete");
    assert_eq!(read["rows"][0]["update"], 1);
}

#[test]
fn paths_and_versions_are_found_within_six_edges() {
    let mut graph = GraphIndex::new();
    let names = ["a", "b", "c", "d", "e", "f", "g", "h"];
    for pair in names.windows(2) {
        for version in ["1.0", "1.1"] {
            graph.add_edge(GraphEdge {
                source: pair[0].to_string(),
                target: pair[1].to_string(),
                relationship: "requires".to_string(),
                capability: Some(version.to_string()),
                capability_version: None,
                source_version: None,
                target_version: Some(version.to_string()),
                source_fact_id: None,
                target_fact_id: None,
                status: None,
                observed_at: None,
            });
        }
    }
    assert_eq!(graph.find_paths("a", "h", 200).len(), 0);
    assert_eq!(graph.find_paths("a", "g", 200).len(), 64);
    assert_eq!(graph.find_paths("a", "g", 3).len(), 3);
    assert!(GraphIndex::new().find_paths("a", "b", 81).is_empty());
    let value = show(&graph.versions_for_answer("g", "a", 200));
    let mut versions: Vec<&str> =
        value["versions"].as_array().unwrap().iter().map(|v| v.as_str().unwrap()).collect();
    versions.sort();
    assert_eq!(versions, ["1.0", "1.1"]);
    assert_eq!(value["versionCandidates"][0]["pathCount"], 32);
}
