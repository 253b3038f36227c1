//! The service of facts: uploads, pages, histories and gates.
use matrix::cache::FetchState;
use matrix::construct::{
    ApiError, DEFAULT_FACT_LIMIT, FactQuery, FactRecord, MAX_PAGE_LIMIT, SelectedRow,
    StoredFactEvent, UnversionedRow, UpsertOutcome, authorize_write, backfill_fact_event,
    bounded_limit, content_hash, cut_page, decode_cursor, encode_cursor, event_id, extract_facts,
    fact_filters, fact_id_of, generated_id, not_found, query_facts, select_matching, stamp_fact,
    upsert_fact,
};
use matrix::history::{
    FactHistoryPage, FactHistoryQuery, fact_get, fact_get_response, parse_as_of, parse_event_time,
    query_fact_history,
};
use matrix::json::Json;
use matrix::service::{
    BACKFILL_EVENT_SQL, BACKFILL_FACT_SQL, COUNT_ZONE_SQL, COUNT_ZONE_STATUS_SQL, FACT_TABLES_SQL,
    INSERT_EVENT_SQL, LAST_REVISION_SQL, SELECT_EVENTS_SQL, SELECT_FACTS_SQL, STORED_HASH_SQL,
    UNVERSIONED_FACTS_SQL, UPSERT_FACT_SQL, ZONES_SQL, add_column_if_missing, candidate,
    candidate_query, gate, healthz, latest_fact, latest_query, overview, readyz, table_columns_sql,
    upload_reply, write_token, zone_query, zone_reply,
};
use rusqlite::{Connection, OptionalExtension, params_from_iter};
use serde_json::Value;

fn j(text: &str) -> Json {
    Json::parse(text).unwrap()
}

fn show(json: &Json) -> Value {
    serde_json::from_str(&json.to_text()).unwrap()
}

fn some(text: &str) -> Option<String> {
    Some(text.to_string())
}

fn open() -> Connection {
    let db = Connection::open_in_memory().unwrap();
    db.execute_batch(FACT_TABLES_SQL).unwrap();
    db
}

fn save_event(db: &Connection, sql: &str, event: &StoredFactEvent) {
    db.execute(
        sql,
        params_from_iter([
            Some(event.event_id.clone()),
            Some(event.fact_id.clone()),
            Some(event.revision.to_string()),
            Some(event.accepted_at.clone()),
            Some(event.content_hash.clone()),
            event.source_repository.clone(),
            event.source_sha.clone(),
            event.source_ref.clone(),
            Some(event.json.clone()),
        ]),
    )
    .unwrap();
}

fn save_record(db: &Connection, record: &FactRecord) {
    db.execute(
        UPSERT_FACT_SQL,
        params_from_iter([
            Some(record.id.clone()),
            Some(record.zone.clone()),
            record.kind.clone(),
            record.status.clone(),
            record.source_repository.clone(),
            record.source_sha.clone(),
            record.subject_type.clone(),
            record.subject_name.clone(),
            record.channel.clone(),
            Some(record.observed_at.clone()),
            Some(record.accepted_at.clone()),
            Some(record.content_hash.clone()),
            Some(record.json.clone()),
        ]),
    )
    .unwrap();
}

fn upload_at(db: &Connection, fact: &Json, now: &str) -> Result<UpsertOutcome, ApiError> {
    let id = fact_id_of(fact);
    let hash = db
        .query_row(STORED_HASH_SQL, [&id], |row| row.get::<_, Option<String>>(0))
        .optional()
        .unwrap()
        .flatten();
    let last = db.query_row(LAST_REVISION_SQL, [&id], |row| row.get::<_, i64>(0)).unwrap();
    let outcome = upsert_fact(fact, now, &hash, last)?;
    if let UpsertOutcome::Accepted { record, event } = &outcome {
        save_event(db, INSERT_EVENT_SQL, event);
        save_record(db, record);
    }
    Ok(outcome)
}

fn upload(db: &Connection, fact: &str) -> Result<UpsertOutcome, ApiError> {
    upload_at(db, &j(fact), "2026-06-19T16:00:00+00:00")
}

fn page_of(db: &Connection, query: &FactQuery) -> Result<matrix::construct::FactPage, ApiError> {
    let filters = fact_filters(query);
    let mut stmt = db.prepare(SELECT_FACTS_SQL).unwrap();
    let rows = stmt
        .query_map(
            params_from_iter([
                filters.zone,
                filters.kind,
                filters.id,
                filters.status,
                filters.source_repository,
                filters.subject_type,
                filters.subject_name,
                filters.channel,
            ]),
            |row| {
                Ok(SelectedRow {
                    json: row.get(0)?,
                    accepted_at: row.get(1)?,
                    content_hash: row.get(2)?,
                })
            },
        )
        .unwrap()
        .map(|row| row.unwrap())
        .collect();
    query_facts(query, &select_matching(&rows)?)
}

fn events_of(db: &Connection, id: &str) -> Vec<StoredFactEvent> {
    let mut stmt = db.prepare(SELECT_EVENTS_SQL).unwrap();
    let rows = stmt
        .query_map([id], |row| {
            Ok(StoredFactEvent {
                event_id: row.get(0)?,
                fact_id: row.get(1)?,
                revision: row.get(2)?,
                accepted_at: row.get(3)?,
                content_hash: row.get(4)?,
                source_repository: row.get(5)?,
                source_sha: row.get(6)?,
                source_ref: row.get(7)?,
                json: row.get(8)?,
            })
        })
        .unwrap();
    rows.map(|row| row.unwrap()).collect()
}

fn history(
    db: &Connection,
    id: &str,
    query: FactHistoryQuery,
) -> Result<(FactHistoryPage, Vec<Value>), ApiError> {
    let page = query_fact_history(id, &query, &events_of(db, id))?;
    let events = page.events.iter().map(show).collect();
    Ok((page, events))
}

#[test]
fn generated_ids_are_stable() {
    let value = j(r#"{"zone":"sdk","subject":{"name":"pkg"}}"#);
    assert_eq!(generated_id(&value), generated_id(&value));
}

#[test]
fn ids_and_hashes_are_digests() {
    // The digest of the empty text is well known.
    assert_eq!(content_hash(""), "sha256:47DEQpj8HBSa-_TImW-5JCeuQeRkm5NMpJWZG3hSuFU");
    let one = generated_id(&j(r#"{"zone":"sdk"}"#));
    assert!(one.starts_with("fact."));
    assert_ne!(one, generated_id(&j(r#"{"zone":"sdk2"}"#)));
    assert_eq!(fact_id_of(&j(r#"{"id":"a"}"#)), "a");
    assert_eq!(fact_id_of(&j(r#"{"zone":"sdk"}"#)), one);
    let event = event_id("a", 1, "t", "h");
    assert!(event.starts_with("event."));
    assert_ne!(event, event_id("a", 2, "t", "h"));
    assert_ne!(event, event_id("a", 1, "u", "h"));
    assert_ne!(event, event_id("a", 1, "t", "i"));
}

#[test]
fn cursor_roundtrips() {
    let cursor = encode_cursor(42);
    assert_eq!(decode_cursor(&cursor).unwrap(), 42);
}

#[test]
fn cursors_that_are_none_are_refused() {
    assert_eq!(encode_cursor(42), "NDI");
    for cursor in ["!", "NDI=", "eA", "_w"] {
        let error = decode_cursor(cursor).unwrap_err();
        assert_eq!(error.status, 400);
        assert_eq!(error.code, "bad_request");
        assert_eq!(error.message, "cursor is invalid");
    }
}

#[test]
fn limits_stay_within_a_page() {
    assert_eq!(bounded_limit(None, 25), 25);
    assert_eq!(bounded_limit(Some(0), 25), 1);
    assert_eq!(bounded_limit(Some(5000), 25), MAX_PAGE_LIMIT);
}

#[test]
fn pages_follow_one_another() {
    let all = vec![j("1"), j("2"), j("3")];
    let (first, page) = cut_page(&all, 0, 2);
    assert_eq!(first.len(), 2);
    assert_eq!(page.total, 3);
    let next = decode_cursor(&page.next_cursor.unwrap()).unwrap();
    let (second, page) = cut_page(&all, next, 2);
    assert_eq!(show(&second[0]), 3);
    assert_eq!(page.next_cursor, None);
    let (none, page) = cut_page(&all, 9, 2);
    assert!(none.is_empty());
    assert_eq!(show(&page.to_value())["maxLimit"], 200);
}

#[test]
fn stores_and_queries_facts() {
    let db = open();
    upload(&db, r#"{"id":"a","zone":"sdk","status":"passed"}"#).unwrap();
    let page = page_of(&db, &FactQuery { zone: some("sdk"), ..FactQuery::default() }).unwrap();
    assert_eq!(page.facts.len(), 1);
    assert_eq!(page.page.limit, DEFAULT_FACT_LIMIT);
    assert_eq!(page.page.max_limit, MAX_PAGE_LIMIT);
    let fact = show(&page.facts[0]);
    assert!(fact["acceptedAt"].is_string());
    assert!(fact["contentHash"].is_string());
}

#[test]
fn facts_are_filtered_and_ordered() {
    let db = open();
    upload(&db, r#"{"id":"b","track":"sdk","status":"failed","observedAt":"2026-01-01"}"#).unwrap();
    upload(&db, r#"{"id":"a","zone":"sdk","status":"passed","observedAt":"2026-01-02"}"#).unwrap();
    upload(&db, r#"{"id":"c","zone":"run","status":"passed","observedAt":"2026-01-03"}"#).unwrap();
    let page = page_of(&db, &FactQuery { track: some("sdk"), ..FactQuery::default() }).unwrap();
    let ids: Vec<Value> = page.facts.iter().map(|fact| show(fact)["id"].clone()).collect();
    assert_eq!(ids, vec!["a", "b"]);
    let latest = page_of(&db, &latest_query(FactQuery::default())).unwrap();
    assert_eq!(show(&latest_fact(&latest))["fact"]["id"], "c");
    let failed: i64 =
        db.query_row(COUNT_ZONE_STATUS_SQL, ["sdk", "failed"], |row| row.get(0)).unwrap();
    let total: i64 = db.query_row(COUNT_ZONE_SQL, ["sdk"], |row| row.get(0)).unwrap();
    let reply = show(&gate("sdk", "preview", failed as usize, total as usize).unwrap());
    assert_eq!(reply["gate"]["eligible"], false);
    assert_eq!(reply["gate"]["failedFacts"], 1);
    assert_eq!(reply["gate"]["totalFacts"], 2);
    let wanted = page_of(&db, &candidate_query(FactQuery::default(), "run")).unwrap();
    assert_eq!(show(&candidate("run", "preview", &wanted))["candidate"]["eligible"], true);
    let both = page_of(&db, &zone_query("sdk")).unwrap();
    assert_eq!(show(&candidate("sdk", "preview", &both))["candidate"]["eligible"], false);
    assert_eq!(show(&zone_reply("sdk", &both).unwrap())["page"]["total"], 2);
    let zones: Vec<String> = db
        .prepare(ZONES_SQL)
        .unwrap()
        .query_map([], |row| row.get(0))
        .unwrap()
        .map(|row| row.unwrap())
        .collect();
    assert_eq!(show(&overview("now", &zones))["zones"][0], "run");
}

#[test]
fn zones_without_facts_are_not_found() {
    let db = open();
    let empty = page_of(&db, &zone_query("sdk")).unwrap();
    let error = zone_reply("sdk", &empty).unwrap_err();
    assert_eq!(error.status, 404);
    assert_eq!(error.message, "zone \"sdk\" was not found");
    assert_eq!(gate("sdk", "preview", 0, 0).unwrap_err().code, "not_found");
}

#[test]
fn duplicate_fact_content_is_idempotent() {
    let db = open();
    let fact = r#"{"id":"a","zone":"sdk","status":"passed"}"#;

    assert!(matches!(upload(&db, fact).unwrap(), UpsertOutcome::Accepted { .. }));
    assert!(matches!(upload(&db, fact).unwrap(), UpsertOutcome::Duplicate));

    let (page, _) = history(
        &db,
        "a",
        FactHistoryQuery { limit: Some(10), ..FactHistoryQuery::default() },
    )
    .unwrap();
    assert_eq!(page.events.len(), 1);
}

#[test]
fn uploads_are_counted() {
    let db = open();
    let fact = r#"{"id":"a","zone":"sdk"}"#;
    let outcomes = vec![upload(&db, fact).unwrap(), upload(&db, fact).unwrap()];
    let reply = show(&upload_reply(&outcomes));
    assert_eq!(reply["accepted"], 1);
    assert_eq!(reply["duplicates"], 1);
}

#[test]
fn facts_without_a_zone_are_refused() {
    let db = open();
    let error = upload(&db, r#"{"id":"a"}"#).unwrap_err();
    assert_eq!(error.status, 400);
    assert_eq!(error.message, "fact \"a\" is missing zone");
}

#[test]
fn uploads_hold_one_fact_or_many() {
    assert_eq!(extract_facts(&j(r#"{"facts":[{"id":"a"},{"id":"b"}]}"#)).unwrap().len(), 2);
    assert_eq!(show(&extract_facts(&j(r#"{"fact":{"id":"a"}}"#)).unwrap()[0])["id"], "a");
    assert_eq!(show(&extract_facts(&j(r#"{"id":"a","facts":1}"#)).unwrap()[0])["id"], "a");
    assert_eq!(
        extract_facts(&j("[]")).unwrap_err().message,
        "expected an object, fact, or facts array"
    );
}

#[test]
fn write_auth_is_optional_but_enforced_when_configured() {
    assert!(authorize_write(&None, &None).is_ok());

    let token = some("secret");
    assert!(authorize_write(&token, &None).is_err());

    assert!(authorize_write(&token, &some("Bearer secret")).is_ok());
}

#[test]
fn write_auth_wants_the_token_itself() {
    let token = some("secret");
    assert!(authorize_write(&token, &some("Bearer  secret ")).is_ok());
    assert!(authorize_write(&token, &some("secret")).is_err());
    let error = authorize_write(&token, &some("Bearer other")).unwrap_err();
    assert_eq!(error.status, 401);
    assert_eq!(show(&error.to_value())["error"]["code"], "unauthorized");
    assert_eq!(write_token(some("  ")), None);
    assert_eq!(write_token(some(" t ")), some(" t "));
}

#[test]
fn preserves_fact_history_on_update() {
    let db = open();
    upload(
        &db,
        r#"{
            "id":"tuple.api.1.0.0",
            "zone":"runtime",
            "status":"candidate",
            "sourceRepository":"example/api",
            "sourceSha":"111",
            "members":[{"component":"api","version":"1.0.0"}]
        }"#,
    )
    .unwrap();
    upload(
        &db,
        r#"{
            "id":"tuple.api.1.0.0",
            "zone":"runtime",
            "status":"passed",
            "sourceRepository":"example/api",
            "sourceSha":"222",
            "members":[{"component":"api","version":"1.0.1"}]
        }"#,
    )
    .unwrap();

    let (_, events) = history(
        &db,
        "tuple.api.1.0.0",
        FactHistoryQuery { limit: Some(10), ..FactHistoryQuery::default() },
    )
    .unwrap();
    assert_eq!(events.len(), 2);
    assert_eq!(events[0]["revision"], 2);
    assert_eq!(events[0]["status"], "current");
    assert_eq!(events[0]["fact"]["status"], "passed");
    assert_eq!(events[1]["revision"], 1);
    assert_eq!(events[1]["status"], "superseded");
    assert_eq!(events[1]["fact"]["status"], "candidate");
    assert!(events[1]["supersededBy"].is_string());

    let (_, revision_one) = history(
        &db,
        "tuple.api.1.0.0",
        FactHistoryQuery { revision: Some(1), ..FactHistoryQuery::default() },
    )
    .unwrap();
    assert_eq!(revision_one.len(), 1);
    assert_eq!(revision_one[0]["revision"], 1);
    assert_eq!(revision_one[0]["fact"]["status"], "candidate");

    let (_, previous) = history(
        &db,
        "tuple.api.1.0.0",
        FactHistoryQuery { relative: Some(-1), ..FactHistoryQuery::default() },
    )
    .unwrap();
    assert_eq!(previous[0]["revision"], 1);

    let (_, previous_from_revision) = history(
        &db,
        "tuple.api.1.0.0",
        FactHistoryQuery {
            revision: Some(2),
            relative: Some(-1),
            ..FactHistoryQuery::default()
        },
    )
    .unwrap();
    assert_eq!(previous_from_revision[0]["revision"], 1);

    let current_event_id = events[0]["eventId"].as_str().unwrap().to_string();
    let (_, by_event) = history(
        &db,
        "tuple.api.1.0.0",
        FactHistoryQuery {
            event_id: Some(current_event_id.clone()),
            ..FactHistoryQuery::default()
        },
    )
    .unwrap();
    assert_eq!(by_event[0]["revision"], 2);

    let (_, previous_from_event) = history(
        &db,
        "tuple.api.1.0.0",
        FactHistoryQuery {
            event_id: Some(current_event_id),
            relative: Some(-1),
            ..FactHistoryQuery::default()
        },
    )
    .unwrap();
    assert_eq!(previous_from_event[0]["revision"], 1);

    let (_, future) = history(
        &db,
        "tuple.api.1.0.0",
        FactHistoryQuery { as_of: some("2999-01-01"), ..FactHistoryQuery::default() },
    )
    .unwrap();
    assert_eq!(future[0]["revision"], 2);

    let (current, _) = history(
        &db,
        "tuple.api.1.0.0",
        FactHistoryQuery { relative: Some(0), ..FactHistoryQuery::default() },
    )
    .unwrap();
    let response = show(&fact_get_response("tuple.api.1.0.0", &current.events[0]));
    assert_eq!(response["factId"], "tuple.api.1.0.0");
    assert_eq!(response["event"]["revision"], 2);
    assert_eq!(response["fact"]["status"], "passed");
    assert!(response["event"].get("fact").is_none());
}

fn two_revisions() -> Connection {
    let db = open();
    upload_at(&db, &j(r#"{"id":"a","zone":"z","n":1}"#), "2026-06-01T10:00:00+00:00").unwrap();
    upload_at(&db, &j(r#"{"id":"a","zone":"z","n":2}"#), "2026-06-02T10:00:00+00:00").unwrap();
    db
}

#[test]
fn a_day_or_a_moment_selects_the_revision_of_then() {
    let db = two_revisions();
    let at = |text: &str| {
        history(&db, "a", FactHistoryQuery { as_of: some(text), ..FactHistoryQuery::default() })
            .map(|(_, events)| events[0]["revision"].clone())
    };
    assert_eq!(at("2026-06-01").unwrap(), 1);
    assert_eq!(at("2026-06-02").unwrap(), 2);
    assert_eq!(at("2026-06-02T09:59:59Z").unwrap(), 1);
    assert_eq!(at("2026-06-02T12:00:00+02:00").unwrap(), 2);
    let early = at("2026-05-31").unwrap_err();
    assert_eq!(early.status, 404);
    assert_eq!(
        early.message,
        "fact \"a\" has no revision at or before 2026-05-31 23:59:59 UTC"
    );
    assert_eq!(
        at("yesterday").unwrap_err().message,
        "asOf must be RFC3339 timestamp or YYYY-MM-DD date"
    );
}

#[test]
fn moments_are_read_as_seconds_and_nanoseconds() {
    let day = parse_as_of("1970-01-01").unwrap();
    assert_eq!((day.seconds, day.nanos), (86399, 0));
    let moment = parse_event_time("1970-01-01T00:00:01.5+00:00").unwrap();
    assert_eq!((moment.seconds, moment.nanos), (1, 500_000_000));
    assert!(moment.is_not_after(day));
    assert!(parse_event_time("soon").is_none());
}

#[test]
fn selections_that_contradict_themselves_are_refused() {
    let db = two_revisions();
    let refused = |query: FactHistoryQuery| history(&db, "a", query).unwrap_err().message;
    let none = FactHistoryQuery::default;
    assert_eq!(
        refused(FactHistoryQuery { as_of: some("2026-01-01"), relative: Some(0), ..none() }),
        "asOf cannot be combined with revision, eventId, or relative"
    );
    assert_eq!(
        refused(FactHistoryQuery { revision: Some(1), event_id: some("e"), ..none() }),
        "use only one of revision or eventId"
    );
    assert_eq!(
        refused(FactHistoryQuery { from_revision: Some(1), ..none() }),
        "fromRevision and fromEvent require relative"
    );
    assert_eq!(
        refused(FactHistoryQuery {
            from_revision: Some(1),
            from_event: some("e"),
            relative: Some(0),
            ..none()
        }),
        "use only one of fromRevision or fromEvent"
    );
    assert_eq!(
        refused(FactHistoryQuery {
            revision: Some(1),
            from_event: some("e"),
            relative: Some(0),
            ..none()
        }),
        "use only one of fromRevision or fromEvent"
    );
    assert_eq!(
        refused(FactHistoryQuery { revision: Some(9), ..none() }),
        "fact \"a\" has no revision 9"
    );
    assert_eq!(
        refused(FactHistoryQuery { event_id: some("e"), ..none() }),
        "fact \"a\" has no event \"e\""
    );
    assert_eq!(
        refused(FactHistoryQuery { relative: Some(-2), ..none() }),
        "fact \"a\" has no revision 0 for relative offset -2"
    );
    assert_eq!(
        refused(FactHistoryQuery { cursor: some("!"), ..none() }),
        "cursor is invalid"
    );
    assert_eq!(history(&db, "b", none()).unwrap_err().message, "fact \"b\" has no history");
}

#[test]
fn histories_come_in_pages() {
    let db = two_revisions();
    let (page, events) = history(
        &db,
        "a",
        FactHistoryQuery { limit: Some(1), ..FactHistoryQuery::default() },
    )
    .unwrap();
    assert_eq!(events[0]["revision"], 2);
    assert_eq!(page.page.total, 2);
    let (last, events) = history(
        &db,
        "a",
        FactHistoryQuery {
            limit: Some(1),
            cursor: page.page.next_cursor,
            ..FactHistoryQuery::default()
        },
    )
    .unwrap();
    assert_eq!(events[0]["revision"], 1);
    assert_eq!(show(&last.to_value())["page"]["nextCursor"], Value::Null);
}

#[test]
fn one_fact_is_its_current_revision_unless_selected() {
    let db = two_revisions();
    let events = events_of(&db, "a");
    let current = show(&fact_get("a", &FactHistoryQuery::default(), &events).unwrap());
    assert_eq!(current["fact"]["n"], 2);
    let first = FactHistoryQuery { revision: Some(1), ..FactHistoryQuery::default() };
    assert_eq!(show(&fact_get("a", &first, &events).unwrap())["fact"]["n"], 1);
    let listed = FactHistoryQuery { history: Some(true), ..FactHistoryQuery::default() };
    assert_eq!(
        show(&fact_get("a", &listed, &events).unwrap())["events"].as_array().unwrap().len(),
        2
    );
    assert_eq!(
        fact_get("b", &FactHistoryQuery::default(), &Vec::new()).unwrap_err().message,
        "fact \"b\" has no history"
    );
}

#[test]
fn stored_facts_without_a_revision_get_one() {
    let db = open();
    db.execute(
        "insert into facts (id, zone, observed_at, json) values ('a', 'z', '2026-01-01', '{}')",
        [],
    )
    .unwrap();
    let rows: Vec<UnversionedRow> = db
        .prepare(UNVERSIONED_FACTS_SQL)
        .unwrap()
        .query_map([], |row| {
            Ok(UnversionedRow {
                id: row.get(0)?,
                observed_at: row.get(1)?,
                source_repository: row.get(2)?,
                source_sha: row.get(3)?,
                accepted_at: row.get(4)?,
                content_hash: row.get(5)?,
                json: row.get(6)?,
            })
        })
        .unwrap()
        .map(|row| row.unwrap())
        .collect();
    assert_eq!(rows.len(), 1);
    let event = backfill_fact_event(&rows[0], "now");
    assert_eq!(event.revision, 1);
    assert_eq!(event.accepted_at, "2026-01-01");
    assert_eq!(event.content_hash, content_hash("{}"));
    db.execute(
        BACKFILL_EVENT_SQL,
        params_from_iter([
            Some(event.event_id.clone()),
            Some(event.fact_id.clone()),
            Some(event.accepted_at.clone()),
            Some(event.content_hash.clone()),
            event.source_repository.clone(),
            event.source_sha.clone(),
            Some(event.json.clone()),
        ]),
    )
    .unwrap();
    db.execute(BACKFILL_FACT_SQL, [&event.fact_id, &event.accepted_at, &event.content_hash])
        .unwrap();
    assert_eq!(events_of(&db, "a").len(), 1);
    let page = page_of(&db, &FactQuery::default()).unwrap();
    assert_eq!(show(&page.facts[0])["acceptedAt"], "2026-01-01");
}

#[test]
fn missing_columns_are_added() {
    let db = Connection::open_in_memory().unwrap();
    db.execute_batch("create table facts (id text)").unwrap();
    let columns = |db: &Connection| -> Vec<String> {
        db.prepare(&table_columns_sql("facts"))
            .unwrap()
            .query_map([], |row| row.get(1))
            .unwrap()
            .map(|row| row.unwrap())
            .collect()
    };
    let sql = add_column_if_missing(&columns(&db), "facts", "accepted_at", "text").unwrap();
    db.execute(&sql, []).unwrap();
    assert_eq!(columns(&db), vec!["id", "accepted_at"]);
    assert_eq!(add_column_if_missing(&columns(&db), "facts", "accepted_at", "text"), None);
}

#[test]
fn rows_keep_what_facts_say_themselves() {
    let row = SelectedRow {
        json: String::new(),
        accepted_at: some("t"),
        content_hash: some("h"),
    };
    let fact = show(&stamp_fact(j(r#"{"acceptedAt":"own"}"#), &row));
    assert_eq!(fact["acceptedAt"], "own");
    assert_eq!(fact["contentHash"], "h");
    let broken = select_matching(&vec![SelectedRow {
        json: "{".to_string(),
        accepted_at: None,
        content_hash: None,
    }]);
    assert_eq!(broken.unwrap_err().status, 500);
}

#[test]
fn the_service_says_how_it_is() {
    assert_eq!(show(&healthz())["status"], "ok");
    assert_eq!(show(&readyz())["storage"], "sqlite");
    let error = not_found("gone".to_string());
    let shown = show(&error.to_value());
    assert_eq!(shown["error"]["status"], 404);
    assert_eq!(shown["error"]["message"], "gone");
}

#[test]
fn a_fetch_gets_the_first_facts_in_their_order() {
    let all: Vec<Json> = (0..450).map(|i| j(&format!("{{\"id\":\"f{i}\"}}"))).collect();
    for (wanted, pages) in [(430, 3), (450, 3), (1000, 3), (200, 1), (0, 0)] {
        let mut state = FetchState::new();
        let mut requests = 0;
        while let Some(path) = state.next_request(wanted) {
            let left = wanted - state.facts.len();
            let limit = left.min(MAX_PAGE_LIMIT);
            assert!(path.starts_with(&format!("/facts?limit={limit}")));
            let query = FactQuery {
                limit: Some(limit),
                cursor: state.cursor.clone(),
                ..zone_query("runtime")
            };
            state.accept_page(&query_facts(&query, &all).unwrap().to_value());
            requests += 1;
        }
        assert_eq!(requests, pages);
        let got: Vec<String> = state.facts.iter().map(|fact| fact.text_at("id").unwrap()).collect();
        let expected: Vec<String> = (0..wanted.min(450)).map(|i| format!("f{i}")).collect();
        assert_eq!(got, expected);
    }
}

#[test]
fn pages_of_one_limit_give_every_fact_once() {
    let all: Vec<Json> = (0..450).map(|i| j(&format!("{{\"id\":\"f{i}\"}}"))).collect();
    for (limit, most, pages) in [(None, 100, 5), (Some(7), 7, 65), (Some(0), 1, 450), (Some(999), 200, 3)] {
        let mut cursor = None;
        let mut got = Vec::new();
        let mut asked = 0;
        loop {
            let query = FactQuery { limit, cursor, ..FactQuery::default() };
            let page = query_facts(&query, &all).unwrap();
            assert!(page.facts.len() <= most);
            assert_eq!(page.page.total, 450);
            got.extend(page.facts.iter().map(|fact| fact.text_at("id").unwrap()));
            asked += 1;
            cursor = page.page.next_cursor;
            if cursor.is_none() {
                break;
            }
        }
        assert_eq!(asked, pages);
        let expected: Vec<String> = (0..450).map(|i| format!("f{i}")).collect();
        assert_eq!(got, expected);
    }
}
