//! What the service of facts answers, and the statements that its store runs.
use vstd::prelude::*;
use crate::construct::{
    not_found, not_found_error, page_json, ApiError, ErrorV, FactPage, FactQuery, PageV,
    UpsertOutcome, UpsertV, DEFAULT_FACT_LIMIT,
};
use crate::json::{copy_items, items_view, Json, JsonV};
use crate::text::{cat3, cat6, debug_of, debug_text, opt_view, same, trim, trimmed, views};

verus! {

// ---------------------------------------------------------------------------
// Statements
// ---------------------------------------------------------------------------
/// The tables of facts and of their revisions, and their indexes.
pub const FACT_TABLES_SQL: &'static str = "create table if not exists facts (
        id text primary key,
        zone text not null,
        kind text,
        status text,
        source_repository text,
        source_sha text,
        subject_type text,
        subject_name text,
        channel text,
        observed_at text,
        accepted_at text,
        content_hash text,
        json text not null
    );
    create table if not exists fact_events (
        event_id text primary key,
        fact_id text not null,
        revision integer not null,
        accepted_at text not null,
        content_hash text not null,
        source_repository text,
        source_sha text,
        source_ref text,
        json text not null,
        unique(fact_id, revision)
    );
    create index if not exists idx_facts_zone on facts(zone, observed_at desc);
    create index if not exists idx_facts_subject on facts(subject_type, subject_name);
    create index if not exists idx_facts_source on facts(source_repository, source_sha);
    create index if not exists idx_fact_events_fact_revision on fact_events(fact_id, revision desc);
    create index if not exists idx_fact_events_accepted on fact_events(accepted_at desc);";

/// The zones that have facts.
pub const ZONES_SQL: &'static str = "select distinct zone from facts order by zone";

/// The hash that is stored for a fact.
pub const STORED_HASH_SQL: &'static str = "select content_hash from facts where id = ?1";

/// Stores the record of a fact, in place of an earlier one.
pub const UPSERT_FACT_SQL: &'static str = "insert into facts (
        id, zone, kind, status, source_repository, source_sha,
        subject_type, subject_name, channel, observed_at, accepted_at, content_hash, json
    ) values (?1, ?2, ?3, ?4, ?5, ?6, ?7, ?8, ?9, ?10, ?11, ?12, ?13)
    on conflict(id) do update set
        zone = excluded.zone,
        kind = excluded.kind,
        status = excluded.status,
        source_repository = excluded.source_repository,
        source_sha = excluded.source_sha,
        subject_type = excluded.subject_type,
        subject_name = excluded.subject_name,
        channel = excluded.channel,
        observed_at = excluded.observed_at,
        accepted_at = excluded.accepted_at,
        content_hash = excluded.content_hash,
        json = excluded.json";

/// Stores a revision.
pub const INSERT_EVENT_SQL: &'static str = "insert into fact_events (
        event_id, fact_id, revision, accepted_at, content_hash,
        source_repository, source_sha, source_ref, json
    ) values (?1, ?2, ?3, ?4, ?5, ?6, ?7, ?8, ?9)";

/// The facts that filters let through, newest first.
pub const SELECT_FACTS_SQL: &'static str = "select json, accepted_at, content_hash from facts
    where (?1 is null or zone = ?1)
      and (?2 is null or kind = ?2)
      and (?3 is null or id = ?3)
      and (?4 is null or status = ?4)
      and (?5 is null or source_repository = ?5)
      and (?6 is null or subject_type = ?6)
      and (?7 is null or subject_name = ?7)
      and (?8 is null or channel = ?8)
    order by observed_at desc, id asc";

/// The revisions of a fact in order.
pub const SELECT_EVENTS_SQL: &'static str = "select event_id, fact_id, revision, accepted_at, content_hash,
           source_repository, source_sha, source_ref, json
    from fact_events
    where fact_id = ?1
    order by revision asc";

/// How many facts a zone has.
pub const COUNT_ZONE_SQL: &'static str = "select count(*) from facts where zone = ?1";

/// How many facts of a zone have a status.
pub const COUNT_ZONE_STATUS_SQL: &'static str = "select count(*) from facts where zone = ?1 and status = ?2";

/// The facts without a revision.
pub const UNVERSIONED_FACTS_SQL: &'static str = "select id, observed_at, source_repository, source_sha, accepted_at, content_hash, json
    from facts
    where not exists (
      select 1 from fact_events where fact_events.fact_id = facts.id
    )";

/// Stores the first revision of a fact without one.
pub const BACKFILL_EVENT_SQL: &'static str = "insert or ignore into fact_events (
       event_id, fact_id, revision, accepted_at, content_hash,
       source_repository, source_sha, source_ref, json
    ) values (?1, ?2, 1, ?3, ?4, ?5, ?6, null, ?7)";

/// Completes the record of a fact that had no revision.
pub const BACKFILL_FACT_SQL: &'static str = "update facts
    set accepted_at = coalesce(accepted_at, ?2),
        content_hash = coalesce(content_hash, ?3)
    where id = ?1";

/// The number of the last revision of a fact, zero where it has none.
pub const LAST_REVISION_SQL: &'static str = "select coalesce(max(revision), 0) from fact_events where fact_id = ?1";

pub open spec fn columns_sql(table: Seq<char>) -> Seq<char> {
    "pragma table_info("@ + table + ")"@
}

/// The statement that lists the columns of a table.
pub fn table_columns_sql(table: &str) -> (r: String)
    ensures
        r@ == columns_sql(table@),
{
    cat3("pragma table_info(", table, ")")
}

/// The statement that adds a column to a table, where the table does not have it.
pub fn add_column_if_missing(columns: &Vec<String>, table: &str, column: &str, definition: &str) -> (r:
    Option<String>)
    ensures
        views(columns@).contains(column@) ==> r is None,
        !views(columns@).contains(column@) ==> opt_view(r) == Some(
            "alter table "@ + table@ + " add column "@ + column@ + " "@ + definition@,
        ),
{
    let mut i: usize = 0;
    while i < columns.len()
        invariant
            i <= columns@.len(),
            forall|j: int| 0 <= j < i ==> #[trigger] views(columns@)[j] != column@,
        decreases columns@.len() - i,
    {
        if same(columns[i].as_str(), column) {
            assert(views(columns@)[i as int] == column@);
            return None;
        }
        i += 1;
    }
    Some(cat6("alter table ", table, " add column ", column, " ", definition))
}

// ---------------------------------------------------------------------------
// Requests
// ---------------------------------------------------------------------------
pub struct FactQueryV {
    pub zone: Option<Seq<char>>,
    pub track: Option<Seq<char>>,
    pub kind: Option<Seq<char>>,
    pub id: Option<Seq<char>>,
    pub status: Option<Seq<char>>,
    pub source_repository: Option<Seq<char>>,
    pub subject_type: Option<Seq<char>>,
    pub subject_name: Option<Seq<char>>,
    pub channel: Option<Seq<char>>,
    pub limit: Option<usize>,
    pub cursor: Option<Seq<char>>,
}

impl View for FactQuery {
    type V = FactQueryV;

    open spec fn view(&self) -> FactQueryV {
        FactQueryV {
            zone: opt_view(self.zone),
            track: opt_view(self.track),
            kind: opt_view(self.kind),
            id: opt_view(self.id),
            status: opt_view(self.status),
            source_repository: opt_view(self.source_repository),
            subject_type: opt_view(self.subject_type),
            subject_name: opt_view(self.subject_name),
            channel: opt_view(self.channel),
            limit: self.limit,
            cursor: opt_view(self.cursor),
        }
    }
}

pub open spec fn no_filters() -> FactQueryV {
    FactQueryV {
        zone: None,
        track: None,
        kind: None,
        id: None,
        status: None,
        source_repository: None,
        subject_type: None,
        subject_name: None,
        channel: None,
        limit: None,
        cursor: None,
    }
}

impl Default for FactQuery {
    fn default() -> (r: FactQuery)
        ensures
            r@ == no_filters(),
    {
        FactQuery {
            zone: None,
            track: None,
            kind: None,
            id: None,
            status: None,
            source_repository: None,
            subject_type: None,
            subject_name: None,
            channel: None,
            limit: None,
            cursor: None,
        }
    }
}

/// The facts of a zone.
pub fn zone_query(zone: &str) -> (r: FactQuery)
    ensures
        r@ == (FactQueryV {
            zone: Some(zone@),
            limit: Some(DEFAULT_FACT_LIMIT),
            ..no_filters()
        }),
{
    let mut query = FactQuery::default();
    query.zone = Some(zone.to_owned());
    query.limit = Some(DEFAULT_FACT_LIMIT);
    query
}

/// The facts of a candidate: those of its zone that a query lets through.
pub fn candidate_query(query: FactQuery, zone: &str) -> (r: FactQuery)
    ensures
        r@ == (FactQueryV { zone: Some(zone@), limit: Some(DEFAULT_FACT_LIMIT), ..query@ }),
{
    let mut normalized = query;
    normalized.zone = Some(zone.to_owned());
    normalized.limit = Some(DEFAULT_FACT_LIMIT);
    normalized
}

/// The newest fact that a query lets through.
pub fn latest_query(query: FactQuery) -> (r: FactQuery)
    ensures
        r@ == (FactQueryV { limit: Some(1), ..query@ }),
{
    let mut latest = query;
    latest.limit = Some(1);
    latest
}

/// The token that writers are held to: none where the variable is unset or blank.
pub fn write_token(variable: Option<String>) -> (r: Option<String>)
    ensures
        opt_view(r) == (match opt_view(variable) {
            Some(t) => if trim(t).len() > 0 {
                Some(t)
            } else {
                None
            },
            None => None,
        }),
{
    match variable {
        Some(t) => {
            let inner = trimmed(t.as_str());
            if same(inner.as_str(), "") {
                proof {
                    reveal_strlit("");
                }
                assert(inner@.len() == 0);
                None
            } else {
                assert(inner@.len() > 0) by {
                    reveal_strlit("");
                    if inner@.len() == 0 {
                        assert(inner@ =~= ""@);
                    }
                }
                Some(t)
            }
        },
        None => None,
    }
}

// ---------------------------------------------------------------------------
// Answers
// ---------------------------------------------------------------------------
pub fn healthz() -> (r: Json)
    ensures
        r@ == JsonV::empty_object().with("status"@, JsonV::Text("ok"@)).with(
            "service"@,
            JsonV::Text("matrix-construct"@),
        ),
{
    Json::object().with("status", Json::text("ok")).with("service", Json::text("matrix-construct"))
}

pub fn readyz() -> (r: Json)
    ensures
        r@ == JsonV::empty_object().with("status"@, JsonV::Text("ready"@)).with(
            "service"@,
            JsonV::Text("matrix-construct"@),
        ).with("storage"@, JsonV::Text("sqlite"@)),
{
    Json::object().with("status", Json::text("ready")).with(
        "service",
        Json::text("matrix-construct"),
    ).with("storage", Json::text("sqlite"))
}

pub fn overview(now: &str, zones: &Vec<String>) -> (r: Json)
    ensures
        r@ == JsonV::empty_object().with("generatedAt"@, JsonV::Text(now@)).with(
            "zones"@,
            JsonV::texts(views(zones@)),
        ),
{
    Json::object().with("generatedAt", Json::text(now)).with("zones", Json::texts(zones))
}

pub open spec fn no_zone_error(zone: Seq<char>) -> ErrorV {
    not_found_error("zone "@ + debug_text(zone) + " was not found"@)
}

fn no_zone(zone: &str) -> (r: ApiError)
    ensures
        r@ == no_zone_error(zone@),
{
    not_found(cat3("zone ", debug_of(zone).as_str(), " was not found"))
}

/// What the facts of a zone are answered as.
pub open spec fn zone_json(zone: Seq<char>, facts: Seq<JsonV>, page: PageV) -> JsonV {
    JsonV::empty_object().with("zone"@, JsonV::Text(zone)).with("facts"@, JsonV::Array(facts)).with(
        "page"@,
        page_json(page),
    )
}

/// The facts of a zone; one without facts is not found.
pub fn zone_reply(zone: &str, page: &FactPage) -> (r: Result<Json, ApiError>)
    ensures
        page.facts@.len() == 0 ==> (r matches Err(e) && e@ == no_zone_error(zone@)),
        page.facts@.len() > 0 ==> (r matches Ok(v) && v@ == zone_json(
            zone@,
            items_view(page.facts@),
            page.page@,
        )),
{
    if page.facts.len() == 0 {
        return Err(no_zone(zone));
    }
    Ok(
        Json::object().with("zone", Json::text(zone)).with(
            "facts",
            Json::array(copy_items(&page.facts)),
        ).with("page", page.page.to_value()),
    )
}

/// Whether a zone passes a gate: no fact of it failed.
pub open spec fn gate_json(zone: Seq<char>, level: Seq<char>, failed: nat, total: nat) -> JsonV {
    JsonV::empty_object().with("zone"@, JsonV::Text(zone)).with("level"@, JsonV::Text(level)).with(
        "gate"@,
        JsonV::empty_object().with("eligible"@, JsonV::Bool(failed == 0)).with(
            "status"@,
            JsonV::Text(
                if failed == 0 {
                    "passed"@
                } else {
                    "failed"@
                },
            ),
        ).with("failedFacts"@, JsonV::number(failed)).with("totalFacts"@, JsonV::number(total)),
    )
}

pub fn gate(zone: &str, level: &str, failed: usize, total: usize) -> (r: Result<Json, ApiError>)
    ensures
        total == 0 ==> (r matches Err(e) && e@ == no_zone_error(zone@)),
        total > 0 ==> (r matches Ok(v) && v@ == gate_json(
            zone@,
            level@,
            failed as nat,
            total as nat,
        )),
{
    if total == 0 {
        return Err(no_zone(zone));
    }
    let status = if failed == 0 {
        "passed"
    } else {
        "failed"
    };
    Ok(
        Json::object().with("zone", Json::text(zone)).with("level", Json::text(level)).with(
            "gate",
            Json::object().with("eligible", Json::Bool(failed == 0)).with(
                "status",
                Json::text(status),
            ).with("failedFacts", Json::count(failed)).with("totalFacts", Json::count(total)),
        ),
    )
}

/// Whether none of the facts failed.
pub open spec fn none_failed(facts: Seq<JsonV>) -> bool {
    forall|i: int| 0 <= i < facts.len() ==> (#[trigger] facts[i]).text_at("status"@) != Some("failed"@)
}

/// What a candidate is answered as: its facts, and whether none of them failed.
pub open spec fn candidate_json(zone: Seq<char>, level: Seq<char>, facts: Seq<JsonV>) -> JsonV {
    JsonV::empty_object().with("zone"@, JsonV::Text(zone)).with("level"@, JsonV::Text(level)).with(
        "candidate"@,
        JsonV::empty_object().with("eligible"@, JsonV::Bool(none_failed(facts))).with(
            "facts"@,
            JsonV::Array(facts),
        ),
    )
}

pub fn candidate(zone: &str, level: &str, page: &FactPage) -> (r: Json)
    ensures
        r@ == candidate_json(zone@, level@, items_view(page.facts@)),
{
    let ghost facts = items_view(page.facts@);
    let mut eligible = true;
    let mut i: usize = 0;
    while i < page.facts.len()
        invariant
            i <= page.facts@.len(),
            facts == items_view(page.facts@),
            eligible ==> forall|j: int|
                0 <= j < i ==> (#[trigger] facts[j]).text_at("status"@) != Some("failed"@),
            !eligible ==> exists|j: int|
                0 <= j < i && (#[trigger] facts[j]).text_at("status"@) == Some("failed"@),
        decreases page.facts@.len() - i,
    {
        assert(facts[i as int] == page.facts@[i as int]@);
        match page.facts[i].text_at("status") {
            Some(s) => {
                if same(s.as_str(), "failed") {
                    eligible = false;
                }
            },
            None => {},
        }
        i += 1;
    }
    assert(eligible == none_failed(facts));
    Json::object().with("zone", Json::text(zone)).with("level", Json::text(level)).with(
        "candidate",
        Json::object().with("eligible", Json::Bool(eligible)).with(
            "facts",
            Json::array(copy_items(&page.facts)),
        ),
    )
}

/// What the newest fact is answered as.
pub open spec fn latest_json(facts: Seq<JsonV>) -> JsonV {
    JsonV::empty_object().with(
        "fact"@,
        if facts.len() > 0 {
            facts[0]
        } else {
            JsonV::Null
        },
    )
}

/// The first fact of a page, if it has one.
pub fn latest_fact(page: &FactPage) -> (r: Json)
    ensures
        r@ == latest_json(items_view(page.facts@)),
{
    assert(items_view(page.facts@).len() == page.facts@.len());
    if page.facts.len() > 0 {
        Json::object().with("fact", page.facts[0].copy())
    } else {
        Json::object().with("fact", Json::Null)
    }
}

/// How many of the first `n` outcomes are accepted.
pub open spec fn accepted_of(outcomes: Seq<UpsertV>, n: int) -> nat
    decreases n,
{
    if n <= 0 {
        0
    } else {
        accepted_of(outcomes, n - 1) + (if outcomes[n - 1] is Accepted {
            1nat
        } else {
            0
        })
    }
}

/// What an upload is answered as: how many facts were accepted, and how many were known.
pub open spec fn upload_json(outcomes: Seq<UpsertV>) -> JsonV {
    let accepted = accepted_of(outcomes, outcomes.len() as int);
    JsonV::empty_object().with("accepted"@, JsonV::number(accepted)).with(
        "duplicates"@,
        JsonV::number((outcomes.len() - accepted) as nat),
    )
}

/// The answer to an upload with the given outcomes.
pub fn upload_reply(outcomes: &Vec<UpsertOutcome>) -> (r: Json)
    ensures
        r@ == upload_json(outcomes@.map_values(|o: UpsertOutcome| o@)),
{
    let ghost all = outcomes@.map_values(|o: UpsertOutcome| o@);
    let mut accepted: usize = 0;
    let mut duplicates: usize = 0;
    let mut i: usize = 0;
    while i < outcomes.len()
        invariant
            i <= outcomes@.len(),
            all == outcomes@.map_values(|o: UpsertOutcome| o@),
            accepted == accepted_of(all, i as int),
            accepted + duplicates == i,
        decreases outcomes@.len() - i,
    {
        assert(all[i as int] == outcomes@[i as int]@);
        match &outcomes[i] {
            UpsertOutcome::Accepted { .. } => {
                accepted += 1;
            },
            UpsertOutcome::Duplicate => {
                duplicates += 1;
            },
        }
        i += 1;
    }
    Json::object().with("accepted", Json::count(accepted)).with(
        "duplicates",
        Json::count(duplicates),
    )
}

} // verus!
