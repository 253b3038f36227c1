//! The inventory of producers: how many facts each gave, how fresh they are, and how
//! well their producer is known.
use vstd::prelude::*;
use crate::context::{producer_context_filter_sql, producer_filter, ContextV, MatrixContext};
use crate::json::{items_view, Json, JsonV};
use crate::render::{query_rows, rows_of};
use crate::text::{decimal, decimal_int, digits_of_i128, digits_of_i64, digits_of_usize, same};

verus! {

/// The most rows that an inventory adds up.
pub const MAX_INVENTORY_ROWS: usize = 0xffff_ffff;

/// The sum of a column over the first `n` rows; what is no integer counts nothing.
pub open spec fn column_sum(rows: Seq<JsonV>, key: Seq<char>, n: int) -> int
    decreases n,
{
    if n <= 0 {
        0
    } else {
        column_sum(rows, key, n - 1) + (match rows[n - 1].i64_at(key) {
            Some(x) => x,
            None => 0,
        })
    }
}

/// How many of the first `n` rows are stale.
pub open spec fn stale_count(rows: Seq<JsonV>, n: int) -> nat
    decreases n,
{
    if n <= 0 {
        0
    } else {
        stale_count(rows, n - 1) + (if rows[n - 1].text_at("freshness"@) == Some("stale"@) {
            1nat
        } else {
            0nat
        })
    }
}

pub open spec fn total(rows: Seq<JsonV>, key: Seq<char>) -> int {
    column_sum(rows, key, rows.len() as int)
}

pub open spec fn sum_json(n: int) -> JsonV {
    JsonV::Number(decimal_int(n))
}

/// The totals of an inventory. Facts without producer metadata are those whose
/// producer was inferred and those whose producer is unknown.
pub open spec fn summary_json(rows: Seq<JsonV>, stale_days: int) -> JsonV {
    JsonV::empty_object().with("producers"@, JsonV::number(rows.len())).with(
        "staleProducers"@,
        JsonV::number(stale_count(rows, rows.len() as int)),
    ).with("facts"@, sum_json(total(rows, "facts"@))).with(
        "invalidFacts"@,
        sum_json(total(rows, "invalid_facts"@)),
    ).with("sourceRepoFacts"@, sum_json(total(rows, "source_repo_facts"@))).with(
        "inferredSubjectRepoFacts"@,
        sum_json(total(rows, "inferred_subject_repo_facts"@)),
    ).with("unknownProducerFacts"@, sum_json(total(rows, "unknown_producer_facts"@))).with(
        "missingProducerMetadataFacts"@,
        sum_json(
            total(rows, "inferred_subject_repo_facts"@) + total(
                rows,
                "unknown_producer_facts"@,
            ),
        ),
    ).with("staleAfterDays"@, sum_json(stale_days))
}

/// The inventory that the rows of its query make.
pub open spec fn inventory_json(result: JsonV, stale_days: int) -> JsonV {
    JsonV::empty_object().with("kind"@, JsonV::Text("producer-inventory"@)).with(
        "summary"@,
        summary_json(rows_of(result), stale_days),
    ).with("columns"@, JsonV::or_null(result.get("columns"@))).with(
        "rows"@,
        JsonV::Array(rows_of(result)),
    )
}

/// Whether the rows of a result can be added up.
pub open spec fn countable(result: JsonV) -> bool {
    rows_of(result).len() <= MAX_INVENTORY_ROWS
}

fn sum_column(rows: &Vec<Json>, key: &str) -> (r: i128)
    requires
        rows@.len() <= MAX_INVENTORY_ROWS,
    ensures
        r == total(items_view(rows@), key@),
        -0x1_0000_0000_0000_0000_0000_0000 <= r <= 0x1_0000_0000_0000_0000_0000_0000,
{
    let ghost a = items_view(rows@);
    let mut sum: i128 = 0;
    let mut i: usize = 0;
    while i < rows.len()
        invariant
            a == items_view(rows@),
            i <= rows@.len() <= MAX_INVENTORY_ROWS,
            sum == column_sum(a, key@, i as int),
            -0x8000_0000_0000_0000 * i <= sum <= 0x8000_0000_0000_0000 * i,
        decreases rows@.len() - i,
    {
        assert(a[i as int] == rows@[i as int]@);
        match rows[i].i64_at(key) {
            Some(x) => {
                sum = sum + x as i128;
            },
            None => {},
        }
        i += 1;
    }
    assert(a.len() == rows@.len());
    sum
}

fn count_stale(rows: &Vec<Json>) -> (r: usize)
    ensures
        r == stale_count(items_view(rows@), rows@.len() as int),
{
    let ghost a = items_view(rows@);
    let mut n: usize = 0;
    let mut i: usize = 0;
    while i < rows.len()
        invariant
            a == items_view(rows@),
            i <= rows@.len(),
            n <= i,
            n == stale_count(a, i as int),
        decreases rows@.len() - i,
    {
        assert(a[i as int] == rows@[i as int]@);
        match rows[i].text_at("freshness") {
            Some(s) => {
                if same(s.as_str(), "stale") {
                    n += 1;
                }
            },
            None => {},
        }
        i += 1;
    }
    n
}

fn sum_value(n: i128) -> (r: Json)
    requires
        n > i128::MIN,
    ensures
        r@ == sum_json(n as int),
{
    Json::Number(digits_of_i128(n))
}

/// After how many days a producer is stale: at least one.
pub fn wanted_days(days: i64) -> (r: i64)
    ensures
        r == (if days < 1 {
            1
        } else {
            days as int
        }),
{
    if days < 1 {
        1
    } else {
        days
    }
}

pub fn producer_inventory_value(result: &Json, stale_days: i64) -> (r: Json)
    requires
        countable(result@),
    ensures
        r@ == inventory_json(result@, stale_days as int),
{
    let rows = query_rows(result);
    assert(items_view(rows@).len() == rows@.len());
    let inferred = sum_column(&rows, "inferred_subject_repo_facts");
    let unknown = sum_column(&rows, "unknown_producer_facts");
    let summary = Json::object().with("producers", Json::count(rows.len())).with(
        "staleProducers",
        Json::count(count_stale(&rows)),
    ).with("facts", sum_value(sum_column(&rows, "facts"))).with(
        "invalidFacts",
        sum_value(sum_column(&rows, "invalid_facts")),
    ).with("sourceRepoFacts", sum_value(sum_column(&rows, "source_repo_facts"))).with(
        "inferredSubjectRepoFacts",
        sum_value(inferred),
    ).with("unknownProducerFacts", sum_value(unknown)).with(
        "missingProducerMetadataFacts",
        sum_value(inferred + unknown),
    ).with("staleAfterDays", Json::Number(digits_of_i64(stale_days)));
    Json::object().with("kind", Json::text("producer-inventory")).with("summary", summary).with(
        "columns",
        result.at_or_null("columns"),
    ).with("rows", Json::array(rows))
}

pub const INVENTORY_HEAD_SQL: &'static str = "select row_number() over (order by max(coalesce(accepted_at, observed_at)) desc, producer asc) as pick,
            producer,
            count(*) as facts,
            count(distinct component) as components,
            count(distinct zone) as zones,
            sum(case when status in ('incompatible', 'failed', 'invalid', 'blocked') then 1 else 0 end) as invalid_facts,
            sum(has_explicit_producer) as source_repo_facts,
            sum(inferred_subject_repo) as inferred_subject_repo_facts,
            sum(unknown_producer) as unknown_producer_facts,
            case
              when sum(unknown_producer) > 0 then 'unknown'
              when sum(inferred_subject_repo) > 0 and sum(has_explicit_producer) > 0 then 'mixed'
              when sum(inferred_subject_repo) > 0 then 'inferred-subject-repo'
              else 'explicit-source'
            end as producer_metadata,
            max(coalesce(accepted_at, observed_at)) as last_observed_at,
            case
              when max(coalesce(accepted_at, observed_at)) is null then 'unknown'
              when julianday('now') - julianday(max(coalesce(accepted_at, observed_at))) > ";

pub const INVENTORY_FACTS_SQL: &'static str = " then 'stale'
              else 'fresh'
            end as freshness
         from (
            select coalesce(nullif(source_repository, ''), nullif(source_repo, ''), nullif(repo, ''), 'unknown') as producer,
                   component, zone, status, observed_at, accepted_at,
                   case when coalesce(nullif(source_repository, ''), nullif(source_repo, '')) is not null then 1 else 0 end as has_explicit_producer,
                   case when coalesce(nullif(source_repository, ''), nullif(source_repo, '')) is null and nullif(repo, '') is not null then 1 else 0 end as inferred_subject_repo,
                   case when coalesce(nullif(source_repository, ''), nullif(source_repo, ''), nullif(repo, '')) is null then 1 else 0 end as unknown_producer
            from facts
            where 1=1 ";

pub const INVENTORY_TAIL_SQL: &'static str = "
         )
         group by producer
         order by last_observed_at desc, producer asc
         limit ";

/// The query of an inventory: the producers of the context's facts, those with the
/// latest facts first; facts older than the given days make a producer stale.
pub open spec fn inventory_query(context: ContextV, limit: nat, stale_days: int) -> Seq<char> {
    INVENTORY_HEAD_SQL@ + decimal_int(if stale_days < 1 { 1 } else { stale_days }) + INVENTORY_FACTS_SQL@
        + producer_filter(context) + INVENTORY_TAIL_SQL@ + decimal(if limit < 1 { 1 } else { limit })
}

pub fn producer_inventory_sql(context: &MatrixContext, limit: usize, stale_days: i64) -> (r: String)
    ensures
        r@ == inventory_query(context@, limit as nat, stale_days as int),
{
    let filters = producer_context_filter_sql(context);
    let days = digits_of_i64(
        if stale_days < 1 {
            1
        } else {
            stale_days
        },
    );
    let most = digits_of_usize(
        if limit < 1 {
            1
        } else {
            limit
        },
    );
    let mut out = INVENTORY_HEAD_SQL.to_owned();
    out.push_str(days.as_str());
    out.push_str(INVENTORY_FACTS_SQL);
    out.push_str(filters.as_str());
    out.push_str(INVENTORY_TAIL_SQL);
    out.push_str(most.as_str());
    out
}

} // verus!
