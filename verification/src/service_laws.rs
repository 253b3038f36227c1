//! What the service of facts decides and answers.
use vstd::prelude::*;
use crate::construct::{
    error_json, facts_reply, first_event, page_info, page_json, page_limit, page_of, row_facts,
    stamped, uploaded, upsert, write_allowed, ErrorV, PageV, SelectedRow, UnversionedRow, UpsertV,
    DEFAULT_FACT_LIMIT, DEFAULT_HISTORY_LIMIT,
};
use crate::json::{json_print, json_read, lemma_get_with, lemma_with_is_object, JsonV};
use crate::service::{accepted_of, candidate_json, gate_json, latest_json, upload_json, zone_json};
use crate::text::{decimal, decimal_int, opt_view, trim};

verus! {

proof fn lemma_gate_members()
    ensures
        "gate"@ != "level"@,
        "gate"@ != "zone"@,
        "level"@ != "zone"@,
{
    reveal_strlit("gate");
    reveal_strlit("level");
    reveal_strlit("zone");
    assert("gate"@.len() != "level"@.len());
    assert("gate"@[0] != "zone"@[0]);
    assert("level"@.len() != "zone"@.len());
}

proof fn lemma_verdict_members()
    ensures
        "eligible"@ != "failedFacts"@,
        "eligible"@ != "status"@,
        "eligible"@ != "totalFacts"@,
        "failedFacts"@ != "status"@,
        "failedFacts"@ != "totalFacts"@,
        "status"@ != "totalFacts"@,
{
    reveal_strlit("eligible");
    reveal_strlit("failedFacts");
    reveal_strlit("status");
    reveal_strlit("totalFacts");
    assert("eligible"@.len() != "failedFacts"@.len());
    assert("eligible"@.len() != "status"@.len());
    assert("eligible"@.len() != "totalFacts"@.len());
    assert("failedFacts"@.len() != "status"@.len());
    assert("failedFacts"@.len() != "totalFacts"@.len());
    assert("status"@.len() != "totalFacts"@.len());
}

proof fn lemma_candidate_reply_members()
    ensures
        "candidate"@ != "level"@,
        "candidate"@ != "zone"@,
        "level"@ != "zone"@,
{
    reveal_strlit("candidate");
    reveal_strlit("level");
    reveal_strlit("zone");
    assert("candidate"@.len() != "level"@.len());
    assert("candidate"@.len() != "zone"@.len());
    assert("level"@.len() != "zone"@.len());
}

proof fn lemma_candidate_verdict_members()
    ensures
        "eligible"@ != "facts"@,
{
    reveal_strlit("eligible");
    reveal_strlit("facts");
    assert("eligible"@.len() != "facts"@.len());
}

proof fn lemma_zone_members()
    ensures
        "facts"@ != "page"@,
        "facts"@ != "zone"@,
        "page"@ != "zone"@,
{
    reveal_strlit("facts");
    reveal_strlit("page");
    reveal_strlit("zone");
    assert("facts"@.len() != "page"@.len());
    assert("facts"@.len() != "zone"@.len());
    assert("page"@[0] != "zone"@[0]);
}

proof fn lemma_upload_members()
    ensures
        "accepted"@ != "duplicates"@,
{
    reveal_strlit("accepted");
    reveal_strlit("duplicates");
    assert("accepted"@.len() != "duplicates"@.len());
}

proof fn lemma_stamp_members()
    ensures
        "acceptedAt"@ != "contentHash"@,
{
    reveal_strlit("acceptedAt");
    reveal_strlit("contentHash");
    assert("acceptedAt"@.len() != "contentHash"@.len());
}

proof fn lemma_error_members()
    ensures
        "code"@ != "message"@,
        "code"@ != "status"@,
        "message"@ != "status"@,
{
    reveal_strlit("code");
    reveal_strlit("message");
    reveal_strlit("status");
    assert("code"@.len() != "message"@.len());
    assert("code"@.len() != "status"@.len());
    assert("message"@.len() != "status"@.len());
}

proof fn lemma_page_members()
    ensures
        "limit"@ != "maxLimit"@,
        "limit"@ != "nextCursor"@,
        "limit"@ != "total"@,
        "maxLimit"@ != "nextCursor"@,
        "maxLimit"@ != "total"@,
        "nextCursor"@ != "total"@,
{
    reveal_strlit("limit");
    reveal_strlit("maxLimit");
    reveal_strlit("nextCursor");
    reveal_strlit("total");
    assert("limit"@.len() != "maxLimit"@.len());
    assert("limit"@.len() != "nextCursor"@.len());
    assert("limit"@[0] != "total"@[0]);
    assert("maxLimit"@.len() != "nextCursor"@.len());
    assert("maxLimit"@.len() != "total"@.len());
    assert("nextCursor"@.len() != "total"@.len());
}

proof fn lemma_facts_members()
    ensures
        "fact"@ != "facts"@,
        "fact"@ != "page"@,
        "facts"@ != "page"@,
{
    reveal_strlit("fact");
    reveal_strlit("facts");
    reveal_strlit("page");
    assert("fact"@.len() != "facts"@.len());
    assert("fact"@[0] != "page"@[0]);
    assert("facts"@.len() != "page"@.len());
}

/// A gate lets a zone pass exactly where none of its facts failed, however many there are:
/// it is then eligible and has passed; one fact that failed makes it not eligible and
/// failed. The counts are told as they are.
pub proof fn law_gate_needs_no_failure(
    zone: Seq<char>,
    level: Seq<char>,
    failed: nat,
    total: nat,
)
    ensures
        ({
            let reply = gate_json(zone, level, failed, total);
            let verdict = reply.get("gate"@)->Some_0;
            &&& reply.text_at("zone"@) == Some(zone)
            &&& reply.text_at("level"@) == Some(level)
            &&& reply.get("gate"@) is Some
            &&& failed == 0 ==> verdict.bool_at("eligible"@) == Some(true) && verdict.text_at(
                "status"@,
            ) == Some("passed"@)
            &&& failed > 0 ==> verdict.bool_at("eligible"@) == Some(false) && verdict.text_at(
                "status"@,
            ) == Some("failed"@)
            &&& verdict.get("failedFacts"@) == Some(JsonV::Number(decimal(failed)))
            &&& verdict.get("totalFacts"@) == Some(JsonV::Number(decimal(total)))
        }),
{
    broadcast use {lemma_get_with, lemma_with_is_object};

    lemma_gate_members();
    lemma_verdict_members();
}

/// A candidate is eligible exactly where none of its facts has the status failed; its facts
/// are shown.
pub proof fn law_candidate_needs_no_failure(
    zone: Seq<char>,
    level: Seq<char>,
    facts: Seq<JsonV>,
)
    ensures
        ({
            let reply = candidate_json(zone, level, facts);
            let verdict = reply.get("candidate"@)->Some_0;
            &&& reply.text_at("zone"@) == Some(zone)
            &&& reply.text_at("level"@) == Some(level)
            &&& reply.get("candidate"@) is Some
            &&& verdict.items_at("facts"@) == facts
            &&& verdict.bool_at("eligible"@) is Some
            &&& verdict.bool_at("eligible"@)->Some_0 <==> forall|i: int|
                0 <= i < facts.len() ==> (#[trigger] facts[i]).text_at("status"@) != Some("failed"@)
        }),
{
    broadcast use {lemma_get_with, lemma_with_is_object};

    lemma_candidate_reply_members();
    lemma_candidate_verdict_members();
}

/// A zone is answered with its name, the facts of the page and what the page is.
pub proof fn law_zone_shows_facts(zone: Seq<char>, facts: Seq<JsonV>, page: PageV)
    ensures
        zone_json(zone, facts, page).text_at("zone"@) == Some(zone),
        zone_json(zone, facts, page).items_at("facts"@) == facts,
        zone_json(zone, facts, page).get("page"@) == facts_reply(facts, page).get("page"@),
        facts_reply(facts, page).items_at("facts"@) == facts,
{
    broadcast use {lemma_get_with, lemma_with_is_object};

    lemma_zone_members();
    lemma_facts_members();
}

/// The newest fact is the first of those that were selected, and null where there is none.
pub proof fn law_latest_is_first(facts: Seq<JsonV>)
    ensures
        facts.len() > 0 ==> latest_json(facts).get("fact"@) == Some(facts[0]),
        facts.len() == 0 ==> latest_json(facts).get("fact"@) == Some(JsonV::Null),
{
    broadcast use {lemma_get_with, lemma_with_is_object};

}

/// A page tells how many items it was to hold, how many it can hold at most, how many there
/// are, and where the next one starts, if there is one: exactly where items are left.
pub proof fn law_page_is_described(all: Seq<JsonV>, offset: nat, limit: nat)
    requires
        1 <= limit,
    ensures
        ({
            let page = page_json(page_info(all.len(), offset, limit));
            &&& page.get("limit"@) == Some(JsonV::Number(decimal(limit)))
            &&& page.get("maxLimit"@) == Some(JsonV::Number(decimal(200)))
            &&& page.get("total"@) == Some(JsonV::Number(decimal(all.len())))
            &&& page.text_at("nextCursor"@) is Some <==> offset + limit < all.len()
            &&& page_of(all, offset, limit).len() == (if offset >= all.len() {
                0
            } else if all.len() - offset <= limit {
                all.len() - offset
            } else {
                limit as int
            })
            &&& forall|i: int|
                0 <= i < page_of(all, offset, limit).len() ==> #[trigger] page_of(
                    all,
                    offset,
                    limit,
                )[i] == all[offset + i]
        }),
{
    broadcast use {lemma_get_with, lemma_with_is_object};

    lemma_page_members();
}

/// A page holds as many items as are asked for, from one to two hundred; without a wish a
/// page of facts holds a hundred and a page of a history twenty-five.
pub proof fn law_page_sizes(limit: usize)
    ensures
        page_limit(None, DEFAULT_FACT_LIMIT) == 100,
        page_limit(None, DEFAULT_HISTORY_LIMIT) == 25,
        1 <= limit <= 200 ==> page_limit(Some(limit), DEFAULT_FACT_LIMIT) == limit && page_limit(
            Some(limit),
            DEFAULT_HISTORY_LIMIT,
        ) == limit,
        limit == 0 ==> page_limit(Some(limit), DEFAULT_FACT_LIMIT) == 1 && page_limit(
            Some(limit),
            DEFAULT_HISTORY_LIMIT,
        ) == 1,
        limit > 200 ==> page_limit(Some(limit), DEFAULT_FACT_LIMIT) == 200 && page_limit(
            Some(limit),
            DEFAULT_HISTORY_LIMIT,
        ) == 200,
{
}

proof fn lemma_accepted(outcomes: Seq<UpsertV>, n: int)
    requires
        0 <= n <= outcomes.len(),
    ensures
        accepted_of(outcomes, n) == outcomes.take(n).filter(|o: UpsertV| o is Accepted).len(),
        accepted_of(outcomes, n) <= n,
        n - accepted_of(outcomes, n) == outcomes.take(n).filter(|o: UpsertV| o is Duplicate).len(),
    decreases n,
{
    reveal(Seq::filter);
    if n > 0 {
        lemma_accepted(outcomes, n - 1);
        assert(outcomes.take(n).drop_last() =~= outcomes.take(n - 1));
        assert(outcomes.take(n).last() == outcomes[n - 1]);
    }
}

/// An upload is answered with how many of its facts were accepted and how many were known.
pub proof fn law_upload_is_counted(outcomes: Seq<UpsertV>)
    ensures
        ({
            let reply = upload_json(outcomes);
            let accepted = outcomes.filter(|o: UpsertV| o is Accepted);
            let known = outcomes.filter(|o: UpsertV| o is Duplicate);
            &&& reply.get("accepted"@) == Some(JsonV::Number(decimal(accepted.len())))
            &&& reply.get("duplicates"@) == Some(JsonV::Number(decimal(known.len())))
            &&& accepted.len() + known.len() == outcomes.len()
        }),
{
    broadcast use {lemma_get_with, lemma_with_is_object};

    lemma_upload_members();
    lemma_accepted(outcomes, outcomes.len() as int);
    assert(outcomes.take(outcomes.len() as int) =~= outcomes);
}

/// An upload holds the facts of its list; without one its one fact; and otherwise it is the
/// fact itself. What is no object holds none.
pub proof fn law_upload_holds_facts(body: JsonV)
    ensures
        body.get("facts"@) is Some && body.get("facts"@)->Some_0 is Array ==> uploaded(body)
            == Some(body.items_at("facts"@)),
        !(body.get("facts"@) is Some && body.get("facts"@)->Some_0 is Array) && body.get("fact"@)
            is Some ==> uploaded(body) == Some(seq![body.get("fact"@)->Some_0]),
        body is Object && body.get("facts"@) is None && body.get("fact"@) is None ==> uploaded(body)
            == Some(seq![body]),
        !(body is Object) ==> uploaded(body) is None,
{
}

/// The text under a key, else the text under another key of a member.
pub open spec fn either_text(fact: JsonV, key: Seq<char>, outer: Seq<char>, inner: Seq<char>) -> Option<
    Seq<char>,
> {
    if fact.text_at(key) is Some {
        fact.text_at(key)
    } else if fact.get(outer) is Some {
        fact.get(outer)->Some_0.text_at(inner)
    } else {
        None
    }
}

/// A fact is stored under its id in its zone, or in the track that it names for one, with
/// what it says of itself; the time that it was observed is its own, else the time of the
/// upload. A fact without a zone is refused, and one whose text is stored is known.
pub proof fn law_fact_is_stored(
    fact: JsonV,
    now: Seq<char>,
    stored: Option<Seq<char>>,
    last: int,
)
    ensures
        ({
            let zone = if fact.text_at("zone"@) is Some {
                fact.text_at("zone"@)
            } else {
                fact.text_at("track"@)
            };
            let outcome = upsert(fact, now, stored, last);
            let hash = crate::construct::hash_text(json_print(fact));
            &&& outcome is Err <==> zone is None
            &&& outcome is Err ==> outcome->Err_0.status == 400 && outcome->Err_0.code
                == "bad_request"@
            &&& zone is Some && stored == Some(hash) ==> outcome->Ok_0 is Duplicate
            &&& zone is Some && stored != Some(hash) ==> {
                &&& outcome->Ok_0 is Accepted
                &&& outcome->Ok_0->record.zone == zone->Some_0
                &&& fact.text_at("id"@) is Some ==> outcome->Ok_0->record.id == fact.text_at(
                    "id"@,
                )->Some_0
                &&& outcome->Ok_0->record.kind == fact.text_at("kind"@)
                &&& outcome->Ok_0->record.status == fact.text_at("status"@)
                &&& outcome->Ok_0->record.channel == fact.text_at("channel"@)
                &&& outcome->Ok_0->record.source_repository == either_text(
                    fact,
                    "sourceRepository"@,
                    "source"@,
                    "repo"@,
                )
                &&& outcome->Ok_0->record.source_sha == either_text(
                    fact,
                    "sourceSha"@,
                    "source"@,
                    "sha"@,
                )
                &&& outcome->Ok_0->record.subject_type == either_text(
                    fact,
                    "subjectType"@,
                    "subject"@,
                    "type"@,
                )
                &&& outcome->Ok_0->record.subject_name == either_text(
                    fact,
                    "subjectName"@,
                    "subject"@,
                    "name"@,
                )
                &&& outcome->Ok_0->record.observed_at == (if fact.text_at("observedAt"@) is Some {
                    fact.text_at("observedAt"@)->Some_0
                } else {
                    now
                })
                &&& outcome->Ok_0->record.accepted_at == now
                &&& outcome->Ok_0->record.content_hash == hash
                &&& outcome->Ok_0->record.json == json_print(fact)
                &&& outcome->Ok_0->event.fact_id == outcome->Ok_0->record.id
                &&& outcome->Ok_0->event.revision == last + 1
                &&& outcome->Ok_0->event.accepted_at == now
                &&& outcome->Ok_0->event.content_hash == hash
                &&& outcome->Ok_0->event.json == json_print(fact)
                &&& outcome->Ok_0->event.source_repository
                    == outcome->Ok_0->record.source_repository
                &&& outcome->Ok_0->event.source_sha == outcome->Ok_0->record.source_sha
                &&& outcome->Ok_0->event.source_ref == either_text(
                    fact,
                    "sourceRef"@,
                    "source"@,
                    "ref"@,
                )
            }
        }),
{
}

/// A fact that is read from the store tells when it was accepted and its hash, as it says
/// itself, else as they are stored; nothing else of it changes.
pub proof fn law_read_fact_is_stamped(v: JsonV, row: SelectedRow, key: Seq<char>)
    requires
        v is Object,
    ensures
        ({
            let r = stamped(v, row);
            &&& key != "acceptedAt"@ && key != "contentHash"@ ==> r.get(key) == v.get(key)
            &&& v.get("acceptedAt"@) is Some ==> r.get("acceptedAt"@) == v.get("acceptedAt"@)
            &&& v.get("contentHash"@) is Some ==> r.get("contentHash"@) == v.get("contentHash"@)
            &&& v.get("acceptedAt"@) is None ==> r.text_at("acceptedAt"@) == opt_view(
                row.accepted_at,
            )
            &&& v.get("contentHash"@) is None ==> r.text_at("contentHash"@) == opt_view(
                row.content_hash,
            )
        }),
{
    broadcast use {lemma_get_with, lemma_with_is_object};

    lemma_stamp_members();
}

/// Rows are answered one for one, in their order; one that cannot be read fails all.
pub proof fn law_rows_are_facts(rows: Seq<SelectedRow>, n: int)
    requires
        0 <= n <= rows.len(),
    ensures
        row_facts(rows, n) is Ok <==> forall|i: int|
            0 <= i < n ==> json_read((#[trigger] rows[i]).json@) is Ok,
        row_facts(rows, n) is Ok ==> row_facts(rows, n)->Ok_0.len() == n && forall|i: int|
            0 <= i < n ==> #[trigger] row_facts(rows, n)->Ok_0[i] == stamped(
                json_read(rows[i].json@)->Ok_0,
                rows[i],
            ),
    decreases n,
{
    if n > 0 {
        law_rows_are_facts(rows, n - 1);
    }
}

/// Errors are answered in one envelope, with their code, message and status.
pub proof fn law_error_envelope(e: ErrorV)
    ensures
        ({
            let inner = error_json(e).get("error"@)->Some_0;
            &&& error_json(e).get("error"@) is Some
            &&& inner.text_at("code"@) == Some(e.code)
            &&& inner.text_at("message"@) == Some(e.message)
            &&& inner.get("status"@) == Some(JsonV::Number(decimal_int(e.status)))
        }),
{
    broadcast use {lemma_get_with, lemma_with_is_object};

    lemma_error_members();
}

/// Where a token is expected, a write is allowed by that token alone, sent as a bearer; the
/// space around it does not matter. Where none is expected every write is allowed.
pub proof fn law_write_needs_its_token(token: Seq<char>, sent: Seq<char>, header: Seq<char>)
    ensures
        write_allowed(Some(token), Some("Bearer "@ + sent)) <==> trim(sent) == token,
        write_allowed(Some(token), Some(header)) ==> header.len() >= 7 && header.take(7)
            == "Bearer "@ && trim(header.skip(7)) == token,
        !write_allowed(Some(token), None),
        write_allowed(None, Some(header)),
        write_allowed(None, None),
{
    reveal_strlit("Bearer ");
    let h = "Bearer "@ + sent;
    assert("Bearer "@.len() == 7);
    assert(h.take(7) =~= "Bearer "@);
    assert(h.skip(7) =~= sent);
    assert(h.subrange(0, 7) =~= "Bearer "@);
    if write_allowed(Some(token), Some(header)) {
        assert(header.take(7) =~= "Bearer "@);
    }
}

/// A fact that was stored without a revision gets its first one: accepted when its record
/// says, else when it was observed, else now, with the hash that its record has.
pub proof fn law_first_revision(row: UnversionedRow, now: Seq<char>)
    ensures
        ({
            let e = first_event(row, now);
            &&& e.fact_id == row.id@
            &&& e.revision == 1
            &&& row.accepted_at is Some ==> e.accepted_at == row.accepted_at->Some_0@
            &&& row.accepted_at is None && row.observed_at is Some ==> e.accepted_at
                == row.observed_at->Some_0@
            &&& row.accepted_at is None && row.observed_at is None ==> e.accepted_at == now
            &&& row.content_hash is Some ==> e.content_hash == row.content_hash->Some_0@
            &&& row.content_hash is None ==> e.content_hash == crate::construct::hash_text(row.json@)
            &&& e.source_repository == opt_view(row.source_repository)
            &&& e.source_sha == opt_view(row.source_sha)
            &&& e.source_ref is None
            &&& e.json == row.json@
        }),
{
}

} // verus!
