//! What the history of a fact tells of each of its revisions, and what is answered of it.
use vstd::prelude::*;
use crate::codec::{calendar_day, rfc3339};
use crate::construct::EventV;
use crate::history::{
    accepted_by, as_of_moment, get_reply, get_response, history, history_json, shown_event,
    HistoryPageV, HistoryQueryV, SelectorV,
};
use crate::json::{json_read, lemma_get_with, lemma_with_is_object, JsonV};
use crate::text::decimal_int;
use crate::text_laws::mark;

verus! {

/// What is shown of a revision is what was recorded of it, with the fact as it was accepted.
/// The last revision alone is current, and every other names the event and the time by which
/// the one behind it took its place.
pub proof fn law_revision_is_shown(events: Seq<EventV>, i: int)
    requires
        0 <= i < events.len(),
        forall|a: int, b: int|
            0 <= a < b < events.len() ==> (#[trigger] events[a]).revision < (
            #[trigger] events[b]).revision,
    ensures
        shown_event(events, i) is Ok <==> json_read(events[i].json) is Ok,
        shown_event(events, i) is Ok ==> ({
            let v = shown_event(events, i)->Ok_0;
            let e = events[i];
            let last = i == events.len() - 1;
            &&& v.text_at("eventId"@) == Some(e.event_id)
            &&& v.text_at("factId"@) == Some(e.fact_id)
            &&& v.get("revision"@) == Some(JsonV::Number(decimal_int(e.revision)))
            &&& v.text_at("acceptedAt"@) == Some(e.accepted_at)
            &&& v.text_at("contentHash"@) == Some(e.content_hash)
            &&& v.text_at("sourceRepository"@) == e.source_repository
            &&& v.text_at("sourceSha"@) == e.source_sha
            &&& v.text_at("sourceRef"@) == e.source_ref
            &&& v.get("fact"@) == Some(json_read(e.json)->Ok_0)
            &&& v.bool_at("current"@) == Some(last)
            &&& last ==> v.text_at("status"@) == Some("current"@) && v.get("supersededBy"@) == Some(
                JsonV::Null,
            ) && v.get("supersededAt"@) == Some(JsonV::Null)
            &&& !last ==> v.text_at("status"@) == Some("superseded"@) && v.text_at("supersededBy"@)
                == Some(events[i + 1].event_id) && v.text_at("supersededAt"@) == Some(
                events[i + 1].accepted_at,
            )
        }),
{
    broadcast use {lemma_get_with, lemma_with_is_object};

    lemma_event_keys();
}

/// A page of a history names its fact and lists its events.
pub proof fn law_history_page_is_shown(page: HistoryPageV)
    ensures
        history_json(page).text_at("factId"@) == Some(page.fact_id),
        history_json(page).items_at("events"@) == page.events,
        history_json(page).get("page"@) is Some,
{
    broadcast use {lemma_get_with, lemma_with_is_object};

    lemma_answer_keys();
}

/// The answer to a fact is the fact as the event holds it, and what else the event says.
pub proof fn law_fact_is_answered(fact_id: Seq<char>, event: JsonV, fact: JsonV)
    requires
        event.get("fact"@) == Some(fact),
    ensures
        get_response(fact_id, event).text_at("factId"@) == Some(fact_id),
        get_response(fact_id, event).get("fact"@) == Some(fact),
        get_response(fact_id, event).get("event"@) == Some(event.without("fact"@)),
{
    broadcast use {lemma_get_with, lemma_with_is_object};

    lemma_answer_keys();
}

/// A selection that says two things at once is refused, and so is a base without an offset
/// to count from it; every other selects by what it says, or nothing where it says nothing.
pub proof fn law_selection_is_read(q: HistoryQueryV)
    ensures
        ({
            let by_number = q.revision is Some || q.event_id is Some || q.relative is Some;
            let based = q.from_revision is Some || q.from_event is Some;
            let refused = {
                ||| q.as_of is Some && by_number
                ||| q.revision is Some && q.event_id is Some
                ||| based && q.relative is None
                ||| q.from_revision is Some && q.from_event is Some
            };
            let r = q.selector();
            &&& r is Err <==> refused
            &&& !refused && !by_number && q.as_of is None ==> r->Ok_0 is None
            &&& !refused && q.relative is None && q.revision is Some ==> r->Ok_0 == Some(
                SelectorV::Revision(q.revision->Some_0),
            )
            &&& !refused && q.relative is None && q.event_id is Some ==> r->Ok_0 == Some(
                SelectorV::Event(q.event_id->Some_0),
            )
            &&& !refused && q.as_of is Some ==> r->Ok_0 == Some(SelectorV::AsOf(q.as_of->Some_0))
            &&& !refused && q.relative is Some ==> (r->Ok_0 matches Some(
                SelectorV::Relative { offset, base_revision, base_event_id },
            ) && offset == q.relative->Some_0 && (q.revision is Some ==> base_revision
                == q.revision) && (q.revision is None ==> base_revision == q.from_revision) && (
            q.event_id is Some ==> base_event_id == q.event_id) && (q.event_id is None
                ==> base_event_id == q.from_event))
        }),
{
}

/// A moment to look back from is the one that is written, or the last second of the day that
/// is; what was accepted by then was accepted in no later second, and in the same second no
/// later within it.
pub proof fn law_moment_to_look_back_from(text: Seq<char>, e: EventV)
    ensures
        rfc3339(text) is Some ==> as_of_moment(text) == rfc3339(text),
        rfc3339(text) is None && calendar_day(text) is None ==> as_of_moment(text) is None,
        rfc3339(text) is None && calendar_day(text) is Some ==> ({
            let m = as_of_moment(text);
            let days = calendar_day(text)->Some_0 as int - 719163;
            &&& m is Some
            &&& m->Some_0.nanos == 0
            &&& m->Some_0.seconds + 1 == (days + 1) * 24 * 60 * 60
        }),
        as_of_moment(text) is Some ==> ({
            let m = as_of_moment(text)->Some_0;
            let t = rfc3339(e.accepted_at);
            accepted_by(m)(e) <==> t is Some && (t->Some_0.seconds < m.seconds || (t->Some_0.seconds
                == m.seconds && t->Some_0.nanos <= m.nanos))
        }),
{
}

/// A fact without events has no history, whatever is asked of it.
pub proof fn law_no_events_no_history(fact_id: Seq<char>, q: HistoryQueryV)
    ensures
        history(fact_id, q, Seq::empty()) is Err,
        get_reply(fact_id, q, Seq::empty()) is Err,
        q.selector() is Ok && q.cursor is None ==> history(fact_id, q, Seq::empty())->Err_0.status
            == 404,
        q.selector() is Err ==> history(fact_id, q, Seq::empty())->Err_0.status == 400,
{
}

// ---------------------------------------------------------------------------
// Keys
// ---------------------------------------------------------------------------
proof fn lemma_event_keys()
    ensures
        mark("acceptedAt"@) == 11611609710,
        mark("contentHash"@) == 11010409911,
        mark("current"@) == 11411609907,
        mark("eventId"@) == 11010010107,
        mark("fact"@) == 9911610204,
        mark("factId"@) == 11610010206,
        mark("revision"@) == 11511011408,
        mark("sourceRef"@) == 9910211509,
        mark("sourceRepository"@) == 11212111516,
        mark("sourceSha"@) == 9909711509,
        mark("status"@) == 11611511506,
        mark("supersededAt"@) == 10111611512,
        mark("supersededBy"@) == 10112111512,
{
    reveal_strlit("acceptedAt");
    reveal_strlit("contentHash");
    reveal_strlit("current");
    reveal_strlit("eventId");
    reveal_strlit("fact");
    reveal_strlit("factId");
    reveal_strlit("revision");
    reveal_strlit("sourceRef");
    reveal_strlit("sourceRepository");
    reveal_strlit("sourceSha");
    reveal_strlit("status");
    reveal_strlit("supersededAt");
    reveal_strlit("supersededBy");
}


proof fn lemma_answer_keys()
    ensures
        mark("event"@) == 10111610105,
        mark("events"@) == 11011510106,
        mark("fact"@) == 9911610204,
        mark("factId"@) == 11610010206,
        mark("page"@) == 10310111204,
{
    reveal_strlit("event");
    reveal_strlit("events");
    reveal_strlit("fact");
    reveal_strlit("factId");
    reveal_strlit("page");
}


} // verus!
