//! The history of a fact: its revisions, and which of them a request selects.
use vstd::prelude::*;
use crate::codec::{
    calendar_day, moment_text, not_after, read_day, read_rfc3339, rfc3339, show_moment, Moment,
};
use crate::construct::{
    bad_request, bad_request_error, bounded_limit, complete_pages, cursor_error, cut_page, event_of,
    event_views, internal, internal_error, items_of_pages, law_pages_give_whole_list, not_found,
    not_found_error, page_at, page_info, page_json, page_limit, page_of, pages_from, start_of,
    start_offset, upload_id, ApiError, ErrorV, EventV, PageInfo, PageV, StoreV, StoredFactEvent,
    UpsertV, DEFAULT_HISTORY_LIMIT,
};
use crate::json::{
    copy_items, items_view, json_print, json_read, lemma_put_member, put, read_json, reads_as, Json,
    JsonV,
};
use crate::text::{
    cat3, cat4, cat6, copy_opt, debug_of, debug_text, decimal_int, digits_of_i64, opt_view, or,
    or_text, same,
};

verus! {

// ---------------------------------------------------------------------------
// Requests
// ---------------------------------------------------------------------------
/// What of a fact's history is asked for.
#[derive(Debug)]
pub struct FactHistoryQuery {
    pub history: Option<bool>,
    pub limit: Option<usize>,
    pub cursor: Option<String>,
    pub revision: Option<i64>,
    pub event_id: Option<String>,
    pub relative: Option<i64>,
    pub from_revision: Option<i64>,
    pub from_event: Option<String>,
    pub as_of: Option<String>,
}

pub struct HistoryQueryV {
    pub history: Option<bool>,
    pub limit: Option<usize>,
    pub cursor: Option<Seq<char>>,
    pub revision: Option<i64>,
    pub event_id: Option<Seq<char>>,
    pub relative: Option<i64>,
    pub from_revision: Option<i64>,
    pub from_event: Option<Seq<char>>,
    pub as_of: Option<Seq<char>>,
}

impl View for FactHistoryQuery {
    type V = HistoryQueryV;

    open spec fn view(&self) -> HistoryQueryV {
        HistoryQueryV {
            history: self.history,
            limit: self.limit,
            cursor: opt_view(self.cursor),
            revision: self.revision,
            event_id: opt_view(self.event_id),
            relative: self.relative,
            from_revision: self.from_revision,
            from_event: opt_view(self.from_event),
            as_of: opt_view(self.as_of),
        }
    }
}

impl Default for FactHistoryQuery {
    fn default() -> (r: FactHistoryQuery)
        ensures
            r@ == (HistoryQueryV {
                history: None,
                limit: None,
                cursor: None,
                revision: None,
                event_id: None,
                relative: None,
                from_revision: None,
                from_event: None,
                as_of: None,
            }),
    {
        FactHistoryQuery {
            history: None,
            limit: None,
            cursor: None,
            revision: None,
            event_id: None,
            relative: None,
            from_revision: None,
            from_event: None,
            as_of: None,
        }
    }
}

/// Which one revision is selected.
#[derive(Debug)]
pub enum FactRevisionSelector {
    Revision(i64),
    Event(String),
    /// A number of revisions after a base, which is the current one unless given.
    Relative { offset: i64, base_revision: Option<i64>, base_event_id: Option<String> },
    AsOf(String),
}

pub enum SelectorV {
    Revision(i64),
    Event(Seq<char>),
    Relative { offset: i64, base_revision: Option<i64>, base_event_id: Option<Seq<char>> },
    AsOf(Seq<char>),
}

impl View for FactRevisionSelector {
    type V = SelectorV;

    open spec fn view(&self) -> SelectorV {
        match self {
            FactRevisionSelector::Revision(n) => SelectorV::Revision(*n),
            FactRevisionSelector::Event(e) => SelectorV::Event(e@),
            FactRevisionSelector::Relative { offset, base_revision, base_event_id } =>
                SelectorV::Relative {
                offset: *offset,
                base_revision: *base_revision,
                base_event_id: opt_view(*base_event_id),
            },
            FactRevisionSelector::AsOf(t) => SelectorV::AsOf(t@),
        }
    }
}

impl HistoryQueryV {
    /// The one revision that is selected, no selection, or why the request
    /// contradicts itself.
    pub open spec fn selector(self) -> Result<Option<SelectorV>, Seq<char>> {
        if self.as_of is Some && (self.revision is Some || self.event_id is Some || self.relative
            is Some) {
            Err("asOf cannot be combined with revision, eventId, or relative"@)
        } else if self.revision is Some && self.event_id is Some {
            Err("use only one of revision or eventId"@)
        } else if (self.from_revision is Some || self.from_event is Some) && self.relative is None {
            Err("fromRevision and fromEvent require relative"@)
        } else if self.from_revision is Some && self.from_event is Some {
            Err("use only one of fromRevision or fromEvent"@)
        } else {
            match self.relative {
                Some(offset) => Ok(
                    Some(
                        SelectorV::Relative {
                            offset,
                            base_revision: match self.revision {
                                Some(n) => Some(n),
                                None => self.from_revision,
                            },
                            base_event_id: or(self.event_id, self.from_event),
                        },
                    ),
                ),
                None => match self.revision {
                    Some(n) => Ok(Some(SelectorV::Revision(n))),
                    None => match self.event_id {
                        Some(e) => Ok(Some(SelectorV::Event(e))),
                        None => match self.as_of {
                            Some(t) => Ok(Some(SelectorV::AsOf(t))),
                            None => Ok(None),
                        },
                    },
                },
            }
        }
    }

    pub open spec fn selects(self) -> bool {
        self.revision is Some || self.event_id is Some || self.relative is Some || self.as_of
            is Some || self.from_revision is Some || self.from_event is Some
    }

    /// The request for one fact: the current revision unless another is selected.
    pub open spec fn for_get(self) -> HistoryQueryV {
        if self.selects() {
            self
        } else {
            HistoryQueryV { relative: Some(0), ..self }
        }
    }
}

impl FactHistoryQuery {
    pub fn copy(&self) -> (r: FactHistoryQuery)
        ensures
            r@ == self@,
    {
        FactHistoryQuery {
            history: self.history,
            limit: self.limit,
            cursor: copy_opt(&self.cursor),
            revision: self.revision,
            event_id: copy_opt(&self.event_id),
            relative: self.relative,
            from_revision: self.from_revision,
            from_event: copy_opt(&self.from_event),
            as_of: copy_opt(&self.as_of),
        }
    }

    pub fn selected_revision(&self) -> (r: Result<Option<FactRevisionSelector>, String>)
        ensures
            match self@.selector() {
                Ok(Some(s)) => r matches Ok(Some(x)) && x@ == s,
                Ok(None) => r matches Ok(None),
                Err(m) => r matches Err(e) && e@ == m,
            },
    {
        if self.as_of.is_some() && (self.revision.is_some() || self.event_id.is_some()
            || self.relative.is_some()) {
            return Err("asOf cannot be combined with revision, eventId, or relative".to_owned());
        }
        if self.revision.is_some() && self.event_id.is_some() {
            return Err("use only one of revision or eventId".to_owned());
        }
        if (self.from_revision.is_some() || self.from_event.is_some()) && self.relative.is_none() {
            return Err("fromRevision and fromEvent require relative".to_owned());
        }
        if self.from_revision.is_some() && self.from_event.is_some() {
            return Err("use only one of fromRevision or fromEvent".to_owned());
        }
        match self.relative {
            Some(offset) => {
                let base_revision = match self.revision {
                    Some(n) => Some(n),
                    None => self.from_revision,
                };
                Ok(
                    Some(
                        FactRevisionSelector::Relative {
                            offset,
                            base_revision,
                            base_event_id: or_text(
                                copy_opt(&self.event_id),
                                copy_opt(&self.from_event),
                            ),
                        },
                    ),
                )
            },
            None => match self.revision {
                Some(n) => Ok(Some(FactRevisionSelector::Revision(n))),
                None => match &self.event_id {
                    Some(e) => Ok(Some(FactRevisionSelector::Event(e.clone()))),
                    None => match &self.as_of {
                        Some(t) => Ok(Some(FactRevisionSelector::AsOf(t.clone()))),
                        None => Ok(None),
                    },
                },
            },
        }
    }

    pub fn has_selector(&self) -> (r: bool)
        ensures
            r == self@.selects(),
    {
        self.revision.is_some() || self.event_id.is_some() || self.relative.is_some()
            || self.as_of.is_some() || self.from_revision.is_some() || self.from_event.is_some()
    }
}

// ---------------------------------------------------------------------------
// Times
// ---------------------------------------------------------------------------
pub open spec fn as_of_error() -> Seq<char> {
    "asOf must be RFC3339 timestamp or YYYY-MM-DD date"@
}

/// The moment that a text names: a timestamp, or the last second of a day.
pub open spec fn as_of_moment(text: Seq<char>) -> Option<Moment> {
    match rfc3339(text) {
        Some(m) => Some(m),
        None => match calendar_day(text) {
            Some(day) => Some(
                Moment { seconds: ((day - 719163) * 86400 + 86399) as i64, nanos: 0 },
            ),
            None => None,
        },
    }
}

pub fn parse_as_of(value: &str) -> (r: Result<Moment, String>)
    ensures
        match as_of_moment(value@) {
            Some(m) => r matches Ok(x) && x == m,
            None => r matches Err(e) && e@ == as_of_error(),
        },
{
    match read_rfc3339(value) {
        Some(m) => {
            return Ok(m);
        },
        None => {},
    }
    match read_day(value) {
        Some(day) => {
            let since: i64 = day as i64 - 719163;
            let seconds: i64 = since * 86400 + 86399;
            Ok(Moment { seconds, nanos: 0 })
        },
        None => Err("asOf must be RFC3339 timestamp or YYYY-MM-DD date".to_owned()),
    }
}

/// When an event was accepted, where its text is a timestamp.
pub fn parse_event_time(value: &str) -> (r: Option<Moment>)
    ensures
        r == rfc3339(value@),
{
    read_rfc3339(value)
}

// ---------------------------------------------------------------------------
// Finding a revision
// ---------------------------------------------------------------------------
/// The first event from an index on that meets a condition.
pub open spec fn position(events: Seq<EventV>, p: spec_fn(EventV) -> bool, from: int) -> Option<int>
    decreases events.len() - from,
{
    if from < 0 || from >= events.len() {
        None
    } else if p(events[from]) {
        Some(from)
    } else {
        position(events, p, from + 1)
    }
}

/// The last of the first `n` events that meets a condition.
pub open spec fn last_position(events: Seq<EventV>, p: spec_fn(EventV) -> bool, n: int) -> Option<
    int,
>
    decreases n,
{
    if n <= 0 {
        None
    } else if p(events[n - 1]) {
        Some(n - 1)
    } else {
        last_position(events, p, n - 1)
    }
}

pub open spec fn with_revision(n: int) -> spec_fn(EventV) -> bool {
    |e: EventV| e.revision == n
}

pub open spec fn with_event_id(id: Seq<char>) -> spec_fn(EventV) -> bool {
    |e: EventV| e.event_id == id
}

/// Whether an event was accepted no later than a moment.
pub open spec fn accepted_by(m: Moment) -> spec_fn(EventV) -> bool {
    |e: EventV|
        match rfc3339(e.accepted_at) {
            Some(t) => not_after(t, m),
            None => false,
        }
}

fn find_revision(stored: &Vec<StoredFactEvent>, revision: i64) -> (r: Option<usize>)
    ensures
        match position(event_views(stored@), with_revision(revision as int), 0) {
            Some(i) => r matches Some(k) && k == i && 0 <= i < stored@.len(),
            None => r is None,
        },
{
    let ghost events = event_views(stored@);
    let ghost p = with_revision(revision as int);
    let mut i: usize = 0;
    while i < stored.len()
        invariant
            i <= stored@.len(),
            events == event_views(stored@),
            p == with_revision(revision as int),
            position(events, p, 0) == position(events, p, i as int),
        decreases stored@.len() - i,
    {
        assert(events[i as int] == stored@[i as int]@);
        if stored[i].revision == revision {
            return Some(i);
        }
        i += 1;
    }
    None
}

fn find_event(stored: &Vec<StoredFactEvent>, id: &str) -> (r: Option<usize>)
    ensures
        match position(event_views(stored@), with_event_id(id@), 0) {
            Some(i) => r matches Some(k) && k == i && 0 <= i < stored@.len(),
            None => r is None,
        },
{
    let ghost events = event_views(stored@);
    let ghost p = with_event_id(id@);
    let mut i: usize = 0;
    while i < stored.len()
        invariant
            i <= stored@.len(),
            events == event_views(stored@),
            p == with_event_id(id@),
            position(events, p, 0) == position(events, p, i as int),
        decreases stored@.len() - i,
    {
        assert(events[i as int] == stored@[i as int]@);
        if same(stored[i].event_id.as_str(), id) {
            return Some(i);
        }
        i += 1;
    }
    None
}

fn find_accepted_by(stored: &Vec<StoredFactEvent>, m: Moment) -> (r: Option<usize>)
    ensures
        match last_position(event_views(stored@), accepted_by(m), stored@.len() as int) {
            Some(i) => r matches Some(k) && k == i && 0 <= i < stored@.len(),
            None => r is None,
        },
{
    let ghost events = event_views(stored@);
    let ghost p = accepted_by(m);
    let mut n: usize = stored.len();
    while n > 0
        invariant
            n <= stored@.len(),
            events == event_views(stored@),
            p == accepted_by(m),
            last_position(events, p, stored@.len() as int) == last_position(events, p, n as int),
        decreases n,
    {
        let i = n - 1;
        assert(events[i as int] == stored@[i as int]@);
        match parse_event_time(stored[i].accepted_at.as_str()) {
            Some(t) => {
                if t.is_not_after(m) {
                    return Some(i);
                }
            },
            None => {},
        }
        n = i;
    }
    None
}

pub open spec fn no_event_error(fact_id: Seq<char>, event_id: Seq<char>) -> ErrorV {
    not_found_error("fact "@ + debug_text(fact_id) + " has no event "@ + debug_text(event_id))
}

/// A sum as it is held in 64 bits.
pub open spec fn wrapped(n: int) -> int {
    if n > i64::MAX {
        n - 0x1_0000_0000_0000_0000
    } else if n < i64::MIN {
        n + 0x1_0000_0000_0000_0000
    } else {
        n
    }
}

/// The index of the event that a selector selects, or why there is none.
pub open spec fn selected_index(fact_id: Seq<char>, events: Seq<EventV>, selector: SelectorV) -> Result<
    int,
    ErrorV,
> {
    match selector {
        SelectorV::Revision(n) => match position(events, with_revision(n as int), 0) {
            Some(i) => Ok(i),
            None => Err(
                not_found_error(
                    "fact "@ + debug_text(fact_id) + " has no revision "@ + decimal_int(n as int),
                ),
            ),
        },
        SelectorV::Event(id) => match position(events, with_event_id(id), 0) {
            Some(i) => Ok(i),
            None => Err(no_event_error(fact_id, id)),
        },
        SelectorV::Relative { offset, base_revision, base_event_id } => {
            let base = match (base_revision, base_event_id) {
                (Some(n), None) => Ok(n as int),
                (None, Some(id)) => match position(events, with_event_id(id), 0) {
                    Some(i) => Ok(events[i].revision),
                    None => Err(no_event_error(fact_id, id)),
                },
                (None, None) => Ok(events.last().revision),
                (Some(_), Some(_)) => Err(
                    bad_request_error("use only one of fromRevision or fromEvent"@),
                ),
            };
            match base {
                Err(e) => Err(e),
                Ok(b) => {
                    let n = wrapped(b + offset);
                    match position(events, with_revision(n), 0) {
                        Some(i) => Ok(i),
                        None => Err(
                            not_found_error(
                                "fact "@ + debug_text(fact_id) + " has no revision "@ + decimal_int(
                                    n,
                                ) + " for relative offset "@ + decimal_int(offset as int),
                            ),
                        ),
                    }
                },
            }
        },
        SelectorV::AsOf(text) => match as_of_moment(text) {
            None => Err(bad_request_error(as_of_error())),
            Some(m) => match last_position(events, accepted_by(m), events.len() as int) {
                Some(i) => Ok(i),
                None => Err(
                    not_found_error(
                        "fact "@ + debug_text(fact_id) + " has no revision at or before "@
                            + moment_text(m),
                    ),
                ),
            },
        },
    }
}

fn no_event(fact_id: &str, event_id: &str) -> (r: ApiError)
    ensures
        r@ == no_event_error(fact_id@, event_id@),
{
    not_found(
        cat4(
            "fact ",
            debug_of(fact_id).as_str(),
            " has no event ",
            debug_of(event_id).as_str(),
        ),
    )
}

/// The event that a selector selects among the stored ones.
pub fn select_event(fact_id: &str, stored: &Vec<StoredFactEvent>, selector: &FactRevisionSelector) -> (r:
    Result<usize, ApiError>)
    requires
        stored@.len() > 0,
    ensures
        match selected_index(fact_id@, event_views(stored@), selector@) {
            Ok(i) => r matches Ok(k) && k == i && 0 <= i < stored@.len(),
            Err(e) => r matches Err(x) && x@ == e,
        },
{
    let ghost events = event_views(stored@);
    match selector {
        FactRevisionSelector::Revision(n) => match find_revision(stored, *n) {
            Some(i) => Ok(i),
            None => Err(
                not_found(
                    cat4(
                        "fact ",
                        debug_of(fact_id).as_str(),
                        " has no revision ",
                        digits_of_i64(*n).as_str(),
                    ),
                ),
            ),
        },
        FactRevisionSelector::Event(id) => match find_event(stored, id.as_str()) {
            Some(i) => Ok(i),
            None => Err(no_event(fact_id, id.as_str())),
        },
        FactRevisionSelector::Relative { offset, base_revision, base_event_id } => {
            let base: i64 = match (base_revision, base_event_id) {
                (Some(n), None) => *n,
                (None, Some(id)) => match find_event(stored, id.as_str()) {
                    Some(i) => {
                        assert(events[i as int] == stored@[i as int]@);
                        stored[i].revision
                    },
                    None => {
                        return Err(no_event(fact_id, id.as_str()));
                    },
                },
                (None, None) => {
                    assert(events.last() == stored@.last()@);
                    stored[stored.len() - 1].revision
                },
                (Some(_), Some(_)) => {
                    return Err(bad_request("use only one of fromRevision or fromEvent".to_owned()));
                },
            };
            let n: i64 = base.wrapping_add(*offset);
            assert(n == wrapped(base + *offset));
            match find_revision(stored, n) {
                Some(i) => Ok(i),
                None => Err(
                    not_found(
                        cat6(
                            "fact ",
                            debug_of(fact_id).as_str(),
                            " has no revision ",
                            digits_of_i64(n).as_str(),
                            " for relative offset ",
                            digits_of_i64(*offset).as_str(),
                        ),
                    ),
                ),
            }
        },
        FactRevisionSelector::AsOf(text) => match parse_as_of(text.as_str()) {
            Err(m) => Err(bad_request(m)),
            Ok(m) => match find_accepted_by(stored, m) {
                Some(i) => Ok(i),
                None => Err(
                    not_found(
                        cat4(
                            "fact ",
                            debug_of(fact_id).as_str(),
                            " has no revision at or before ",
                            show_moment(m).as_str(),
                        ),
                    ),
                ),
            },
        },
    }
}

// ---------------------------------------------------------------------------
// Events
// ---------------------------------------------------------------------------
/// How an event is shown, given the current revision, the event after it and its
/// fact.
pub open spec fn event_json(e: EventV, current_revision: int, next: Option<EventV>, fact: JsonV) -> JsonV {
    let current = e.revision == current_revision;
    JsonV::empty_object().with("eventId"@, JsonV::Text(e.event_id)).with(
        "factId"@,
        JsonV::Text(e.fact_id),
    ).with("revision"@, JsonV::Number(decimal_int(e.revision))).with(
        "acceptedAt"@,
        JsonV::Text(e.accepted_at),
    ).with("contentHash"@, JsonV::Text(e.content_hash)).with(
        "sourceRepository"@,
        JsonV::opt_text(e.source_repository),
    ).with("sourceSha"@, JsonV::opt_text(e.source_sha)).with(
        "sourceRef"@,
        JsonV::opt_text(e.source_ref),
    ).with(
        "status"@,
        JsonV::Text(
            if current {
                "current"@
            } else {
                "superseded"@
            },
        ),
    ).with("current"@, JsonV::Bool(current)).with(
        "supersededBy"@,
        match next {
            Some(n) => JsonV::Text(n.event_id),
            None => JsonV::Null,
        },
    ).with(
        "supersededAt"@,
        match next {
            Some(n) => JsonV::Text(n.accepted_at),
            None => JsonV::Null,
        },
    ).with("fact"@, fact)
}

pub open spec fn next_event(events: Seq<EventV>, i: int) -> Option<EventV> {
    if i + 1 < events.len() {
        Some(events[i + 1])
    } else {
        None
    }
}

/// How the event at an index of a history is shown.
pub open spec fn shown_event(events: Seq<EventV>, i: int) -> Result<JsonV, ErrorV> {
    match json_read(events[i].json) {
        Ok(fact) => Ok(
            event_json(events[i], events.last().revision, next_event(events, i), fact),
        ),
        Err(m) => Err(internal_error(m)),
    }
}

/// How the first `n` events are shown, or the first error.
pub open spec fn shown_events(events: Seq<EventV>, n: int) -> Result<Seq<JsonV>, ErrorV>
    decreases n,
{
    if n <= 0 {
        Ok(Seq::empty())
    } else {
        match shown_events(events, n - 1) {
            Err(e) => Err(e),
            Ok(shown) => match shown_event(events, n - 1) {
                Err(e) => Err(e),
                Ok(v) => Ok(shown.push(v)),
            },
        }
    }
}

proof fn lemma_shown_events_fail(events: Seq<EventV>, n: int, m: int)
    requires
        0 <= n <= m,
        shown_events(events, n) is Err,
    ensures
        shown_events(events, m) == shown_events(events, n),
    decreases m - n,
{
    if n < m {
        lemma_shown_events_fail(events, n, m - 1);
    }
}

impl StoredFactEvent {
    /// How the event is shown once its fact was read.
    pub fn with_fact(&self, current_revision: i64, next: Option<&StoredFactEvent>, fact: Json) -> (r:
        Json)
        ensures
            r@ == event_json(
                self@,
                current_revision as int,
                match next {
                    Some(n) => Some(n@),
                    None => None,
                },
                fact@,
            ),
    {
        let current = self.revision == current_revision;
        let status = if current {
            "current"
        } else {
            "superseded"
        };
        let (by, at) = match next {
            Some(n) => (Json::text(n.event_id.as_str()), Json::text(n.accepted_at.as_str())),
            None => (Json::Null, Json::Null),
        };
        Json::object().with("eventId", Json::text(self.event_id.as_str())).with(
            "factId",
            Json::text(self.fact_id.as_str()),
        ).with("revision", Json::Number(digits_of_i64(self.revision))).with(
            "acceptedAt",
            Json::text(self.accepted_at.as_str()),
        ).with("contentHash", Json::text(self.content_hash.as_str())).with(
            "sourceRepository",
            Json::opt_text(&self.source_repository),
        ).with("sourceSha", Json::opt_text(&self.source_sha)).with(
            "sourceRef",
            Json::opt_text(&self.source_ref),
        ).with("status", Json::text(status)).with("current", Json::Bool(current)).with(
            "supersededBy",
            by,
        ).with("supersededAt", at).with("fact", fact)
    }

    /// How the event is shown.
    pub fn to_json(&self, current_revision: i64, next: Option<&StoredFactEvent>) -> (r: Result<
        Json,
        ApiError,
    >)
        ensures
            match json_read(self@.json) {
                Ok(fact) => r matches Ok(v) && v@ == event_json(
                    self@,
                    current_revision as int,
                    match next {
                        Some(n) => Some(n@),
                        None => None,
                    },
                    fact,
                ),
                Err(m) => r matches Err(e) && e@ == internal_error(m),
            },
    {
        match read_json(self.json.as_str()) {
            Ok(fact) => Ok(self.with_fact(current_revision, next, fact)),
            Err(m) => Err(internal(m)),
        }
    }
}

fn show_event(stored: &Vec<StoredFactEvent>, i: usize) -> (r: Result<Json, ApiError>)
    requires
        i < stored@.len(),
    ensures
        match shown_event(event_views(stored@), i as int) {
            Ok(v) => r matches Ok(x) && x@ == v,
            Err(e) => r matches Err(x) && x@ == e,
        },
{
    let ghost events = event_views(stored@);
    let n = stored.len();
    let current = stored[n - 1].revision;
    assert(events.last() == stored@.last()@);
    assert(events[i as int] == stored@[i as int]@);
    if i + 1 < n {
        assert(events[i + 1] == stored@[i + 1]@);
        stored[i].to_json(current, Some(&stored[i + 1]))
    } else {
        stored[i].to_json(current, None)
    }
}

// ---------------------------------------------------------------------------
// Pages of history
// ---------------------------------------------------------------------------
/// A page of a fact's history.
#[derive(Debug)]
pub struct FactHistoryPage {
    pub fact_id: String,
    pub events: Vec<Json>,
    pub page: PageInfo,
}

pub struct HistoryPageV {
    pub fact_id: Seq<char>,
    pub events: Seq<JsonV>,
    pub page: PageV,
}

impl View for FactHistoryPage {
    type V = HistoryPageV;

    open spec fn view(&self) -> HistoryPageV {
        HistoryPageV {
            fact_id: self.fact_id@,
            events: items_view(self.events@),
            page: self.page@,
        }
    }
}

pub open spec fn history_json(page: HistoryPageV) -> JsonV {
    JsonV::empty_object().with("factId"@, JsonV::Text(page.fact_id)).with(
        "events"@,
        JsonV::Array(page.events),
    ).with("page"@, page_json(page.page))
}

impl FactHistoryPage {
    pub fn to_value(&self) -> (r: Json)
        ensures
            r@ == history_json(self@),
    {
        Json::object().with("factId", Json::text(self.fact_id.as_str())).with(
            "events",
            Json::array(copy_items(&self.events)),
        ).with("page", self.page.to_value())
    }
}

/// The page of a fact's history that a request asks for: the one selected event, or
/// the events from the newest on.
pub open spec fn history(fact_id: Seq<char>, query: HistoryQueryV, events: Seq<EventV>) -> Result<
    HistoryPageV,
    ErrorV,
> {
    match query.selector() {
        Err(m) => Err(bad_request_error(m)),
        Ok(Some(selector)) => if events.len() == 0 {
            Err(not_found_error("fact "@ + debug_text(fact_id) + " has no history"@))
        } else {
            match selected_index(fact_id, events, selector) {
                Err(e) => Err(e),
                Ok(i) => match shown_event(events, i) {
                    Err(e) => Err(e),
                    Ok(v) => Ok(
                        HistoryPageV { fact_id, events: seq![v], page: page_info(1, 0, 1) },
                    ),
                },
            }
        },
        Ok(None) => match start_offset(query.cursor) {
            None => Err(cursor_error()),
            Some(offset) => if events.len() == 0 {
                Err(not_found_error("fact "@ + debug_text(fact_id) + " has no history"@))
            } else {
                match shown_events(events, events.len() as int) {
                    Err(e) => Err(e),
                    Ok(shown) => {
                        let limit = page_limit(query.limit, DEFAULT_HISTORY_LIMIT) as nat;
                        Ok(
                            HistoryPageV {
                                fact_id,
                                events: page_of(shown.reverse(), offset, limit),
                                page: page_info(shown.len(), offset, limit),
                            },
                        )
                    },
                }
            },
        },
    }
}

fn reversed(v: &Vec<Json>) -> (r: Vec<Json>)
    ensures
        items_view(r@) == items_view(v@).reverse(),
{
    let ghost all = items_view(v@).reverse();
    let mut out: Vec<Json> = Vec::new();
    let mut i: usize = 0;
    assert(items_view(out@) =~= all.take(0));
    while i < v.len()
        invariant
            i <= v@.len(),
            all == items_view(v@).reverse(),
            items_view(out@) == all.take(i as int),
        decreases v@.len() - i,
    {
        let ghost before = items_view(out@);
        let n = v.len();
        out.push(v[n - 1 - i].copy());
        assert(items_view(out@) =~= before.push(v@[v@.len() - 1 - i]@));
        assert(all[i as int] == v@[v@.len() - 1 - i]@);
        assert(all.take(i as int + 1) =~= before.push(all[i as int]));
        i += 1;
    }
    assert(all.take(i as int) =~= all);
    out
}

/// The page of a fact's history that a request asks for, out of the fact's stored
/// events in the order of their revisions.
pub fn query_fact_history(fact_id: &str, query: &FactHistoryQuery, stored: &Vec<StoredFactEvent>) -> (r:
    Result<FactHistoryPage, ApiError>)
    ensures
        match history(fact_id@, query@, event_views(stored@)) {
            Ok(page) => r matches Ok(p) && p@ == page,
            Err(e) => r matches Err(x) && x@ == e,
        },
{
    let ghost events = event_views(stored@);
    let selected = match query.selected_revision() {
        Ok(s) => s,
        Err(m) => {
            return Err(bad_request(m));
        },
    };
    let limit = if selected.is_some() {
        1
    } else {
        bounded_limit(query.limit, DEFAULT_HISTORY_LIMIT)
    };
    let offset = if selected.is_some() {
        0
    } else {
        match start_of(&query.cursor) {
            Ok(n) => n,
            Err(e) => {
                return Err(e);
            },
        }
    };
    if stored.len() == 0 {
        return Err(not_found(cat3("fact ", debug_of(fact_id).as_str(), " has no history")));
    }
    let mut shown: Vec<Json> = Vec::new();
    assert(items_view(shown@) =~= Seq::empty());
    match &selected {
        Some(selector) => {
            let index = match select_event(fact_id, stored, selector) {
                Ok(i) => i,
                Err(e) => {
                    return Err(e);
                },
            };
            match show_event(stored, index) {
                Ok(v) => {
                    let ghost one = v@;
                    shown.push(v);
                    assert(items_view(shown@) =~= seq![one]);
                },
                Err(e) => {
                    return Err(e);
                },
            }
        },
        None => {
            let mut i: usize = 0;
            while i < stored.len()
                invariant
                    i <= stored@.len(),
                    events == event_views(stored@),
                    stored@.len() > 0,
                    query@.selector() matches Ok(None),
                    start_offset(query@.cursor) is Some,
                    shown_events(events, i as int) == Ok::<Seq<JsonV>, ErrorV>(
                        items_view(shown@),
                    ),
                decreases stored@.len() - i,
            {
                match show_event(stored, i) {
                    Ok(v) => {
                        let ghost before = items_view(shown@);
                        let ghost next = v@;
                        shown.push(v);
                        assert(items_view(shown@) =~= before.push(next));
                    },
                    Err(e) => {
                        proof {
                            lemma_shown_events_fail(events, i as int + 1, stored@.len() as int);
                        }
                        return Err(e);
                    },
                }
                i += 1;
            }
        },
    }
    let newest_first = reversed(&shown);
    let (out, page) = cut_page(&newest_first, offset, limit);
    proof {
        if selected is Some {
            assert(items_view(shown@).reverse() =~= items_view(shown@));
            assert(items_view(shown@).skip(0) =~= items_view(shown@));
        }
    }
    Ok(FactHistoryPage { fact_id: fact_id.to_owned(), events: out, page })
}

// ---------------------------------------------------------------------------
// One fact
// ---------------------------------------------------------------------------
/// The answer that holds an event and, beside it, its fact.
pub open spec fn get_response(fact_id: Seq<char>, event: JsonV) -> JsonV {
    JsonV::empty_object().with("factId"@, JsonV::Text(fact_id)).with(
        "event"@,
        event.without("fact"@),
    ).with("fact"@, JsonV::or_null(event.get("fact"@)))
}

pub fn fact_get_response(fact_id: &str, event: &Json) -> (r: Json)
    ensures
        r@ == get_response(fact_id@, event@),
{
    let fact = event.at_or_null("fact");
    Json::object().with("factId", Json::text(fact_id)).with("event", event.without("fact")).with(
        "fact",
        fact,
    )
}

/// What is answered to a request for one fact.
pub open spec fn get_reply(fact_id: Seq<char>, query: HistoryQueryV, events: Seq<EventV>) -> Result<
    JsonV,
    ErrorV,
> {
    if query.history == Some(true) {
        match history(fact_id, query, events) {
            Ok(page) => Ok(history_json(page)),
            Err(e) => Err(e),
        }
    } else {
        match history(fact_id, query.for_get(), events) {
            Ok(page) => if page.events.len() > 0 {
                Ok(get_response(fact_id, page.events[0]))
            } else {
                Err(not_found_error("fact "@ + debug_text(fact_id) + " was not found"@))
            },
            Err(e) => Err(e),
        }
    }
}

pub fn fact_get(fact_id: &str, query: &FactHistoryQuery, stored: &Vec<StoredFactEvent>) -> (r: Result<
    Json,
    ApiError,
>)
    ensures
        match get_reply(fact_id@, query@, event_views(stored@)) {
            Ok(v) => r matches Ok(x) && x@ == v,
            Err(e) => r matches Err(x) && x@ == e,
        },
{
    let listed = match query.history {
        Some(b) => b,
        None => false,
    };
    if listed {
        return match query_fact_history(fact_id, query, stored) {
            Ok(page) => Ok(page.to_value()),
            Err(e) => Err(e),
        };
    }
    let mut selected = query.copy();
    if !selected.has_selector() {
        selected.relative = Some(0);
    }
    match query_fact_history(fact_id, &selected, stored) {
        Ok(page) => if page.events.len() > 0 {
            assert(items_view(page.events@)[0] == page.events@[0]@);
            Ok(fact_get_response(fact_id, &page.events[0]))
        } else {
            Err(not_found(cat3("fact ", debug_of(fact_id).as_str(), " was not found")))
        },
        Err(e) => Err(e),
    }
}

// ---------------------------------------------------------------------------
// What holds of every history
// ---------------------------------------------------------------------------
/// Whether the revisions are numbered from one on without gaps.
pub open spec fn numbered(events: Seq<EventV>) -> bool {
    forall|i: int| 0 <= i < events.len() ==> (#[trigger] events[i]).revision == i + 1
}

proof fn lemma_numbered_position(events: Seq<EventV>, n: int, from: int)
    requires
        numbered(events),
        0 <= from <= events.len(),
    ensures
        position(events, with_revision(n), from) == (if from < n <= events.len() {
            Some(n - 1)
        } else {
            None::<int>
        }),
    decreases events.len() - from,
{
    if from < events.len() {
        assert(events[from].revision == from + 1);
        lemma_numbered_position(events, n, from + 1);
    }
}

/// A revision is selected by its number, if and only if there is one.
pub proof fn law_revision_selects(fact_id: Seq<char>, events: Seq<EventV>, n: i64)
    requires
        numbered(events),
    ensures
        1 <= n <= events.len() ==> selected_index(fact_id, events, SelectorV::Revision(n)) == Ok::<
            int,
            ErrorV,
        >(n - 1),
        !(1 <= n <= events.len()) ==> selected_index(fact_id, events, SelectorV::Revision(n))
            is Err,
{
    lemma_numbered_position(events, n as int, 0);
}

/// A relative selection without a base counts from the current revision: none back is
/// the current one, one back the one before it.
pub proof fn law_relative_counts_from_current(fact_id: Seq<char>, events: Seq<EventV>, back: i64)
    requires
        numbered(events),
        0 <= back < events.len() <= i64::MAX,
    ensures
        selected_index(
            fact_id,
            events,
            SelectorV::Relative {
                offset: (-back) as i64,
                base_revision: None,
                base_event_id: None,
            },
        ) == Ok::<int, ErrorV>(events.len() - 1 - back),
{
    assert(events.last().revision == events.len());
    lemma_numbered_position(events, events.len() - back, 0);
}

/// A relative selection counts from the revision that is given by its number.
pub proof fn law_relative_counts_from_revision(
    fact_id: Seq<char>,
    events: Seq<EventV>,
    base: i64,
    offset: i64,
)
    requires
        numbered(events),
        events.len() <= i64::MAX,
        1 <= base + offset <= events.len(),
    ensures
        selected_index(
            fact_id,
            events,
            SelectorV::Relative { offset, base_revision: Some(base), base_event_id: None },
        ) == Ok::<int, ErrorV>(base + offset - 1),
{
    lemma_numbered_position(events, base + offset, 0);
}

proof fn lemma_event_position(events: Seq<EventV>, i: int, from: int)
    requires
        0 <= from <= i < events.len(),
        forall|j: int, k: int|
            0 <= j < events.len() && 0 <= k < events.len() && j != k ==> (
            #[trigger] events[j]).event_id != (#[trigger] events[k]).event_id,
    ensures
        position(events, with_event_id(events[i].event_id), from) == Some(i),
    decreases i - from,
{
    if from < i {
        assert(events[from].event_id != events[i].event_id);
        lemma_event_position(events, i, from + 1);
    }
}

/// Where no two events have the same id, each event is selected by its id.
pub proof fn law_event_selects(fact_id: Seq<char>, events: Seq<EventV>, i: int)
    requires
        0 <= i < events.len(),
        forall|j: int, k: int|
            0 <= j < events.len() && 0 <= k < events.len() && j != k ==> (
            #[trigger] events[j]).event_id != (#[trigger] events[k]).event_id,
    ensures
        selected_index(fact_id, events, SelectorV::Event(events[i].event_id)) == Ok::<int, ErrorV>(
            i,
        ),
{
    lemma_event_position(events, i, 0);
}

proof fn lemma_last_position(events: Seq<EventV>, p: spec_fn(EventV) -> bool, n: int)
    requires
        0 <= n <= events.len(),
    ensures
        match last_position(events, p, n) {
            Some(i) => 0 <= i < n && p(events[i]) && (forall|j: int|
                i < j < n ==> !p(#[trigger] events[j])),
            None => forall|j: int| 0 <= j < n ==> !p(#[trigger] events[j]),
        },
    decreases n,
{
    if n > 0 {
        lemma_last_position(events, p, n - 1);
    }
}

/// A moment selects the last revision that was accepted by then; there is none only
/// where no revision was.
pub proof fn law_as_of_selects_latest(fact_id: Seq<char>, events: Seq<EventV>, text: Seq<char>)
    requires
        as_of_moment(text) is Some,
    ensures
        ({
            let by_then = accepted_by(as_of_moment(text)->Some_0);
            match selected_index(fact_id, events, SelectorV::AsOf(text)) {
                Ok(i) => 0 <= i < events.len() && by_then(events[i]) && (forall|j: int|
                    i < j < events.len() ==> !by_then(#[trigger] events[j])),
                Err(e) => e.status == 404 && (forall|j: int|
                    0 <= j < events.len() ==> !by_then(#[trigger] events[j])),
            }
        }),
{
    lemma_last_position(
        events,
        accepted_by(as_of_moment(text)->Some_0),
        events.len() as int,
    );
}

/// A selection is answered by one event.
pub proof fn law_selection_is_one_event(
    fact_id: Seq<char>,
    query: HistoryQueryV,
    events: Seq<EventV>,
)
    requires
        query.selector() matches Ok(Some(_)),
        history(fact_id, query, events) is Ok,
    ensures
        history(fact_id, query, events)->Ok_0.events.len() == 1,
        history(fact_id, query, events)->Ok_0.page == (PageV {
            limit: 1,
            max_limit: 200,
            total: 1,
            next_cursor: None,
        }),
{
}

proof fn lemma_shown_events(events: Seq<EventV>, n: int)
    requires
        0 <= n <= events.len(),
        shown_events(events, n) is Ok,
    ensures
        shown_events(events, n)->Ok_0.len() == n,
        forall|i: int|
            0 <= i < n ==> shown_event(events, i) == Ok::<JsonV, ErrorV>(
                #[trigger] shown_events(events, n)->Ok_0[i],
            ),
    decreases n,
{
    if n > 0 {
        lemma_shown_events(events, n - 1);
    }
}

proof fn lemma_event_fields(e: EventV, current: int, next: Option<EventV>, fact: JsonV)
    ensures
        event_json(e, current, next, fact).get("fact"@) == Some(fact),
        event_json(e, current, next, fact).get("current"@) == Some(
            JsonV::Bool(e.revision == current),
        ),
        event_json(e, current, next, fact).get("status"@) == Some(
            JsonV::Text(
                if e.revision == current {
                    "current"@
                } else {
                    "superseded"@
                },
            ),
        ),
        event_json(e, current, next, fact).get("supersededBy"@) == Some(
            match next {
                Some(n) => JsonV::Text(n.event_id),
                None => JsonV::Null,
            },
        ),
        event_json(e, current, next, fact) is Object,
{
    reveal_strlit("status");
    reveal_strlit("current");
    reveal_strlit("supersededBy");
    reveal_strlit("supersededAt");
    reveal_strlit("fact");
    let is_current = e.revision == current;
    let m0 = JsonV::empty_object().with("eventId"@, JsonV::Text(e.event_id)).with(
        "factId"@,
        JsonV::Text(e.fact_id),
    ).with("revision"@, JsonV::Number(decimal_int(e.revision))).with(
        "acceptedAt"@,
        JsonV::Text(e.accepted_at),
    ).with("contentHash"@, JsonV::Text(e.content_hash)).with(
        "sourceRepository"@,
        JsonV::opt_text(e.source_repository),
    ).with("sourceSha"@, JsonV::opt_text(e.source_sha)).with(
        "sourceRef"@,
        JsonV::opt_text(e.source_ref),
    );
    let status = JsonV::Text(
        if is_current {
            "current"@
        } else {
            "superseded"@
        },
    );
    let by = match next {
        Some(n) => JsonV::Text(n.event_id),
        None => JsonV::Null,
    };
    let at = match next {
        Some(n) => JsonV::Text(n.accepted_at),
        None => JsonV::Null,
    };
    let m1 = m0->Object_0;
    let m2 = put(m1, "status"@, status);
    let m3 = put(m2, "current"@, JsonV::Bool(is_current));
    let m4 = put(m3, "supersededBy"@, by);
    let m5 = put(m4, "supersededAt"@, at);
    let m6 = put(m5, "fact"@, fact);
    assert(event_json(e, current, next, fact) == JsonV::Object(m6));
    assert("supersededBy"@[10] != "supersededAt"@[10]);
    assert("fact"@.len() == 4 && "status"@.len() == 6 && "current"@.len() == 7);
    assert("supersededBy"@.len() == 12 && "supersededAt"@.len() == 12);
    lemma_put_member(m1, "status"@, status, "fact"@);
    lemma_put_member(m2, "current"@, JsonV::Bool(is_current), "status"@);
    lemma_put_member(m3, "supersededBy"@, by, "status"@);
    lemma_put_member(m3, "supersededBy"@, by, "current"@);
    lemma_put_member(m4, "supersededAt"@, at, "status"@);
    lemma_put_member(m4, "supersededAt"@, at, "current"@);
    lemma_put_member(m4, "supersededAt"@, at, "supersededBy"@);
    lemma_put_member(m5, "fact"@, fact, "status"@);
    lemma_put_member(m5, "fact"@, fact, "current"@);
    lemma_put_member(m5, "fact"@, fact, "supersededBy"@);
}

/// A history is listed from the newest revision on: only the first event is current,
/// and each other one names the event that came before it in the list as the one that
/// superseded it.
pub proof fn law_history_newest_first(fact_id: Seq<char>, query: HistoryQueryV, events: Seq<EventV>, k: int)
    requires
        numbered(events),
        query.selector() matches Ok(None),
        query.cursor is None,
        history(fact_id, query, events) is Ok,
        0 <= k < history(fact_id, query, events)->Ok_0.events.len(),
    ensures
        ({
            let shown = history(fact_id, query, events)->Ok_0.events[k];
            let i = events.len() - 1 - k;
            &&& 0 <= i < events.len()
            &&& shown_event(events, i) == Ok::<JsonV, ErrorV>(shown)
            &&& shown.get("current"@) == Some(JsonV::Bool(k == 0))
            &&& shown.get("status"@) == Some(
                JsonV::Text(
                    if k == 0 {
                        "current"@
                    } else {
                        "superseded"@
                    },
                ),
            )
            &&& shown.get("supersededBy"@) == Some(
                if k == 0 {
                    JsonV::Null
                } else {
                    JsonV::Text(events[i + 1].event_id)
                },
            )
        }),
{
    let n = events.len() as int;
    lemma_shown_events(events, n);
    let shown = shown_events(events, n)->Ok_0;
    let i = n - 1 - k;
    assert(shown.reverse()[k] == shown[i]);
    assert(events[i].revision == i + 1);
    assert(events.last().revision == n);
    lemma_event_fields(
        events[i],
        events.last().revision,
        next_event(events, i),
        json_read(events[i].json)->Ok_0,
    );
}

/// Asking for a history page by page, with one limit or none, gives every event once,
/// from the newest on.
pub proof fn law_history_pages_give_every_event(
    fact_id: Seq<char>,
    query: HistoryQueryV,
    events: Seq<EventV>,
    cursor: Option<Seq<char>>,
    most: nat,
)
    requires
        query.selector() matches Ok(None),
        0 < events.len() <= usize::MAX,
        shown_events(events, events.len() as int) is Ok,
        most > events.len(),
    ensures
        ({
            let all = shown_events(events, events.len() as int)->Ok_0.reverse();
            let limit = page_limit(query.limit, DEFAULT_HISTORY_LIMIT) as nat;
            &&& all.len() == events.len()
            &&& items_of_pages(pages_from(all, limit, None, most)) == all
            &&& complete_pages(pages_from(all, limit, None, most), events.len(), limit)
            &&& history(fact_id, HistoryQueryV { cursor, ..query }, events) == match page_at(
                all,
                limit,
                cursor,
            ) {
                Some(p) => Ok(HistoryPageV { fact_id, events: p.items, page: p.page }),
                None => Err(cursor_error()),
            }
        }),
{
    lemma_shown_events(events, events.len() as int);
    let all = shown_events(events, events.len() as int)->Ok_0.reverse();
    law_pages_give_whole_list(all, page_limit(query.limit, DEFAULT_HISTORY_LIMIT) as nat, most);
    assert(HistoryQueryV { cursor, ..query }.selector() == query.selector());
}

/// A fact that was accepted is what a request for it is then answered, as its current
/// revision.
pub proof fn law_uploaded_fact_is_answered(
    store: StoreV,
    fact: JsonV,
    now: Seq<char>,
    query: HistoryQueryV,
)
    requires
        store.wf(),
        store.outcome(fact, now) matches Ok(UpsertV::Accepted { .. }),
        reads_as(json_print(fact), fact),
        store.revisions(upload_id(fact)).len() < i64::MAX,
        !query.selects(),
        query.history != Some(true),
    ensures
        ({
            let id = upload_id(fact);
            let before = store.revisions(id);
            let e = event_of(fact, now, before.len() as int);
            let shown = event_json(e, e.revision, None, fact);
            &&& get_reply(id, query, store.after(fact, now).revisions(id)) == Ok::<JsonV, ErrorV>(
                get_response(id, shown),
            )
            &&& shown.get("fact"@) == Some(fact)
            &&& shown.get("status"@) == Some(JsonV::Text("current"@))
        }),
{
    let id = upload_id(fact);
    let before = store.revisions(id);
    let n = before.len() as int;
    if n > 0 {
        assert(before[n - 1].revision == n);
    }
    let e = event_of(fact, now, n);
    let events = store.after(fact, now).revisions(id);
    assert(events == before.push(e));
    assert(numbered(events)) by {
        assert forall|i: int| 0 <= i < events.len() implies (#[trigger] events[i]).revision == i
            + 1 by {
            if i < n {
                assert(events[i] == before[i]);
                assert(store.revisions(id)[i].revision == i + 1);
            }
        }
    }
    assert(query.for_get().selector() == Ok::<Option<SelectorV>, Seq<char>>(
        Some(SelectorV::Relative { offset: 0, base_revision: None, base_event_id: None }),
    ));
    law_relative_counts_from_current(id, events, 0);
    assert(events.last() == e);
    lemma_event_fields(e, e.revision, None, fact);
}

} // verus!
