//! The service that stores facts: uploads, their identities and revisions, pages of
//! facts, gates and who may write.
use vstd::prelude::*;
use vstd::utf8::{encode_utf8, encode_utf8_valid_utf8};
use crate::codec::{
    base64_url, digest, from_base64, lemma_base64_injective, lemma_utf8_injective, sha256,
    to_base64,
};
use crate::config::text_of_bytes;
use crate::facts::{text2, text_at2};
use crate::json::{
    copy_items, items_view, json_print, json_read, lemma_array_view, print_json, read_json,
    reads_as, storable, Json, JsonV, MAX_NESTING,
};
use crate::text::{
    cat2, cat3, cat5, copy_opt, debug_of, debug_text, decimal, decimal_int, digits_of_i64,
    digits_of_usize, lemma_parse_decimal, opt_view, or, or_text, parse_unsigned, same, strip_prefix,
    stripped_prefix, to_usize, trim, trimmed,
};

verus! {

/// How many facts a page holds unless asked for otherwise.
pub const DEFAULT_FACT_LIMIT: usize = 100;

/// How many events a page of history holds unless asked for otherwise.
pub const DEFAULT_HISTORY_LIMIT: usize = 25;

/// The most that a page holds.
pub const MAX_PAGE_LIMIT: usize = 200;

// ---------------------------------------------------------------------------
// Errors
// ---------------------------------------------------------------------------
/// An error of the service: its HTTP status, its code and its message.
#[derive(Debug)]
pub struct ApiError {
    pub status: u16,
    pub code: &'static str,
    pub message: String,
}

pub struct ErrorV {
    pub status: int,
    pub code: Seq<char>,
    pub message: Seq<char>,
}

impl View for ApiError {
    type V = ErrorV;

    open spec fn view(&self) -> ErrorV {
        ErrorV { status: self.status as int, code: self.code@, message: self.message@ }
    }
}

pub open spec fn bad_request_error(message: Seq<char>) -> ErrorV {
    ErrorV { status: 400, code: "bad_request"@, message }
}

pub open spec fn not_found_error(message: Seq<char>) -> ErrorV {
    ErrorV { status: 404, code: "not_found"@, message }
}

pub open spec fn internal_error(message: Seq<char>) -> ErrorV {
    ErrorV { status: 500, code: "internal_error"@, message }
}

pub open spec fn unauthorized_error() -> ErrorV {
    ErrorV {
        status: 401,
        code: "unauthorized"@,
        message: "write authorization is required"@,
    }
}

pub fn bad_request(message: String) -> (r: ApiError)
    ensures
        r@ == bad_request_error(message@),
{
    ApiError { status: 400, code: "bad_request", message }
}

pub fn not_found(message: String) -> (r: ApiError)
    ensures
        r@ == not_found_error(message@),
{
    ApiError { status: 404, code: "not_found", message }
}

pub fn internal(message: String) -> (r: ApiError)
    ensures
        r@ == internal_error(message@),
{
    ApiError { status: 500, code: "internal_error", message }
}

/// The body of an error response.
pub open spec fn error_json(e: ErrorV) -> JsonV {
    JsonV::empty_object().with(
        "error"@,
        JsonV::empty_object().with("code"@, JsonV::Text(e.code)).with(
            "message"@,
            JsonV::Text(e.message),
        ).with("status"@, JsonV::Number(decimal_int(e.status))),
    )
}

impl ApiError {
    pub fn to_value(&self) -> (r: Json)
        ensures
            r@ == error_json(self@),
    {
        Json::object().with(
            "error",
            Json::object().with("code", Json::text(self.code)).with(
                "message",
                Json::text(self.message.as_str()),
            ).with("status", Json::Number(digits_of_i64(self.status as i64))),
        )
    }
}

/// Whoever may write: anyone where no token is set, else who sends it as a bearer.
pub open spec fn write_allowed(expected: Option<Seq<char>>, header: Option<Seq<char>>) -> bool {
    match expected {
        None => true,
        Some(token) => match header {
            Some(h) => match strip_prefix(h, "Bearer "@) {
                Some(sent) => trim(sent) == token,
                None => false,
            },
            None => false,
        },
    }
}

pub fn authorize_write(expected: &Option<String>, header: &Option<String>) -> (r: Result<
    (),
    ApiError,
>)
    ensures
        write_allowed(opt_view(*expected), opt_view(*header)) ==> r is Ok,
        !write_allowed(opt_view(*expected), opt_view(*header)) ==> (r matches Err(e) && e@
            == unauthorized_error()),
{
    let token = match expected {
        None => {
            return Ok(());
        },
        Some(t) => t,
    };
    match header {
        Some(h) => match stripped_prefix(h.as_str(), "Bearer ") {
            Some(sent) => {
                if same(trimmed(sent.as_str()).as_str(), token.as_str()) {
                    return Ok(());
                }
            },
            None => {},
        },
        None => {},
    }
    Err(
        ApiError {
            status: 401,
            code: "unauthorized",
            message: "write authorization is required".to_owned(),
        },
    )
}

/// Without a token anyone writes; with one, no request without the header does.
pub proof fn law_write_authorization(expected: Option<Seq<char>>, header: Option<Seq<char>>)
    ensures
        expected is None ==> write_allowed(expected, header),
        expected is Some && header is None ==> !write_allowed(expected, header),
{
}

// ---------------------------------------------------------------------------
// Pages
// ---------------------------------------------------------------------------
/// A limit within the bounds of a page.
pub open spec fn page_limit(limit: Option<usize>, default: usize) -> usize {
    let n = match limit {
        Some(x) => x,
        None => default,
    };
    if n < 1 {
        1
    } else if n > MAX_PAGE_LIMIT {
        MAX_PAGE_LIMIT
    } else {
        n
    }
}

pub fn bounded_limit(limit: Option<usize>, default: usize) -> (r: usize)
    ensures
        r == page_limit(limit, default),
        1 <= r <= MAX_PAGE_LIMIT,
{
    let n = match limit {
        Some(x) => x,
        None => default,
    };
    if n < 1 {
        1
    } else if n > MAX_PAGE_LIMIT {
        MAX_PAGE_LIMIT
    } else {
        n
    }
}

/// The cursor of an offset.
pub open spec fn cursor_text(offset: nat) -> Seq<char> {
    base64_url(encode_utf8(decimal(offset)))
}

/// Whether a cursor is the base64 of a text that writes a number.
pub open spec fn writes_cursor(digits: Seq<char>, cursor: Seq<char>) -> bool {
    base64_url(encode_utf8(digits)) == cursor && parse_unsigned(digits, usize::MAX as int) is Some
}

/// The offset of a cursor.
pub open spec fn cursor_offset(cursor: Seq<char>) -> Option<nat> {
    if exists|d: Seq<char>| writes_cursor(d, cursor) {
        parse_unsigned(choose|d: Seq<char>| writes_cursor(d, cursor), usize::MAX as int)
    } else {
        None
    }
}

proof fn lemma_cursor_unique(a: Seq<char>, b: Seq<char>, cursor: Seq<char>)
    requires
        base64_url(encode_utf8(a)) == cursor,
        base64_url(encode_utf8(b)) == cursor,
    ensures
        a == b,
{
    lemma_base64_injective(encode_utf8(a), encode_utf8(b));
    lemma_utf8_injective(a, b);
}

/// A cursor is read back as the offset that it was made of.
pub proof fn law_cursor_reads_back(offset: usize)
    ensures
        cursor_offset(cursor_text(offset as nat)) == Some(offset as nat),
{
    let c = cursor_text(offset as nat);
    let d = decimal(offset as nat);
    lemma_parse_decimal(offset as nat, usize::MAX as int);
    assert(writes_cursor(d, c));
    let e = choose|e: Seq<char>| writes_cursor(e, c);
    lemma_cursor_unique(d, e, c);
}

pub fn encode_cursor(offset: usize) -> (r: String)
    ensures
        r@ == cursor_text(offset as nat),
{
    let digits = digits_of_usize(offset);
    to_base64(digits.as_str().as_bytes())
}

pub open spec fn cursor_error() -> ErrorV {
    bad_request_error("cursor is invalid"@)
}

pub fn decode_cursor(cursor: &str) -> (r: Result<usize, ApiError>)
    ensures
        match cursor_offset(cursor@) {
            Some(n) => r matches Ok(m) && m == n,
            None => r matches Err(e) && e@ == cursor_error(),
        },
{
    let bytes = match from_base64(cursor) {
        Some(b) => b,
        None => {
            assert forall|d: Seq<char>| !writes_cursor(d, cursor@) by {
                assert(base64_url(encode_utf8(d)) != cursor@);
            }
            return Err(bad_request("cursor is invalid".to_owned()));
        },
    };
    let ghost b = bytes@;
    match text_of_bytes(bytes) {
        None => {
            assert forall|d: Seq<char>| !writes_cursor(d, cursor@) by {
                if base64_url(encode_utf8(d)) == cursor@ {
                    lemma_base64_injective(encode_utf8(d), b);
                    encode_utf8_valid_utf8(d);
                }
            }
            Err(bad_request("cursor is invalid".to_owned()))
        },
        Some(text) => match to_usize(text.as_str()) {
            Some(n) => {
                proof {
                    assert(writes_cursor(text@, cursor@));
                    let e = choose|e: Seq<char>| writes_cursor(e, cursor@);
                    lemma_cursor_unique(text@, e, cursor@);
                }
                Ok(n)
            },
            None => {
                assert forall|d: Seq<char>| !writes_cursor(d, cursor@) by {
                    if base64_url(encode_utf8(d)) == cursor@ {
                        lemma_cursor_unique(text@, d, cursor@);
                    }
                }
                Err(bad_request("cursor is invalid".to_owned()))
            },
        },
    }
}

/// The offset of an optional cursor, the start without one.
pub open spec fn start_offset(cursor: Option<Seq<char>>) -> Option<nat> {
    match cursor {
        Some(c) => cursor_offset(c),
        None => Some(0),
    }
}

pub fn start_of(cursor: &Option<String>) -> (r: Result<usize, ApiError>)
    ensures
        match start_offset(opt_view(*cursor)) {
            Some(n) => r matches Ok(m) && m == n,
            None => r matches Err(e) && e@ == cursor_error(),
        },
{
    match cursor {
        Some(c) => decode_cursor(c.as_str()),
        None => Ok(0),
    }
}

/// The part of a list that a page holds.
pub open spec fn page_of(all: Seq<JsonV>, offset: nat, limit: nat) -> Seq<JsonV> {
    if offset >= all.len() {
        Seq::empty()
    } else if all.len() - offset <= limit {
        all.skip(offset as int)
    } else {
        all.subrange(offset as int, (offset + limit) as int)
    }
}

/// The cursor of the page after one, where there is one.
pub open spec fn next_page(total: nat, offset: nat, limit: nat) -> Option<Seq<char>> {
    if offset < total && total - offset > limit {
        Some(cursor_text(offset + limit))
    } else {
        None
    }
}

/// The description of a page.
#[derive(Debug)]
pub struct PageInfo {
    pub limit: usize,
    pub max_limit: usize,
    pub total: usize,
    pub next_cursor: Option<String>,
}

pub struct PageV {
    pub limit: nat,
    pub max_limit: nat,
    pub total: nat,
    pub next_cursor: Option<Seq<char>>,
}

impl View for PageInfo {
    type V = PageV;

    open spec fn view(&self) -> PageV {
        PageV {
            limit: self.limit as nat,
            max_limit: self.max_limit as nat,
            total: self.total as nat,
            next_cursor: opt_view(self.next_cursor),
        }
    }
}

pub open spec fn page_json(page: PageV) -> JsonV {
    JsonV::empty_object().with("limit"@, JsonV::number(page.limit)).with(
        "maxLimit"@,
        JsonV::number(page.max_limit),
    ).with("total"@, JsonV::number(page.total)).with(
        "nextCursor"@,
        JsonV::opt_text(page.next_cursor),
    )
}

impl PageInfo {
    pub fn to_value(&self) -> (r: Json)
        ensures
            r@ == page_json(self@),
    {
        Json::object().with("limit", Json::count(self.limit)).with(
            "maxLimit",
            Json::count(self.max_limit),
        ).with("total", Json::count(self.total)).with(
            "nextCursor",
            Json::opt_text(&self.next_cursor),
        )
    }
}

/// The description of the page of a list that starts at an offset.
pub open spec fn page_info(total: nat, offset: nat, limit: nat) -> PageV {
    PageV {
        limit,
        max_limit: MAX_PAGE_LIMIT as nat,
        total,
        next_cursor: next_page(total, offset, limit),
    }
}

/// Cuts a page out of a list: its items, and the description of the page.
pub fn cut_page(all: &Vec<Json>, offset: usize, limit: usize) -> (r: (
    Vec<Json>,
    PageInfo,
))
    requires
        limit >= 1,
    ensures
        items_view(r.0@) == page_of(items_view(all@), offset as nat, limit as nat),
        r.1@ == page_info(all@.len(), offset as nat, limit as nat),
{
    let ghost a = items_view(all@);
    let total = all.len();
    let mut out: Vec<Json> = Vec::new();
    assert(items_view(out@) =~= Seq::empty());
    let mut next: Option<String> = None;
    if offset < total {
        let end: usize = if total - offset <= limit {
            total
        } else {
            offset + limit
        };
        let mut i: usize = offset;
        assert(a.subrange(offset as int, offset as int) =~= Seq::empty());
        while i < end
            invariant
                a == items_view(all@),
                offset <= i <= end <= all@.len(),
                items_view(out@) == a.subrange(offset as int, i as int),
            decreases end - i,
        {
            let ghost before = items_view(out@);
            out.push(all[i].copy());
            assert(items_view(out@) =~= before.push(a[i as int]));
            assert(a.subrange(offset as int, i as int + 1) =~= before.push(a[i as int]));
            i += 1;
        }
        assert(end == total ==> a.subrange(offset as int, end as int) =~= a.skip(offset as int));
        if end < total {
            next = Some(encode_cursor(end));
        }
    }
    let page = PageInfo { limit, max_limit: MAX_PAGE_LIMIT, total, next_cursor: next };
    (out, page)
}

/// Following the cursors of pages comes to every item once: a page and what follows
/// from its cursor on are together what follows from its own start.
pub proof fn law_pages_cover_list(all: Seq<JsonV>, offset: nat, limit: nat)
    requires
        limit >= 1,
        offset <= all.len(),
    ensures
        match next_page(all.len(), offset, limit) {
            Some(_) => all.skip(offset as int) == page_of(all, offset, limit) + all.skip(
                (offset + limit) as int,
            ) && page_of(all, offset, limit).len() == limit,
            None => all.skip(offset as int) == page_of(all, offset, limit),
        },
{
    if offset < all.len() && all.len() - offset > limit {
        assert(all.skip(offset as int) =~= page_of(all, offset, limit) + all.skip((offset + limit) as int));
    } else {
        assert(all.skip(offset as int) =~= page_of(all, offset, limit));
    }
}

/// The items of a page of a list and its description.
pub struct ListPageV {
    pub items: Seq<JsonV>,
    pub page: PageV,
}

/// The page of a list that a cursor asks for; a cursor that is none asks for nothing.
pub open spec fn page_at(all: Seq<JsonV>, limit: nat, cursor: Option<Seq<char>>) -> Option<
    ListPageV,
> {
    match start_offset(cursor) {
        Some(offset) => Some(
            ListPageV {
                items: page_of(all, offset, limit),
                page: page_info(all.len(), offset, limit),
            },
        ),
        None => None,
    }
}

/// The pages of a list from a cursor on, each but the first asked for by the cursor that
/// the one before it names, until one names none or `most` were asked for.
pub open spec fn pages_from(
    all: Seq<JsonV>,
    limit: nat,
    cursor: Option<Seq<char>>,
    most: nat,
) -> Seq<ListPageV>
    decreases most,
{
    if most == 0 {
        Seq::empty()
    } else {
        match page_at(all, limit, cursor) {
            None => Seq::empty(),
            Some(first) => match first.page.next_cursor {
                Some(next) => seq![first] + pages_from(all, limit, Some(next), (most - 1) as nat),
                None => seq![first],
            },
        }
    }
}

/// The items of pages, one page after another.
pub open spec fn items_of_pages(pages: Seq<ListPageV>) -> Seq<JsonV>
    decreases pages.len(),
{
    if pages.len() == 0 {
        Seq::empty()
    } else {
        pages[0].items + items_of_pages(pages.skip(1))
    }
}

/// Whether pages come to the end of a list: each holds at most as many items as asked
/// for and tells how many there are in all, and only the last names no next one.
pub open spec fn complete_pages(pages: Seq<ListPageV>, total: nat, limit: nat) -> bool {
    &&& pages.len() > 0
    &&& forall|i: int|
        0 <= i < pages.len() ==> {
            &&& (#[trigger] pages[i]).items.len() <= limit
            &&& pages[i].page.limit == limit
            &&& pages[i].page.total == total
            &&& pages[i].page.next_cursor is None <==> i == pages.len() - 1
        }
}

proof fn lemma_pages_from(
    all: Seq<JsonV>,
    limit: nat,
    cursor: Option<Seq<char>>,
    offset: nat,
    most: nat,
)
    requires
        all.len() <= usize::MAX,
        1 <= limit,
        start_offset(cursor) == Some(offset),
        offset <= all.len(),
        most > all.len() - offset,
    ensures
        items_of_pages(pages_from(all, limit, cursor, most)) == all.skip(offset as int),
        complete_pages(pages_from(all, limit, cursor, most), all.len(), limit),
    decreases most,
{
    let pages = pages_from(all, limit, cursor, most);
    let first = page_at(all, limit, cursor)->Some_0;
    law_pages_cover_list(all, offset, limit);
    match first.page.next_cursor {
        Some(next) => {
            let start = offset + limit;
            law_cursor_reads_back(start as usize);
            lemma_pages_from(all, limit, Some(next), start, (most - 1) as nat);
            let rest = pages_from(all, limit, Some(next), (most - 1) as nat);
            assert(pages == seq![first] + rest);
            assert(pages.skip(1) =~= rest);
            assert forall|i: int| 0 < i < pages.len() implies #[trigger] pages[i] == rest[i - 1] by {}
        },
        None => {
            assert(pages.skip(1) =~= Seq::empty());
            assert(items_of_pages(pages.skip(1)) =~= Seq::empty());
            assert(first.items + Seq::<JsonV>::empty() =~= first.items);
        },
    }
}

proof fn lemma_pages_follow(all: Seq<JsonV>, limit: nat, cursor: Option<Seq<char>>, most: nat)
    ensures
        most > 0 && page_at(all, limit, cursor) is Some ==> pages_from(
            all,
            limit,
            cursor,
            most,
        ).len() > 0 && pages_from(all, limit, cursor, most)[0] == page_at(
            all,
            limit,
            cursor,
        )->Some_0,
        forall|i: int|
            0 < i < pages_from(all, limit, cursor, most).len() ==> page_at(
                all,
                limit,
                pages_from(all, limit, cursor, most)[i - 1].page.next_cursor,
            ) == Some(#[trigger] pages_from(all, limit, cursor, most)[i]),
    decreases most,
{
    if most > 0 && page_at(all, limit, cursor) is Some {
        let first = page_at(all, limit, cursor)->Some_0;
        let pages = pages_from(all, limit, cursor, most);
        if first.page.next_cursor is Some {
            let next = first.page.next_cursor;
            lemma_pages_follow(all, limit, next, (most - 1) as nat);
            let rest = pages_from(all, limit, next, (most - 1) as nat);
            assert(pages == seq![first] + rest);
            assert forall|i: int| 0 < i < pages.len() implies page_at(
                all,
                limit,
                pages[i - 1].page.next_cursor,
            ) == Some(#[trigger] pages[i]) by {
                assert(pages[i] == rest[i - 1]);
                if i == 1 {
                    assert(most - 1 > 0);
                    assert(page_at(all, limit, next) is Some);
                } else {
                    assert(pages[i - 1] == rest[i - 2]);
                }
            }
        }
    }
}

/// Following the cursors of pages from the first on, with one limit, gives the whole list,
/// each item once and in order, as long as it does not change. Each page holds at most as
/// many items as asked for and tells how many there are in all, and only the last names no
/// next one.
pub proof fn law_pages_give_whole_list(all: Seq<JsonV>, limit: nat, most: nat)
    requires
        all.len() <= usize::MAX,
        1 <= limit,
        most > all.len(),
    ensures
        items_of_pages(pages_from(all, limit, None, most)) == all,
        complete_pages(pages_from(all, limit, None, most), all.len(), limit),
{
    lemma_pages_from(all, limit, None, 0, most);
    assert(all.skip(0) =~= all);
}

// ---------------------------------------------------------------------------
// Facts
// ---------------------------------------------------------------------------
/// What facts are asked for.
#[derive(Debug)]
pub struct FactQuery {
    pub zone: Option<String>,
    pub track: Option<String>,
    pub kind: Option<String>,
    pub id: Option<String>,
    pub status: Option<String>,
    pub source_repository: Option<String>,
    pub subject_type: Option<String>,
    pub subject_name: Option<String>,
    pub channel: Option<String>,
    pub limit: Option<usize>,
    pub cursor: Option<String>,
}

/// The columns that facts are selected by.
#[derive(Debug)]
pub struct FactFilters {
    pub zone: Option<String>,
    pub kind: Option<String>,
    pub id: Option<String>,
    pub status: Option<String>,
    pub source_repository: Option<String>,
    pub subject_type: Option<String>,
    pub subject_name: Option<String>,
    pub channel: Option<String>,
}

/// The filters of a query; a track is another name for a zone.
pub fn fact_filters(query: &FactQuery) -> (r: FactFilters)
    ensures
        opt_view(r.zone) == or(opt_view(query.zone), opt_view(query.track)),
        opt_view(r.kind) == opt_view(query.kind),
        opt_view(r.id) == opt_view(query.id),
        opt_view(r.status) == opt_view(query.status),
        opt_view(r.source_repository) == opt_view(query.source_repository),
        opt_view(r.subject_type) == opt_view(query.subject_type),
        opt_view(r.subject_name) == opt_view(query.subject_name),
        opt_view(r.channel) == opt_view(query.channel),
{
    FactFilters {
        zone: or_text(copy_opt(&query.zone), copy_opt(&query.track)),
        kind: copy_opt(&query.kind),
        id: copy_opt(&query.id),
        status: copy_opt(&query.status),
        source_repository: copy_opt(&query.source_repository),
        subject_type: copy_opt(&query.subject_type),
        subject_name: copy_opt(&query.subject_name),
        channel: copy_opt(&query.channel),
    }
}

/// A selected row: the fact's text, when it was accepted and its hash.
#[derive(Debug)]
pub struct SelectedRow {
    pub json: String,
    pub accepted_at: Option<String>,
    pub content_hash: Option<String>,
}

/// An object with a text set where it has no such member.
pub open spec fn with_default(v: JsonV, key: Seq<char>, text: Option<Seq<char>>) -> JsonV {
    match text {
        Some(s) => if v.get(key) is None {
            v.with(key, JsonV::Text(s))
        } else {
            v
        },
        None => v,
    }
}

fn set_default(v: Json, key: &str, text: &Option<String>) -> (r: Json)
    ensures
        r@ == with_default(v@, key@, opt_view(*text)),
{
    match text {
        Some(s) => if v.get(key).is_none() {
            v.with(key, Json::text(s.as_str()))
        } else {
            v
        },
        None => v,
    }
}

/// The fact of a row as it was read, with when it was accepted and its hash unless it
/// says so itself.
pub open spec fn stamped(v: JsonV, row: SelectedRow) -> JsonV {
    with_default(
        with_default(v, "acceptedAt"@, opt_view(row.accepted_at)),
        "contentHash"@,
        opt_view(row.content_hash),
    )
}

/// Puts when it was accepted and its hash into a fact that was read from a row.
pub fn stamp_fact(fact: Json, row: &SelectedRow) -> (r: Json)
    ensures
        r@ == stamped(fact@, *row),
{
    set_default(
        set_default(fact, "acceptedAt", &row.accepted_at),
        "contentHash",
        &row.content_hash,
    )
}

/// The facts of the first `n` rows, or the message of the first that cannot be read.
pub open spec fn row_facts(rows: Seq<SelectedRow>, n: int) -> Result<Seq<JsonV>, Seq<char>>
    decreases n,
{
    if n <= 0 {
        Ok(Seq::empty())
    } else {
        match row_facts(rows, n - 1) {
            Err(m) => Err(m),
            Ok(facts) => match json_read(rows[n - 1].json@) {
                Err(m) => Err(m),
                Ok(v) => Ok(facts.push(stamped(v, rows[n - 1]))),
            },
        }
    }
}

proof fn lemma_row_facts_fail(rows: Seq<SelectedRow>, n: int, m: int)
    requires
        0 <= n <= m,
        row_facts(rows, n) is Err,
    ensures
        row_facts(rows, m) == row_facts(rows, n),
    decreases m - n,
{
    if n < m {
        lemma_row_facts_fail(rows, n, m - 1);
    }
}

pub fn select_matching(rows: &Vec<SelectedRow>) -> (r: Result<Vec<Json>, ApiError>)
    ensures
        match row_facts(rows@, rows@.len() as int) {
            Ok(facts) => r matches Ok(v) && items_view(v@) == facts,
            Err(m) => r matches Err(e) && e@ == internal_error(m),
        },
{
    let mut facts: Vec<Json> = Vec::new();
    let mut i: usize = 0;
    assert(items_view(facts@) =~= Seq::empty());
    while i < rows.len()
        invariant
            i <= rows@.len(),
            row_facts(rows@, i as int) == Ok::<Seq<JsonV>, Seq<char>>(items_view(facts@)),
        decreases rows@.len() - i,
    {
        match read_json(rows[i].json.as_str()) {
            Ok(v) => {
                let ghost before = items_view(facts@);
                let fact = stamp_fact(v, &rows[i]);
                let ghost next = fact@;
                facts.push(fact);
                assert(items_view(facts@) =~= before.push(next));
            },
            Err(m) => {
                proof {
                    lemma_row_facts_fail(rows@, i as int + 1, rows@.len() as int);
                }
                return Err(internal(m));
            },
        }
        i += 1;
    }
    Ok(facts)
}

/// A page of facts.
#[derive(Debug)]
pub struct FactPage {
    pub facts: Vec<Json>,
    pub page: PageInfo,
}

/// What a page of facts is answered as.
pub open spec fn facts_reply(facts: Seq<JsonV>, page: PageV) -> JsonV {
    JsonV::empty_object().with("facts"@, JsonV::Array(facts)).with("page"@, page_json(page))
}

impl FactPage {
    pub fn to_value(&self) -> (r: Json)
        ensures
            r@ == facts_reply(items_view(self.facts@), self.page@),
    {
        Json::object().with("facts", Json::array(copy_items(&self.facts))).with(
            "page",
            self.page.to_value(),
        )
    }
}

/// The page of the selected facts that a limit and a cursor ask for.
pub open spec fn facts_page(
    all: Seq<JsonV>,
    limit: Option<usize>,
    cursor: Option<Seq<char>>,
) -> Option<ListPageV> {
    page_at(all, page_limit(limit, DEFAULT_FACT_LIMIT) as nat, cursor)
}

/// The pages of the selected facts from a cursor on, each asked for as `facts_page` by the
/// cursor that the one before it names.
pub open spec fn facts_pages(
    all: Seq<JsonV>,
    limit: Option<usize>,
    cursor: Option<Seq<char>>,
    most: nat,
) -> Seq<ListPageV> {
    pages_from(all, page_limit(limit, DEFAULT_FACT_LIMIT) as nat, cursor, most)
}

/// Asking for facts page by page, with one limit or none, gives every selected fact once
/// and in order, at most two hundred on a page.
pub proof fn law_fact_pages_give_every_fact(all: Seq<JsonV>, limit: Option<usize>, most: nat)
    requires
        all.len() <= usize::MAX,
        most > all.len(),
    ensures
        items_of_pages(facts_pages(all, limit, None, most)) == all,
        complete_pages(
            facts_pages(all, limit, None, most),
            all.len(),
            page_limit(limit, DEFAULT_FACT_LIMIT) as nat,
        ),
        1 <= page_limit(limit, DEFAULT_FACT_LIMIT) <= 200,
        facts_pages(all, limit, None, most)[0] == facts_page(all, limit, None)->Some_0,
        forall|i: int|
            0 < i < facts_pages(all, limit, None, most).len() ==> facts_page(
                all,
                limit,
                facts_pages(all, limit, None, most)[i - 1].page.next_cursor,
            ) == Some(#[trigger] facts_pages(all, limit, None, most)[i]),
{
    let n = page_limit(limit, DEFAULT_FACT_LIMIT) as nat;
    law_pages_give_whole_list(all, n, most);
    lemma_pages_follow(all, n, None, most);
}

/// The page of the selected facts that a query asks for.
pub fn query_facts(query: &FactQuery, all: &Vec<Json>) -> (r: Result<FactPage, ApiError>)
    ensures
        match facts_page(items_view(all@), query.limit, opt_view(query.cursor)) {
            None => r matches Err(e) && e@ == cursor_error(),
            Some(page) => r matches Ok(p) && items_view(p.facts@) == page.items && p.page@
                == page.page,
        },
{
    let limit = bounded_limit(query.limit, DEFAULT_FACT_LIMIT);
    match start_of(&query.cursor) {
        Ok(offset) => {
            let (facts, page) = cut_page(all, offset, limit);
            Ok(FactPage { facts, page })
        },
        Err(e) => Err(e),
    }
}

/// The facts of an upload: of its list, its one fact, or itself.
pub open spec fn uploaded(body: JsonV) -> Option<Seq<JsonV>> {
    match body.get("facts"@) {
        Some(JsonV::Array(a)) => Some(a),
        _ => match body.get("fact"@) {
            Some(f) => Some(seq![f]),
            None => if body is Object {
                Some(seq![body])
            } else {
                None
            },
        },
    }
}

pub fn extract_facts(body: &Json) -> (r: Result<Vec<Json>, ApiError>)
    ensures
        match uploaded(body@) {
            Some(facts) => r matches Ok(v) && items_view(v@) == facts,
            None => r matches Err(e) && e@ == bad_request_error(
                "expected an object, fact, or facts array"@,
            ),
        },
{
    match body.get("facts") {
        Some(Json::Array(v)) => {
            proof {
                lemma_array_view(*v);
            }
            assert(body@.get("facts"@) == Some(Json::Array(*v)@));
            return Ok(copy_items(v));
        },
        _ => {},
    }
    let mut one: Vec<Json> = Vec::new();
    match body.get("fact") {
        Some(f) => {
            one.push(f.copy());
            assert(items_view(one@) =~= seq![f@]);
            return Ok(one);
        },
        None => {},
    }
    if matches!(body, Json::Object(_)) {
        assert(body@ is Object);
        one.push(body.copy());
        assert(items_view(one@) =~= seq![body@]);
        return Ok(one);
    }
    assert(!(body@ is Object));
    Err(bad_request("expected an object, fact, or facts array".to_owned()))
}

// ---------------------------------------------------------------------------
// Identities
// ---------------------------------------------------------------------------
pub open spec fn digest_text(s: Seq<char>) -> Seq<char> {
    base64_url(sha256(encode_utf8(s)))
}

fn digest_of(s: &str) -> (r: String)
    ensures
        r@ == digest_text(s@),
{
    let d = digest(s.as_bytes());
    to_base64(d.as_slice())
}

/// The id of a fact that names none: the digest of its JSON.
pub open spec fn made_id(fact: JsonV) -> Seq<char> {
    "fact."@ + digest_text(json_print(fact))
}

pub fn generated_id(value: &Json) -> (r: String)
    ensures
        r@ == made_id(value@),
{
    let text = print_json(value);
    cat2("fact.", digest_of(text.as_str()).as_str())
}

/// The hash of a fact's text.
pub open spec fn hash_text(serialized: Seq<char>) -> Seq<char> {
    "sha256:"@ + digest_text(serialized)
}

pub fn content_hash(serialized: &str) -> (r: String)
    ensures
        r@ == hash_text(serialized@),
{
    cat2("sha256:", digest_of(serialized).as_str())
}

/// The id of a revision of a fact.
pub open spec fn event_name(id: Seq<char>, revision: int, accepted_at: Seq<char>, hash: Seq<char>) -> Seq<
    char,
> {
    "event."@ + digest_text(
        id + "\0"@ + decimal_int(revision) + "\0"@ + accepted_at + "\0"@ + hash,
    )
}

pub fn event_id(fact_id: &str, revision: i64, accepted_at: &str, content_hash: &str) -> (r: String)
    ensures
        r@ == event_name(fact_id@, revision as int, accepted_at@, content_hash@),
{
    let mut text = cat5(
        fact_id,
        "\0",
        digits_of_i64(revision).as_str(),
        "\0",
        accepted_at,
    );
    text.push_str("\0");
    text.push_str(content_hash);
    cat2("event.", digest_of(text.as_str()).as_str())
}

// ---------------------------------------------------------------------------
// Uploads
// ---------------------------------------------------------------------------
/// A fact as it is stored.
#[derive(Debug)]
pub struct FactRecord {
    pub id: String,
    pub zone: String,
    pub kind: Option<String>,
    pub status: Option<String>,
    pub source_repository: Option<String>,
    pub source_sha: Option<String>,
    pub subject_type: Option<String>,
    pub subject_name: Option<String>,
    pub channel: Option<String>,
    pub observed_at: String,
    pub accepted_at: String,
    pub content_hash: String,
    pub json: String,
}

pub struct RecordV {
    pub id: Seq<char>,
    pub zone: Seq<char>,
    pub kind: Option<Seq<char>>,
    pub status: Option<Seq<char>>,
    pub source_repository: Option<Seq<char>>,
    pub source_sha: Option<Seq<char>>,
    pub subject_type: Option<Seq<char>>,
    pub subject_name: Option<Seq<char>>,
    pub channel: Option<Seq<char>>,
    pub observed_at: Seq<char>,
    pub accepted_at: Seq<char>,
    pub content_hash: Seq<char>,
    pub json: Seq<char>,
}

impl View for FactRecord {
    type V = RecordV;

    open spec fn view(&self) -> RecordV {
        RecordV {
            id: self.id@,
            zone: self.zone@,
            kind: opt_view(self.kind),
            status: opt_view(self.status),
            source_repository: opt_view(self.source_repository),
            source_sha: opt_view(self.source_sha),
            subject_type: opt_view(self.subject_type),
            subject_name: opt_view(self.subject_name),
            channel: opt_view(self.channel),
            observed_at: self.observed_at@,
            accepted_at: self.accepted_at@,
            content_hash: self.content_hash@,
            json: self.json@,
        }
    }
}

/// A revision of a fact as it is stored.
#[derive(Debug)]
pub struct StoredFactEvent {
    pub event_id: String,
    pub fact_id: String,
    pub revision: i64,
    pub accepted_at: String,
    pub content_hash: String,
    pub source_repository: Option<String>,
    pub source_sha: Option<String>,
    pub source_ref: Option<String>,
    pub json: String,
}

pub struct EventV {
    pub event_id: Seq<char>,
    pub fact_id: Seq<char>,
    pub revision: int,
    pub accepted_at: Seq<char>,
    pub content_hash: Seq<char>,
    pub source_repository: Option<Seq<char>>,
    pub source_sha: Option<Seq<char>>,
    pub source_ref: Option<Seq<char>>,
    pub json: Seq<char>,
}

impl View for StoredFactEvent {
    type V = EventV;

    open spec fn view(&self) -> EventV {
        EventV {
            event_id: self.event_id@,
            fact_id: self.fact_id@,
            revision: self.revision as int,
            accepted_at: self.accepted_at@,
            content_hash: self.content_hash@,
            source_repository: opt_view(self.source_repository),
            source_sha: opt_view(self.source_sha),
            source_ref: opt_view(self.source_ref),
            json: self.json@,
        }
    }
}

pub open spec fn event_views(v: Seq<StoredFactEvent>) -> Seq<EventV> {
    v.map_values(|e: StoredFactEvent| e@)
}

/// The id of an uploaded fact.
pub open spec fn upload_id(fact: JsonV) -> Seq<char> {
    match fact.text_at("id"@) {
        Some(id) => id,
        None => made_id(fact),
    }
}

pub fn fact_id_of(fact: &Json) -> (r: String)
    ensures
        r@ == upload_id(fact@),
{
    match fact.text_at("id") {
        Some(id) => id,
        None => generated_id(fact),
    }
}

pub open spec fn upload_zone(fact: JsonV) -> Option<Seq<char>> {
    or(fact.text_at("zone"@), fact.text_at("track"@))
}

pub open spec fn flat_or(fact: JsonV, flat: Seq<char>, outer: Seq<char>, inner: Seq<char>) -> Option<
    Seq<char>,
> {
    or(fact.text_at(flat), text2(fact, outer, inner))
}

fn flat_or_text(fact: &Json, flat: &str, outer: &str, inner: &str) -> (r: Option<String>)
    ensures
        opt_view(r) == flat_or(fact@, flat@, outer@, inner@),
{
    or_text(fact.text_at(flat), text_at2(fact, outer, inner))
}

/// The record that a fact becomes in its zone, accepted at a time.
pub open spec fn record_of(fact: JsonV, zone: Seq<char>, now: Seq<char>) -> RecordV {
    RecordV {
        id: upload_id(fact),
        zone,
        kind: fact.text_at("kind"@),
        status: fact.text_at("status"@),
        source_repository: flat_or(fact, "sourceRepository"@, "source"@, "repo"@),
        source_sha: flat_or(fact, "sourceSha"@, "source"@, "sha"@),
        subject_type: flat_or(fact, "subjectType"@, "subject"@, "type"@),
        subject_name: flat_or(fact, "subjectName"@, "subject"@, "name"@),
        channel: fact.text_at("channel"@),
        observed_at: match fact.text_at("observedAt"@) {
            Some(t) => t,
            None => now,
        },
        accepted_at: now,
        content_hash: hash_text(json_print(fact)),
        json: json_print(fact),
    }
}

/// The revision that a fact becomes, accepted at a time after the last revision.
pub open spec fn event_of(fact: JsonV, now: Seq<char>, last_revision: int) -> EventV {
    let hash = hash_text(json_print(fact));
    EventV {
        event_id: event_name(upload_id(fact), last_revision + 1, now, hash),
        fact_id: upload_id(fact),
        revision: last_revision + 1,
        accepted_at: now,
        content_hash: hash,
        source_repository: flat_or(fact, "sourceRepository"@, "source"@, "repo"@),
        source_sha: flat_or(fact, "sourceSha"@, "source"@, "sha"@),
        source_ref: flat_or(fact, "sourceRef"@, "source"@, "ref"@),
        json: json_print(fact),
    }
}

/// What an upload of a fact does.
#[derive(Debug)]
pub enum UpsertOutcome {
    /// The record and the revision are stored.
    Accepted { record: FactRecord, event: StoredFactEvent },
    /// The fact is stored already as it is.
    Duplicate,
}

pub enum UpsertV {
    Accepted { record: RecordV, event: EventV },
    Duplicate,
}

impl View for UpsertOutcome {
    type V = UpsertV;

    open spec fn view(&self) -> UpsertV {
        match self {
            UpsertOutcome::Accepted { record, event } => UpsertV::Accepted {
                record: record@,
                event: event@,
            },
            UpsertOutcome::Duplicate => UpsertV::Duplicate,
        }
    }
}

/// What an upload of a fact does at a time, given the hash and the last revision
/// that are stored for it; a fact without a zone is refused.
pub open spec fn upsert(fact: JsonV, now: Seq<char>, stored_hash: Option<Seq<char>>, last_revision: int) -> Result<
    UpsertV,
    ErrorV,
> {
    match upload_zone(fact) {
        None => Err(
            bad_request_error("fact "@ + debug_text(upload_id(fact)) + " is missing zone"@),
        ),
        Some(zone) => if stored_hash == Some(hash_text(json_print(fact))) {
            Ok(UpsertV::Duplicate)
        } else {
            Ok(
                UpsertV::Accepted {
                    record: record_of(fact, zone, now),
                    event: event_of(fact, now, last_revision),
                },
            )
        },
    }
}

pub fn upsert_fact(fact: &Json, now: &str, stored_hash: &Option<String>, last_revision: i64) -> (r:
    Result<UpsertOutcome, ApiError>)
    requires
        last_revision < i64::MAX,
    ensures
        match upsert(fact@, now@, opt_view(*stored_hash), last_revision as int) {
            Ok(outcome) => r matches Ok(x) && x@ == outcome,
            Err(e) => r matches Err(x) && x@ == e,
        },
        r is Ok && storable(fact@, MAX_NESTING as int) ==> reads_as(json_print(fact@), fact@),
{
    let id = fact_id_of(fact);
    let zone = match or_text(fact.text_at("zone"), fact.text_at("track")) {
        Some(z) => z,
        None => {
            return Err(
                bad_request(cat3("fact ", debug_of(id.as_str()).as_str(), " is missing zone")),
            );
        },
    };
    let serialized = print_json(fact);
    let hash = content_hash(serialized.as_str());
    match stored_hash {
        Some(h) => {
            if same(h.as_str(), hash.as_str()) {
                return Ok(UpsertOutcome::Duplicate);
            }
        },
        None => {},
    }
    let observed_at = match fact.text_at("observedAt") {
        Some(t) => t,
        None => now.to_owned(),
    };
    let event = insert_fact_event(fact, id.as_str(), now, hash.as_str(), serialized.as_str(), last_revision);
    let record = FactRecord {
        id,
        zone,
        kind: fact.text_at("kind"),
        status: fact.text_at("status"),
        source_repository: flat_or_text(fact, "sourceRepository", "source", "repo"),
        source_sha: flat_or_text(fact, "sourceSha", "source", "sha"),
        subject_type: flat_or_text(fact, "subjectType", "subject", "type"),
        subject_name: flat_or_text(fact, "subjectName", "subject", "name"),
        channel: fact.text_at("channel"),
        observed_at,
        accepted_at: now.to_owned(),
        content_hash: hash,
        json: serialized,
    };
    Ok(UpsertOutcome::Accepted { record, event })
}

/// The revision that follows the last one of a fact.
pub fn insert_fact_event(
    fact: &Json,
    fact_id: &str,
    accepted_at: &str,
    content_hash: &str,
    serialized: &str,
    last_revision: i64,
) -> (r: StoredFactEvent)
    requires
        last_revision < i64::MAX,
    ensures
        r@ == (EventV {
            event_id: event_name(fact_id@, last_revision + 1, accepted_at@, content_hash@),
            fact_id: fact_id@,
            revision: last_revision + 1,
            accepted_at: accepted_at@,
            content_hash: content_hash@,
            source_repository: flat_or(fact@, "sourceRepository"@, "source"@, "repo"@),
            source_sha: flat_or(fact@, "sourceSha"@, "source"@, "sha"@),
            source_ref: flat_or(fact@, "sourceRef"@, "source"@, "ref"@),
            json: serialized@,
        }),
{
    let revision = last_revision + 1;
    StoredFactEvent {
        event_id: event_id(fact_id, revision, accepted_at, content_hash),
        fact_id: fact_id.to_owned(),
        revision,
        accepted_at: accepted_at.to_owned(),
        content_hash: content_hash.to_owned(),
        source_repository: flat_or_text(fact, "sourceRepository", "source", "repo"),
        source_sha: flat_or_text(fact, "sourceSha", "source", "sha"),
        source_ref: flat_or_text(fact, "sourceRef", "source", "ref"),
        json: serialized.to_owned(),
    }
}

/// A stored fact without a revision.
#[derive(Debug)]
pub struct UnversionedRow {
    pub id: String,
    pub observed_at: Option<String>,
    pub source_repository: Option<String>,
    pub source_sha: Option<String>,
    pub accepted_at: Option<String>,
    pub content_hash: Option<String>,
    pub json: String,
}

/// The first revision of a stored fact without one: as its record says, else as it
/// was observed, else now.
pub open spec fn first_event(row: UnversionedRow, now: Seq<char>) -> EventV {
    let accepted = match or(opt_view(row.accepted_at), opt_view(row.observed_at)) {
        Some(t) => t,
        None => now,
    };
    let hash = match opt_view(row.content_hash) {
        Some(h) => h,
        None => hash_text(row.json@),
    };
    EventV {
        event_id: event_name(row.id@, 1, accepted, hash),
        fact_id: row.id@,
        revision: 1,
        accepted_at: accepted,
        content_hash: hash,
        source_repository: opt_view(row.source_repository),
        source_sha: opt_view(row.source_sha),
        source_ref: None,
        json: row.json@,
    }
}

pub fn backfill_fact_event(row: &UnversionedRow, now: &str) -> (r: StoredFactEvent)
    ensures
        r@ == first_event(*row, now@),
{
    let accepted = match or_text(copy_opt(&row.accepted_at), copy_opt(&row.observed_at)) {
        Some(t) => t,
        None => now.to_owned(),
    };
    let hash = match &row.content_hash {
        Some(h) => h.clone(),
        None => content_hash(row.json.as_str()),
    };
    StoredFactEvent {
        event_id: event_id(row.id.as_str(), 1, accepted.as_str(), hash.as_str()),
        fact_id: row.id.clone(),
        revision: 1,
        accepted_at: accepted,
        content_hash: hash,
        source_repository: copy_opt(&row.source_repository),
        source_sha: copy_opt(&row.source_sha),
        source_ref: None,
        json: row.json.clone(),
    }
}

// ---------------------------------------------------------------------------
// The store
// ---------------------------------------------------------------------------
/// What the service holds: the record of each fact, and its revisions in order.
pub struct StoreV {
    pub records: Map<Seq<char>, RecordV>,
    pub events: Map<Seq<char>, Seq<EventV>>,
}

impl StoreV {
    pub open spec fn stored_hash(self, id: Seq<char>) -> Option<Seq<char>> {
        if self.records.dom().contains(id) {
            Some(self.records[id].content_hash)
        } else {
            None
        }
    }

    pub open spec fn revisions(self, id: Seq<char>) -> Seq<EventV> {
        if self.events.dom().contains(id) {
            self.events[id]
        } else {
            Seq::empty()
        }
    }

    pub open spec fn last_revision(self, id: Seq<char>) -> int {
        if self.revisions(id).len() == 0 {
            0
        } else {
            self.revisions(id).last().revision
        }
    }

    /// What an upload does to this store.
    pub open spec fn outcome(self, fact: JsonV, now: Seq<char>) -> Result<UpsertV, ErrorV> {
        upsert(
            fact,
            now,
            self.stored_hash(upload_id(fact)),
            self.last_revision(upload_id(fact)),
        )
    }

    /// The store after an upload.
    pub open spec fn after(self, fact: JsonV, now: Seq<char>) -> StoreV {
        match self.outcome(fact, now) {
            Ok(UpsertV::Accepted { record, event }) => StoreV {
                records: self.records.insert(record.id, record),
                events: self.events.insert(
                    event.fact_id,
                    self.revisions(event.fact_id).push(event),
                ),
            },
            _ => self,
        }
    }

    /// The revisions of each fact are numbered from one on without gaps, belong to
    /// the fact, and the last is what its record says.
    pub open spec fn wf(self) -> bool {
        &&& forall|id: Seq<char>, i: int|
            #![trigger self.revisions(id)[i]]
            0 <= i < self.revisions(id).len() ==> self.revisions(id)[i].revision == i + 1
                && self.revisions(id)[i].fact_id == id
        &&& forall|id: Seq<char>|
            #![trigger self.records.dom().contains(id)]
            self.records.dom().contains(id) ==> self.revisions(id).len() > 0
                && self.revisions(id).last().content_hash == self.records[id].content_hash
                && self.revisions(id).last().json == self.records[id].json
                && self.revisions(id).last().accepted_at == self.records[id].accepted_at
    }
}

/// An upload keeps the revisions of every fact numbered without gaps, and the record
/// of each fact the same as its last revision.
pub proof fn law_upload_keeps_store(store: StoreV, fact: JsonV, now: Seq<char>)
    requires
        store.wf(),
    ensures
        store.after(fact, now).wf(),
{
    let id = upload_id(fact);
    match store.outcome(fact, now) {
        Ok(UpsertV::Accepted { record, event }) => {
            let s = store.after(fact, now);
            assert(record.id == id && event.fact_id == id);
            assert(s.revisions(id) == store.revisions(id).push(event));
            let n = store.revisions(id).len() as int;
            assert(event.revision == n + 1) by {
                if n > 0 {
                    assert(store.revisions(id)[n - 1].revision == n);
                }
            }
            assert forall|k: Seq<char>, i: int|
                #![trigger s.revisions(k)[i]]
                0 <= i < s.revisions(k).len() implies s.revisions(k)[i].revision == i + 1
                && s.revisions(k)[i].fact_id == k by {
                if k == id {
                    if i < n {
                        assert(s.revisions(k)[i] == store.revisions(k)[i]);
                    }
                } else {
                    assert(s.revisions(k) == store.revisions(k));
                    assert(store.revisions(k)[i].revision == i + 1);
                }
            }
            assert forall|k: Seq<char>|
                #![trigger s.records.dom().contains(k)]
                s.records.dom().contains(k) implies s.revisions(k).len() > 0 && s.revisions(
                k,
            ).last().content_hash == s.records[k].content_hash && s.revisions(k).last().json
                == s.records[k].json && s.revisions(k).last().accepted_at
                == s.records[k].accepted_at by {
                if k != id {
                    assert(store.records.dom().contains(k));
                    assert(s.revisions(k) == store.revisions(k));
                }
            }
        },
        _ => {},
    }
}

/// Uploading a fact again as it is stored changes nothing, whenever that is: it is a
/// duplicate and no revision is added.
pub proof fn law_same_upload_is_duplicate(
    store: StoreV,
    fact: JsonV,
    now: Seq<char>,
    later: Seq<char>,
)
    requires
        upload_zone(fact) is Some,
    ensures
        store.after(fact, now).outcome(fact, later) == Ok::<UpsertV, ErrorV>(UpsertV::Duplicate),
        store.after(fact, now).after(fact, later) == store.after(fact, now),
{
    let id = upload_id(fact);
    match store.outcome(fact, now) {
        Ok(UpsertV::Accepted { record, event }) => {
            assert(store.after(fact, now).stored_hash(id) == Some(record.content_hash));
        },
        _ => {},
    }
}

/// An upload whose content differs from what is stored becomes the next revision,
/// keeps every earlier one, and touches no other fact.
pub proof fn law_changed_upload_adds_revision(
    store: StoreV,
    fact: JsonV,
    now: Seq<char>,
    other: Seq<char>,
)
    requires
        store.wf(),
        upload_zone(fact) is Some,
        store.stored_hash(upload_id(fact)) != Some(hash_text(json_print(fact))),
        other != upload_id(fact),
    ensures
        store.after(fact, now).revisions(upload_id(fact)) == store.revisions(upload_id(fact)).push(
            event_of(fact, now, store.revisions(upload_id(fact)).len() as int),
        ),
        store.after(fact, now).revisions(other) == store.revisions(other),
{
    let id = upload_id(fact);
    let n = store.revisions(id).len() as int;
    if n > 0 {
        assert(store.revisions(id)[n - 1].revision == n);
    }
}

} // verus!
