//! Answers as text for people: query results, graph answers, fact histories, caches
//! and plain objects.
use vstd::prelude::*;
use crate::cache::{duration_text, human_duration};
use crate::json::{
    equal_json, items_view, lemma_array_view, lemma_object_view, members_view, opt_json, same_json, Json, JsonV,
    MemberV,
};
use crate::render::{
    column_names, columns_of, human_inline_value, human_label, inline_text, label_text,
    non_empty_human_value, non_empty_inline, query_rows, rows_of, yes_no,
};
use crate::text::{
    cat2, cat3, cat4, cat5, decimal, decimal_int, digits_of, digits_of_i64, digits_of_usize,
    has_prefix, join, joined, opt_view, same, starts_with, views,
};

verus! {

// ---------------------------------------------------------------------------
// Parts
// ---------------------------------------------------------------------------
/// The text, or a default.
pub open spec fn text_or(o: Option<Seq<char>>, d: Seq<char>) -> Seq<char> {
    match o {
        Some(s) => s,
        None => d,
    }
}

fn or_text(o: Option<String>, d: &str) -> (r: String)
    ensures
        r@ == text_or(opt_view(o), d@),
{
    match o {
        Some(s) => s,
        None => d.to_owned(),
    }
}

/// A number, or zero.
pub open spec fn or_zero(o: Option<nat>) -> nat {
    match o {
        Some(n) => n,
        None => 0,
    }
}

pub open spec fn int_or_zero(o: Option<int>) -> int {
    match o {
        Some(n) => n,
        None => 0,
    }
}

fn u64_at_or_zero(j: &Json, k: &str) -> (r: u64)
    ensures
        r == or_zero(j@.u64_at(k@)),
{
    match j.u64_at(k) {
        Some(n) => n,
        None => 0,
    }
}

fn i64_at_or_zero(j: &Json, k: &str) -> (r: i64)
    ensures
        r == int_or_zero(j@.i64_at(k@)),
{
    match j.i64_at(k) {
        Some(n) => n,
        None => 0,
    }
}

/// The text with a line for a member, where the object has it.
pub open spec fn with_field(text: Seq<char>, object: JsonV, key: Seq<char>, label: Seq<char>) -> Seq<
    char,
> {
    match object.get(key) {
        Some(v) => text + (label + ": "@ + inline_text(v) + "\n"@),
        None => text,
    }
}

pub fn push_object_field(text: &mut String, object: &Json, key: &str, label: &str)
    ensures
        final(text)@ == with_field(old(text)@, object@, key@, label@),
{
    match object.get(key) {
        Some(v) => {
            let line = cat4(label, ": ", human_inline_value(v).as_str(), "\n");
            text.push_str(line.as_str());
        },
        None => {},
    }
}

/// The text with a line for each of the first `n` members.
pub open spec fn with_members(text: Seq<char>, m: Seq<MemberV>, n: int) -> Seq<char>
    decreases n,
{
    if n <= 0 {
        text
    } else {
        with_members(text, m, n - 1) + (label_text(m[n - 1].key) + ": "@ + inline_text(
            m[n - 1].value,
        ) + "\n"@)
    }
}

/// An object as lines, one for each member in key order.
pub open spec fn members_text(text: Seq<char>, object: JsonV) -> Seq<char> {
    match object {
        JsonV::Object(m) => with_members(text, m, m.len() as int),
        _ => text,
    }
}

fn push_members(text: &mut String, object: &Json)
    ensures
        final(text)@ == members_text(old(text)@, object@),
{
    broadcast use lemma_object_view;

    match object {
        Json::Object(m) => {
            assert(object@ == Json::Object(*m)@);
            let ghost base = text@;
            let ghost all = members_view(m@);
            let mut i: usize = 0;
            while i < m.len()
                invariant
                    all == members_view(m@),
                    i <= m@.len(),
                    text@ == with_members(base, all, i as int),
                decreases m@.len() - i,
            {
                assert(all[i as int] == (MemberV {
                    key: m@[i as int].key@,
                    value: m@[i as int].value@,
                }));
                let line = cat4(
                    human_label(m[i].key.as_str()).as_str(),
                    ": ",
                    human_inline_value(&m[i].value).as_str(),
                    "\n",
                );
                text.push_str(line.as_str());
                i += 1;
            }
        },
        _ => {},
    }
}

/// The text with a line for each of the first `n` items behind a lead.
pub open spec fn with_items(text: Seq<char>, lead: Seq<char>, a: Seq<JsonV>, n: int) -> Seq<char>
    decreases n,
{
    if n <= 0 {
        text
    } else {
        with_items(text, lead, a, n - 1) + (lead + inline_text(a[n - 1]) + "\n"@)
    }
}

fn push_items(text: &mut String, lead: &str, values: &Vec<Json>)
    ensures
        final(text)@ == with_items(
            old(text)@,
            lead@,
            items_view(values@),
            values@.len() as int,
        ),
{
    let ghost base = text@;
    let ghost a = items_view(values@);
    let mut i: usize = 0;
    while i < values.len()
        invariant
            a == items_view(values@),
            i <= values@.len(),
            text@ == with_items(base, lead@, a, i as int),
        decreases values@.len() - i,
    {
        assert(a[i as int] == values@[i as int]@);
        let line = cat3(lead, human_inline_value(&values[i]).as_str(), "\n");
        text.push_str(line.as_str());
        i += 1;
    }
}

// ---------------------------------------------------------------------------
// Caches
// ---------------------------------------------------------------------------
/// An age as a cache tells it: in words, or from its seconds.
pub open spec fn told_age(cache: JsonV, words: Seq<char>, seconds: Seq<char>) -> Option<Seq<char>> {
    match cache.text_at(words) {
        Some(s) => Some(s),
        None => match cache.u64_at(seconds) {
            Some(n) => Some(duration_text(n)),
            None => None,
        },
    }
}

fn age_in_words(cache: &Json, words: &str, seconds: &str) -> (r: Option<String>)
    ensures
        opt_view(r) == told_age(cache@, words@, seconds@),
{
    match cache.text_at(words) {
        Some(s) => Some(s),
        None => match cache.u64_at(seconds) {
            Some(n) => Some(human_duration(n)),
            None => None,
        },
    }
}

/// The line on the cache that an answer came from: its source, its facts, when it
/// was refreshed and when checked since, and a warning where it is stale.
pub open spec fn cache_line(cache: JsonV) -> Seq<char> {
    let source = text_or(cache.text_at("source"@), "unknown"@);
    let facts = match cache.u64_at("factCount"@) {
        Some(n) => decimal(n),
        None => "unknown"@,
    };
    let refreshed = text_or(told_age(cache, "ageHuman"@, "ageSeconds"@), "unknown"@);
    let checked = told_age(cache, "checkedAgeHuman"@, "checkedAgeSeconds"@);
    let line = "Cache: "@ + source + ", "@ + facts + " facts, last refreshed "@ + refreshed
        + " ago"@;
    let line = if checked is Some && checked.unwrap() != refreshed {
        line + ", checked "@ + checked.unwrap() + " ago"@
    } else {
        line
    };
    let line = line + "\n"@;
    if cache.bool_at("stale"@) == Some(true) && source == "cache"@ {
        line
            + "Warning: using stale local Matrix cache; run `matrix sync` or add `--refresh-cache` for fresh facts.\n"@
    } else {
        line
    }
}

pub fn cache_human_line(cache: &Json) -> (r: String)
    ensures
        r@ == cache_line(cache@),
{
    let source = or_text(cache.text_at("source"), "unknown");
    let facts = match cache.u64_at("factCount") {
        Some(n) => digits_of(n),
        None => "unknown".to_owned(),
    };
    let refreshed = or_text(age_in_words(cache, "ageHuman", "ageSeconds"), "unknown");
    let checked = age_in_words(cache, "checkedAgeHuman", "checkedAgeSeconds");
    let mut line = cat5("Cache: ", source.as_str(), ", ", facts.as_str(), " facts, last refreshed ");
    line.push_str(refreshed.as_str());
    line.push_str(" ago");
    match checked {
        Some(c) => {
            if !same(c.as_str(), refreshed.as_str()) {
                line.push_str(", checked ");
                line.push_str(c.as_str());
                line.push_str(" ago");
            }
        },
        None => {},
    }
    line.push_str("\n");
    let stale = match cache.bool_at("stale") {
        Some(b) => b,
        None => false,
    };
    if stale && same(source.as_str(), "cache") {
        line.push_str(
            "Warning: using stale local Matrix cache; run `matrix sync` or add `--refresh-cache` for fresh facts.\n",
        );
    }
    line
}

/// The text with the line on the cache of the answer, where it has one.
pub open spec fn with_cache(text: Seq<char>, object: JsonV) -> Seq<char> {
    match object.object_at("cache"@) {
        Some(c) => text + cache_line(c),
        None => text,
    }
}

fn push_cache(text: &mut String, object: &Json)
    ensures
        final(text)@ == with_cache(old(text)@, object@),
{
    match object.object_at("cache") {
        Some(c) => {
            let line = cache_human_line(c);
            text.push_str(line.as_str());
        },
        None => {},
    }
}

// ---------------------------------------------------------------------------
// Query results
// ---------------------------------------------------------------------------
/// The member as a line shows it, unless nothing is shown.
pub open spec fn shown_at(row: JsonV, key: Seq<char>) -> Option<Seq<char>> {
    match row.get(key) {
        Some(v) => non_empty_inline(v),
        None => None,
    }
}

fn show_at(row: &Json, key: &str) -> (r: Option<String>)
    ensures
        opt_view(r) == shown_at(row@, key@),
{
    match row.get(key) {
        Some(v) => non_empty_human_value(v),
        None => None,
    }
}

/// The first key, from `i` on, under which the row shows something.
pub open spec fn first_shown(row: JsonV, keys: Seq<Seq<char>>, i: int) -> Option<Seq<char>>
    decreases keys.len() - i,
{
    if i < 0 || i >= keys.len() {
        None
    } else if shown_at(row, keys[i]) is Some {
        Some(keys[i])
    } else {
        first_shown(row, keys, i + 1)
    }
}

/// The keys that a row is known by, in the order in which they are tried.
pub open spec fn title_keys() -> Seq<Seq<char>> {
    seq!["name"@, "id"@, "fact_id"@, "zone"@, "repo"@]
}

/// The title of a row and the keys that it used up: its component and version, else
/// the first of the usual keys, else the first column, that shows something, else
/// its number.
pub open spec fn row_title(row: JsonV, columns: Seq<Seq<char>>, index: nat) -> (
    Seq<char>,
    Seq<Seq<char>>,
) {
    match shown_at(row, "component"@) {
        Some(component) => match shown_at(row, "version"@) {
            Some(version) => (
                component + " "@ + version,
                seq!["component"@, "version"@],
            ),
            None => (component, seq!["component"@]),
        },
        None => match first_shown(row, title_keys(), 0) {
            Some(key) => (shown_at(row, key).unwrap(), seq![key]),
            None => match first_shown(row, columns, 0) {
                Some(key) => (shown_at(row, key).unwrap(), seq![key]),
                None => ("row "@ + decimal(index + 1), Seq::empty()),
            },
        },
    }
}

fn find_shown(row: &Json, keys: &Vec<String>) -> (r: Option<String>)
    ensures
        opt_view(r) == first_shown(row@, views(keys@), 0),
{
    let ghost k = views(keys@);
    let mut i: usize = 0;
    while i < keys.len()
        invariant
            k == views(keys@),
            i <= keys@.len(),
            first_shown(row@, k, 0) == first_shown(row@, k, i as int),
        decreases keys@.len() - i,
    {
        assert(k[i as int] == keys@[i as int]@);
        if show_at(row, keys[i].as_str()).is_some() {
            return Some(keys[i].clone());
        }
        i += 1;
    }
    None
}

proof fn lemma_first_shown(row: JsonV, keys: Seq<Seq<char>>, i: int)
    ensures
        first_shown(row, keys, i) matches Some(k) ==> shown_at(row, k) is Some,
    decreases keys.len() - i,
{
    if 0 <= i < keys.len() && shown_at(row, keys[i]) is None {
        lemma_first_shown(row, keys, i + 1);
    }
}

fn usual_keys() -> (r: Vec<String>)
    ensures
        views(r@) == title_keys(),
{
    let mut v: Vec<String> = Vec::new();
    v.push("name".to_owned());
    v.push("id".to_owned());
    v.push("fact_id".to_owned());
    v.push("zone".to_owned());
    v.push("repo".to_owned());
    assert(views(v@) =~= title_keys());
    v
}

pub fn human_query_row_title(row: &Json, columns: &Vec<String>, index: usize) -> (r: (
    String,
    Vec<String>,
))
    requires
        index < usize::MAX,
    ensures
        (r.0@, views(r.1@)) == row_title(row@, views(columns@), index as nat),
{
    let mut used: Vec<String> = Vec::new();
    match show_at(row, "component") {
        Some(component) => {
            used.push("component".to_owned());
            match show_at(row, "version") {
                Some(version) => {
                    used.push("version".to_owned());
                    assert(views(used@) =~= seq!["component"@, "version"@]);
                    (cat3(component.as_str(), " ", version.as_str()), used)
                },
                None => {
                    assert(views(used@) =~= seq!["component"@]);
                    (component, used)
                },
            }
        },
        None => {
            let usual = usual_keys();
            let found = match find_shown(row, &usual) {
                Some(k) => Some(k),
                None => find_shown(row, columns),
            };
            proof {
                lemma_first_shown(row@, title_keys(), 0);
                lemma_first_shown(row@, views(columns@), 0);
            }
            match found {
                Some(key) => {
                    let title = or_text(show_at(row, key.as_str()), "");
                    let ghost k = key@;
                    used.push(key);
                    assert(views(used@) =~= seq![k]);
                    (title, used)
                },
                None => {
                    assert(views(used@) =~= Seq::empty());
                    (cat2("row ", digits_of_usize(index + 1).as_str()), used)
                },
            }
        },
    }
}

/// The lines of a row under its title: the first `n` columns that the title did not
/// use and the row has.
pub open spec fn row_lines(
    text: Seq<char>,
    row: JsonV,
    columns: Seq<Seq<char>>,
    used: Seq<Seq<char>>,
    n: int,
) -> Seq<char>
    decreases n,
{
    if n <= 0 {
        text
    } else {
        let before = row_lines(text, row, columns, used, n - 1);
        let column = columns[n - 1];
        if used.contains(column) {
            before
        } else {
            match row.get(column) {
                Some(v) => before + ("  "@ + label_text(column) + ": "@ + inline_text(v) + "\n"@),
                None => before,
            }
        }
    }
}

/// The text with the first `n` rows of a result.
pub open spec fn result_rows(text: Seq<char>, rows: Seq<JsonV>, columns: Seq<Seq<char>>, n: int) -> Seq<
    char,
>
    decreases n,
{
    if n <= 0 {
        text
    } else {
        let before = result_rows(text, rows, columns, n - 1);
        let row = rows[n - 1];
        if row is Object {
            let title = row_title(row, columns, (n - 1) as nat);
            row_lines(
                before + ("- "@ + title.0 + "\n"@),
                row,
                columns,
                title.1,
                columns.len() as int,
            )
        } else {
            before + ("- "@ + inline_text(row) + "\n"@)
        }
    }
}

/// A query result for people: each row with its title and its other columns.
pub open spec fn result_text(v: JsonV) -> Seq<char> {
    let rows = rows_of(v);
    if rows.len() == 0 {
        with_cache(
            "No rows.\nTry `matrix components`, `matrix versions`, or `matrix query 'select * from context'` to inspect the active context.\n"@,
            v,
        )
    } else {
        with_cache(
            result_rows(
                decimal(rows.len()) + " row"@ + (if rows.len() == 1 {
                    ""@
                } else {
                    "s"@
                }) + "\n"@,
                rows,
                columns_of(v),
                rows.len() as int,
            ),
            v,
        )
    }
}

fn has_text_in(list: &Vec<String>, s: &str) -> (r: bool)
    ensures
        r == views(list@).contains(s@),
{
    let mut i: usize = 0;
    while i < list.len()
        invariant
            i <= list@.len(),
            forall|k: int| 0 <= k < i ==> views(list@)[k] != s@,
        decreases list@.len() - i,
    {
        if same(list[i].as_str(), s) {
            assert(views(list@)[i as int] == s@);
            return true;
        }
        i += 1;
    }
    false
}

fn push_row_lines(text: &mut String, row: &Json, columns: &Vec<String>, used: &Vec<String>)
    ensures
        final(text)@ == row_lines(
            old(text)@,
            row@,
            views(columns@),
            views(used@),
            columns@.len() as int,
        ),
{
    let ghost base = text@;
    let ghost names = views(columns@);
    let mut i: usize = 0;
    while i < columns.len()
        invariant
            names == views(columns@),
            i <= columns@.len(),
            text@ == row_lines(base, row@, names, views(used@), i as int),
        decreases columns@.len() - i,
    {
        assert(names[i as int] == columns@[i as int]@);
        if !has_text_in(used, columns[i].as_str()) {
            match row.get(columns[i].as_str()) {
                Some(v) => {
                    let line = cat5(
                        "  ",
                        human_label(columns[i].as_str()).as_str(),
                        ": ",
                        human_inline_value(v).as_str(),
                        "\n",
                    );
                    text.push_str(line.as_str());
                },
                None => {},
            }
        }
        i += 1;
    }
}

pub fn human_query_result_text(value: &Json) -> (r: String)
    ensures
        r@ == result_text(value@),
{
    let columns = column_names(value);
    let rows = query_rows(value);
    if rows.len() == 0 {
        let mut text = "No rows.\nTry `matrix components`, `matrix versions`, or `matrix query 'select * from context'` to inspect the active context.\n".to_owned();
        push_cache(&mut text, value);
        return text;
    }
    let mut text = cat4(
        digits_of_usize(rows.len()).as_str(),
        " row",
        if rows.len() == 1 {
            ""
        } else {
            "s"
        },
        "\n",
    );
    let ghost base = text@;
    let ghost items = items_view(rows@);
    let ghost names = views(columns@);
    let mut i: usize = 0;
    while i < rows.len()
        invariant
            items == items_view(rows@),
            names == views(columns@),
            i <= rows@.len(),
            text@ == result_rows(base, items, names, i as int),
        decreases rows@.len() - i,
    {
        assert(items[i as int] == rows@[i as int]@);
        let row = &rows[i];
        if matches!(row, Json::Object(_)) {
            assert(row@ is Object);
            let (title, used) = human_query_row_title(row, &columns, i);
            let line = cat3("- ", title.as_str(), "\n");
            text.push_str(line.as_str());
            push_row_lines(&mut text, row, &columns, &used);
        } else {
            assert(!(row@ is Object));
            let line = cat3("- ", human_inline_value(row).as_str(), "\n");
            text.push_str(line.as_str());
        }
        i += 1;
    }
    push_cache(&mut text, value);
    text
}

// ---------------------------------------------------------------------------
// Graph answers
// ---------------------------------------------------------------------------
/// A component with its version.
pub open spec fn node_label(v: JsonV) -> Seq<char> {
    if v is Object {
        let component = text_or(
            match v.text_at("component"@) {
                Some(s) => Some(s),
                None => v.text_at("key"@),
            },
            "unknown"@,
        );
        match v.text_at("version"@) {
            Some(version) => component + " "@ + version,
            None => component,
        }
    } else {
        inline_text(v)
    }
}

pub fn graph_node_label(value: &Json) -> (r: String)
    ensures
        r@ == node_label(value@),
{
    if !matches!(value, Json::Object(_)) {
        return human_inline_value(value);
    }
    let named = match value.text_at("component") {
        Some(s) => Some(s),
        None => value.text_at("key"),
    };
    let component = or_text(named, "unknown");
    match value.text_at("version") {
        Some(version) => cat3(component.as_str(), " ", version.as_str()),
        None => component,
    }
}

/// The label of the member, or a default.
pub open spec fn label_at(v: JsonV, key: Seq<char>, d: Seq<char>) -> Seq<char> {
    match v.get(key) {
        Some(n) => node_label(n),
        None => d,
    }
}

fn node_label_at(value: &Json, key: &str, d: &str) -> (r: String)
    ensures
        r@ == label_at(value@, key@, d@),
{
    match value.get(key) {
        Some(n) => graph_node_label(n),
        None => d.to_owned(),
    }
}

/// An edge in words: its ends, its relationship, its capability, its status and its
/// fact.
pub open spec fn edge_label(v: JsonV) -> Seq<char> {
    if v is Object {
        let label = label_at(v, "from"@, "?"@) + " "@ + text_or(
            v.text_at("relationship"@),
            "relates-to"@,
        ) + " "@ + label_at(v, "to"@, "?"@);
        let label = match v.text_at("capability"@) {
            Some(c) => match v.text_at("capabilityVersion"@) {
                Some(version) => label + " via "@ + c + " "@ + version,
                None => label + " via "@ + c,
            },
            None => label,
        };
        let label = match v.text_at("status"@) {
            Some(s) => label + " ["@ + s + "]"@,
            None => label,
        };
        match v.text_at("sourceFactId"@) {
            Some(id) => label + " ("@ + id + ")"@,
            None => label,
        }
    } else {
        inline_text(v)
    }
}

pub fn graph_edge_label(value: &Json) -> (r: String)
    ensures
        r@ == edge_label(value@),
{
    if !matches!(value, Json::Object(_)) {
        return human_inline_value(value);
    }
    let relationship = or_text(value.text_at("relationship"), "relates-to");
    let mut label = cat5(
        node_label_at(value, "from", "?").as_str(),
        " ",
        relationship.as_str(),
        " ",
        node_label_at(value, "to", "?").as_str(),
    );
    match value.text_at("capability") {
        Some(c) => {
            label.push_str(" via ");
            label.push_str(c.as_str());
            match value.text_at("capabilityVersion") {
                Some(version) => {
                    label.push_str(" ");
                    label.push_str(version.as_str());
                },
                None => {},
            }
        },
        None => {},
    }
    match value.text_at("status") {
        Some(s) => {
            label.push_str(" [");
            label.push_str(s.as_str());
            label.push_str("]");
        },
        None => {},
    }
    match value.text_at("sourceFactId") {
        Some(id) => {
            label.push_str(" (");
            label.push_str(id.as_str());
            label.push_str(")");
        },
        None => {},
    }
    label
}

/// The text with a line for each of the first `n` edges behind a lead.
pub open spec fn with_edges(text: Seq<char>, lead: Seq<char>, edges: Seq<JsonV>, n: int) -> Seq<char>
    decreases n,
{
    if n <= 0 {
        text
    } else {
        with_edges(text, lead, edges, n - 1) + (lead + edge_label(edges[n - 1]) + "\n"@)
    }
}

fn push_edges(text: &mut String, lead: &str, edges: &Vec<Json>)
    ensures
        final(text)@ == with_edges(old(text)@, lead@, items_view(edges@), edges@.len() as int),
{
    let ghost base = text@;
    let ghost a = items_view(edges@);
    let mut i: usize = 0;
    while i < edges.len()
        invariant
            a == items_view(edges@),
            i <= edges@.len(),
            text@ == with_edges(base, lead@, a, i as int),
        decreases edges@.len() - i,
    {
        assert(a[i as int] == edges@[i as int]@);
        let line = cat3(lead, graph_edge_label(&edges[i]).as_str(), "\n");
        text.push_str(line.as_str());
        i += 1;
    }
}

/// The labels of the nodes along a path.
pub open spec fn node_labels(nodes: Seq<JsonV>) -> Seq<Seq<char>> {
    nodes.map_values(|n: JsonV| node_label(n))
}

fn labels_of(nodes: &Vec<Json>) -> (r: Vec<String>)
    ensures
        views(r@) == node_labels(items_view(nodes@)),
{
    let ghost all = node_labels(items_view(nodes@));
    let mut out: Vec<String> = Vec::new();
    let mut i: usize = 0;
    while i < nodes.len()
        invariant
            all == node_labels(items_view(nodes@)),
            i <= nodes@.len(),
            views(out@) == all.take(i as int),
        decreases nodes@.len() - i,
    {
        let ghost before = views(out@);
        let label = graph_node_label(&nodes[i]);
        let ghost next = label@;
        out.push(label);
        assert(views(out@) =~= before.push(next));
        assert(all[i as int] == next);
        assert(all.take(i as int + 1) =~= before.push(next));
        i += 1;
    }
    assert(all.take(i as int) =~= all);
    out
}

/// The text with one path: its number, its nodes, its confidence and score, and its
/// edges.
pub open spec fn with_path(text: Seq<char>, path: JsonV, index: nat) -> Seq<char> {
    let nodes = path.items_at("nodes"@);
    let line = text + decimal(index + 1) + ". "@ + (if nodes.len() == 0 {
        "same component"@
    } else {
        join(node_labels(nodes), " -> "@)
    });
    let line = match path.text_at("confidence"@) {
        Some(c) => line + " ["@ + c + "]"@,
        None => line,
    };
    let line = match path.i64_at("score"@) {
        Some(n) => line + " score "@ + decimal_int(n),
        None => line,
    };
    let edges = path.items_at("edges"@);
    with_edges(line + "\n"@, "   "@, edges, edges.len() as int)
}

pub open spec fn with_paths(text: Seq<char>, paths: Seq<JsonV>, n: int) -> Seq<char>
    decreases n,
{
    if n <= 0 {
        text
    } else {
        with_path(with_paths(text, paths, n - 1), paths[n - 1], (n - 1) as nat)
    }
}

/// An answer about paths: its status and confidence, and the paths or what is
/// missing.
pub open spec fn path_text(object: JsonV, title: Seq<char>) -> Seq<char> {
    let text = title + ": "@ + text_or(object.text_at("status"@), "unknown"@) + " ("@ + text_or(
        object.text_at("confidence"@),
        "unknown"@,
    ) + " confidence)\n"@;
    let paths = object.items_at("paths"@);
    if paths.len() == 0 {
        let missing = object.items_at("missing"@);
        with_items(
            text + "No known compatibility path.\n"@,
            "- "@,
            missing,
            missing.len() as int,
        )
    } else {
        with_paths(text, paths, paths.len() as int)
    }
}

fn push_path(text: &mut String, path: &Json, index: usize)
    requires
        index < usize::MAX,
    ensures
        final(text)@ == with_path(old(text)@, path@, index as nat),
{
    let nodes = path.items_at("nodes");
    text.push_str(digits_of_usize(index + 1).as_str());
    text.push_str(". ");
    assert(items_view(nodes@).len() == nodes@.len());
    if nodes.len() == 0 {
        text.push_str("same component");
    } else {
        let labels = labels_of(&nodes);
        text.push_str(joined(labels.as_slice(), " -> ").as_str());
    }
    match path.text_at("confidence") {
        Some(c) => {
            text.push_str(" [");
            text.push_str(c.as_str());
            text.push_str("]");
        },
        None => {},
    }
    match path.i64_at("score") {
        Some(n) => {
            text.push_str(" score ");
            text.push_str(digits_of_i64(n).as_str());
        },
        None => {},
    }
    text.push_str("\n");
    let edges = path.items_at("edges");
    assert(items_view(edges@).len() == edges@.len());
    push_edges(text, "   ", &edges);
}

pub fn graph_path_human_text(object: &Json, title: &str) -> (r: String)
    ensures
        r@ == path_text(object@, title@),
{
    let status = or_text(object.text_at("status"), "unknown");
    let confidence = or_text(object.text_at("confidence"), "unknown");
    let mut text = cat5(title, ": ", status.as_str(), " (", confidence.as_str());
    text.push_str(" confidence)\n");
    let paths = object.items_at("paths");
    assert(items_view(paths@).len() == paths@.len());
    if paths.len() == 0 {
        text.push_str("No known compatibility path.\n");
        let missing = object.items_at("missing");
        assert(items_view(missing@).len() == missing@.len());
        push_items(&mut text, "- ", &missing);
        return text;
    }
    let ghost base = text@;
    let ghost a = items_view(paths@);
    let mut i: usize = 0;
    while i < paths.len()
        invariant
            a == items_view(paths@),
            i <= paths@.len(),
            text@ == with_paths(base, a, i as int),
        decreases paths@.len() - i,
    {
        assert(a[i as int] == paths@[i as int]@);
        push_path(&mut text, &paths[i], i);
        i += 1;
    }
    text
}

/// The text with the edges of one direction under their heading, where there are
/// any.
pub open spec fn with_direction(text: Seq<char>, object: JsonV, label: Seq<char>, key: Seq<char>) -> Seq<
    char,
> {
    let edges = object.items_at(key);
    if edges.len() == 0 {
        text
    } else {
        with_edges(text + label + " edges\n"@, "- "@, edges, edges.len() as int)
    }
}

fn push_direction(text: &mut String, object: &Json, label: &str, key: &str)
    ensures
        final(text)@ == with_direction(old(text)@, object@, label@, key@),
{
    let edges = object.items_at(key);
    assert(items_view(edges@).len() == edges@.len());
    if edges.len() > 0 {
        text.push_str(label);
        text.push_str(" edges\n");
        push_edges(text, "- ", &edges);
    }
}

/// An answer about a component: how many edges it has, and which.
pub open spec fn status_text(object: JsonV) -> Seq<char> {
    let text = "Status: "@ + label_at(object, "component"@, "unknown"@) + "\nOutgoing: "@ + decimal(
        or_zero(object.u64_at("outgoingCount"@)),
    ) + "\nIncoming: "@ + decimal(or_zero(object.u64_at("incomingCount"@))) + "\n"@;
    with_direction(
        with_direction(text, object, "Outgoing"@, "outgoing"@),
        object,
        "Incoming"@,
        "incoming"@,
    )
}

pub fn graph_status_human_text(object: &Json) -> (r: String)
    ensures
        r@ == status_text(object@),
{
    let mut text = cat4(
        "Status: ",
        node_label_at(object, "component", "unknown").as_str(),
        "\nOutgoing: ",
        digits_of(u64_at_or_zero(object, "outgoingCount")).as_str(),
    );
    text.push_str("\nIncoming: ");
    text.push_str(digits_of(u64_at_or_zero(object, "incomingCount")).as_str());
    text.push_str("\n");
    push_direction(&mut text, object, "Outgoing", "outgoing");
    push_direction(&mut text, object, "Incoming", "incoming");
    text
}

/// The first candidate, from `i` on, for the version.
pub open spec fn candidate_for(candidates: Seq<JsonV>, version: JsonV, i: int) -> Option<JsonV>
    decreases candidates.len() - i,
{
    if i < 0 || i >= candidates.len() {
        None
    } else if candidates[i].get("version"@) is Some && equal_json(
        candidates[i].get("version"@)->Some_0,
        version,
    ) {
        Some(candidates[i])
    } else {
        candidate_for(candidates, version, i + 1)
    }
}

fn find_candidate<'a>(candidates: &'a Vec<Json>, version: &Json) -> (r: Option<&'a Json>)
    ensures
        opt_json(r) == candidate_for(items_view(candidates@), version@, 0),
{
    let ghost a = items_view(candidates@);
    let mut i: usize = 0;
    while i < candidates.len()
        invariant
            a == items_view(candidates@),
            i <= candidates@.len(),
            candidate_for(a, version@, 0) == candidate_for(a, version@, i as int),
        decreases candidates@.len() - i,
    {
        assert(a[i as int] == candidates@[i as int]@);
        match candidates[i].get("version") {
            Some(v) => {
                if same_json(v, version) {
                    return Some(&candidates[i]);
                }
            },
            None => {},
        }
        i += 1;
    }
    None
}

/// The line of a version, with the confidence and score of its candidate.
pub open spec fn version_line(candidates: Seq<JsonV>, version: JsonV) -> Seq<char> {
    match candidate_for(candidates, version, 0) {
        Some(c) => "- "@ + inline_text(version) + " ("@ + text_or(
            c.text_at("confidence"@),
            "unknown"@,
        ) + ", score "@ + decimal_int(int_or_zero(c.i64_at("score"@))) + ")\n"@,
        None => "- "@ + inline_text(version) + "\n"@,
    }
}

pub open spec fn with_versions(text: Seq<char>, candidates: Seq<JsonV>, versions: Seq<JsonV>, n: int) -> Seq<
    char,
>
    decreases n,
{
    if n <= 0 {
        text
    } else {
        with_versions(text, candidates, versions, n - 1) + version_line(
            candidates,
            versions[n - 1],
        )
    }
}

/// An answer about versions: those of a component that go with another.
pub open spec fn versions_text(object: JsonV) -> Seq<char> {
    let versions = object.items_at("versions"@);
    let text = "Versions: "@ + label_at(object, "component"@, "unknown"@) + " for "@ + label_at(
        object,
        "for"@,
        "unknown"@,
    ) + "\n"@;
    if versions.len() == 0 {
        text + "No known matching versions.\n"@
    } else {
        with_versions(
            text,
            object.items_at("versionCandidates"@),
            versions,
            versions.len() as int,
        )
    }
}

pub fn graph_versions_human_text(object: &Json) -> (r: String)
    ensures
        r@ == versions_text(object@),
{
    let mut text = cat5(
        "Versions: ",
        node_label_at(object, "component", "unknown").as_str(),
        " for ",
        node_label_at(object, "for", "unknown").as_str(),
        "\n",
    );
    let versions = object.items_at("versions");
    assert(items_view(versions@).len() == versions@.len());
    if versions.len() == 0 {
        text.push_str("No known matching versions.\n");
        return text;
    }
    let candidates = object.items_at("versionCandidates");
    let ghost base = text@;
    let ghost a = items_view(versions@);
    let ghost c = items_view(candidates@);
    let mut i: usize = 0;
    while i < versions.len()
        invariant
            a == items_view(versions@),
            c == items_view(candidates@),
            i <= versions@.len(),
            text@ == with_versions(base, c, a, i as int),
        decreases versions@.len() - i,
    {
        assert(a[i as int] == versions@[i as int]@);
        let shown = human_inline_value(&versions[i]);
        let line = match find_candidate(&candidates, &versions[i]) {
            Some(d) => {
                let confidence = or_text(d.text_at("confidence"), "unknown");
                let mut line = cat5("- ", shown.as_str(), " (", confidence.as_str(), ", score ");
                line.push_str(digits_of_i64(i64_at_or_zero(d, "score")).as_str());
                line.push_str(")\n");
                line
            },
            None => cat3("- ", shown.as_str(), "\n"),
        };
        text.push_str(line.as_str());
        i += 1;
    }
    text
}

pub open spec fn producer_line(row: JsonV) -> Seq<char> {
    "- "@ + text_or(row.text_at("producer"@), "unknown"@) + ": "@ + decimal_int(
        int_or_zero(row.i64_at("facts"@)),
    ) + " facts, "@ + decimal_int(int_or_zero(row.i64_at("components"@))) + " components, "@
        + text_or(row.text_at("freshness"@), "unknown"@) + ", "@ + text_or(
        row.text_at("producer_metadata"@),
        "unknown"@,
    ) + "\n"@
}

pub open spec fn with_producers(text: Seq<char>, rows: Seq<JsonV>, n: int) -> Seq<char>
    decreases n,
{
    if n <= 0 {
        text
    } else {
        with_producers(text, rows, n - 1) + producer_line(rows[n - 1])
    }
}

/// A number of the summary.
pub open spec fn summary_number(object: JsonV, key: Seq<char>) -> nat {
    match object.object_at("summary"@) {
        Some(s) => or_zero(s.u64_at(key)),
        None => 0,
    }
}

fn number_in_summary(object: &Json, key: &str) -> (r: u64)
    ensures
        r == summary_number(object@, key@),
{
    match object.object_at("summary") {
        Some(s) => u64_at_or_zero(s, key),
        None => 0,
    }
}

/// The inventory of producers: its totals and a line for each producer.
pub open spec fn inventory_text(object: JsonV) -> Seq<char> {
    let text = "Producer inventory: "@ + decimal(summary_number(object, "producers"@))
        + " producers, "@ + decimal(summary_number(object, "facts"@)) + " facts, "@ + decimal(
        summary_number(object, "staleProducers"@),
    ) + " stale, "@ + decimal(summary_number(object, "invalidFacts"@)) + " invalid, "@ + decimal(
        summary_number(object, "missingProducerMetadataFacts"@),
    ) + " missing producer metadata\n"@;
    let rows = object.items_at("rows"@);
    with_cache(with_producers(text, rows, rows.len() as int), object)
}

pub fn producer_inventory_human_text(object: &Json) -> (r: String)
    ensures
        r@ == inventory_text(object@),
{
    let mut text = cat5(
        "Producer inventory: ",
        digits_of(number_in_summary(object, "producers")).as_str(),
        " producers, ",
        digits_of(number_in_summary(object, "facts")).as_str(),
        " facts, ",
    );
    text.push_str(digits_of(number_in_summary(object, "staleProducers")).as_str());
    text.push_str(" stale, ");
    text.push_str(digits_of(number_in_summary(object, "invalidFacts")).as_str());
    text.push_str(" invalid, ");
    text.push_str(digits_of(number_in_summary(object, "missingProducerMetadataFacts")).as_str());
    text.push_str(" missing producer metadata\n");
    let rows = object.items_at("rows");
    assert(items_view(rows@).len() == rows@.len());
    let ghost base = text@;
    let ghost a = items_view(rows@);
    let mut i: usize = 0;
    while i < rows.len()
        invariant
            a == items_view(rows@),
            i <= rows@.len(),
            text@ == with_producers(base, a, i as int),
        decreases rows@.len() - i,
    {
        assert(a[i as int] == rows@[i as int]@);
        let row = &rows[i];
        let mut line = cat5(
            "- ",
            or_text(row.text_at("producer"), "unknown").as_str(),
            ": ",
            digits_of_i64(i64_at_or_zero(row, "facts")).as_str(),
            " facts, ",
        );
        line.push_str(digits_of_i64(i64_at_or_zero(row, "components")).as_str());
        line.push_str(" components, ");
        line.push_str(or_text(row.text_at("freshness"), "unknown").as_str());
        line.push_str(", ");
        line.push_str(or_text(row.text_at("producer_metadata"), "unknown").as_str());
        line.push_str("\n");
        text.push_str(line.as_str());
        i += 1;
    }
    push_cache(&mut text, object);
    text
}

pub open spec fn match_line(item: JsonV) -> Seq<char> {
    let node = match item.get("node"@) {
        Some(n) => node_label(n),
        None => inline_text(item),
    };
    let kinds = match shown_at(item, "aliasKinds"@) {
        Some(s) => s,
        None => "alias"@,
    };
    "- "@ + node + " ("@ + kinds + ")\n"@
}

pub open spec fn with_matches(text: Seq<char>, items: Seq<JsonV>, n: int) -> Seq<char>
    decreases n,
{
    if n <= 0 {
        text
    } else {
        with_matches(text, items, n - 1) + match_line(items[n - 1])
    }
}

/// An answer about a name: what it resolves to, whether that is ambiguous, and what
/// else it matches.
pub open spec fn resolve_text(object: JsonV) -> Seq<char> {
    let text = "Resolve: "@ + text_or(object.text_at("requested"@), "unknown"@) + " -> "@ + label_at(
        object,
        "resolved"@,
        "unknown"@,
    ) + "\n"@;
    let text = if object.bool_at("ambiguous"@) == Some(true) {
        text + "Ambiguous: yes\n"@
    } else {
        text
    };
    let warnings = object.items_at("warnings"@);
    let text = if warnings.len() > 0 {
        with_items(text + "Warnings\n"@, "- "@, warnings, warnings.len() as int)
    } else {
        text
    };
    let found = object.items_at("matches"@);
    if found.len() > 0 {
        with_matches(text + "Matches\n"@, found, found.len() as int)
    } else {
        text
    }
}

pub fn graph_resolve_human_text(object: &Json) -> (r: String)
    ensures
        r@ == resolve_text(object@),
{
    let mut text = cat5(
        "Resolve: ",
        or_text(object.text_at("requested"), "unknown").as_str(),
        " -> ",
        node_label_at(object, "resolved", "unknown").as_str(),
        "\n",
    );
    let ambiguous = match object.bool_at("ambiguous") {
        Some(b) => b,
        None => false,
    };
    if ambiguous {
        text.push_str("Ambiguous: yes\n");
    }
    let warnings = object.items_at("warnings");
    assert(items_view(warnings@).len() == warnings@.len());
    if warnings.len() > 0 {
        text.push_str("Warnings\n");
        push_items(&mut text, "- ", &warnings);
    }
    let found = object.items_at("matches");
    assert(items_view(found@).len() == found@.len());
    if found.len() > 0 {
        text.push_str("Matches\n");
        let ghost base = text@;
        let ghost a = items_view(found@);
        let mut i: usize = 0;
        while i < found.len()
            invariant
                a == items_view(found@),
                i <= found@.len(),
                text@ == with_matches(base, a, i as int),
            decreases found@.len() - i,
        {
            assert(a[i as int] == found@[i as int]@);
            let item = &found[i];
            let node = match item.get("node") {
                Some(n) => graph_node_label(n),
                None => human_inline_value(item),
            };
            let kinds = or_text(show_at(item, "aliasKinds"), "alias");
            let line = cat5("- ", node.as_str(), " (", kinds.as_str(), ")\n");
            text.push_str(line.as_str());
            i += 1;
        }
    }
    text
}

/// A graph answer for people, by its kind, with the line on its cache.
pub open spec fn answer_text(object: JsonV) -> Seq<char> {
    let kind = object.text_at("kind"@);
    with_cache(
        if kind == Some("graph-path"@) {
            path_text(object, "Path"@)
        } else if kind == Some("graph-works-with"@) {
            path_text(object, "Works with"@)
        } else if kind == Some("graph-why"@) {
            path_text(object, "Why"@)
        } else if kind == Some("graph-status"@) {
            status_text(object)
        } else if kind == Some("graph-versions-for"@) {
            versions_text(object)
        } else if kind == Some("graph-resolve"@) {
            resolve_text(object)
        } else {
            members_text(Seq::empty(), object)
        },
        object,
    )
}

pub fn graph_answer_human_text(object: &Json) -> (r: String)
    ensures
        r@ == answer_text(object@),
{
    let kind = match object.text_at("kind") {
        Some(s) => s,
        None => {
            let mut text = String::new();
            push_members(&mut text, object);
            push_cache(&mut text, object);
            return text;
        },
    };
    let k = kind.as_str();
    let mut text = if same(k, "graph-path") {
        graph_path_human_text(object, "Path")
    } else if same(k, "graph-works-with") {
        graph_path_human_text(object, "Works with")
    } else if same(k, "graph-why") {
        graph_path_human_text(object, "Why")
    } else if same(k, "graph-status") {
        graph_status_human_text(object)
    } else if same(k, "graph-versions-for") {
        graph_versions_human_text(object)
    } else if same(k, "graph-resolve") {
        graph_resolve_human_text(object)
    } else {
        let mut text = String::new();
        push_members(&mut text, object);
        text
    };
    push_cache(&mut text, object);
    text
}

// ---------------------------------------------------------------------------
// Facts
// ---------------------------------------------------------------------------
/// The text with a line for each of the first `n` keys that the object has, the
/// label behind a lead.
pub open spec fn with_keys(text: Seq<char>, object: JsonV, lead: Seq<char>, keys: Seq<Seq<char>>, n: int) -> Seq<
    char,
>
    decreases n,
{
    if n <= 0 {
        text
    } else {
        with_field(
            with_keys(text, object, lead, keys, n - 1),
            object,
            keys[n - 1],
            lead + label_text(keys[n - 1]),
        )
    }
}

fn push_keys(text: &mut String, object: &Json, lead: &str, keys: &Vec<String>)
    ensures
        final(text)@ == with_keys(
            old(text)@,
            object@,
            lead@,
            views(keys@),
            keys@.len() as int,
        ),
{
    let ghost base = text@;
    let ghost k = views(keys@);
    let mut i: usize = 0;
    while i < keys.len()
        invariant
            k == views(keys@),
            i <= keys@.len(),
            text@ == with_keys(base, object@, lead@, k, i as int),
        decreases keys@.len() - i,
    {
        assert(k[i as int] == keys@[i as int]@);
        let label = cat2(lead, human_label(keys[i].as_str()).as_str());
        push_object_field(text, object, keys[i].as_str(), label.as_str());
        i += 1;
    }
}

pub open spec fn fact_keys() -> Seq<Seq<char>> {
    seq![
        "id"@,
        "zone"@,
        "kind"@,
        "status"@,
        "sourceRepository"@,
        "sourceSha"@,
        "sourceRef"@,
    ]
}

fn list_fact_keys() -> (r: Vec<String>)
    ensures
        views(r@) == fact_keys(),
{
    let mut v: Vec<String> = Vec::new();
    v.push("id".to_owned());
    v.push("zone".to_owned());
    v.push("kind".to_owned());
    v.push("status".to_owned());
    v.push("sourceRepository".to_owned());
    v.push("sourceSha".to_owned());
    v.push("sourceRef".to_owned());
    assert(views(v@) =~= fact_keys());
    v
}

pub open spec fn subject_keys() -> Seq<Seq<char>> {
    seq!["type"@, "name"@, "version"@, "repo"@]
}

fn list_subject_keys() -> (r: Vec<String>)
    ensures
        views(r@) == subject_keys(),
{
    let mut v: Vec<String> = Vec::new();
    v.push("type".to_owned());
    v.push("name".to_owned());
    v.push("version".to_owned());
    v.push("repo".to_owned());
    assert(views(v@) =~= subject_keys());
    v
}

/// The lines on the revision of a fact.
pub open spec fn with_revision(text: Seq<char>, event: JsonV) -> Seq<char> {
    with_field(
        with_field(
            with_field(
                with_field(
                    with_field(text, event, "revision"@, "Revision"@),
                    event,
                    "status"@,
                    "Revision status"@,
                ),
                event,
                "acceptedAt"@,
                "Accepted"@,
            ),
            event,
            "eventId"@,
            "Event"@,
        ),
        event,
        "contentHash"@,
        "Hash"@,
    )
}

/// The lines on the body of a fact.
pub open spec fn with_body(text: Seq<char>, fact: JsonV) -> Seq<char> {
    let body = with_keys(text + "Body\n"@, fact, "  "@, fact_keys(), 7);
    match fact.object_at("subject"@) {
        Some(s) => with_keys(body, s, "  Subject "@, subject_keys(), 4),
        None => body,
    }
}

/// A fact for people: its id, the revision it is from, and its body.
pub open spec fn fact_text(object: JsonV) -> Seq<char> {
    let text = "Fact: "@ + text_or(object.text_at("factId"@), "unknown"@) + "\n"@;
    let text = match object.object_at("event"@) {
        Some(e) => with_revision(text, e),
        None => text,
    };
    match object.object_at("fact"@) {
        Some(f) => with_body(text, f),
        None => text,
    }
}

pub fn fact_get_human_text(object: &Json) -> (r: String)
    ensures
        r@ == fact_text(object@),
{
    let mut text = cat3("Fact: ", or_text(object.text_at("factId"), "unknown").as_str(), "\n");
    match object.object_at("event") {
        Some(e) => {
            push_object_field(&mut text, e, "revision", "Revision");
            push_object_field(&mut text, e, "status", "Revision status");
            push_object_field(&mut text, e, "acceptedAt", "Accepted");
            push_object_field(&mut text, e, "eventId", "Event");
            push_object_field(&mut text, e, "contentHash", "Hash");
        },
        None => {},
    }
    match object.object_at("fact") {
        Some(f) => {
            text.push_str("Body\n");
            let keys = list_fact_keys();
            assert(views(keys@).len() == 7);
            push_keys(&mut text, f, "  ", &keys);
            match f.object_at("subject") {
                Some(s) => {
                    let keys = list_subject_keys();
                    assert(views(keys@).len() == 4);
                    push_keys(&mut text, s, "  Subject ", &keys);
                },
                None => {},
            }
        },
        None => {},
    }
    text
}

/// The lines on one event of a history; what is no object has none.
pub open spec fn with_event(text: Seq<char>, event: JsonV) -> Seq<char> {
    if event is Object {
        let head = text + "- r"@ + (match event.get("revision"@) {
            Some(v) => inline_text(v),
            None => "?"@,
        }) + " "@ + text_or(event.text_at("status"@), "unknown"@) + " accepted "@ + text_or(
            event.text_at("acceptedAt"@),
            "-"@,
        ) + "\n"@;
        let ids = with_field(
            with_field(head, event, "eventId"@, "  Event"@),
            event,
            "contentHash"@,
            "  Hash"@,
        );
        let source = with_field(
            with_field(
                with_field(ids, event, "sourceRepository"@, "  Source repo"@),
                event,
                "sourceSha"@,
                "  Source SHA"@,
            ),
            event,
            "sourceRef"@,
            "  Source ref"@,
        );
        with_field(
            with_field(source, event, "supersededAt"@, "  Superseded at"@),
            event,
            "supersededBy"@,
            "  Superseded by"@,
        )
    } else {
        text
    }
}

pub open spec fn with_events(text: Seq<char>, events: Seq<JsonV>, n: int) -> Seq<char>
    decreases n,
{
    if n <= 0 {
        text
    } else {
        with_event(with_events(text, events, n - 1), events[n - 1])
    }
}

/// The history of a fact for people.
pub open spec fn history_text(object: JsonV) -> Seq<char> {
    let text = "Fact history: "@ + text_or(object.text_at("factId"@), "unknown"@) + "\n"@;
    let events = object.items_at("events"@);
    if events.len() == 0 {
        text + "  no revisions\n"@
    } else {
        with_events(text, events, events.len() as int)
    }
}

fn push_event(text: &mut String, event: &Json)
    ensures
        final(text)@ == with_event(old(text)@, event@),
{
    if !matches!(event, Json::Object(_)) {
        return ;
    }
    let revision = match event.get("revision") {
        Some(v) => human_inline_value(v),
        None => "?".to_owned(),
    };
    text.push_str("- r");
    text.push_str(revision.as_str());
    text.push_str(" ");
    text.push_str(or_text(event.text_at("status"), "unknown").as_str());
    text.push_str(" accepted ");
    text.push_str(or_text(event.text_at("acceptedAt"), "-").as_str());
    text.push_str("\n");
    push_object_field(text, event, "eventId", "  Event");
    push_object_field(text, event, "contentHash", "  Hash");
    push_object_field(text, event, "sourceRepository", "  Source repo");
    push_object_field(text, event, "sourceSha", "  Source SHA");
    push_object_field(text, event, "sourceRef", "  Source ref");
    push_object_field(text, event, "supersededAt", "  Superseded at");
    push_object_field(text, event, "supersededBy", "  Superseded by");
}

pub fn fact_history_human_text(object: &Json) -> (r: String)
    ensures
        r@ == history_text(object@),
{
    let mut text = cat3(
        "Fact history: ",
        or_text(object.text_at("factId"), "unknown").as_str(),
        "\n",
    );
    let events = object.items_at("events");
    assert(items_view(events@).len() == events@.len());
    if events.len() == 0 {
        text.push_str("  no revisions\n");
        return text;
    }
    let ghost base = text@;
    let ghost a = items_view(events@);
    let mut i: usize = 0;
    while i < events.len()
        invariant
            a == items_view(events@),
            i <= events@.len(),
            text@ == with_events(base, a, i as int),
        decreases events@.len() - i,
    {
        assert(a[i as int] == events@[i as int]@);
        push_event(&mut text, &events[i]);
        i += 1;
    }
    text
}

// ---------------------------------------------------------------------------
// Any value
// ---------------------------------------------------------------------------
/// The keys of a cache's summary that are shown, in order.
pub open spec fn cache_keys() -> Seq<Seq<char>> {
    seq![
        "source"@,
        "policy"@,
        "exists"@,
        "format"@,
        "sizeHuman"@,
        "profile"@,
        "construct"@,
        "apiPrefix"@,
        "schemaVersion"@,
        "factCount"@,
        "maxFacts"@,
        "checkedAgeHuman"@,
        "checkedAgeSeconds"@,
        "ageHuman"@,
        "ageSeconds"@,
        "staleAfterSeconds"@,
        "stale"@,
        "headDigest"@,
        "headFactCount"@,
        "headLatestFactId"@,
        "headLatestAcceptedAt"@,
        "path"@,
    ]
}

fn list_cache_keys() -> (r: Vec<String>)
    ensures
        views(r@) == cache_keys(),
{
    let mut v: Vec<String> = Vec::new();
    v.push("source".to_owned());
    v.push("policy".to_owned());
    v.push("exists".to_owned());
    v.push("format".to_owned());
    v.push("sizeHuman".to_owned());
    v.push("profile".to_owned());
    v.push("construct".to_owned());
    v.push("apiPrefix".to_owned());
    v.push("schemaVersion".to_owned());
    v.push("factCount".to_owned());
    v.push("maxFacts".to_owned());
    v.push("checkedAgeHuman".to_owned());
    v.push("checkedAgeSeconds".to_owned());
    v.push("ageHuman".to_owned());
    v.push("ageSeconds".to_owned());
    v.push("staleAfterSeconds".to_owned());
    v.push("stale".to_owned());
    v.push("headDigest".to_owned());
    v.push("headFactCount".to_owned());
    v.push("headLatestFactId".to_owned());
    v.push("headLatestAcceptedAt".to_owned());
    v.push("path".to_owned());
    assert(views(v@) =~= cache_keys());
    v
}

/// What a cache command reports, for people.
pub open spec fn cache_command_text(object: JsonV) -> Seq<char> {
    let kind = object.text_at("kind"@);
    if kind == Some("fact-cache-clear"@) {
        let removed = or_zero(object.u64_at("removed"@));
        "Removed "@ + decimal(removed) + " cache file"@ + (if removed == 1 {
            ""@
        } else {
            "s"@
        }) + ".\n"@
    } else if kind == Some("fact-cache-sync"@) || kind == Some("fact-cache-status"@) {
        match object.object_at("cache"@) {
            Some(c) => with_keys("Matrix fact cache\n"@, c, ""@, cache_keys(), 22),
            None => "Matrix fact cache\n"@,
        }
    } else {
        members_text(Seq::empty(), object)
    }
}

pub fn cache_command_human_text(object: &Json) -> (r: String)
    ensures
        r@ == cache_command_text(object@),
{
    let kind = match object.text_at("kind") {
        Some(s) => s,
        None => {
            let mut text = String::new();
            push_members(&mut text, object);
            return text;
        },
    };
    if same(kind.as_str(), "fact-cache-clear") {
        let removed = u64_at_or_zero(object, "removed");
        cat5(
            "Removed ",
            digits_of(removed).as_str(),
            " cache file",
            if removed == 1 {
                ""
            } else {
                "s"
            },
            ".\n",
        )
    } else if same(kind.as_str(), "fact-cache-sync") || same(kind.as_str(), "fact-cache-status") {
        let mut text = "Matrix fact cache\n".to_owned();
        match object.object_at("cache") {
            Some(c) => {
                let keys = list_cache_keys();
                assert(views(keys@).len() == 22);
                push_keys(&mut text, c, "", &keys);
            },
            None => {},
        }
        text
    } else {
        let mut text = String::new();
        push_members(&mut text, object);
        text
    }
}

/// An object for people, by what it is.
pub open spec fn object_text(object: JsonV) -> Seq<char> {
    let kind = object.text_at("kind"@);
    if object.get("factId"@) is Some && object.get("events"@) is Some {
        history_text(object)
    } else if object.get("factId"@) is Some && object.get("fact"@) is Some {
        fact_text(object)
    } else if kind == Some("graphql-schema"@) {
        match object.text_at("schema"@) {
            Some(s) => s + "\n"@,
            None => ""@,
        }
    } else if kind is Some && starts_with(kind.unwrap(), "graph-"@) {
        answer_text(object)
    } else if kind == Some("producer-inventory"@) {
        inventory_text(object)
    } else if kind is Some && starts_with(kind.unwrap(), "fact-cache-"@) {
        cache_command_text(object)
    } else {
        plain_object_text(object)
    }
}

/// An object of no special kind for people: what was saved or accepted, the zones,
/// the configuration, a gate, or each member in turn.
pub open spec fn plain_object_text(object: JsonV) -> Seq<char> {
    match object.text_at("saved"@) {
        Some(s) => "Saved "@ + s + "\n"@,
        None => match object.u64_at("accepted"@) {
            Some(n) => "Accepted "@ + decimal(n) + " fact"@ + (if n == 1 {
                ""@
            } else {
                "s"@
            }) + ".\n"@,
            None => match object.get("zones"@) {
                Some(JsonV::Array(zones)) => {
                    let text = if zones.len() == 0 {
                        "Zones\n"@ + "  none\n"@
                    } else {
                        with_items("Zones\n"@, "  "@, zones, zones.len() as int)
                    };
                    match object.text_at("generatedAt"@) {
                        Some(t) => text + ("Generated: "@ + t + "\n"@),
                        None => text,
                    }
                },
                _ => configured_text(object),
            },
        },
    }
}

pub open spec fn configured_text(object: JsonV) -> Seq<char> {
    if object.get("configPath"@) is Some || object.get("construct"@) is Some || object.get(
        "apiPrefix"@,
    ) is Some || object.get("reachable"@) is Some {
        with_field(
            with_field(
                with_field(
                    with_field(
                        with_field("Matrix\n"@, object, "configPath"@, "Config"@),
                        object,
                        "construct"@,
                        "Construct"@,
                    ),
                    object,
                    "apiPrefix"@,
                    "API prefix"@,
                ),
                object,
                "hasToken"@,
                "Token"@,
            ),
            object,
            "reachable"@,
            "Reachable"@,
        )
    } else {
        match (object.text_at("zone"@), object.text_at("level"@), object.object_at("gate"@)) {
            (Some(zone), Some(level), Some(gate)) => with_field(
                with_field(
                    with_field(
                        with_field(
                            "Gate: "@ + zone + " / "@ + level + "\n"@,
                            gate,
                            "status"@,
                            "Status"@,
                        ),
                        gate,
                        "eligible"@,
                        "Eligible"@,
                    ),
                    gate,
                    "failedFacts"@,
                    "Failed facts"@,
                ),
                gate,
                "totalFacts"@,
                "Total facts"@,
            ),
            _ => members_text(Seq::empty(), object),
        }
    }
}

fn configured_human_text(object: &Json) -> (r: String)
    ensures
        r@ == configured_text(object@),
{
    if object.get("configPath").is_some() || object.get("construct").is_some() || object.get(
        "apiPrefix",
    ).is_some() || object.get("reachable").is_some() {
        let mut text = "Matrix\n".to_owned();
        push_object_field(&mut text, object, "configPath", "Config");
        push_object_field(&mut text, object, "construct", "Construct");
        push_object_field(&mut text, object, "apiPrefix", "API prefix");
        push_object_field(&mut text, object, "hasToken", "Token");
        push_object_field(&mut text, object, "reachable", "Reachable");
        return text;
    }
    match (object.text_at("zone"), object.text_at("level"), object.object_at("gate")) {
        (Some(zone), Some(level), Some(gate)) => {
            let mut text = cat5("Gate: ", zone.as_str(), " / ", level.as_str(), "\n");
            push_object_field(&mut text, gate, "status", "Status");
            push_object_field(&mut text, gate, "eligible", "Eligible");
            push_object_field(&mut text, gate, "failedFacts", "Failed facts");
            push_object_field(&mut text, gate, "totalFacts", "Total facts");
            text
        },
        _ => {
            let mut text = String::new();
            push_members(&mut text, object);
            text
        },
    }
}

fn plain_object_human_text(object: &Json) -> (r: String)
    ensures
        r@ == plain_object_text(object@),
{
    broadcast use lemma_array_view;

    match object.text_at("saved") {
        Some(s) => {
            return cat3("Saved ", s.as_str(), "\n");
        },
        None => {},
    }
    match object.u64_at("accepted") {
        Some(n) => {
            return cat5(
                "Accepted ",
                digits_of(n).as_str(),
                " fact",
                if n == 1 {
                    ""
                } else {
                    "s"
                },
                ".\n",
            );
        },
        None => {},
    }
    match object.get("zones") {
        Some(Json::Array(zones)) => {
            let mut text = "Zones\n".to_owned();
            assert(object@.get("zones"@) == Some(Json::Array(*zones)@));
            if zones.len() == 0 {
                text.push_str("  none\n");
            } else {
                push_items(&mut text, "  ", zones);
            }
            match object.text_at("generatedAt") {
                Some(t) => {
                    let line = cat3("Generated: ", t.as_str(), "\n");
                    text.push_str(line.as_str());
                },
                None => {},
            }
            text
        },
        _ => configured_human_text(object),
    }
}

pub fn human_object_text(object: &Json) -> (r: String)
    ensures
        r@ == object_text(object@),
{
    if object.get("factId").is_some() && object.get("events").is_some() {
        return fact_history_human_text(object);
    }
    if object.get("factId").is_some() && object.get("fact").is_some() {
        return fact_get_human_text(object);
    }
    match object.text_at("kind") {
        Some(kind) => {
            if same(kind.as_str(), "graphql-schema") {
                return match object.text_at("schema") {
                    Some(s) => cat2(s.as_str(), "\n"),
                    None => "".to_owned(),
                };
            }
            if has_prefix(kind.as_str(), "graph-") {
                return graph_answer_human_text(object);
            }
            if same(kind.as_str(), "producer-inventory") {
                return producer_inventory_human_text(object);
            }
            if has_prefix(kind.as_str(), "fact-cache-") {
                return cache_command_human_text(object);
            }
        },
        None => {},
    }
    plain_object_human_text(object)
}

/// An item of a list for people.
pub open spec fn item_line(v: JsonV) -> Seq<char> {
    match v {
        JsonV::Text(s) => "- "@ + s + "\n"@,
        JsonV::Null => "-\n"@,
        _ => "- "@ + inline_text(v) + "\n"@,
    }
}

pub open spec fn with_lines(text: Seq<char>, a: Seq<JsonV>, n: int) -> Seq<char>
    decreases n,
{
    if n <= 0 {
        text
    } else {
        with_lines(text, a, n - 1) + item_line(a[n - 1])
    }
}

/// Any value for people.
pub open spec fn value_text(v: JsonV) -> Seq<char> {
    match v {
        JsonV::Null => "No data.\n"@,
        JsonV::Text(s) => s + "\n"@,
        JsonV::Bool(b) => yes_no(b) + "\n"@,
        JsonV::Number(n) => n + "\n"@,
        JsonV::Array(a) => if a.len() == 0 {
            "No items.\n"@
        } else {
            with_lines(Seq::empty(), a, a.len() as int)
        },
        JsonV::Object(_) => object_text(v),
    }
}

fn human_array_text(values: &Vec<Json>) -> (r: String)
    ensures
        r@ == value_text(JsonV::Array(items_view(values@))),
{
    if values.len() == 0 {
        return "No items.\n".to_owned();
    }
    let ghost a = items_view(values@);
    let mut text = String::new();
    let mut i: usize = 0;
    while i < values.len()
        invariant
            a == items_view(values@),
            i <= values@.len(),
            text@ == with_lines(Seq::empty(), a, i as int),
        decreases values@.len() - i,
    {
        assert(a[i as int] == values@[i as int]@);
        let line = match &values[i] {
            Json::Text(s) => cat3("- ", s.as_str(), "\n"),
            Json::Null => "-\n".to_owned(),
            other => cat3("- ", human_inline_value(other).as_str(), "\n"),
        };
        text.push_str(line.as_str());
        i += 1;
    }
    text
}

pub fn human_value_text(value: &Json) -> (r: String)
    ensures
        r@ == value_text(value@),
{
    broadcast use lemma_array_view;

    match value {
        Json::Null => "No data.\n".to_owned(),
        Json::Text(s) => cat2(s.as_str(), "\n"),
        Json::Bool(b) => cat2(
            if *b {
                "yes"
            } else {
                "no"
            },
            "\n",
        ),
        Json::Number(n) => cat2(n.as_str(), "\n"),
        Json::Array(v) => {
            assert(value@ == Json::Array(*v)@);
            human_array_text(v)
        },
        Json::Object(_) => human_object_text(value),
    }
}

} // verus!
