//! How values are shown: labels, cells, structured rows, plain tables and CSV.
use vstd::prelude::*;
use vstd::utf8::encode_utf8;
use crate::json::{
    items_view, json_print, json_print_pretty, json_read, lemma_array_view, lemma_object_view,
    members_view, opt_json, print_json, print_json_pretty, read_json, Json, JsonV, Member, MemberV,
};
use crate::sql::{identifier_sql, law_quoted_reads_back, quote_identifier, undoubled};
use crate::text::{
    byte_len, cat2, cat4, chars_of, decimal, digits_of_usize, has_char, has_prefix, join, joined,
    opt_view, replace_char, replaced_char, same, starts_with, string_of, string_of_all, trim,
    trim_start, trimmed, trimmed_start, to_upper_char, upper_char, views, CharClass,
};

verus! {

// ---------------------------------------------------------------------------
// Labels
// ---------------------------------------------------------------------------
/// A number with its noun, in the plural unless the number is one.
pub open spec fn count_text(n: nat, noun: Seq<char>) -> Seq<char> {
    decimal(n) + " "@ + noun + (if n == 1 {
        ""@
    } else {
        "s"@
    })
}

pub fn count_label(count: usize, noun: &str) -> (r: String)
    ensures
        r@ == count_text(count as nat, noun@),
{
    let n = digits_of_usize(count);
    cat4(
        n.as_str(),
        " ",
        noun,
        if count == 1 {
            ""
        } else {
            "s"
        },
    )
}

pub open spec fn ends_with_space(s: Seq<char>) -> bool {
    s.len() > 0 && s.last() == ' '
}

/// The words of a key from `i` on behind what was read before: underscores, hyphens
/// and capitals start a word.
pub open spec fn label_from(s: Seq<char>, i: int, acc: Seq<char>) -> Seq<char>
    decreases s.len() - i,
{
    if i < 0 || i >= s.len() {
        acc
    } else if s[i] == '_' || s[i] == '-' {
        label_from(
            s,
            i + 1,
            if ends_with_space(acc) {
                acc
            } else {
                acc.push(' ')
            },
        )
    } else if i > 0 && 'A' <= s[i] <= 'Z' && !ends_with_space(acc) {
        label_from(s, i + 1, acc.push(' ').push(s[i]))
    } else {
        label_from(s, i + 1, acc.push(s[i]))
    }
}

pub open spec fn capitalized(s: Seq<char>) -> Seq<char> {
    if s.len() > 0 {
        seq![upper_char(s[0])] + s.skip(1)
    } else {
        s
    }
}

/// The label of a key: its words, the first with a capital.
pub open spec fn label_text(key: Seq<char>) -> Seq<char> {
    capitalized(trim(label_from(key, 0, Seq::empty())))
}

pub fn human_label(key: &str) -> (r: String)
    ensures
        r@ == label_text(key@),
{
    let v = chars_of(key);
    let mut label: Vec<char> = Vec::new();
    let mut i: usize = 0;
    while i < v.len()
        invariant
            v@ == key@,
            i <= v@.len(),
            label_from(key@, 0, Seq::empty()) == label_from(key@, i as int, label@),
        decreases v@.len() - i,
    {
        let c = v[i];
        let n = label.len();
        let spaced = n > 0 && label[n - 1] == ' ';
        if c == '_' || c == '-' {
            if !spaced {
                label.push(' ');
            }
        } else {
            if i > 0 && 'A' <= c && c <= 'Z' && !spaced {
                label.push(' ');
            }
            label.push(c);
        }
        i += 1;
    }
    let text = trimmed(string_of_all(label.as_slice()).as_str());
    let t = chars_of(text.as_str());
    if t.len() > 0 {
        let mut out = String::new();
        out.push(to_upper_char(t[0]));
        let rest = string_of(t.as_slice(), 1, t.len());
        out.push_str(rest.as_str());
        assert(out@ =~= capitalized(text@));
        out
    } else {
        text
    }
}

// ---------------------------------------------------------------------------
// Cells
// ---------------------------------------------------------------------------
pub open spec fn yes_no(b: bool) -> Seq<char> {
    if b {
        "yes"@
    } else {
        "no"@
    }
}

fn yes_or_no(b: bool) -> (r: &'static str)
    ensures
        r@ == yes_no(b),
{
    if b {
        "yes"
    } else {
        "no"
    }
}

pub open spec fn scalar(v: JsonV) -> bool {
    v is Null || v is Text || v is Bool || v is Number
}

pub fn is_scalar_value(value: &Json) -> (r: bool)
    ensures
        r == scalar(value@),
{
    match value {
        Json::Null | Json::Text(_) | Json::Bool(_) | Json::Number(_) => true,
        _ => false,
    }
}

/// How a scalar is shown in a list.
pub open spec fn scalar_text(v: JsonV) -> Seq<char> {
    match v {
        JsonV::Text(s) => s,
        JsonV::Bool(b) => yes_no(b),
        JsonV::Number(n) => n,
        _ => "-"@,
    }
}

/// How an array is shown in one line: its scalars, or how many items it has.
pub open spec fn array_text(a: Seq<JsonV>) -> Seq<char> {
    if a.len() > 0 && (forall|i: int| 0 <= i < a.len() ==> scalar(#[trigger] a[i])) {
        join(a.map_values(|v: JsonV| scalar_text(v)), ", "@)
    } else {
        count_text(a.len(), "item"@)
    }
}

/// The array or object that the text holds as JSON.
pub open spec fn nested_json(s: Seq<char>) -> Option<JsonV> {
    let t = trim(s);
    if starts_with(t, "["@) || starts_with(t, "{"@) {
        match json_read(t) {
            Ok(v) => Some(v),
            Err(_) => None,
        }
    } else {
        None
    }
}

/// How an array or object that was found in a text is shown.
pub open spec fn nested_text(v: JsonV) -> Seq<char> {
    match v {
        JsonV::Array(a) => array_text(a),
        JsonV::Object(m) => count_text(m.len(), "field"@),
        _ => cell_of_scalar(v),
    }
}

pub open spec fn cell_of_scalar(v: JsonV) -> Seq<char> {
    match v {
        JsonV::Null => ""@,
        _ => scalar_text(v),
    }
}

/// How JSON inside a text is shown, where the text holds an array or object.
pub open spec fn compact_text(s: Seq<char>) -> Option<Seq<char>> {
    match nested_json(s) {
        Some(v) => Some(nested_text(v)),
        None => None,
    }
}

/// The text, or the JSON inside it in short.
pub open spec fn text_or_compact(s: Seq<char>) -> Seq<char> {
    match compact_text(s) {
        Some(t) => t,
        None => s,
    }
}

/// How a value is shown in a table.
pub open spec fn cell_text(v: JsonV) -> Seq<char> {
    match v {
        JsonV::Null => ""@,
        JsonV::Text(s) => text_or_compact(s),
        JsonV::Bool(b) => yes_no(b),
        JsonV::Number(n) => n,
        JsonV::Array(a) => array_text(a),
        JsonV::Object(m) => count_text(m.len(), "field"@),
    }
}

/// How a value is shown inside a line.
pub open spec fn inline_text(v: JsonV) -> Seq<char> {
    match v {
        JsonV::Null => "-"@,
        JsonV::Text(s) => text_or_compact(s),
        JsonV::Bool(b) => yes_no(b),
        JsonV::Number(n) => n,
        JsonV::Array(a) => array_text(a),
        JsonV::Object(_) => json_print(v),
    }
}

pub fn compact_array_value(values: &Vec<Json>) -> (r: String)
    ensures
        r@ == array_text(items_view(values@)),
{
    let ghost a = items_view(values@);
    if values.len() == 0 {
        return count_label(0, "item");
    }
    let mut parts: Vec<String> = Vec::new();
    let mut i: usize = 0;
    let ghost shown = a.map_values(|v: JsonV| scalar_text(v));
    while i < values.len()
        invariant
            a == items_view(values@),
            shown == a.map_values(|v: JsonV| scalar_text(v)),
            i <= values@.len(),
            views(parts@) == shown.take(i as int),
            forall|k: int| 0 <= k < i ==> scalar(#[trigger] a[k]),
        decreases values@.len() - i,
    {
        assert(a[i as int] == values@[i as int]@);
        if !is_scalar_value(&values[i]) {
            return count_label(values.len(), "item");
        }
        let ghost before = views(parts@);
        parts.push(scalar_cell_value(&values[i]));
        assert(views(parts@) =~= before.push(scalar_text(a[i as int])));
        assert(shown.take(i as int + 1) =~= before.push(scalar_text(a[i as int])));
        i += 1;
    }
    assert(shown.take(i as int) =~= shown);
    joined(parts.as_slice(), ", ")
}

/// How an item of a list of scalars is shown.
fn scalar_cell_value(value: &Json) -> (r: String)
    requires
        scalar(value@),
    ensures
        r@ == scalar_text(value@),
{
    match value {
        Json::Text(s) => s.clone(),
        Json::Bool(b) => yes_or_no(*b).to_owned(),
        Json::Number(n) => n.clone(),
        _ => "-".to_owned(),
    }
}

pub fn parse_nested_json_string(text: &str) -> (r: Option<Json>)
    ensures
        match r {
            Some(j) => nested_json(text@) == Some(j@),
            None => nested_json(text@) is None,
        },
{
    let t = trimmed(text);
    if !(has_prefix(t.as_str(), "[") || has_prefix(t.as_str(), "{")) {
        return None;
    }
    match read_json(t.as_str()) {
        Ok(j) => Some(j),
        Err(_) => None,
    }
}

/// How a value that was read from a text is shown in one line.
pub fn compact_json_value(parsed: &Json) -> (r: String)
    ensures
        r@ == nested_text(parsed@),
{
    broadcast use {lemma_array_view, lemma_object_view};

    match parsed {
        Json::Array(v) => {
            assert(parsed@ == Json::Array(*v)@);
            compact_array_value(v)
        },
        Json::Object(m) => {
            assert(parsed@ == Json::Object(*m)@);
            count_label(m.len(), "field")
        },
        Json::Null => "".to_owned(),
        _ => scalar_cell_value(parsed),
    }
}

pub fn compact_json_text(value: &str) -> (r: Option<String>)
    ensures
        opt_view(r) == compact_text(value@),
{
    match parse_nested_json_string(value) {
        Some(j) => Some(compact_json_value(&j)),
        None => None,
    }
}

fn text_in_short(s: &str) -> (r: String)
    ensures
        r@ == text_or_compact(s@),
{
    match compact_json_text(s) {
        Some(t) => t,
        None => s.to_owned(),
    }
}

pub fn table_cell_value(value: &Json) -> (r: String)
    ensures
        r@ == cell_text(value@),
{
    broadcast use {lemma_array_view, lemma_object_view};

    match value {
        Json::Null => "".to_owned(),
        Json::Text(s) => text_in_short(s.as_str()),
        Json::Bool(b) => yes_or_no(*b).to_owned(),
        Json::Number(n) => n.clone(),
        Json::Array(v) => {
            assert(value@ == Json::Array(*v)@);
            compact_array_value(v)
        },
        Json::Object(m) => {
            assert(value@ == Json::Object(*m)@);
            count_label(m.len(), "field")
        },
    }
}

/// How a value is shown in CSV: as in a table.
pub fn display_cell(value: &Json) -> (r: String)
    ensures
        r@ == cell_text(value@),
{
    table_cell_value(value)
}

pub fn human_inline_value(value: &Json) -> (r: String)
    ensures
        r@ == inline_text(value@),
{
    broadcast use lemma_array_view;

    match value {
        Json::Null => "-".to_owned(),
        Json::Text(s) => text_in_short(s.as_str()),
        Json::Bool(b) => yes_or_no(*b).to_owned(),
        Json::Number(n) => n.clone(),
        Json::Array(v) => {
            assert(value@ == Json::Array(*v)@);
            compact_array_value(v)
        },
        Json::Object(_) => print_json(value),
    }
}

/// The value as a line shows it, unless nothing or a hyphen is shown.
pub open spec fn non_empty_inline(v: JsonV) -> Option<Seq<char>> {
    let t = inline_text(v);
    if t.len() == 0 || t == "-"@ {
        None
    } else {
        Some(t)
    }
}

pub fn non_empty_human_value(value: &Json) -> (r: Option<String>)
    ensures
        opt_view(r) == non_empty_inline(value@),
{
    let t = human_inline_value(value);
    if t.as_str().is_empty() || same(t.as_str(), "-") {
        None
    } else {
        Some(t)
    }
}

/// A CSV field: in quotes where it holds a comma, a quote or a line feed.
pub open spec fn csv_field(s: Seq<char>) -> Seq<char> {
    if s.contains(',') || s.contains('"') || s.contains('\n') {
        identifier_sql(s)
    } else {
        s
    }
}

pub fn csv_escape(value: &str) -> (r: String)
    ensures
        r@ == csv_field(value@),
{
    if has_char(value, ',') || has_char(value, '"') || has_char(value, '\n') {
        quote_identifier(value)
    } else {
        value.to_owned()
    }
}

/// What a CSV field says: what stands in its quotes, or itself.
pub open spec fn csv_value(field: Seq<char>) -> Seq<char> {
    if field.len() >= 2 && field[0] == '"' {
        undoubled(field.subrange(1, field.len() - 1), '"')
    } else {
        field
    }
}

/// A CSV field says the text that it was made of, and outside quotes it holds nothing
/// that ends a field.
pub proof fn law_csv_field_reads_back(s: Seq<char>)
    ensures
        csv_value(csv_field(s)) == s,
        csv_field(s).len() > 0 && csv_field(s)[0] == '"' || !(csv_field(s).contains(',')
            || csv_field(s).contains('"') || csv_field(s).contains('\n')),
{
    if s.contains(',') || s.contains('"') || s.contains('\n') {
        law_quoted_reads_back(s, '"');
    } else if s.len() > 0 {
        assert(s.contains(s[0]));
    }
}

// ---------------------------------------------------------------------------
// Structured rows
// ---------------------------------------------------------------------------
/// The value with each text that holds a JSON array or object replaced by it.
pub open spec fn structured(v: JsonV) -> JsonV
    decreases v,
{
    match v {
        JsonV::Text(s) => match nested_json(s) {
            Some(j) => j,
            None => v,
        },
        JsonV::Array(a) => JsonV::Array(
            Seq::new(
                a.len(),
                |i: int|
                    if 0 <= i < a.len() {
                        structured(a[i])
                    } else {
                        JsonV::Null
                    },
            ),
        ),
        JsonV::Object(m) => JsonV::Object(
            Seq::new(
                m.len(),
                |i: int|
                    if 0 <= i < m.len() {
                        MemberV { key: m[i].key, value: structured(m[i].value) }
                    } else {
                        MemberV { key: Seq::empty(), value: JsonV::Null }
                    },
            ),
        ),
        _ => v,
    }
}

pub open spec fn structured_items(a: Seq<JsonV>) -> Seq<JsonV> {
    a.map_values(|v: JsonV| structured(v))
}

fn structured_list(values: &Vec<Json>) -> (r: Vec<Json>)
    ensures
        items_view(r@) == structured_items(items_view(values@)),
    decreases values,
{
    let mut out: Vec<Json> = Vec::new();
    let mut i: usize = 0;
    let ghost all = structured_items(items_view(values@));
    while i < values.len()
        invariant
            i <= values@.len(),
            all == structured_items(items_view(values@)),
            items_view(out@) == all.take(i as int),
        decreases values@.len() - i,
    {
        let ghost before = items_view(out@);
        out.push(normalize_structured_value(&values[i]));
        assert(items_view(out@) =~= before.push(structured(values@[i as int]@)));
        assert(all.take(i as int + 1) =~= before.push(structured(values@[i as int]@)));
        i += 1;
    }
    assert(all.take(i as int) =~= all);
    out
}

pub fn normalize_structured_value(value: &Json) -> (r: Json)
    ensures
        r@ == structured(value@),
    decreases value,
{
    broadcast use {lemma_array_view, lemma_object_view};

    match value {
        Json::Text(s) => match parse_nested_json_string(s.as_str()) {
            Some(j) => j,
            None => Json::Text(s.clone()),
        },
        Json::Array(v) => {
            let out = structured_list(v);
            assert(value@ == Json::Array(*v)@);
            assert(structured(value@)->Array_0 =~= structured_items(items_view(v@)));
            Json::Array(out)
        },
        Json::Object(m) => {
            assert(value@ == Json::Object(*m)@);
            let ghost all = structured(value@)->Object_0;
            let mut out: Vec<Member> = Vec::new();
            let mut i: usize = 0;
            while i < m.len()
                invariant
                    i <= m@.len(),
                    value matches Json::Object(w) && w == m,
                    value@ == JsonV::Object(members_view(m@)),
                    structured(value@) == JsonV::Object(all),
                    all.len() == m@.len(),
                    members_view(out@) == all.take(i as int),
                decreases m@.len() - i,
            {
                let ghost before = members_view(out@);
                let ghost next = MemberV {
                    key: m@[i as int].key@,
                    value: structured(m@[i as int].value@),
                };
                out.push(
                    Member {
                        key: m[i].key.clone(),
                        value: normalize_structured_value(&m[i].value),
                    },
                );
                assert(members_view(out@) =~= before.push(next));
                assert(all[i as int] == next);
                assert(all.take(i as int + 1) =~= before.push(next));
                i += 1;
            }
            assert(all.take(i as int) =~= all);
            Json::Object(out)
        },
        _ => value.copy(),
    }
}

/// Whether the value is the result of a query: it has columns and rows.
pub open spec fn query_result(v: JsonV) -> bool {
    v.get("columns"@) matches Some(JsonV::Array(_)) && v.get("rows"@) matches Some(JsonV::Array(_))
}

pub fn is_query_result(value: &Json) -> (r: bool)
    ensures
        r == query_result(value@),
{
    matches!(value.get("columns"), Some(Json::Array(_))) && matches!(
        value.get("rows"),
        Some(Json::Array(_))
    )
}

/// The rows of a query result, structured.
pub open spec fn rows_of(v: JsonV) -> Seq<JsonV> {
    structured_items(v.items_at("rows"@))
}

/// The rows of a query result, structured.
pub fn query_rows(value: &Json) -> (r: Vec<Json>)
    ensures
        items_view(r@) == rows_of(value@),
{
    let rows = value.items_at("rows");
    structured_list(&rows)
}

/// A query result with its rows structured; any other value as it is.
pub open spec fn normal_result(v: JsonV) -> JsonV {
    if query_result(v) {
        v.with("rows"@, JsonV::Array(rows_of(v)))
    } else {
        v
    }
}

pub fn normalize_query_result_value(value: &Json) -> (r: Json)
    ensures
        r@ == normal_result(value@),
{
    if is_query_result(value) {
        let rows = query_rows(value);
        value.copy().with("rows", Json::array(rows))
    } else {
        value.copy()
    }
}

/// What JSON and YAML output show: the rows alone of a query result without cache
/// metadata.
pub open spec fn output_value(v: JsonV) -> JsonV {
    if query_result(v) && v.get("cache"@) is None {
        JsonV::Array(rows_of(v))
    } else {
        normal_result(v)
    }
}

pub fn structured_output(value: &Json) -> (r: Json)
    ensures
        r@ == output_value(value@),
{
    if is_query_result(value) && value.get("cache").is_none() {
        Json::array(query_rows(value))
    } else {
        normalize_query_result_value(value)
    }
}

/// The text of JSON output.
pub fn json_output_text(value: &Json) -> (r: String)
    ensures
        r@ == json_print_pretty(output_value(value@)) + "\n"@,
{
    let output = structured_output(value);
    cat2(print_json_pretty(&output).as_str(), "\n")
}

/// The value of a response: null where the text is blank, the JSON it holds, or the
/// text itself.
pub open spec fn response_value(text: Seq<char>) -> JsonV {
    if trim(text).len() == 0 {
        JsonV::Null
    } else {
        match json_read(text) {
            Ok(v) => v,
            Err(_) => JsonV::Text(text),
        }
    }
}

pub fn parse_response_text(text: &str) -> (r: Json)
    ensures
        r@ == response_value(text@),
{
    if trimmed(text).as_str().is_empty() {
        Json::Null
    } else {
        match read_json(text) {
            Ok(j) => j,
            Err(_) => Json::text(text),
        }
    }
}

/// Whether a response is a web page rather than an answer.
pub open spec fn html_page(content_type: Seq<char>, text: Seq<char>) -> bool {
    crate::text::contains(content_type, "text/html"@) || starts_with(
        trim_start(text, CharClass::White),
        "<!DOCTYPE html"@,
    )
}

pub fn looks_like_html(content_type: &str, text: &str) -> (r: bool)
    ensures
        r == html_page(content_type@, text@),
{
    crate::text::has_text(content_type, "text/html") || has_prefix(
        trimmed_start(text, CharClass::White).as_str(),
        "<!DOCTYPE html",
    )
}

/// The detail of an error response: its `error` or else `message` where that is a
/// text, the fallback for no value, and the value itself otherwise.
pub open spec fn error_text(v: JsonV, fallback: Seq<char>) -> Seq<char> {
    let said = if v.get("error"@) is Some {
        v.text_at("error"@)
    } else {
        v.text_at("message"@)
    };
    match said {
        Some(s) => s,
        None => if v is Null {
            fallback
        } else {
            json_print(v)
        },
    }
}

pub fn error_detail(value: &Json, fallback: &str) -> (r: String)
    ensures
        r@ == error_text(value@, fallback@),
{
    let said = if value.get("error").is_some() {
        value.text_at("error")
    } else {
        value.text_at("message")
    };
    match said {
        Some(s) => s,
        None => if value.is_null() {
            fallback.to_owned()
        } else {
            print_json(value)
        },
    }
}

// ---------------------------------------------------------------------------
// Columns and CSV
// ---------------------------------------------------------------------------
/// The texts among the values.
pub open spec fn texts_among(a: Seq<JsonV>) -> Seq<Seq<char>> {
    a.filter_map(|v: JsonV| v.as_text())
}

pub fn keep_texts(values: &Vec<Json>) -> (r: Vec<String>)
    ensures
        views(r@) == texts_among(items_view(values@)),
{
    let ghost a = items_view(values@);
    let ghost f = |v: JsonV| v.as_text();
    let mut out: Vec<String> = Vec::new();
    let mut i: usize = 0;
    assert(views(out@) =~= a.take(0).filter_map(f)) by {
        reveal(Seq::filter_map);
    }
    while i < values.len()
        invariant
            a == items_view(values@),
            f == (|v: JsonV| v.as_text()),
            i <= values@.len(),
            views(out@) == a.take(i as int).filter_map(f),
        decreases values@.len() - i,
    {
        assert(a[i as int] == values@[i as int]@);
        proof {
            a.lemma_filter_map_take_succ(f, i as int);
            reveal(Seq::filter_map);
        }
        let ghost before = views(out@);
        match values[i].as_text() {
            Some(s) => {
                let ghost t = s@;
                out.push(s);
                assert(views(out@) =~= before.push(t));
                assert(a.take(i as int + 1).filter_map(f) =~= before.push(t));
            },
            None => {
                assert(a.take(i as int + 1).filter_map(f) =~= before);
            },
        }
        i += 1;
    }
    assert(a.take(i as int) =~= a);
    out
}

/// The names of the columns of a query result.
pub open spec fn columns_of(v: JsonV) -> Seq<Seq<char>> {
    texts_among(v.items_at("columns"@))
}

pub fn column_names(value: &Json) -> (r: Vec<String>)
    ensures
        views(r@) == columns_of(value@),
{
    let columns = value.items_at("columns");
    keep_texts(&columns)
}

pub open spec fn csv_fields(columns: Seq<Seq<char>>, row: Option<JsonV>, n: int) -> Seq<Seq<char>>
    decreases n,
{
    if n <= 0 {
        Seq::empty()
    } else {
        csv_fields(columns, row, n - 1).push(
            csv_field(
                match row {
                    Some(r) => cell_text(JsonV::or_null(r.get(columns[n - 1]))),
                    None => columns[n - 1],
                },
            ),
        )
    }
}

/// A line of CSV: the names of the columns, or a row's cells under them.
pub open spec fn csv_line(columns: Seq<Seq<char>>, row: Option<JsonV>) -> Seq<char> {
    join(csv_fields(columns, row, columns.len() as int), ","@) + "\n"@
}

fn csv_line_of(columns: &Vec<String>, row: Option<&Json>) -> (r: String)
    ensures
        r@ == csv_line(views(columns@), opt_json(row)),
{
    let ghost names = views(columns@);
    let mut fields: Vec<String> = Vec::new();
    let mut i: usize = 0;
    assert(views(fields@) =~= Seq::empty());
    while i < columns.len()
        invariant
            names == views(columns@),
            i <= columns@.len(),
            views(fields@) == csv_fields(names, opt_json(row), i as int),
        decreases columns@.len() - i,
    {
        assert(names[i as int] == columns@[i as int]@);
        let ghost before = views(fields@);
        let cell = match row {
            Some(r) => {
                let value = r.at_or_null(columns[i].as_str());
                display_cell(&value)
            },
            None => columns[i].clone(),
        };
        let field = csv_escape(cell.as_str());
        let ghost next = field@;
        fields.push(field);
        assert(views(fields@) =~= before.push(next));
        i += 1;
    }
    let line = joined(fields.as_slice(), ",");
    cat2(line.as_str(), "\n")
}

/// The lines of the first `n` rows behind what stands before them.
pub open spec fn csv_rows(
    base: Seq<char>,
    columns: Seq<Seq<char>>,
    rows: Seq<JsonV>,
    n: int,
) -> Seq<char>
    decreases n,
{
    if n <= 0 {
        base
    } else {
        csv_rows(base, columns, rows, n - 1) + csv_line(columns, Some(rows[n - 1]))
    }
}

/// A query result as CSV: the columns, then each row.
pub open spec fn csv_text(v: JsonV) -> Seq<char> {
    csv_rows(
        csv_line(columns_of(v), None),
        columns_of(v),
        rows_of(v),
        rows_of(v).len() as int,
    )
}

pub fn csv_result_text(value: &Json) -> (r: String)
    ensures
        r@ == csv_text(value@),
{
    let columns = column_names(value);
    let rows = query_rows(value);
    let mut text = csv_line_of(&columns, None);
    let ghost base = text@;
    let mut i: usize = 0;
    while i < rows.len()
        invariant
            views(columns@) == columns_of(value@),
            items_view(rows@) == rows_of(value@),
            i <= rows@.len(),
            text@ == csv_rows(base, columns_of(value@), rows_of(value@), i as int),
        decreases rows@.len() - i,
    {
        assert(items_view(rows@)[i as int] == rows@[i as int]@);
        let line = csv_line_of(&columns, Some(&rows[i]));
        text.push_str(line.as_str());
        i += 1;
    }
    text
}

// ---------------------------------------------------------------------------
// Plain tables
// ---------------------------------------------------------------------------
/// The number of bytes up to which a cell is shown whole.
pub const MAX_CELL_WIDTH: usize = 56;

/// A cell cut to its width, its line feeds escaped.
pub open spec fn cut_cell(s: Seq<char>) -> Seq<char> {
    replace_char(
        if encode_utf8(s).len() <= 56 {
            s
        } else {
            s.take(
                if s.len() < 53 {
                    s.len() as int
                } else {
                    53
                },
            ) + "..."@
        },
        '\n',
        "\\n"@,
    )
}

pub fn truncate_cell(value: &str) -> (r: String)
    ensures
        r@ == cut_cell(value@),
{
    if byte_len(value) <= MAX_CELL_WIDTH {
        replaced_char(value, '\n', "\\n")
    } else {
        let v = chars_of(value);
        let n: usize = if v.len() < MAX_CELL_WIDTH - 3 {
            v.len()
        } else {
            MAX_CELL_WIDTH - 3
        };
        let head = string_of(v.as_slice(), 0, n);
        assert(v@.subrange(0, n as int) =~= value@.take(n as int));
        let cut = cat2(head.as_str(), "...");
        replaced_char(cut.as_str(), '\n', "\\n")
    }
}

/// The text with `n` more of a character.
pub open spec fn padded(s: Seq<char>, c: char, n: int) -> Seq<char> {
    s + Seq::new(
        if n > 0 {
            n as nat
        } else {
            0
        },
        |i: int| c,
    )
}

fn push_times(text: &mut String, c: char, n: usize)
    ensures
        final(text)@ == padded(old(text)@, c, n as int),
{
    let mut i: usize = 0;
    let ghost base = text@;
    assert(padded(base, c, 0) =~= base);
    while i < n
        invariant
            i <= n,
            text@ == padded(base, c, i as int),
        decreases n - i,
    {
        text.push(c);
        assert(text@ =~= padded(base, c, i as int + 1));
        i += 1;
    }
}

/// A rule between rows: for each column its width and two more hyphens.
pub open spec fn separator_cells(base: Seq<char>, widths: Seq<usize>, n: int) -> Seq<char>
    decreases n,
{
    if n <= 0 {
        base.push('+')
    } else {
        padded(separator_cells(base, widths, n - 1), '-', widths[n - 1] as int).push('-').push(
            '-',
        ).push('+')
    }
}

pub open spec fn with_separator(base: Seq<char>, widths: Seq<usize>) -> Seq<char> {
    separator_cells(base, widths, widths.len() as int).push('\n')
}

pub fn push_plain_separator(text: &mut String, widths: &[usize])
    ensures
        final(text)@ == with_separator(old(text)@, widths@),
{
    let ghost base = text@;
    text.push('+');
    let mut i: usize = 0;
    while i < widths.len()
        invariant
            i <= widths@.len(),
            text@ == separator_cells(base, widths@, i as int),
        decreases widths@.len() - i,
    {
        push_times(text, '-', widths[i]);
        text.push('-');
        text.push('-');
        text.push('+');
        i += 1;
    }
    text.push('\n');
}

/// The first `n` cells of a row, each filled with spaces up to its column's width.
pub open spec fn row_cells(base: Seq<char>, values: Seq<Seq<char>>, widths: Seq<usize>, n: int) -> Seq<
    char,
>
    decreases n,
{
    if n <= 0 {
        base.push('|')
    } else {
        padded(
            row_cells(base, values, widths, n - 1).push(' ') + values[n - 1],
            ' ',
            widths[n - 1] - values[n - 1].len(),
        ) + " |"@
    }
}

pub open spec fn with_row(base: Seq<char>, values: Seq<Seq<char>>, widths: Seq<usize>) -> Seq<char> {
    row_cells(
        base,
        values,
        widths,
        if values.len() < widths.len() {
            values.len() as int
        } else {
            widths.len() as int
        },
    ).push('\n')
}

pub fn push_plain_row(text: &mut String, values: &[String], widths: &[usize])
    ensures
        final(text)@ == with_row(old(text)@, views(values@), widths@),
{
    let ghost base = text@;
    let ghost vals = views(values@);
    text.push('|');
    let mut i: usize = 0;
    while i < values.len() && i < widths.len()
        invariant
            vals == views(values@),
            i <= values@.len(),
            i <= widths@.len(),
            text@ == row_cells(base, vals, widths@, i as int),
        decreases values@.len() - i,
    {
        assert(vals[i as int] == values@[i as int]@);
        text.push(' ');
        text.push_str(values[i].as_str());
        let n = crate::text::char_count(values[i].as_str());
        let ghost mid = text@;
        if n < widths[i] {
            push_times(text, ' ', widths[i] - n);
        }
        assert(text@ =~= padded(mid, ' ', widths@[i as int] - n));
        text.push_str(" |");
        i += 1;
    }
    text.push('\n');
}

/// The cell of a row under a column.
pub open spec fn cell_at(row: JsonV, column: Seq<char>) -> Seq<char> {
    cut_cell(cell_text(JsonV::or_null(row.get(column))))
}

/// The cells of a row under the first `n` columns.
pub open spec fn row_texts(columns: Seq<Seq<char>>, row: JsonV) -> Seq<Seq<char>> {
    columns.map_values(|c: Seq<char>| cell_at(row, c))
}

/// The width in bytes that column `i` needs for its name and the first `n` rows.
pub open spec fn width_of(columns: Seq<Seq<char>>, rows: Seq<JsonV>, n: int, i: int) -> int
    decreases n,
{
    if n <= 0 {
        encode_utf8(columns[i]).len() as int
    } else {
        let before = width_of(columns, rows, n - 1, i);
        let here = encode_utf8(cell_at(rows[n - 1], columns[i])).len() as int;
        if here > before {
            here
        } else {
            before
        }
    }
}

/// Whether `widths` are the widths that the columns need for the first `n` rows.
pub open spec fn are_widths(
    widths: Seq<usize>,
    columns: Seq<Seq<char>>,
    rows: Seq<JsonV>,
    n: int,
) -> bool {
    widths.len() == columns.len() && forall|i: int|
        0 <= i < columns.len() ==> #[trigger] widths[i] == width_of(columns, rows, n, i)
}

/// The rows with their cells behind what stands before them.
pub open spec fn table_rows(
    base: Seq<char>,
    columns: Seq<Seq<char>>,
    rows: Seq<JsonV>,
    widths: Seq<usize>,
    n: int,
) -> Seq<char>
    decreases n,
{
    if n <= 0 {
        base
    } else {
        with_row(
            table_rows(base, columns, rows, widths, n - 1),
            row_texts(columns, rows[n - 1]),
            widths,
        )
    }
}

/// A table with the given widths.
pub open spec fn table_with(columns: Seq<Seq<char>>, rows: Seq<JsonV>, widths: Seq<usize>) -> Seq<
    char,
> {
    let head = with_separator(
        with_row(with_separator(Seq::empty(), widths), columns, widths),
        widths,
    );
    with_separator(table_rows(head, columns, rows, widths, rows.len() as int), widths)
}

/// Whether the text is the plain table of the rows: nothing without columns, and
/// otherwise the columns and rows between rules, as wide as their widest cell.
pub open spec fn is_table(text: Seq<char>, columns: Seq<Seq<char>>, rows: Seq<JsonV>) -> bool {
    if columns.len() == 0 {
        text.len() == 0
    } else {
        exists|widths: Seq<usize>|
            #![trigger table_with(columns, rows, widths)]
            are_widths(widths, columns, rows, rows.len() as int) && text == table_with(
                columns,
                rows,
                widths,
            )
    }
}

fn row_cells_of(columns: &Vec<String>, row: &Json) -> (r: Vec<String>)
    ensures
        views(r@) == row_texts(views(columns@), row@),
{
    let ghost names = views(columns@);
    let ghost all = row_texts(names, row@);
    let mut out: Vec<String> = Vec::new();
    let mut i: usize = 0;
    while i < columns.len()
        invariant
            names == views(columns@),
            all == row_texts(names, row@),
            i <= columns@.len(),
            views(out@) == all.take(i as int),
        decreases columns@.len() - i,
    {
        let ghost before = views(out@);
        let value = row.at_or_null(columns[i].as_str());
        let cell = table_cell_value(&value);
        let cut = truncate_cell(cell.as_str());
        let ghost next = cut@;
        out.push(cut);
        assert(views(out@) =~= before.push(next));
        assert(names[i as int] == columns@[i as int]@);
        assert(all[i as int] == next);
        assert(all.take(i as int + 1) =~= before.push(next));
        i += 1;
    }
    assert(all.take(i as int) =~= all);
    out
}

fn table_widths(columns: &Vec<String>, rows: &Vec<Json>) -> (r: Vec<usize>)
    ensures
        are_widths(r@, views(columns@), items_view(rows@), rows@.len() as int),
{
    let ghost names = views(columns@);
    let ghost items = items_view(rows@);
    let mut widths: Vec<usize> = Vec::new();
    let mut i: usize = 0;
    while i < columns.len()
        invariant
            names == views(columns@),
            i <= columns@.len(),
            widths@.len() == i,
            forall|k: int|
                0 <= k < i ==> #[trigger] widths@[k] == width_of(names, items, 0, k),
        decreases columns@.len() - i,
    {
        assert(names[i as int] == columns@[i as int]@);
        widths.push(byte_len(columns[i].as_str()));
        i += 1;
    }
    let mut n: usize = 0;
    while n < rows.len()
        invariant
            names == views(columns@),
            items == items_view(rows@),
            n <= rows@.len(),
            are_widths(widths@, names, items, n as int),
        decreases rows@.len() - n,
    {
        assert(items[n as int] == rows@[n as int]@);
        let cells = row_cells_of(columns, &rows[n]);
        let mut i: usize = 0;
        assert(cells@.len() == names.len()) by {
            assert(views(cells@).len() == names.len());
        }
        while i < columns.len()
            invariant
                names == views(columns@),
                items == items_view(rows@),
                n < rows@.len(),
                i <= columns@.len(),
                cells@.len() == columns@.len() == widths@.len(),
                views(cells@) == row_texts(names, items[n as int]),
                forall|k: int|
                    0 <= k < i ==> #[trigger] widths@[k] == width_of(names, items, n + 1, k),
                forall|k: int|
                    i <= k < names.len() ==> #[trigger] widths@[k] == width_of(
                        names,
                        items,
                        n as int,
                        k,
                    ),
            decreases columns@.len() - i,
        {
            assert(views(cells@)[i as int] == cells@[i as int]@);
            assert(row_texts(names, items[n as int])[i as int] == cell_at(
                items[n as int],
                names[i as int],
            ));
            let here = byte_len(cells[i].as_str());
            if here > widths[i] {
                widths.set(i, here);
            }
            i += 1;
        }
        n += 1;
    }
    widths
}

pub fn plain_table_text(columns: &Vec<String>, rows: &Vec<Json>) -> (r: String)
    ensures
        is_table(r@, views(columns@), items_view(rows@)),
{
    let ghost names = views(columns@);
    let ghost items = items_view(rows@);
    if columns.len() == 0 {
        return String::new();
    }
    let widths = table_widths(columns, rows);
    let mut text = String::new();
    push_plain_separator(&mut text, widths.as_slice());
    push_plain_row(&mut text, columns.as_slice(), widths.as_slice());
    push_plain_separator(&mut text, widths.as_slice());
    let ghost head = text@;
    let mut n: usize = 0;
    while n < rows.len()
        invariant
            names == views(columns@),
            items == items_view(rows@),
            n <= rows@.len(),
            text@ == table_rows(head, names, items, widths@, n as int),
        decreases rows@.len() - n,
    {
        assert(items[n as int] == rows@[n as int]@);
        let cells = row_cells_of(columns, &rows[n]);
        push_plain_row(&mut text, cells.as_slice(), widths.as_slice());
        n += 1;
    }
    push_plain_separator(&mut text, widths.as_slice());
    assert(text@ == table_with(names, items, widths@));
    text
}

/// Whether the text is the plain table of the rows with their number under it.
pub open spec fn is_counted_table(text: Seq<char>, columns: Seq<Seq<char>>, rows: Seq<JsonV>) -> bool {
    exists|table: Seq<char>|
        #![trigger is_table(table, columns, rows)]
        is_table(table, columns, rows) && text == table + "("@ + decimal(rows.len()) + " rows)\n"@
}

pub fn plain_table_result_text(columns: &Vec<String>, rows: &Vec<Json>) -> (r: String)
    ensures
        is_counted_table(r@, views(columns@), items_view(rows@)),
{
    let mut text = plain_table_text(columns, rows);
    let ghost table = text@;
    text.push_str("(");
    let n = digits_of_usize(rows.len());
    text.push_str(n.as_str());
    text.push_str(" rows)\n");
    assert(is_table(table, views(columns@), items_view(rows@)));
    text
}

} // verus!
