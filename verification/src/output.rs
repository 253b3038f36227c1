//! What is printed of an answer in each output format.
use vstd::prelude::*;
use crate::config::OutputFormat;
use crate::human::{human_query_result_text, human_value_text, result_text, value_text};
use crate::json::{
    items_view, json_print_pretty, lemma_array_view, lemma_object_view, members_view,
    print_yaml, yaml_print, Json, JsonV, Member, MemberV,
};
use crate::render::{
    cell_text, column_names, columns_of, csv_result_text, csv_text, human_label, is_counted_table,
    is_query_result, json_output_text, label_text, output_value, plain_table_result_text,
    query_result, structured_output, table_cell_value,
};
use crate::text::{same, views};

verus! {

/// The row that shows a member in a table of an object.
pub open spec fn member_row(m: MemberV) -> JsonV {
    JsonV::empty_object().with("field"@, JsonV::Text(label_text(m.key))).with(
        "value"@,
        JsonV::Text(cell_text(m.value)),
    )
}

/// The row that shows a value in a table of values.
pub open spec fn value_row(v: JsonV) -> JsonV {
    JsonV::empty_object().with("value"@, JsonV::Text(cell_text(v)))
}

pub open spec fn member_rows(m: Seq<MemberV>) -> Seq<JsonV> {
    m.map_values(|x: MemberV| member_row(x))
}

pub open spec fn value_rows(a: Seq<JsonV>) -> Seq<JsonV> {
    a.map_values(|x: JsonV| value_row(x))
}

pub fn object_table_text(members: &Vec<Member>) -> (r: String)
    ensures
        is_counted_table(r@, seq!["field"@, "value"@], member_rows(members_view(members@))),
{
    let ghost all = member_rows(members_view(members@));
    let mut rows: Vec<Json> = Vec::new();
    let mut i: usize = 0;
    while i < members.len()
        invariant
            all == member_rows(members_view(members@)),
            i <= members@.len(),
            items_view(rows@) == all.take(i as int),
        decreases members@.len() - i,
    {
        let ghost before = items_view(rows@);
        let row = Json::object().with(
            "field",
            Json::text(human_label(members[i].key.as_str()).as_str()),
        ).with("value", Json::text(table_cell_value(&members[i].value).as_str()));
        let ghost next = row@;
        rows.push(row);
        assert(items_view(rows@) =~= before.push(next));
        assert(all[i as int] == next);
        assert(all.take(i as int + 1) =~= before.push(next));
        i += 1;
    }
    assert(all.take(i as int) =~= all);
    let mut columns: Vec<String> = Vec::new();
    columns.push("field".to_owned());
    columns.push("value".to_owned());
    assert(views(columns@) =~= seq!["field"@, "value"@]);
    plain_table_result_text(&columns, &rows)
}

/// The keys of the objects among the first `n` values, each once, in the order in
/// which they first stand.
pub open spec fn keys_seen(known: Seq<Seq<char>>, m: Seq<MemberV>, n: int) -> Seq<Seq<char>>
    decreases n,
{
    if n <= 0 {
        known
    } else {
        let before = keys_seen(known, m, n - 1);
        if before.contains(m[n - 1].key) {
            before
        } else {
            before.push(m[n - 1].key)
        }
    }
}

pub open spec fn all_keys(a: Seq<JsonV>, n: int) -> Seq<Seq<char>>
    decreases n,
{
    if n <= 0 {
        Seq::empty()
    } else {
        match a[n - 1] {
            JsonV::Object(m) => keys_seen(all_keys(a, n - 1), m, m.len() as int),
            _ => all_keys(a, n - 1),
        }
    }
}

fn lists(list: &Vec<String>, s: &str) -> (r: bool)
    ensures
        r == views(list@).contains(s@),
{
    let mut i: usize = 0;
    while i < list.len()
        invariant
            i <= list@.len(),
            forall|k: int| 0 <= k < i ==> views(list@)[k] != s@,
        decreases list@.len() - i,
    {
        if same(list[i].as_str(), s) {
            assert(views(list@)[i as int] == s@);
            return true;
        }
        i += 1;
    }
    false
}

fn collect_keys(values: &Vec<Json>) -> (r: Vec<String>)
    ensures
        views(r@) == all_keys(items_view(values@), values@.len() as int),
{
    let ghost a = items_view(values@);
    let mut keys: Vec<String> = Vec::new();
    let mut i: usize = 0;
    assert(views(keys@) =~= Seq::empty());
    while i < values.len()
        invariant
            a == items_view(values@),
            i <= values@.len(),
            views(keys@) == all_keys(a, i as int),
        decreases values@.len() - i,
    {
        assert(a[i as int] == values@[i as int]@);
        match &values[i] {
            Json::Object(m) => {
                proof {
                    lemma_object_view(*m);
                }
                assert(values@[i as int]@ == Json::Object(*m)@);
                let ghost known = views(keys@);
                let ghost all = members_view(m@);
                let mut j: usize = 0;
                while j < m.len()
                    invariant
                        all == members_view(m@),
                        j <= m@.len(),
                        views(keys@) == keys_seen(known, all, j as int),
                    decreases m@.len() - j,
                {
                    assert(all[j as int].key == m@[j as int].key@);
                    if !lists(&keys, m[j].key.as_str()) {
                        let ghost before = views(keys@);
                        keys.push(m[j].key.clone());
                        assert(views(keys@) =~= before.push(m@[j as int].key@));
                    }
                    j += 1;
                }
                assert(a[i as int] == JsonV::Object(all));
                assert(all.len() == m@.len());
            },
            _ => {
                assert(!(values@[i as int]@ is Object));
            },
        }
        i += 1;
    }
    keys
}

pub open spec fn all_objects(a: Seq<JsonV>) -> bool {
    forall|i: int| 0 <= i < a.len() ==> #[trigger] a[i] is Object
}

/// Whether the text is the table of an array: of the keys of its objects where it
/// holds nothing else, and otherwise of its values.
pub open spec fn is_array_table(text: Seq<char>, a: Seq<JsonV>) -> bool {
    if a.len() > 0 && all_objects(a) {
        is_counted_table(text, all_keys(a, a.len() as int), a)
    } else {
        is_counted_table(text, seq!["value"@], value_rows(a))
    }
}

pub fn array_table_text(values: &Vec<Json>) -> (r: String)
    ensures
        is_array_table(r@, items_view(values@)),
{
    let ghost a = items_view(values@);
    let mut objects: bool = values.len() > 0;
    let mut i: usize = 0;
    while i < values.len()
        invariant
            a == items_view(values@),
            i <= values@.len(),
            objects == (values@.len() > 0 && forall|k: int|
                0 <= k < i ==> #[trigger] a[k] is Object),
        decreases values@.len() - i,
    {
        assert(a[i as int] == values@[i as int]@);
        let here = matches!(values[i], Json::Object(_));
        assert(here == (a[i as int] is Object));
        objects = objects && here;
        i += 1;
    }
    if objects {
        let keys = collect_keys(values);
        return plain_table_result_text(&keys, values);
    }
    let ghost all = value_rows(a);
    let mut rows: Vec<Json> = Vec::new();
    let mut i: usize = 0;
    while i < values.len()
        invariant
            a == items_view(values@),
            all == value_rows(a),
            i <= values@.len(),
            items_view(rows@) == all.take(i as int),
        decreases values@.len() - i,
    {
        let ghost before = items_view(rows@);
        let row = Json::object().with(
            "value",
            Json::text(table_cell_value(&values[i]).as_str()),
        );
        let ghost next = row@;
        rows.push(row);
        assert(items_view(rows@) =~= before.push(next));
        assert(a[i as int] == values@[i as int]@);
        assert(all[i as int] == next);
        assert(all.take(i as int + 1) =~= before.push(next));
        i += 1;
    }
    assert(all.take(i as int) =~= all);
    let mut columns: Vec<String> = Vec::new();
    columns.push("value".to_owned());
    assert(views(columns@) =~= seq!["value"@]);
    plain_table_result_text(&columns, &rows)
}

/// Whether the text is the table of a value that is no query result.
pub open spec fn is_generic_table(text: Seq<char>, v: JsonV) -> bool {
    match v {
        JsonV::Object(m) => is_counted_table(text, seq!["field"@, "value"@], member_rows(m)),
        JsonV::Array(a) => is_array_table(text, a),
        _ => is_counted_table(
            text,
            seq!["field"@, "value"@],
            member_rows(seq![MemberV { key: "value"@, value: v }]),
        ),
    }
}

pub fn generic_table_text(value: &Json) -> (r: String)
    ensures
        is_generic_table(r@, value@),
{
    broadcast use {lemma_array_view, lemma_object_view};

    match value {
        Json::Object(m) => {
            assert(value@ == Json::Object(*m)@);
            object_table_text(m)
        },
        Json::Array(v) => {
            assert(value@ == Json::Array(*v)@);
            array_table_text(v)
        },
        _ => {
            let mut members: Vec<Member> = Vec::new();
            members.push(Member { key: "value".to_owned(), value: value.copy() });
            assert(members_view(members@) =~= seq![MemberV { key: "value"@, value: value@ }]);
            object_table_text(&members)
        },
    }
}

/// The table of a query result's rows.
pub fn query_table_text(value: &Json) -> (r: String)
    ensures
        is_counted_table(r@, columns_of(value@), value@.items_at("rows"@)),
{
    let columns = column_names(value);
    let rows = value.items_at("rows");
    plain_table_result_text(&columns, &rows)
}

/// What is printed of a value in a format: structured values for JSON and YAML,
/// tables and CSV, and words for people. CSV is for query results alone.
pub fn print_value(value: &Json, output: OutputFormat) -> (r: Result<String, String>)
    ensures
        match output {
            OutputFormat::Json => r matches Ok(t) && t@ == json_print_pretty(
                output_value(value@),
            ) + "\n"@,
            OutputFormat::Yaml => r matches Ok(t) && t@ == yaml_print(output_value(value@)),
            OutputFormat::Csv => if query_result(value@) {
                r matches Ok(t) && t@ == csv_text(value@)
            } else {
                r matches Err(e) && e@ == "csv output is only available for tabular query results"@
            },
            OutputFormat::Table => r matches Ok(t) && (if query_result(value@) {
                is_counted_table(t@, columns_of(value@), value@.items_at("rows"@))
            } else {
                is_generic_table(t@, value@)
            }),
            OutputFormat::Human => r matches Ok(t) && t@ == (if query_result(
                value@,
            ) {
                result_text(value@)
            } else {
                value_text(value@)
            }),
        },
{
    match output {
        OutputFormat::Json => Ok(json_output_text(value)),
        OutputFormat::Yaml => Ok(print_yaml(&structured_output(value))),
        OutputFormat::Csv => if is_query_result(value) {
            Ok(csv_result_text(value))
        } else {
            Err("csv output is only available for tabular query results".to_owned())
        },
        OutputFormat::Table => if is_query_result(value) {
            Ok(query_table_text(value))
        } else {
            Ok(generic_table_text(value))
        },
        OutputFormat::Human => if is_query_result(value) {
            Ok(human_query_result_text(value))
        } else {
            Ok(human_value_text(value))
        },
    }
}

} // verus!
