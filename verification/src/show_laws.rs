//! What a person is told: that every part of an answer stands in its text.
use vstd::prelude::*;
use crate::human::{
    answer_text, cache_line, edge_label, inventory_text, node_label, node_labels, path_text,
    producer_line, result_text, row_title, status_text, summary_number, value_text, version_line,
    with_cache, with_edges, with_items, with_path, with_paths, with_producers, with_versions,
};
use crate::json::{json_print, json_read, JsonV};
use crate::render::{
    cell_at, cell_text, columns_of, count_text, csv_field, csv_fields, csv_line, csv_rows, csv_text,
    error_text, inline_text, output_value, query_result, response_value, row_texts, rows_of,
    structured, width_of,
};
use crate::text::{decimal, decimal_int, join, starts_with, trim};
use crate::text_laws::mark;

verus! {

// ---------------------------------------------------------------------------
// Parts of texts
// ---------------------------------------------------------------------------
/// Whether a text starts with another.
pub open spec fn begins(t: Seq<char>, p: Seq<char>) -> bool {
    p.len() <= t.len() && t.take(p.len() as int) == p
}

/// Whether a text stands in another at a place.
pub open spec fn stands_at(t: Seq<char>, x: Seq<char>, i: int) -> bool {
    0 <= i && i + x.len() <= t.len() && t.subrange(i, i + x.len()) == x
}

/// Whether a text stands in another.
pub open spec fn tells(t: Seq<char>, x: Seq<char>) -> bool {
    exists|i: int| stands_at(t, x, i)
}

proof fn lemma_tells_part(a: Seq<char>, x: Seq<char>, b: Seq<char>)
    ensures
        tells(a + x + b, x),
        tells(a + (x + b), x),
        begins(x + b, x),
        begins(a + x + b, a),
{
    let t = a + x + b;
    assert(t =~= a + (x + b));
    assert(t.subrange(a.len() as int, (a.len() + x.len()) as int) =~= x);
    assert(stands_at(t, x, a.len() as int));
    assert((x + b).take(x.len() as int) =~= x);
    assert(t.take(a.len() as int) =~= a);
}

proof fn lemma_tells_more(t: Seq<char>, u: Seq<char>, x: Seq<char>)
    requires
        tells(t, x),
    ensures
        tells(t + u, x),
{
    let i = choose|i: int| stands_at(t, x, i);
    assert((t + u).subrange(i, i + x.len()) =~= t.subrange(i, i + x.len()));
    assert(stands_at(t + u, x, i));
}

proof fn lemma_begins_more(t: Seq<char>, u: Seq<char>, p: Seq<char>)
    requires
        begins(t, p),
    ensures
        begins(t + u, p),
{
    assert((t + u).take(p.len() as int) =~= t.take(p.len() as int));
}

/// What is told in a text that another begins with is told in the other.
proof fn lemma_told_from_start(t: Seq<char>, p: Seq<char>, x: Seq<char>)
    requires
        begins(t, p),
        tells(p, x),
    ensures
        tells(t, x),
{
    assert(t =~= p + t.skip(p.len() as int));
    lemma_tells_more(p, t.skip(p.len() as int), x);
}

proof fn lemma_begins_chain(t: Seq<char>, p: Seq<char>, q: Seq<char>)
    requires
        begins(t, p),
        begins(p, q),
    ensures
        begins(t, q),
{
    assert(t.take(q.len() as int) =~= p.take(q.len() as int));
}

proof fn lemma_begins_itself(t: Seq<char>, u: Seq<char>)
    ensures
        begins(t, t),
        begins(t + u, t),
{
    assert(t.take(t.len() as int) =~= t);
    assert((t + u).take(t.len() as int) =~= t);
}

// ---------------------------------------------------------------------------
// Values
// ---------------------------------------------------------------------------
/// A value in a line: a text as it is unless it holds a list or an object, yes or no, a
/// number as it is, a dash for nothing.
pub proof fn law_value_in_line(v: JsonV)
    ensures
        v is Null ==> inline_text(v) == "-"@ && cell_text(v) == ""@ && value_text(v) == "No data.\n"@,
        v == JsonV::Bool(true) ==> inline_text(v) == "yes"@ && cell_text(v) == "yes"@,
        v == JsonV::Bool(false) ==> inline_text(v) == "no"@ && cell_text(v) == "no"@,
        v matches JsonV::Number(n) ==> inline_text(v) == n && cell_text(v) == n && value_text(v) == n
            + "\n"@,
        v matches JsonV::Text(s) ==> value_text(v) == s + "\n"@,
        v matches JsonV::Text(s) ==> !starts_with(trim(s), "["@) && !starts_with(trim(s), "{"@)
            ==> inline_text(v) == s && cell_text(v) == s,
        v is Object ==> inline_text(v) == json_print(v),
{
}

/// A count names one thing in the singular, and any other number of them in the plural.
pub proof fn law_count_is_worded(n: nat, noun: Seq<char>)
    ensures
        n == 1 ==> count_text(n, noun) == decimal(n) + " "@ + noun,
        n != 1 ==> count_text(n, noun) == decimal(n) + " "@ + noun + "s"@,
{
    reveal_strlit("");
    assert(decimal(n) + " "@ + noun + ""@ =~= decimal(n) + " "@ + noun);
}

/// A reply without text is nothing, one that is JSON is its value, and any other is its text.
pub proof fn law_reply_has_value(text: Seq<char>)
    ensures
        trim(text).len() == 0 ==> response_value(text) == JsonV::Null,
        trim(text).len() > 0 && json_read(text) is Ok ==> response_value(text) == json_read(
            text,
        )->Ok_0,
        trim(text).len() > 0 && json_read(text) is Err ==> response_value(text) == JsonV::Text(text),
{
}

/// An error says what its `error` says, or its `message` where it has none, or else all of
/// it.
pub proof fn law_error_says(v: JsonV, fallback: Seq<char>)
    ensures
        v.text_at("error"@) is Some ==> error_text(v, fallback) == v.text_at("error"@)->Some_0,
        v.get("error"@) is None && v.text_at("message"@) is Some ==> error_text(v, fallback)
            == v.text_at("message"@)->Some_0,
        v is Null ==> error_text(v, fallback) == fallback,
        v.get("error"@) is None && v.text_at("message"@) is None && !(v is Null) ==> error_text(
            v,
            fallback,
        ) == json_print(v),
{
}

/// Rows are shown as they are where nothing is known of a cache, and with what is known of it
/// otherwise; what is no result of a query is shown as it is.
pub proof fn law_rows_are_shown(v: JsonV)
    ensures
        !query_result(v) ==> output_value(v) == v,
        query_result(v) && v.get("cache"@) is None ==> output_value(v) == JsonV::Array(rows_of(v)),
        rows_of(v).len() == v.items_at("rows"@).len(),
        forall|i: int|
            0 <= i < rows_of(v).len() ==> #[trigger] rows_of(v)[i] == structured(
                v.items_at("rows"@)[i],
            ),
{
}

// ---------------------------------------------------------------------------
// Components and paths
// ---------------------------------------------------------------------------
/// A component is called by its name, and its version where that is known.
pub proof fn law_component_is_called(v: JsonV, name: Seq<char>)
    requires
        v is Object,
        v.text_at("component"@) == Some(name),
    ensures
        v.text_at("version"@) is None ==> node_label(v) == name,
        v.text_at("version"@) is Some ==> node_label(v) == name + " "@ + v.text_at(
            "version"@,
        )->Some_0,
{
}

/// An edge is told from its source to its target, with its capability, its status and the
/// fact it comes from.
pub proof fn law_edge_is_told(v: JsonV)
    requires
        v is Object,
        v.get("from"@) is Some,
        v.get("to"@) is Some,
        v.text_at("relationship"@) is Some,
    ensures
        ({
            let t = edge_label(v);
            let cap = v.text_at("capability"@);
            let status = v.text_at("status"@);
            let fact = v.text_at("sourceFactId"@);
            &&& begins(
                t,
                node_label(v.get("from"@)->Some_0) + " "@ + v.text_at("relationship"@)->Some_0 + " "@
                    + node_label(v.get("to"@)->Some_0),
            )
            &&& cap is Some ==> tells(t, " via "@ + cap->Some_0)
            &&& status is Some ==> tells(t, " ["@ + status->Some_0 + "]"@)
            &&& fact is Some ==> tells(t, " ("@ + fact->Some_0 + ")"@)
        }),
{
    let cap = v.text_at("capability"@);
    let capv = v.text_at("capabilityVersion"@);
    let status = v.text_at("status"@);
    let fact = v.text_at("sourceFactId"@);
    let a = node_label(v.get("from"@)->Some_0) + " "@ + v.text_at("relationship"@)->Some_0 + " "@
        + node_label(v.get("to"@)->Some_0);
    let via = if cap is Some {
        " via "@ + cap->Some_0 + (if capv is Some {
            " "@ + capv->Some_0
        } else {
            Seq::empty()
        })
    } else {
        Seq::empty()
    };
    let st = if status is Some {
        " ["@ + status->Some_0 + "]"@
    } else {
        Seq::empty()
    };
    let fa = if fact is Some {
        " ("@ + fact->Some_0 + ")"@
    } else {
        Seq::empty()
    };
    assert(edge_label(v) =~= a + via + st + fa);
    lemma_begins_itself(a, via);
    lemma_begins_more(a + via, st, a);
    lemma_begins_more(a + via + st, fa, a);
    if cap is Some {
        let head = " via "@ + cap->Some_0;
        lemma_tells_part(a, head, if capv is Some {
            " "@ + capv->Some_0
        } else {
            Seq::empty()
        });
        assert(a + via =~= a + head + (if capv is Some {
            " "@ + capv->Some_0
        } else {
            Seq::empty()
        }));
        lemma_tells_more(a + via, st, head);
        lemma_tells_more(a + via + st, fa, head);
    }
    if status is Some {
        lemma_tells_part(a + via, st, fa);
    }
    if fact is Some {
        lemma_tells_part(a + via + st, fa, Seq::empty());
        assert(a + via + st + fa + Seq::<char>::empty() =~= a + via + st + fa);
    }
}

proof fn lemma_edges_begin(text: Seq<char>, lead: Seq<char>, edges: Seq<JsonV>, n: int)
    requires
        0 <= n <= edges.len(),
    ensures
        begins(with_edges(text, lead, edges, n), text),
    decreases n,
{
    lemma_begins_itself(text, text);
    if n > 0 {
        lemma_edges_begin(text, lead, edges, n - 1);
        lemma_begins_more(
            with_edges(text, lead, edges, n - 1),
            lead + edge_label(edges[n - 1]) + "\n"@,
            text,
        );
    }
}

/// Every edge of a list has its line.
pub proof fn law_every_edge_is_told(text: Seq<char>, lead: Seq<char>, edges: Seq<JsonV>, n: int, i: int)
    requires
        0 <= i < n <= edges.len(),
    ensures
        tells(with_edges(text, lead, edges, n), lead + edge_label(edges[i]) + "\n"@),
    decreases n,
{
    let before = with_edges(text, lead, edges, n - 1);
    let line = lead + edge_label(edges[n - 1]) + "\n"@;
    if i == n - 1 {
        lemma_tells_part(before, line, Seq::empty());
        assert(before + line + Seq::<char>::empty() =~= before + line);
    } else {
        law_every_edge_is_told(text, lead, edges, n - 1, i);
        lemma_tells_more(before, line, lead + edge_label(edges[i]) + "\n"@);
    }
}

/// The line of a path: its number, its components, its confidence and its score.
pub open spec fn path_line(path: JsonV, index: nat) -> Seq<char> {
    decimal(index + 1) + ". "@ + (if path.items_at("nodes"@).len() == 0 {
        "same component"@
    } else {
        join(node_labels(path.items_at("nodes"@)), " -> "@)
    }) + (match path.text_at("confidence"@) {
        Some(c) => " ["@ + c + "]"@,
        None => Seq::empty(),
    }) + (match path.i64_at("score"@) {
        Some(n) => " score "@ + decimal_int(n),
        None => Seq::empty(),
    }) + "\n"@
}

proof fn lemma_path_told(text: Seq<char>, path: JsonV, index: nat)
    ensures
        begins(with_path(text, path, index), text + path_line(path, index)),
        begins(with_path(text, path, index), text),
        tells(with_path(text, path, index), path_line(path, index)),
        forall|i: int|
            0 <= i < path.items_at("edges"@).len() ==> tells(
                with_path(text, path, index),
                "   "@ + edge_label(#[trigger] path.items_at("edges"@)[i]) + "\n"@,
            ),
{
    let edges = path.items_at("edges"@);
    let line = path_line(path, index);
    let nodes = if path.items_at("nodes"@).len() == 0 {
        "same component"@
    } else {
        join(node_labels(path.items_at("nodes"@)), " -> "@)
    };
    let conf = match path.text_at("confidence"@) {
        Some(c) => " ["@ + c + "]"@,
        None => Seq::empty(),
    };
    let score = match path.i64_at("score"@) {
        Some(n) => " score "@ + decimal_int(n),
        None => Seq::empty(),
    };
    let base0 = text + decimal(index + 1) + ". "@ + nodes;
    let base1 = match path.text_at("confidence"@) {
        Some(c) => base0 + " ["@ + c + "]"@,
        None => base0,
    };
    let base2 = match path.i64_at("score"@) {
        Some(n) => base1 + " score "@ + decimal_int(n),
        None => base1,
    };
    assert(base1 =~= base0 + conf);
    assert(base2 =~= base1 + score);
    assert(base2 + "\n"@ =~= text + line);
    assert(with_path(text, path, index) == with_edges(base2 + "\n"@, "   "@, edges, edges.len() as int));
    lemma_edges_begin(text + line, "   "@, edges, edges.len() as int);
    lemma_begins_itself(text, line);
    lemma_begins_chain(with_path(text, path, index), text + line, text);
    lemma_tells_part(text, line, Seq::empty());
    assert(text + line + Seq::<char>::empty() =~= text + line);
    lemma_told_from_start(with_path(text, path, index), text + line, line);
    assert forall|i: int| 0 <= i < edges.len() implies tells(
        with_path(text, path, index),
        "   "@ + edge_label(#[trigger] path.items_at("edges"@)[i]) + "\n"@,
    ) by {
        law_every_edge_is_told(text + line, "   "@, edges, edges.len() as int, i);
    }
}

proof fn lemma_paths_told(text: Seq<char>, paths: Seq<JsonV>, n: int)
    requires
        0 <= n <= paths.len(),
    ensures
        begins(with_paths(text, paths, n), text),
    decreases n,
{
    lemma_begins_itself(text, text);
    if n > 0 {
        lemma_paths_told(text, paths, n - 1);
        let before = with_paths(text, paths, n - 1);
        lemma_path_told(before, paths[n - 1], (n - 1) as nat);
        lemma_begins_chain(with_paths(text, paths, n), before, text);
    }
}

proof fn lemma_each_path_told(text: Seq<char>, paths: Seq<JsonV>, n: int, k: int)
    requires
        0 <= k < n <= paths.len(),
    ensures
        tells(with_paths(text, paths, n), path_line(paths[k], k as nat)),
    decreases n,
{
    let before = with_paths(text, paths, n - 1);
    lemma_path_told(before, paths[n - 1], (n - 1) as nat);
    if k < n - 1 {
        lemma_each_path_told(text, paths, n - 1, k);
        lemma_told_from_start(with_paths(text, paths, n), before, path_line(paths[k], k as nat));
    }
}

/// An answer about two components tells its status and its confidence first, and then every
/// path; without one it says so.
pub proof fn law_paths_are_told(object: JsonV, title: Seq<char>, k: int)
    requires
        object.text_at("status"@) is Some,
        object.text_at("confidence"@) is Some,
    ensures
        ({
            let t = path_text(object, title);
            let paths = object.items_at("paths"@);
            let head = title + ": "@ + object.text_at("status"@)->Some_0 + " ("@ + object.text_at(
                "confidence"@,
            )->Some_0 + " confidence)\n"@;
            &&& begins(t, head)
            &&& 0 <= k < paths.len() ==> tells(t, path_line(paths[k], k as nat))
            &&& paths.len() == 0 ==> begins(t, head + "No known compatibility path.\n"@)
        }),
{
    let paths = object.items_at("paths"@);
    let missing = object.items_at("missing"@);
    let head = title + ": "@ + object.text_at("status"@)->Some_0 + " ("@ + object.text_at(
        "confidence"@,
    )->Some_0 + " confidence)\n"@;
    if paths.len() == 0 {
        let none = head + "No known compatibility path.\n"@;
        lemma_items_begin(none, "- "@, missing, missing.len() as int);
        lemma_begins_itself(head, "No known compatibility path.\n"@);
        lemma_begins_chain(path_text(object, title), none, head);
    } else {
        lemma_paths_told(head, paths, paths.len() as int);
        if 0 <= k < paths.len() {
            lemma_each_path_told(head, paths, paths.len() as int, k);
        }
    }
}

proof fn lemma_items_begin(text: Seq<char>, lead: Seq<char>, a: Seq<JsonV>, n: int)
    requires
        0 <= n <= a.len(),
    ensures
        begins(with_items(text, lead, a, n), text),
    decreases n,
{
    lemma_begins_itself(text, text);
    if n > 0 {
        lemma_items_begin(text, lead, a, n - 1);
        lemma_begins_more(
            with_items(text, lead, a, n - 1),
            lead + inline_text(a[n - 1]) + "\n"@,
            text,
        );
    }
}

/// Every item of a list has its line.
pub proof fn law_every_item_is_told(text: Seq<char>, lead: Seq<char>, a: Seq<JsonV>, n: int, i: int)
    requires
        0 <= i < n <= a.len(),
    ensures
        tells(with_items(text, lead, a, n), lead + inline_text(a[i]) + "\n"@),
    decreases n,
{
    let before = with_items(text, lead, a, n - 1);
    let line = lead + inline_text(a[n - 1]) + "\n"@;
    if i == n - 1 {
        lemma_tells_part(before, line, Seq::empty());
        assert(before + line + Seq::<char>::empty() =~= before + line);
    } else {
        law_every_item_is_told(text, lead, a, n - 1, i);
        lemma_tells_more(before, line, lead + inline_text(a[i]) + "\n"@);
    }
}

/// The text of an answer is that of its kind: it begins with what the kind is called, and
/// the status that the answer gives.
pub proof fn law_answer_is_titled(object: JsonV)
    requires
        object.text_at("status"@) is Some,
        object.text_at("confidence"@) is Some,
    ensures
        ({
            let t = answer_text(object);
            let status = object.text_at("status"@)->Some_0;
            let kind = object.text_at("kind"@);
            &&& kind == Some("graph-path"@) ==> begins(t, "Path: "@ + status)
            &&& kind == Some("graph-works-with"@) ==> begins(t, "Works with: "@ + status)
            &&& kind == Some("graph-why"@) ==> begins(t, "Why: "@ + status)
        }),
{
    let kind = object.text_at("kind"@);
    lemma_kinds();
    if kind == Some("graph-path"@) {
        reveal_strlit("Path");
        reveal_strlit(": ");
        reveal_strlit("Path: ");
        assert("Path"@ + ": "@ =~= "Path: "@);
        lemma_titled(object, "Path"@);
    }
    if kind == Some("graph-works-with"@) {
        reveal_strlit("Works with");
        reveal_strlit(": ");
        reveal_strlit("Works with: ");
        assert("Works with"@ + ": "@ =~= "Works with: "@);
        lemma_titled(object, "Works with"@);
    }
    if kind == Some("graph-why"@) {
        reveal_strlit("Why");
        reveal_strlit(": ");
        reveal_strlit("Why: ");
        assert("Why"@ + ": "@ =~= "Why: "@);
        lemma_titled(object, "Why"@);
    }
}

proof fn lemma_titled(object: JsonV, title: Seq<char>)
    requires
        object.text_at("status"@) is Some,
        object.text_at("confidence"@) is Some,
    ensures
        begins(
            with_cache(path_text(object, title), object),
            title + ": "@ + object.text_at("status"@)->Some_0,
        ),
{
    law_paths_are_told(object, title, 0);
    let head = title + ": "@ + object.text_at("status"@)->Some_0;
    let rest = " ("@ + object.text_at("confidence"@)->Some_0 + " confidence)\n"@;
    let t = path_text(object, title);
    lemma_begins_itself(head, rest);
    assert(head + rest =~= title + ": "@ + object.text_at("status"@)->Some_0 + " ("@
        + object.text_at("confidence"@)->Some_0 + " confidence)\n"@);
    lemma_begins_chain(t, head + rest, head);
    if object.object_at("cache"@) is Some {
        lemma_begins_more(t, cache_line(object.object_at("cache"@)->Some_0), head);
    }
}

/// The status of a component tells its name and how many edges go out of it and come in.
pub proof fn law_status_is_told(object: JsonV)
    requires
        object.get("component"@) is Some,
        object.u64_at("outgoingCount"@) is Some,
        object.u64_at("incomingCount"@) is Some,
    ensures
        begins(
            status_text(object),
            "Status: "@ + node_label(object.get("component"@)->Some_0) + "\nOutgoing: "@ + decimal(
                object.u64_at("outgoingCount"@)->Some_0,
            ) + "\nIncoming: "@ + decimal(object.u64_at("incomingCount"@)->Some_0) + "\n"@,
        ),
{
    let head = "Status: "@ + node_label(object.get("component"@)->Some_0) + "\nOutgoing: "@ + decimal(
        object.u64_at("outgoingCount"@)->Some_0,
    ) + "\nIncoming: "@ + decimal(object.u64_at("incomingCount"@)->Some_0) + "\n"@;
    let one = crate::human::with_direction(head, object, "Outgoing"@, "outgoing"@);
    lemma_direction_begins(head, object, "Outgoing"@, "outgoing"@);
    lemma_direction_begins(one, object, "Incoming"@, "incoming"@);
    lemma_begins_chain(status_text(object), one, head);
}

proof fn lemma_direction_begins(text: Seq<char>, object: JsonV, label: Seq<char>, key: Seq<char>)
    ensures
        begins(crate::human::with_direction(text, object, label, key), text),
{
    let edges = object.items_at(key);
    lemma_begins_itself(text, label + " edges\n"@);
    assert(text + (label + " edges\n"@) =~= text + label + " edges\n"@);
    if edges.len() > 0 {
        lemma_edges_begin(text + label + " edges\n"@, "- "@, edges, edges.len() as int);
        lemma_begins_chain(
            crate::human::with_direction(text, object, label, key),
            text + label + " edges\n"@,
            text,
        );
    }
}

/// Every version that goes with a component has its line.
pub proof fn law_every_version_is_told(
    text: Seq<char>,
    candidates: Seq<JsonV>,
    versions: Seq<JsonV>,
    n: int,
    i: int,
)
    requires
        0 <= i < n <= versions.len(),
    ensures
        tells(with_versions(text, candidates, versions, n), "- "@ + inline_text(versions[i])),
    decreases n,
{
    let before = with_versions(text, candidates, versions, n - 1);
    let line = version_line(candidates, versions[n - 1]);
    let x = "- "@ + inline_text(versions[i]);
    if i == n - 1 {
        let rest = line.skip(x.len() as int);
        assert(line =~= x + rest);
        lemma_tells_part(before, x, rest);
        assert(before + x + rest =~= before + line);
    } else {
        law_every_version_is_told(text, candidates, versions, n - 1, i);
        lemma_tells_more(before, line, x);
    }
}

/// A result tells how many rows it has; without any it says so.
pub proof fn law_rows_are_counted(v: JsonV)
    ensures
        rows_of(v).len() == 0 ==> begins(result_text(v), "No rows.\n"@),
        rows_of(v).len() == 1 ==> begins(result_text(v), decimal(1) + " row\n"@),
        rows_of(v).len() > 1 ==> begins(result_text(v), decimal(rows_of(v).len()) + " rows\n"@),
{
    let rows = rows_of(v);
    let columns = columns_of(v);
    if rows.len() == 0 {
        let all =
            "No rows.\nTry `matrix components`, `matrix versions`, or `matrix query 'select * from context'` to inspect the active context.\n"@;
        reveal_strlit(
            "No rows.\nTry `matrix components`, `matrix versions`, or `matrix query 'select * from context'` to inspect the active context.\n",
        );
        reveal_strlit("No rows.\n");
        assert(all.take("No rows.\n"@.len() as int) =~= "No rows.\n"@);
        lemma_cache_begins(all, v);
        lemma_begins_chain(result_text(v), all, "No rows.\n"@);
    } else {
        let ending = if rows.len() == 1 {
            ""@
        } else {
            "s"@
        };
        let head = decimal(rows.len()) + " row"@ + ending + "\n"@;
        reveal_strlit("");
        reveal_strlit("s");
        reveal_strlit(" row");
        reveal_strlit("\n");
        reveal_strlit(" row\n");
        reveal_strlit(" rows\n");
        if rows.len() == 1 {
            assert(head =~= decimal(1) + " row\n"@);
        } else {
            assert(head =~= decimal(rows.len()) + " rows\n"@);
        }
        let all = crate::human::result_rows(head, rows, columns, rows.len() as int);
        lemma_rows_begin(head, rows, columns, rows.len() as int);
        lemma_cache_begins(all, v);
        lemma_begins_chain(result_text(v), all, head);
    }
}

proof fn lemma_cache_begins(text: Seq<char>, object: JsonV)
    ensures
        begins(with_cache(text, object), text),
{
    lemma_begins_itself(text, text);
    if object.object_at("cache"@) is Some {
        lemma_begins_more(text, cache_line(object.object_at("cache"@)->Some_0), text);
    }
}

proof fn lemma_row_lines_begin(
    text: Seq<char>,
    row: JsonV,
    columns: Seq<Seq<char>>,
    used: Seq<Seq<char>>,
    n: int,
)
    requires
        0 <= n <= columns.len(),
    ensures
        begins(crate::human::row_lines(text, row, columns, used, n), text),
    decreases n,
{
    lemma_begins_itself(text, text);
    if n > 0 {
        lemma_row_lines_begin(text, row, columns, used, n - 1);
        if row.get(columns[n - 1]) is Some {
            lemma_begins_more(
                crate::human::row_lines(text, row, columns, used, n - 1),
                "  "@ + crate::render::label_text(columns[n - 1]) + ": "@ + inline_text(
                    row.get(columns[n - 1])->Some_0,
                ) + "\n"@,
                text,
            );
        }
    }
}

proof fn lemma_rows_begin(text: Seq<char>, rows: Seq<JsonV>, columns: Seq<Seq<char>>, n: int)
    requires
        0 <= n <= rows.len(),
    ensures
        begins(crate::human::result_rows(text, rows, columns, n), text),
    decreases n,
{
    lemma_begins_itself(text, text);
    if n > 0 {
        lemma_rows_begin(text, rows, columns, n - 1);
        let before = crate::human::result_rows(text, rows, columns, n - 1);
        let row = rows[n - 1];
        if row is Object {
            let title = row_title(row, columns, (n - 1) as nat);
            let line = "- "@ + title.0 + "\n"@;
            lemma_row_lines_begin(before + line, row, columns, title.1, columns.len() as int);
            lemma_begins_itself(before, line);
            lemma_begins_chain(
                crate::human::result_rows(text, rows, columns, n),
                before + line,
                before,
            );
        } else {
            lemma_begins_itself(before, "- "@ + inline_text(row) + "\n"@);
        }
        lemma_begins_chain(crate::human::result_rows(text, rows, columns, n), before, text);
    }
}

proof fn lemma_member_told(
    before: Seq<char>,
    lead: Seq<char>,
    mark: Seq<char>,
    value: Seq<char>,
    end: Seq<char>,
)
    ensures
        tells(before + (lead + mark + value + end), mark + value + end),
{
    let x = mark + value + end;
    let t = before + (lead + mark + value + end);
    let i = (before.len() + lead.len()) as int;
    assert(lead + mark + value + end =~= lead + x);
    assert(t.subrange(i, i + x.len()) =~= x);
    assert(stands_at(t, x, i));
}

/// A row shows each column of it that is not in its title already, under the column's name.
pub proof fn law_columns_are_told(
    text: Seq<char>,
    row: JsonV,
    columns: Seq<Seq<char>>,
    used: Seq<Seq<char>>,
    n: int,
    i: int,
)
    requires
        0 <= i < n <= columns.len(),
        !used.contains(columns[i]),
        row.get(columns[i]) is Some,
    ensures
        tells(
            crate::human::row_lines(text, row, columns, used, n),
            ": "@ + inline_text(row.get(columns[i])->Some_0) + "\n"@,
        ),
    decreases n,
{
    let before = crate::human::row_lines(text, row, columns, used, n - 1);
    let x = ": "@ + inline_text(row.get(columns[i])->Some_0) + "\n"@;
    if i == n - 1 {
        lemma_member_told(
            before,
            "  "@ + crate::render::label_text(columns[i]),
            ": "@,
            inline_text(row.get(columns[i])->Some_0),
            "\n"@,
        );
    } else {
        law_columns_are_told(text, row, columns, used, n - 1, i);
        if row.get(columns[n - 1]) is Some && !used.contains(columns[n - 1]) {
            lemma_tells_more(
                before,
                "  "@ + crate::render::label_text(columns[n - 1]) + ": "@ + inline_text(
                    row.get(columns[n - 1])->Some_0,
                ) + "\n"@,
                x,
            );
        }
    }
}

/// A row is titled by its component and version, or else by its name, its id, the fact's id,
/// its zone or its repository, whichever is shown first.
pub proof fn law_row_is_titled(row: JsonV, columns: Seq<Seq<char>>, index: nat)
    ensures
        ({
            let at = |k: Seq<char>| crate::human::shown_at(row, k);
            let t = row_title(row, columns, index).0;
            let c = at("component"@);
            &&& c is Some && at("version"@) is Some ==> t == c->Some_0 + " "@ + at(
                "version"@,
            )->Some_0
            &&& c is Some && at("version"@) is None ==> t == c->Some_0
            &&& c is None && at("name"@) is Some ==> t == at("name"@)->Some_0
            &&& c is None && at("name"@) is None && at("id"@) is Some ==> t == at("id"@)->Some_0
            &&& c is None && at("name"@) is None && at("id"@) is None && at("fact_id"@) is Some ==> t
                == at("fact_id"@)->Some_0
            &&& c is None && at("name"@) is None && at("id"@) is None && at("fact_id"@) is None && at(
                "zone"@,
            ) is Some ==> t == at("zone"@)->Some_0
            &&& c is None && at("name"@) is None && at("id"@) is None && at("fact_id"@) is None && at(
                "zone"@,
            ) is None && at("repo"@) is Some ==> t == at("repo"@)->Some_0
        }),
{
    reveal_with_fuel(crate::human::first_shown, 7);
}

/// The line about a cache tells where the facts came from, how many there are and how old
/// they are; it warns of a stale one that was used, and of no other.
pub proof fn law_cache_is_told(c: JsonV)
    requires
        c.text_at("source"@) is Some,
        c.u64_at("factCount"@) is Some,
        c.text_at("ageHuman"@) is Some,
    ensures
        ({
            let warning =
                "Warning: using stale local Matrix cache; run `matrix sync` or add `--refresh-cache` for fresh facts.\n"@;
            let head = "Cache: "@ + c.text_at("source"@)->Some_0 + ", "@ + decimal(
                c.u64_at("factCount"@)->Some_0,
            ) + " facts, last refreshed "@ + c.text_at("ageHuman"@)->Some_0 + " ago"@;
            let checked = c.text_at("checkedAgeHuman"@);
            let told = if checked is Some && checked != c.text_at("ageHuman"@) {
                head + ", checked "@ + checked->Some_0 + " ago"@
            } else {
                head
            };
            let stale = c.bool_at("stale"@) == Some(true) && c.text_at("source"@) == Some("cache"@);
            &&& begins(cache_line(c), head)
            &&& checked is Some && stale ==> cache_line(c) == told + "\n"@ + warning
            &&& checked is Some && !stale ==> cache_line(c) == told + "\n"@
        }),
{
    let head = "Cache: "@ + c.text_at("source"@)->Some_0 + ", "@ + decimal(
        c.u64_at("factCount"@)->Some_0,
    ) + " facts, last refreshed "@ + c.text_at("ageHuman"@)->Some_0 + " ago"@;
    let rest = cache_line(c).skip(head.len() as int);
    assert(cache_line(c) =~= head + rest);
    lemma_begins_itself(head, rest);
}

/// An inventory of producers tells the numbers of its summary.
pub proof fn law_inventory_is_told(object: JsonV)
    ensures
        begins(
            inventory_text(object),
            "Producer inventory: "@ + decimal(summary_number(object, "producers"@)) + " producers, "@
                + decimal(summary_number(object, "facts"@)) + " facts, "@ + decimal(
                summary_number(object, "staleProducers"@),
            ) + " stale, "@ + decimal(summary_number(object, "invalidFacts"@)) + " invalid, "@
                + decimal(summary_number(object, "missingProducerMetadataFacts"@))
                + " missing producer metadata\n"@,
        ),
{
    let head = "Producer inventory: "@ + decimal(summary_number(object, "producers"@))
        + " producers, "@ + decimal(summary_number(object, "facts"@)) + " facts, "@ + decimal(
        summary_number(object, "staleProducers"@),
    ) + " stale, "@ + decimal(summary_number(object, "invalidFacts"@)) + " invalid, "@ + decimal(
        summary_number(object, "missingProducerMetadataFacts"@),
    ) + " missing producer metadata\n"@;
    let rows = object.items_at("rows"@);
    let all = with_producers(head, rows, rows.len() as int);
    lemma_producers_begin(head, rows, rows.len() as int);
    lemma_cache_begins(all, object);
    lemma_begins_chain(inventory_text(object), all, head);
}

proof fn lemma_producers_begin(text: Seq<char>, rows: Seq<JsonV>, n: int)
    requires
        0 <= n <= rows.len(),
    ensures
        begins(with_producers(text, rows, n), text),
    decreases n,
{
    lemma_begins_itself(text, text);
    if n > 0 {
        lemma_producers_begin(text, rows, n - 1);
        lemma_begins_more(with_producers(text, rows, n - 1), producer_line(rows[n - 1]), text);
    }
}

// ---------------------------------------------------------------------------
// Rows and columns
// ---------------------------------------------------------------------------
proof fn lemma_csv_fields(columns: Seq<Seq<char>>, row: Option<JsonV>, n: int)
    requires
        0 <= n <= columns.len(),
    ensures
        csv_fields(columns, row, n).len() == n,
        forall|i: int|
            0 <= i < n ==> #[trigger] csv_fields(columns, row, n)[i] == csv_field(
                match row {
                    Some(r) => cell_text(JsonV::or_null(r.get(columns[i]))),
                    None => columns[i],
                },
            ),
    decreases n,
{
    if n > 0 {
        lemma_csv_fields(columns, row, n - 1);
    }
}

/// A line of comma-separated values has a field for each column, in their order: the names of
/// the columns in the first line, and the row's values in the others.
pub proof fn law_csv_line_has_columns(columns: Seq<Seq<char>>, row: JsonV, i: int)
    requires
        0 <= i < columns.len(),
    ensures
        ({
            let n = columns.len() as int;
            &&& csv_fields(columns, None, n).len() == n
            &&& csv_fields(columns, Some(row), n).len() == n
            &&& csv_fields(columns, None, n)[i] == csv_field(columns[i])
            &&& row.get(columns[i]) is Some ==> csv_fields(columns, Some(row), n)[i] == csv_field(
                cell_text(row.get(columns[i])->Some_0),
            )
            &&& row.get(columns[i]) is None ==> csv_fields(columns, Some(row), n)[i] == csv_field(
                ""@,
            )
        }),
{
    lemma_csv_fields(columns, None, columns.len() as int);
    lemma_csv_fields(columns, Some(row), columns.len() as int);
}

/// Every row has its line of comma-separated values, behind the line of the columns.
pub proof fn law_csv_has_rows(v: JsonV, k: int)
    ensures
        begins(csv_text(v), csv_line(columns_of(v), None)),
        0 <= k < rows_of(v).len() ==> tells(csv_text(v), csv_line(columns_of(v), Some(rows_of(v)[k]))),
{
    lemma_csv_begins(csv_line(columns_of(v), None), columns_of(v), rows_of(v), rows_of(v).len() as int);
    if 0 <= k < rows_of(v).len() {
        lemma_csv_row(
            csv_line(columns_of(v), None),
            columns_of(v),
            rows_of(v),
            rows_of(v).len() as int,
            k,
        );
    }
}

proof fn lemma_csv_begins(base: Seq<char>, columns: Seq<Seq<char>>, rows: Seq<JsonV>, n: int)
    requires
        0 <= n <= rows.len(),
    ensures
        begins(csv_rows(base, columns, rows, n), base),
    decreases n,
{
    lemma_begins_itself(base, base);
    if n > 0 {
        lemma_csv_begins(base, columns, rows, n - 1);
        lemma_begins_more(
            csv_rows(base, columns, rows, n - 1),
            csv_line(columns, Some(rows[n - 1])),
            base,
        );
    }
}

proof fn lemma_csv_row(base: Seq<char>, columns: Seq<Seq<char>>, rows: Seq<JsonV>, n: int, k: int)
    requires
        0 <= k < n <= rows.len(),
    ensures
        tells(csv_rows(base, columns, rows, n), csv_line(columns, Some(rows[k]))),
    decreases n,
{
    let before = csv_rows(base, columns, rows, n - 1);
    let line = csv_line(columns, Some(rows[n - 1]));
    if k == n - 1 {
        lemma_tells_part(before, line, Seq::empty());
        assert(before + line + Seq::<char>::empty() =~= before + line);
    } else {
        lemma_csv_row(base, columns, rows, n - 1, k);
        lemma_tells_more(before, line, csv_line(columns, Some(rows[k])));
    }
}

/// A column of a table is as wide as its widest cell, its name among them, and no wider.
pub proof fn law_columns_fit(columns: Seq<Seq<char>>, rows: Seq<JsonV>, n: int, i: int)
    requires
        0 <= i < columns.len(),
        0 <= n <= rows.len(),
    ensures
        ({
            let size = |s: Seq<char>| vstd::utf8::encode_utf8(s).len();
            let w = width_of(columns, rows, n, i);
            &&& size(columns[i]) <= w
            &&& forall|k: int| 0 <= k < n ==> size(cell_at(#[trigger] rows[k], columns[i])) <= w
            &&& w == size(columns[i]) || exists|k: int|
                0 <= k < n && w == size(cell_at(#[trigger] rows[k], columns[i]))
        }),
    decreases n,
{
    if n > 0 {
        law_columns_fit(columns, rows, n - 1, i);
        let before = width_of(columns, rows, n - 1, i);
        let w = width_of(columns, rows, n, i);
        let size = |s: Seq<char>| vstd::utf8::encode_utf8(s).len();
        if w == before {
            if w != size(columns[i]) {
                let k = choose|k: int|
                    0 <= k < n - 1 && before == size(cell_at(#[trigger] rows[k], columns[i]));
                assert(w == size(cell_at(rows[k], columns[i])));
            }
        } else {
            assert(w == size(cell_at(rows[n - 1], columns[i])));
        }
    }
}

/// A row of a table has the row's values in the order of the columns.
pub proof fn law_table_row_has_columns(columns: Seq<Seq<char>>, row: JsonV, i: int)
    requires
        0 <= i < columns.len(),
    ensures
        row_texts(columns, row).len() == columns.len(),
        row.get(columns[i]) is Some ==> row_texts(columns, row)[i] == crate::render::cut_cell(
            cell_text(row.get(columns[i])->Some_0),
        ),
{
}

// ---------------------------------------------------------------------------
// Kinds
// ---------------------------------------------------------------------------
proof fn lemma_kinds()
    ensures
        mark("graph-path"@) == 4510410310,
        mark("graph-resolve"@) == 11410110313,
        mark("graph-status"@) == 11511510312,
        mark("graph-versions-for"@) == 11511410318,
        mark("graph-why"@) == 10412110309,
        mark("graph-works-with"@) == 11410410316,
{
    reveal_strlit("graph-path");
    reveal_strlit("graph-resolve");
    reveal_strlit("graph-status");
    reveal_strlit("graph-versions-for");
    reveal_strlit("graph-why");
    reveal_strlit("graph-works-with");
}


} // verus!
