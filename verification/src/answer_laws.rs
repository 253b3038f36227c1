//! What the answers about the compatibility graph are for: what their members say of the
//! components and edges of the graph.
use vstd::prelude::*;
use crate::answers::{
    edge_json, edges_json, node_json, nodes_json, path_answer_json, path_json, paths_json,
    recommended, works_with_json,
};
use crate::graph::{node_index, EdgeV, GraphIndex, IndexV};
use crate::json::{lemma_get_with, lemma_with_is_object, JsonV};
use crate::paths::{
    found_paths, is_chain, law_found_paths_connect, law_no_path_means_no_chain,
    law_paths_found_exactly, path_keys, path_score,
};
use crate::text::{decimal, lower};
use crate::text_laws::mark;

verus! {

// ---------------------------------------------------------------------------
// Names of members
// ---------------------------------------------------------------------------
proof fn lemma_node_keys()
    ensures
        mark("component"@) == 11111609909,
        mark("identity"@) == 11612110508,
        mark("key"@) == 10112110703,
        mark("lastObservedAt"@) == 10111610814,
        mark("repo"@) == 11211111404,
        mark("requested"@) == 10110011409,
        mark("status"@) == 11611511506,
        mark("subjectName"@) == 9910111511,
        mark("version"@) == 11511011807,
{
    reveal_strlit("component");
    reveal_strlit("identity");
    reveal_strlit("key");
    reveal_strlit("lastObservedAt");
    reveal_strlit("repo");
    reveal_strlit("requested");
    reveal_strlit("status");
    reveal_strlit("subjectName");
    reveal_strlit("version");
}

proof fn lemma_edge_keys()
    ensures
        mark("capability"@) == 10512109910,
        mark("capabilityVersion"@) == 11611009917,
        mark("from"@) == 11110910204,
        mark("observedAt"@) == 11811611110,
        mark("relationship"@) == 11111211412,
        mark("sourceFactId"@) == 7010011512,
        mark("sourceVersion"@) == 8611011513,
        mark("status"@) == 11611511506,
        mark("targetFactId"@) == 7010011612,
        mark("targetVersion"@) == 8611011613,
        mark("to"@) == 11111111602,
{
    reveal_strlit("capability");
    reveal_strlit("capabilityVersion");
    reveal_strlit("from");
    reveal_strlit("observedAt");
    reveal_strlit("relationship");
    reveal_strlit("sourceFactId");
    reveal_strlit("sourceVersion");
    reveal_strlit("status");
    reveal_strlit("targetFactId");
    reveal_strlit("targetVersion");
    reveal_strlit("to");
}

proof fn lemma_path_keys()
    ensures
        mark("confidence"@) == 10010109910,
        mark("edges"@) == 10311510105,
        mark("length"@) == 10310410806,
        mark("nodes"@) == 10011511005,
        mark("reasons"@) == 11511511407,
        mark("score"@) == 11110111505,
{
    reveal_strlit("confidence");
    reveal_strlit("edges");
    reveal_strlit("length");
    reveal_strlit("nodes");
    reveal_strlit("reasons");
    reveal_strlit("score");
}

proof fn lemma_path_answer_keys()
    ensures
        mark("confidence"@) == 10010109910,
        mark("found"@) == 11710010205,
        mark("kind"@) == 11010010704,
        mark("missing"@) == 11510310907,
        mark("pathCount"@) == 6711611209,
        mark("paths"@) == 11611511205,
        mark("recommended"@) == 10910011411,
        mark("source"@) == 11410111506,
        mark("status"@) == 11611511506,
        mark("target"@) == 10311611606,
{
    reveal_strlit("confidence");
    reveal_strlit("found");
    reveal_strlit("kind");
    reveal_strlit("missing");
    reveal_strlit("pathCount");
    reveal_strlit("paths");
    reveal_strlit("recommended");
    reveal_strlit("source");
    reveal_strlit("status");
    reveal_strlit("target");
}

proof fn lemma_works_with_keys()
    ensures
        "compatible"@ != "confidence"@,
        "compatible"@ != "direction"@,
        "compatible"@ != "kind"@,
        "compatible"@ != "left"@,
        "compatible"@ != "missing"@,
        "compatible"@ != "pathCount"@,
        "compatible"@ != "paths"@,
        "compatible"@ != "reasons"@,
        "compatible"@ != "recommended"@,
        "compatible"@ != "right"@,
        "compatible"@ != "status"@,
        "confidence"@ != "direction"@,
        "confidence"@ != "kind"@,
        "confidence"@ != "left"@,
        "confidence"@ != "missing"@,
        "confidence"@ != "pathCount"@,
        "confidence"@ != "paths"@,
        "confidence"@ != "reasons"@,
        "confidence"@ != "recommended"@,
        "confidence"@ != "right"@,
        "confidence"@ != "status"@,
        "direction"@ != "kind"@,
        "direction"@ != "left"@,
        "direction"@ != "missing"@,
        "direction"@ != "pathCount"@,
        "direction"@ != "paths"@,
        "direction"@ != "reasons"@,
        "direction"@ != "recommended"@,
        "direction"@ != "right"@,
        "direction"@ != "status"@,
        "kind"@ != "left"@,
        "kind"@ != "missing"@,
        "kind"@ != "pathCount"@,
        "kind"@ != "paths"@,
        "kind"@ != "reasons"@,
        "kind"@ != "recommended"@,
        "kind"@ != "right"@,
        "kind"@ != "status"@,
        "left"@ != "missing"@,
        "left"@ != "pathCount"@,
        "left"@ != "paths"@,
        "left"@ != "reasons"@,
        "left"@ != "recommended"@,
        "left"@ != "right"@,
        "left"@ != "status"@,
        "missing"@ != "pathCount"@,
        "missing"@ != "paths"@,
        "missing"@ != "reasons"@,
        "missing"@ != "recommended"@,
        "missing"@ != "right"@,
        "missing"@ != "status"@,
        "pathCount"@ != "paths"@,
        "pathCount"@ != "reasons"@,
        "pathCount"@ != "recommended"@,
        "pathCount"@ != "right"@,
        "pathCount"@ != "status"@,
        "paths"@ != "reasons"@,
        "paths"@ != "recommended"@,
        "paths"@ != "right"@,
        "paths"@ != "status"@,
        "reasons"@ != "recommended"@,
        "reasons"@ != "right"@,
        "reasons"@ != "status"@,
        "recommended"@ != "right"@,
        "recommended"@ != "status"@,
        "right"@ != "status"@,
{
    reveal_strlit("compatible");
    reveal_strlit("confidence");
    reveal_strlit("direction");
    reveal_strlit("kind");
    reveal_strlit("left");
    reveal_strlit("missing");
    reveal_strlit("pathCount");
    reveal_strlit("paths");
    reveal_strlit("reasons");
    reveal_strlit("recommended");
    reveal_strlit("right");
    reveal_strlit("status");
    assert("compatible"@[2] != "confidence"@[2]);
    assert("compatible"@.len() != "direction"@.len());
    assert("compatible"@.len() != "kind"@.len());
    assert("compatible"@.len() != "left"@.len());
    assert("compatible"@.len() != "missing"@.len());
    assert("compatible"@.len() != "pathCount"@.len());
    assert("compatible"@.len() != "paths"@.len());
    assert("compatible"@.len() != "reasons"@.len());
    assert("compatible"@.len() != "recommended"@.len());
    assert("compatible"@.len() != "right"@.len());
    assert("compatible"@.len() != "status"@.len());
    assert("confidence"@.len() != "direction"@.len());
    assert("confidence"@.len() != "kind"@.len());
    assert("confidence"@.len() != "left"@.len());
    assert("confidence"@.len() != "missing"@.len());
    assert("confidence"@.len() != "pathCount"@.len());
    assert("confidence"@.len() != "paths"@.len());
    assert("confidence"@.len() != "reasons"@.len());
    assert("confidence"@.len() != "recommended"@.len());
    assert("confidence"@.len() != "right"@.len());
    assert("confidence"@.len() != "status"@.len());
    assert("direction"@.len() != "kind"@.len());
    assert("direction"@.len() != "left"@.len());
    assert("direction"@.len() != "missing"@.len());
    assert("direction"@[0] != "pathCount"@[0]);
    assert("direction"@.len() != "paths"@.len());
    assert("direction"@.len() != "reasons"@.len());
    assert("direction"@.len() != "recommended"@.len());
    assert("direction"@.len() != "right"@.len());
    assert("direction"@.len() != "status"@.len());
    assert("kind"@[0] != "left"@[0]);
    assert("kind"@.len() != "missing"@.len());
    assert("kind"@.len() != "pathCount"@.len());
    assert("kind"@.len() != "paths"@.len());
    assert("kind"@.len() != "reasons"@.len());
    assert("kind"@.len() != "recommended"@.len());
    assert("kind"@.len() != "right"@.len());
    assert("kind"@.len() != "status"@.len());
    assert("left"@.len() != "missing"@.len());
    assert("left"@.len() != "pathCount"@.len());
    assert("left"@.len() != "paths"@.len());
    assert("left"@.len() != "reasons"@.len());
    assert("left"@.len() != "recommended"@.len());
    assert("left"@.len() != "right"@.len());
    assert("left"@.len() != "status"@.len());
    assert("missing"@.len() != "pathCount"@.len());
    assert("missing"@.len() != "paths"@.len());
    assert("missing"@[0] != "reasons"@[0]);
    assert("missing"@.len() != "recommended"@.len());
    assert("missing"@.len() != "right"@.len());
    assert("missing"@.len() != "status"@.len());
    assert("pathCount"@.len() != "paths"@.len());
    assert("pathCount"@.len() != "reasons"@.len());
    assert("pathCount"@.len() != "recommended"@.len());
    assert("pathCount"@.len() != "right"@.len());
    assert("pathCount"@.len() != "status"@.len());
    assert("paths"@.len() != "reasons"@.len());
    assert("paths"@.len() != "recommended"@.len());
    assert("paths"@[0] != "right"@[0]);
    assert("paths"@.len() != "status"@.len());
    assert("reasons"@.len() != "recommended"@.len());
    assert("reasons"@.len() != "right"@.len());
    assert("reasons"@.len() != "status"@.len());
    assert("recommended"@.len() != "right"@.len());
    assert("recommended"@.len() != "status"@.len());
    assert("right"@.len() != "status"@.len());
}

// ---------------------------------------------------------------------------
// What is shown
// ---------------------------------------------------------------------------
/// Whether an edge with the status tells against a connection.
pub open spec fn tells_against(status: Option<Seq<char>>) -> bool {
    match status {
        Some(s) => {
            ||| lower(s) == "incompatible"@
            ||| lower(s) == "failed"@
            ||| lower(s) == "invalid"@
            ||| lower(s) == "blocked"@
        },
        None => false,
    }
}

/// Whether a value shows a component under its key.
pub open spec fn shows_component(v: JsonV, key: Seq<char>) -> bool {
    v.text_at("key"@) == Some(key)
}

/// Whether a value shows an edge: where it leads from and to, and all its evidence.
pub open spec fn shows_edge(v: JsonV, e: EdgeV) -> bool {
    &&& v.get("from"@) is Some && shows_component(v.get("from"@)->Some_0, e.source)
    &&& v.get("to"@) is Some && shows_component(v.get("to"@)->Some_0, e.target)
    &&& v.text_at("relationship"@) == Some(e.relationship)
    &&& v.text_at("capability"@) == e.capability
    &&& v.text_at("capabilityVersion"@) == e.capability_version
    &&& v.text_at("sourceVersion"@) == e.source_version
    &&& v.text_at("targetVersion"@) == e.target_version
    &&& v.text_at("sourceFactId"@) == e.source_fact_id
    &&& v.text_at("targetFactId"@) == e.target_fact_id
    &&& v.text_at("status"@) == e.status
    &&& v.text_at("observedAt"@) == e.observed_at
}

/// Whether values show edges, one for one.
pub open spec fn shows_edges(shown: Seq<JsonV>, edges: Seq<EdgeV>) -> bool {
    &&& shown.len() == edges.len()
    &&& forall|i: int| 0 <= i < edges.len() ==> shows_edge(#[trigger] shown[i], edges[i])
}

/// Whether a value shows a path: how long it is, its edges, and the components from its
/// first to its last.
pub open spec fn shows_path(v: JsonV, p: Seq<EdgeV>) -> bool {
    let nodes = v.items_at("nodes"@);
    &&& v.get("length"@) == Some(JsonV::Number(decimal(p.len())))
    &&& shows_edges(v.items_at("edges"@), p)
    &&& nodes.len() == (if p.len() == 0 {
        0
    } else {
        p.len() + 1
    })
    &&& p.len() > 0 ==> shows_component(nodes[0], p[0].source)
    &&& forall|i: int| 0 <= i < p.len() ==> shows_component(#[trigger] nodes[i + 1], p[i].target)
}

proof fn lemma_node_key(nodes: Seq<crate::graph::NodeV>, key: Seq<char>, i: int)
    ensures
        node_index(nodes, key, i) is Some ==> 0 <= node_index(nodes, key, i)->Some_0 < nodes.len()
            && nodes[node_index(nodes, key, i)->Some_0].key == key,
    decreases nodes.len() - i,
{
    if 0 <= i < nodes.len() && nodes[i].key != key {
        lemma_node_key(nodes, key, i + 1);
    }
}

proof fn lemma_node_shown(g: IndexV, key: Seq<char>, requested: Seq<char>)
    ensures
        shows_component(node_json(g, key, requested), key),
        node_json(g, key, requested).text_at("requested"@) == Some(requested),
{
    broadcast use {lemma_get_with, lemma_with_is_object};

    lemma_node_keys();
    lemma_node_key(g.nodes, key, 0);
}

/// A component is shown as the graph knows it; one that the graph does not know has no
/// version, and its status is unknown.
pub proof fn law_component_is_shown(g: IndexV, key: Seq<char>, requested: Seq<char>)
    ensures
        ({
            let v = node_json(g, key, requested);
            &&& v.text_at("requested"@) == Some(requested)
            &&& v.text_at("key"@) == Some(key)
            &&& (forall|i: int| 0 <= i < g.nodes.len() ==> (#[trigger] g.nodes[i]).key != key) ==> (
            v.text_at("component"@) == Some(key) && v.text_at("version"@) is None && v.text_at(
                "status"@,
            ) == Some("unknown"@))
            &&& (exists|i: int|
                0 <= i < g.nodes.len() && (#[trigger] g.nodes[i]).key == key) ==> exists|i: int| {
                &&& 0 <= i < g.nodes.len()
                &&& (#[trigger] g.nodes[i]).key == key
                &&& v.text_at("component"@) == Some(g.nodes[i].component)
                &&& v.text_at("version"@) == g.nodes[i].version
                &&& v.text_at("status"@) == g.nodes[i].status
                &&& v.text_at("repo"@) == g.nodes[i].repo
                &&& v.text_at("identity"@) == g.nodes[i].identity
                &&& v.text_at("subjectName"@) == g.nodes[i].subject_name
                &&& v.text_at("lastObservedAt"@) == g.nodes[i].last_observed_at
            }
        }),
{
    broadcast use {lemma_get_with, lemma_with_is_object};

    lemma_node_keys();
    lemma_node_key(g.nodes, key, 0);
    if exists|i: int| 0 <= i < g.nodes.len() && (#[trigger] g.nodes[i]).key == key {
        lemma_node_known(g.nodes, key, 0);
        let i = node_index(g.nodes, key, 0)->Some_0;
        assert(g.nodes[i].key == key);
    }
}

proof fn lemma_node_known(nodes: Seq<crate::graph::NodeV>, key: Seq<char>, i: int)
    requires
        0 <= i,
        exists|j: int| i <= j < nodes.len() && (#[trigger] nodes[j]).key == key,
    ensures
        node_index(nodes, key, i) is Some,
    decreases nodes.len() - i,
{
    if nodes[i].key != key {
        lemma_node_known(nodes, key, i + 1);
    }
}

/// An edge is shown with the components that it connects and with all its evidence.
pub proof fn law_edge_is_shown(g: IndexV, e: EdgeV)
    ensures
        shows_edge(edge_json(g, e), e),
{
    broadcast use {lemma_get_with, lemma_with_is_object};

    lemma_edge_keys();
    lemma_node_shown(g, e.source, e.source);
    lemma_node_shown(g, e.target, e.target);
}

proof fn lemma_edges_shown(g: IndexV, edges: Seq<EdgeV>)
    ensures
        shows_edges(edges_json(g, edges), edges),
{
    let shown = edges_json(g, edges);
    assert forall|i: int| 0 <= i < edges.len() implies shows_edge(#[trigger] shown[i], edges[i]) by {
        law_edge_is_shown(g, edges[i]);
    }
}

/// A path is shown edge by edge and component by component.
pub proof fn law_path_is_shown(g: IndexV, p: Seq<EdgeV>)
    ensures
        shows_path(path_json(g, p), p),
{
    broadcast use {lemma_get_with, lemma_with_is_object};

    lemma_path_keys();
    lemma_edges_shown(g, p);
    let v = path_json(g, p);
    let keys = path_keys(p);
    let nodes = nodes_json(g, keys);
    assert(v.items_at("nodes"@) == nodes);
    assert(v.items_at("edges"@) == edges_json(g, p));
    assert forall|i: int| 0 <= i < keys.len() implies shows_component(
        #[trigger] nodes[i],
        keys[i],
    ) by {
        lemma_node_shown(g, keys[i], keys[i]);
    }
    assert forall|i: int| 0 <= i < p.len() implies shows_component(
        #[trigger] nodes[i + 1],
        p[i].target,
    ) by {
        assert(keys[i + 1] == p[i].target);
    }
}

// ---------------------------------------------------------------------------
// Connections
// ---------------------------------------------------------------------------
/// Whether a component is connected to another: it is the same, or at most six edges of
/// the graph lead from it there, one after another.
pub open spec fn connected(g: IndexV, source: Seq<char>, target: Seq<char>) -> bool {
    source == target || exists|p: Seq<EdgeV>| is_chain(g, source, target, p) && p.len() <= 6
}

/// Whether a value shows a way from a component to another through the graph.
pub open spec fn shows_way(g: IndexV, v: JsonV, source: Seq<char>, target: Seq<char>) -> bool {
    exists|p: Seq<EdgeV>| #[trigger]
        shows_path(v, p) && (if source == target {
            p.len() == 0
        } else {
            is_chain(g, source, target, p) && p.len() <= 6
        })
}

/// Whether one of the edges of shown paths tells against a connection.
pub open spec fn shows_failure(paths: Seq<JsonV>) -> bool {
    exists|i: int, j: int|
        0 <= i < paths.len() && 0 <= j < paths[i].items_at("edges"@).len() && tells_against(
            (#[trigger] paths[i].items_at("edges"@)[j]).text_at("status"@),
        )
}

proof fn lemma_found(g: IndexV, source: Seq<char>, target: Seq<char>, limit: nat)
    ensures
        found_paths(g, source, target, limit).len() == 0 <==> !connected(g, source, target),
        found_paths(g, source, target, limit).len() <= (if limit == 0 {
            1
        } else {
            limit
        }),
        forall|i: int|
            0 <= i < found_paths(g, source, target, limit).len() ==> {
                let p = #[trigger] found_paths(g, source, target, limit)[i];
                if source == target {
                    p.len() == 0
                } else {
                    is_chain(g, source, target, p) && p.len() <= 6
                }
            },
{
    let all = found_paths(g, source, target, limit);
    law_paths_found_exactly(g, source, target, limit);
    if source != target {
        law_no_path_means_no_chain(g, source, target, limit);
        assert forall|i: int| 0 <= i < all.len() implies is_chain(
            g,
            source,
            target,
            #[trigger] all[i],
        ) && all[i].len() <= 6 by {
            law_found_paths_connect(g, source, target, limit, i);
        }
        if all.len() > 0 {
            law_found_paths_connect(g, source, target, limit, 0);
        }
    }
}

proof fn lemma_paths_shown(g: IndexV, paths: Seq<Seq<EdgeV>>)
    ensures
        paths_json(g, paths).len() == paths.len(),
        forall|i: int|
            0 <= i < paths.len() ==> shows_path(#[trigger] paths_json(g, paths)[i], paths[i]),
{
    let shown = paths_json(g, paths);
    assert forall|i: int| 0 <= i < paths.len() implies shows_path(
        #[trigger] shown[i],
        paths[i],
    ) by {
        law_path_is_shown(g, paths[i]);
    }
}

/// Whether an answer shows at most as many ways from a component to another as were asked
/// for, counts them, and recommends the first.
pub open spec fn shows_ways(
    g: IndexV,
    answer: JsonV,
    source: Seq<char>,
    target: Seq<char>,
    limit: nat,
) -> bool {
    let paths = answer.items_at("paths"@);
    &&& paths.len() <= limit || paths.len() <= 1
    &&& answer.get("pathCount"@) == Some(JsonV::Number(decimal(paths.len())))
    &&& forall|i: int| 0 <= i < paths.len() ==> shows_way(g, #[trigger] paths[i], source, target)
    &&& answer.get("recommended"@) == Some(
        if paths.len() == 0 {
            JsonV::Null
        } else {
            paths[0]
        },
    )
    &&& paths.len() > 0 ==> answer.text_at("confidence"@) == paths[0].text_at("confidence"@)
        && answer.text_at("confidence"@) is Some
    &&& paths.len() == 0 ==> answer.text_at("confidence"@) == Some("unknown"@)
    &&& (answer.items_at("missing"@).len() == 0 <==> paths.len() > 0)
}

proof fn lemma_confidence_shown(g: IndexV, p: Seq<EdgeV>)
    ensures
        path_json(g, p).text_at("confidence"@) == Some(crate::paths::path_confidence(p)),
{
    broadcast use {lemma_get_with, lemma_with_is_object};

    lemma_path_keys();
}

/// The answer about paths calls two components connected exactly where a chain of at most
/// six edges leads from the one that is meant by the first name to the one that is meant
/// by the second, or they are the same, and unknown otherwise. What it shows are such
/// chains.
pub proof fn law_path_answer_tells_connection(
    g: IndexV,
    source: Seq<char>,
    target: Seq<char>,
    limit: nat,
)
    ensures
        ({
            let answer = path_answer_json(g, source, target, limit);
            let s = GraphIndex::resolved(g, source).name;
            let t = GraphIndex::resolved(g, target).name;
            &&& connected(g, s, t) ==> answer.text_at("status"@) == Some("connected"@)
                && answer.bool_at("found"@) == Some(true) && answer.items_at("paths"@).len() > 0
            &&& !connected(g, s, t) ==> answer.text_at("status"@) == Some("unknown"@)
                && answer.bool_at("found"@) == Some(false) && answer.items_at("paths"@).len() == 0
            &&& answer.text_at("kind"@) == Some("graph-path"@)
            &&& answer.get("source"@) is Some && shows_component(answer.get("source"@)->Some_0, s)
            &&& answer.get("target"@) is Some && shows_component(answer.get("target"@)->Some_0, t)
            &&& shows_ways(g, answer, s, t, limit)
        }),
{
    broadcast use {lemma_get_with, lemma_with_is_object};

    lemma_path_answer_keys();
    let answer = path_answer_json(g, source, target, limit);
    let s = GraphIndex::resolved(g, source).name;
    let t = GraphIndex::resolved(g, target).name;
    let paths = found_paths(g, s, t, limit);
    lemma_found(g, s, t, limit);
    lemma_paths_shown(g, paths);
    lemma_node_shown(g, s, source);
    lemma_node_shown(g, t, target);
    assert(answer.items_at("paths"@) == paths_json(g, paths));
    assert forall|i: int| 0 <= i < paths.len() implies shows_way(
        g,
        #[trigger] paths_json(g, paths)[i],
        s,
        t,
    ) by {
        assert(shows_path(paths_json(g, paths)[i], paths[i]));
    }
    if paths.len() > 0 {
        lemma_confidence_shown(g, paths[0]);
    }
}

proof fn lemma_failure_shown(g: IndexV, paths: Seq<Seq<EdgeV>>)
    ensures
        shows_failure(paths_json(g, paths)) <==> !crate::answers::none_invalid(paths),
{
    let shown = paths_json(g, paths);
    lemma_paths_shown(g, paths);
    if shows_failure(shown) {
        let (i, j) = choose|i: int, j: int|
            0 <= i < shown.len() && 0 <= j < shown[i].items_at("edges"@).len() && tells_against(
                (#[trigger] shown[i].items_at("edges"@)[j]).text_at("status"@),
            );
        assert(shows_path(shown[i], paths[i]));
        assert(shows_edge(shown[i].items_at("edges"@)[j], paths[i][j]));
        assert(crate::graph::invalid_status(paths[i][j].status));
        assert(crate::paths::some_invalid(paths[i]));
    }
    if !crate::answers::none_invalid(paths) {
        let i = choose|i: int|
            0 <= i < paths.len() && crate::paths::some_invalid(#[trigger] paths[i]);
        let p = paths[i];
        let j = choose|j: int|
            0 <= j < p.len() && crate::graph::invalid_status((#[trigger] p[j]).status);
        assert(shows_path(shown[i], paths[i]));
        assert(shows_edge(shown[i].items_at("edges"@)[j], p[j]));
        assert(tells_against(shown[i].items_at("edges"@)[j].text_at("status"@)));
    }
}

/// Two components are called compatible exactly where a way connects them and no edge that
/// is shown tells against it, by its status; where one does they are called blocked, and
/// where no way connects them, in either direction, the answer is unknown. The ways that
/// are shown lead in the direction that is told.
pub proof fn law_works_with_answer_tells_compatibility(
    g: IndexV,
    left: Seq<char>,
    right: Seq<char>,
    limit: nat,
)
    ensures
        ({
            let answer = works_with_json(g, left, right, limit);
            let l = GraphIndex::resolved(g, left).name;
            let r = GraphIndex::resolved(g, right).name;
            let paths = answer.items_at("paths"@);
            let known = connected(g, l, r) || connected(g, r, l);
            &&& paths.len() > 0 <==> known
            &&& !known ==> answer.text_at("status"@) == Some("unknown"@) && answer.bool_at(
                "compatible"@,
            ) == Some(false) && answer.text_at("direction"@) == Some("none"@)
            &&& known && !shows_failure(paths) ==> answer.text_at("status"@) == Some(
                "compatible"@,
            ) && answer.bool_at("compatible"@) == Some(true)
            &&& known && shows_failure(paths) ==> answer.text_at("status"@) == Some("blocked"@)
                && answer.bool_at("compatible"@) == Some(false)
            &&& answer.text_at("kind"@) == Some("graph-works-with"@)
            &&& answer.get("left"@) is Some && shows_component(answer.get("left"@)->Some_0, l)
            &&& answer.get("right"@) is Some && shows_component(answer.get("right"@)->Some_0, r)
            &&& known ==> (answer.text_at("direction"@) == Some("left_to_right"@) && shows_ways(
                g,
                answer,
                l,
                r,
                limit,
            )) || (answer.text_at("direction"@) == Some("right_to_left"@) && shows_ways(
                g,
                answer,
                r,
                l,
                limit,
            ))
            &&& known ==> answer.get("reasons"@) == paths[0].get("reasons"@)
        }),
{
    broadcast use {lemma_get_with, lemma_with_is_object};

    lemma_works_with_keys();
    lemma_path_keys();
    let answer = works_with_json(g, left, right, limit);
    let l = GraphIndex::resolved(g, left).name;
    let r = GraphIndex::resolved(g, right).name;
    let best = GraphIndex::best_direction(g, l, r, limit);
    let paths = best.1;
    lemma_found(g, l, r, limit);
    lemma_found(g, r, l, limit);
    lemma_paths_shown(g, paths);
    lemma_failure_shown(g, paths);
    lemma_node_shown(g, l, left);
    lemma_node_shown(g, r, right);
    assert(answer.items_at("paths"@) == paths_json(g, paths));
    let (s, t) = if best.0 == "right_to_left"@ {
        (r, l)
    } else {
        (l, r)
    };
    reveal_strlit("left_to_right");
    reveal_strlit("right_to_left");
    reveal_strlit("none");
    assert("left_to_right"@[0] != "right_to_left"@[0]);
    assert("none"@.len() != "right_to_left"@.len());
    if paths.len() > 0 {
        assert(paths == found_paths(g, s, t, limit));
        assert forall|i: int| 0 <= i < paths.len() implies shows_way(
            g,
            #[trigger] paths_json(g, paths)[i],
            s,
            t,
        ) by {
            assert(shows_path(paths_json(g, paths)[i], paths[i]));
        }
        lemma_confidence_shown(g, paths[0]);
    }
}

/// The ways that are shown are those of the better direction, as asking for the way there
/// and for the way back would show them: its best one scores no less than the best one of
/// the other, and from left to right is preferred of two that score the same.
pub proof fn law_works_with_shows_better_direction(
    g: IndexV,
    left: Seq<char>,
    right: Seq<char>,
    limit: nat,
)
    ensures
        ({
            let answer = works_with_json(g, left, right, limit);
            let there = path_answer_json(g, left, right, limit);
            let back = path_answer_json(g, right, left, limit);
            let l = GraphIndex::resolved(g, left).name;
            let r = GraphIndex::resolved(g, right).name;
            let forward = found_paths(g, l, r, limit);
            let reverse = found_paths(g, r, l, limit);
            let direction = answer.text_at("direction"@);
            &&& direction == Some("left_to_right"@) ==> {
                &&& answer.get("paths"@) == there.get("paths"@)
                &&& answer.get("recommended"@) == there.get("recommended"@)
                &&& there.bool_at("found"@) == Some(true)
                &&& back.bool_at("found"@) == Some(true) ==> path_score(forward[0]) >= path_score(
                    reverse[0],
                )
            }
            &&& direction == Some("right_to_left"@) ==> {
                &&& answer.get("paths"@) == back.get("paths"@)
                &&& answer.get("recommended"@) == back.get("recommended"@)
                &&& back.bool_at("found"@) == Some(true)
                &&& there.bool_at("found"@) == Some(true) ==> path_score(reverse[0]) > path_score(
                    forward[0],
                )
            }
            &&& direction == Some("none"@) ==> there.bool_at("found"@) == Some(false)
                && back.bool_at("found"@) == Some(false)
            &&& direction == Some("left_to_right"@) || direction == Some("right_to_left"@)
                || direction == Some("none"@)
        }),
{
    broadcast use {lemma_get_with, lemma_with_is_object};

    lemma_works_with_keys();
    lemma_path_answer_keys();
    reveal_strlit("left_to_right");
    reveal_strlit("right_to_left");
    reveal_strlit("none");
    assert("left_to_right"@[0] != "right_to_left"@[0]);
    assert("none"@.len() != "right_to_left"@.len());
    assert("none"@.len() != "left_to_right"@.len());
}

/// Where an edge that is shown tells against it, two components are not called compatible.
pub proof fn law_shown_failure_blocks(g: IndexV, left: Seq<char>, right: Seq<char>, limit: nat)
    requires
        shows_failure(works_with_json(g, left, right, limit).items_at("paths"@)),
    ensures
        works_with_json(g, left, right, limit).bool_at("compatible"@) == Some(false),
        works_with_json(g, left, right, limit).text_at("status"@) == Some("blocked"@),
{
    broadcast use {lemma_get_with, lemma_with_is_object};

    lemma_works_with_keys();
    let l = GraphIndex::resolved(g, left).name;
    let r = GraphIndex::resolved(g, right).name;
    let paths = GraphIndex::best_direction(g, l, r, limit).1;
    lemma_failure_shown(g, paths);
    assert(works_with_json(g, left, right, limit).items_at("paths"@) == paths_json(g, paths));
    assert(paths.len() > 0);
}

} // verus!
