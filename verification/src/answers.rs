//! Answers about the compatibility graph: paths, whether components work together,
//! the edges of a component, versions that go together, and what a name means.
use vstd::prelude::*;
use crate::graph::{
    alias_key, alias_keys, edge_views, graph_alias_key, graph_key, invalid_status,
    is_invalid_status, key_of, node_at, parse_graph_ref, ref_of, EdgeV, GraphEdge, GraphIndex,
    IndexV,
};
use crate::json::{items_view, Json, JsonV};
use crate::order::{
    in_order, insert_by, lemma_insert_at, lemma_sorted_by, lemma_sorted_by_contains, orders, sorted_by,
};
use crate::paths::{
    all_short, found_paths, incoming, outgoing, path_confidence, path_keys, path_reasons,
    path_score, path_views, GraphPath, GraphPathScore, MAX_SCORED_EDGES,
};
use crate::text::{
    cat5, debug_of, debug_text, decimal_int, digits_of_i64, digits_of_u128, join, joined,
    lemma_text_less_total, lemma_text_less_transitive, less, opt_view, put_text, same, text_less,
    views,
};

verus! {

// ---------------------------------------------------------------------------
// Values
// ---------------------------------------------------------------------------
/// A component as an answer shows it; one that is not known by its key alone.
pub open spec fn node_json(g: IndexV, key: Seq<char>, requested: Seq<char>) -> JsonV {
    let o = JsonV::empty_object().with("requested"@, JsonV::Text(requested));
    match node_at(g, key) {
        Some(n) => o.with("key"@, JsonV::Text(n.key)).with(
            "component"@,
            JsonV::Text(n.component),
        ).with("version"@, JsonV::opt_text(n.version)).with(
            "identity"@,
            JsonV::opt_text(n.identity),
        ).with("subjectName"@, JsonV::opt_text(n.subject_name)).with(
            "repo"@,
            JsonV::opt_text(n.repo),
        ).with("status"@, JsonV::opt_text(n.status)).with(
            "lastObservedAt"@,
            JsonV::opt_text(n.last_observed_at),
        ),
        None => o.with("key"@, JsonV::Text(key)).with("component"@, JsonV::Text(key)).with(
            "version"@,
            JsonV::Null,
        ).with("status"@, JsonV::Text("unknown"@)),
    }
}

/// An edge as an answer shows it.
pub open spec fn edge_json(g: IndexV, e: EdgeV) -> JsonV {
    JsonV::empty_object().with("from"@, node_json(g, e.source, e.source)).with(
        "to"@,
        node_json(g, e.target, e.target),
    ).with("relationship"@, JsonV::Text(e.relationship)).with(
        "capability"@,
        JsonV::opt_text(e.capability),
    ).with("capabilityVersion"@, JsonV::opt_text(e.capability_version)).with(
        "sourceVersion"@,
        JsonV::opt_text(e.source_version),
    ).with("targetVersion"@, JsonV::opt_text(e.target_version)).with(
        "sourceFactId"@,
        JsonV::opt_text(e.source_fact_id),
    ).with("targetFactId"@, JsonV::opt_text(e.target_fact_id)).with(
        "status"@,
        JsonV::opt_text(e.status),
    ).with("observedAt"@, JsonV::opt_text(e.observed_at))
}

pub open spec fn edges_json(g: IndexV, edges: Seq<EdgeV>) -> Seq<JsonV> {
    edges.map_values(|e: EdgeV| edge_json(g, e))
}

pub open spec fn nodes_json(g: IndexV, keys: Seq<Seq<char>>) -> Seq<JsonV> {
    keys.map_values(|k: Seq<char>| node_json(g, k, k))
}

/// A path as an answer shows it, with its score, confidence and reasons.
pub open spec fn path_json(g: IndexV, p: Seq<EdgeV>) -> JsonV {
    JsonV::empty_object().with("length"@, JsonV::number(p.len())).with(
        "score"@,
        JsonV::Number(decimal_int(path_score(p))),
    ).with("confidence"@, JsonV::Text(path_confidence(p))).with(
        "reasons"@,
        JsonV::texts(path_reasons(p)),
    ).with("nodes"@, JsonV::Array(nodes_json(g, path_keys(p)))).with(
        "edges"@,
        JsonV::Array(edges_json(g, p)),
    )
}

pub open spec fn paths_json(g: IndexV, paths: Seq<Seq<EdgeV>>) -> Seq<JsonV> {
    paths.map_values(|p: Seq<EdgeV>| path_json(g, p))
}

impl GraphIndex {
    pub fn node_value(&self, key: &str, requested: &str) -> (r: Json)
        ensures
            r@ == node_json(self@, key@, requested@),
    {
        let o = Json::object().with("requested", Json::text(requested));
        match self.node(key) {
            Some(n) => o.with("key", Json::text(n.key.as_str())).with(
                "component",
                Json::text(n.component.as_str()),
            ).with("version", Json::opt_text(&n.version)).with(
                "identity",
                Json::opt_text(&n.identity),
            ).with("subjectName", Json::opt_text(&n.subject_name)).with(
                "repo",
                Json::opt_text(&n.repo),
            ).with("status", Json::opt_text(&n.status)).with(
                "lastObservedAt",
                Json::opt_text(&n.last_observed_at),
            ),
            None => o.with("key", Json::text(key)).with("component", Json::text(key)).with(
                "version",
                Json::Null,
            ).with("status", Json::text("unknown")),
        }
    }

    pub fn edge_value(&self, edge: &GraphEdge) -> (r: Json)
        ensures
            r@ == edge_json(self@, edge@),
    {
        Json::object().with(
            "from",
            self.node_value(edge.source.as_str(), edge.source.as_str()),
        ).with("to", self.node_value(edge.target.as_str(), edge.target.as_str())).with(
            "relationship",
            Json::text(edge.relationship.as_str()),
        ).with("capability", Json::opt_text(&edge.capability)).with(
            "capabilityVersion",
            Json::opt_text(&edge.capability_version),
        ).with("sourceVersion", Json::opt_text(&edge.source_version)).with(
            "targetVersion",
            Json::opt_text(&edge.target_version),
        ).with("sourceFactId", Json::opt_text(&edge.source_fact_id)).with(
            "targetFactId",
            Json::opt_text(&edge.target_fact_id),
        ).with("status", Json::opt_text(&edge.status)).with(
            "observedAt",
            Json::opt_text(&edge.observed_at),
        )
    }

    /// The first edges, as many as asked for, as an answer shows them.
    fn edge_values(&self, edges: &Vec<GraphEdge>, limit: usize) -> (r: Vec<Json>)
        ensures
            items_view(r@) == edges_json(
                self@,
                if edges@.len() <= limit {
                    edge_views(edges@)
                } else {
                    edge_views(edges@).take(limit as int)
                },
            ),
    {
        let ghost all = edges_json(self@, edge_views(edges@));
        let mut out: Vec<Json> = Vec::new();
        let mut i: usize = 0;
        while i < edges.len() && i < limit
            invariant
                all == edges_json(self@, edge_views(edges@)),
                i <= edges@.len(),
                i <= limit,
                items_view(out@) == all.take(i as int),
            decreases edges@.len() - i,
        {
            let ghost before = items_view(out@);
            let value = self.edge_value(&edges[i]);
            let ghost next = value@;
            out.push(value);
            assert(items_view(out@) =~= before.push(next));
            assert(all[i as int] == next);
            assert(all.take(i as int + 1) =~= before.push(next));
            i += 1;
        }
        if edges.len() <= limit {
            assert(all.take(i as int) =~= all);
        } else {
            assert(all.take(limit as int) =~= edges_json(
                self@,
                edge_views(edges@).take(limit as int),
            ));
        }
        out
    }

    pub fn path_value(&self, path: &GraphPath) -> (r: Json)
        requires
            path@.len() <= MAX_SCORED_EDGES,
        ensures
            r@ == path_json(self@, path@),
    {
        let score = self.score_path(path);
        let keys = path.node_keys();
        let ghost all = nodes_json(self@, path_keys(path@));
        let mut nodes: Vec<Json> = Vec::new();
        let mut i: usize = 0;
        while i < keys.len()
            invariant
                views(keys@) == path_keys(path@),
                all == nodes_json(self@, path_keys(path@)),
                i <= keys@.len(),
                items_view(nodes@) == all.take(i as int),
            decreases keys@.len() - i,
        {
            let ghost before = items_view(nodes@);
            let value = self.node_value(keys[i].as_str(), keys[i].as_str());
            let ghost next = value@;
            nodes.push(value);
            assert(items_view(nodes@) =~= before.push(next));
            assert(views(keys@)[i as int] == keys@[i as int]@);
            assert(all[i as int] == next);
            assert(all.take(i as int + 1) =~= before.push(next));
            i += 1;
        }
        assert(views(keys@).len() == keys@.len());
        assert(all.take(i as int) =~= all);
        let edges = self.edge_values(&path.edges, path.edges.len());
        Json::object().with("length", Json::count(path.edges.len())).with(
            "score",
            Json::Number(digits_of_i64(score.score)),
        ).with("confidence", Json::text(score.confidence)).with(
            "reasons",
            Json::texts(&score.reasons),
        ).with("nodes", Json::array(nodes)).with("edges", Json::array(edges))
    }

    fn path_values(&self, paths: &Vec<GraphPath>) -> (r: Vec<Json>)
        requires
            all_short(path_views(paths@)),
        ensures
            items_view(r@) == paths_json(self@, path_views(paths@)),
    {
        let ghost pv = path_views(paths@);
        let ghost all = paths_json(self@, pv);
        let mut out: Vec<Json> = Vec::new();
        let mut i: usize = 0;
        while i < paths.len()
            invariant
                pv == path_views(paths@),
                all_short(pv),
                all == paths_json(self@, pv),
                i <= paths@.len(),
                items_view(out@) == all.take(i as int),
            decreases paths@.len() - i,
        {
            assert(pv[i as int] == paths@[i as int]@);
            let ghost before = items_view(out@);
            let value = self.path_value(&paths[i]);
            let ghost next = value@;
            out.push(value);
            assert(items_view(out@) =~= before.push(next));
            assert(all[i as int] == next);
            assert(all.take(i as int + 1) =~= before.push(next));
            i += 1;
        }
        assert(all.take(i as int) =~= all);
        out
    }
}

// ---------------------------------------------------------------------------
// Paths
// ---------------------------------------------------------------------------
/// The first path, which is the recommended one, or null.
pub open spec fn recommended(g: IndexV, paths: Seq<Seq<EdgeV>>) -> JsonV {
    if paths.len() == 0 {
        JsonV::Null
    } else {
        path_json(g, paths[0])
    }
}

pub open spec fn best_confidence(paths: Seq<Seq<EdgeV>>) -> JsonV {
    if paths.len() == 0 {
        JsonV::Text("unknown"@)
    } else {
        JsonV::Text(path_confidence(paths[0]))
    }
}

pub open spec fn best_reasons(paths: Seq<Seq<EdgeV>>) -> JsonV {
    if paths.len() == 0 {
        JsonV::Array(Seq::empty())
    } else {
        JsonV::texts(path_reasons(paths[0]))
    }
}

pub open spec fn missing_note(none: bool, note: Seq<char>) -> JsonV {
    if none {
        JsonV::texts(seq![note])
    } else {
        JsonV::Array(Seq::empty())
    }
}

fn missing_value(none: bool, note: &str) -> (r: Json)
    ensures
        r@ == missing_note(none, note@),
{
    if none {
        let mut notes: Vec<String> = Vec::new();
        notes.push(note.to_owned());
        assert(views(notes@) =~= seq![note@]);
        Json::texts(&notes)
    } else {
        let empty: Vec<Json> = Vec::new();
        assert(items_view(empty@) =~= Seq::empty());
        Json::array(empty)
    }
}

/// The answer about the paths from a component to another. That none is known is no
/// incompatibility: the status is then unknown.
pub open spec fn path_answer_json(g: IndexV, source: Seq<char>, target: Seq<char>, limit: nat) -> JsonV {
    let s = GraphIndex::resolved(g, source).name;
    let t = GraphIndex::resolved(g, target).name;
    let paths = found_paths(g, s, t, limit);
    let none = paths.len() == 0;
    JsonV::empty_object().with("kind"@, JsonV::Text("graph-path"@)).with(
        "source"@,
        node_json(g, s, source),
    ).with("target"@, node_json(g, t, target)).with(
        "status"@,
        JsonV::Text(
            if none {
                "unknown"@
            } else {
                "connected"@
            },
        ),
    ).with("found"@, JsonV::Bool(!none)).with("confidence"@, best_confidence(paths)).with(
        "recommended"@,
        recommended(g, paths),
    ).with("pathCount"@, JsonV::number(paths.len())).with(
        "paths"@,
        JsonV::Array(paths_json(g, paths)),
    ).with("missing"@, missing_note(none, "no known fact path connects these components"@))
}

/// Whether no edge of any path is known to fail.
pub open spec fn none_invalid(paths: Seq<Seq<EdgeV>>) -> bool {
    forall|i: int| 0 <= i < paths.len() ==> !crate::paths::some_invalid(#[trigger] paths[i])
}

pub open spec fn works_status(paths: Seq<Seq<EdgeV>>) -> Seq<char> {
    if paths.len() == 0 {
        "unknown"@
    } else if none_invalid(paths) {
        "compatible"@
    } else {
        "blocked"@
    }
}

/// The answer about two components: compatible where paths connect them and no edge
/// of these is known to fail, blocked where one is, and otherwise unknown.
pub open spec fn works_with_json(g: IndexV, left: Seq<char>, right: Seq<char>, limit: nat) -> JsonV {
    let l = GraphIndex::resolved(g, left).name;
    let r = GraphIndex::resolved(g, right).name;
    let best = GraphIndex::best_direction(g, l, r, limit);
    let paths = best.1;
    let none = paths.len() == 0;
    JsonV::empty_object().with("kind"@, JsonV::Text("graph-works-with"@)).with(
        "left"@,
        node_json(g, l, left),
    ).with("right"@, node_json(g, r, right)).with("status"@, JsonV::Text(works_status(paths))).with(
        "compatible"@,
        JsonV::Bool(!none && none_invalid(paths)),
    ).with("confidence"@, best_confidence(paths)).with("reasons"@, best_reasons(paths)).with(
        "recommended"@,
        recommended(g, paths),
    ).with("direction"@, JsonV::Text(best.0)).with("pathCount"@, JsonV::number(paths.len())).with(
        "paths"@,
        JsonV::Array(paths_json(g, paths)),
    ).with("missing"@, missing_note(none, "no known compatibility path connects these components"@))
}

fn any_invalid_in(paths: &Vec<GraphPath>) -> (r: bool)
    ensures
        r == !none_invalid(path_views(paths@)),
{
    let ghost pv = path_views(paths@);
    let mut i: usize = 0;
    while i < paths.len()
        invariant
            pv == path_views(paths@),
            i <= paths@.len(),
            forall|k: int| 0 <= k < i ==> !crate::paths::some_invalid(#[trigger] pv[k]),
        decreases paths@.len() - i,
    {
        assert(pv[i as int] == paths@[i as int]@);
        let path = &paths[i];
        let ghost p = path@;
        let mut j: usize = 0;
        while j < path.edges.len()
            invariant
                pv == path_views(paths@),
                p == path@,
                i < pv.len(),
                pv[i as int] == p,
                j <= path.edges@.len(),
                forall|k: int| 0 <= k < j ==> !invalid_status((#[trigger] p[k]).status),
            decreases path.edges@.len() - j,
        {
            assert(p[j as int] == path.edges@[j as int]@);
            if is_invalid_status(&path.edges[j].status) {
                assert(invalid_status(p[j as int].status));
                assert(crate::paths::some_invalid(pv[i as int]));
                return true;
            }
            j += 1;
        }
        i += 1;
    }
    false
}

impl GraphIndex {
    fn first_path(&self, paths: &Vec<GraphPath>) -> (r: (Json, Json, Json))
        requires
            all_short(path_views(paths@)),
        ensures
            r.0@ == recommended(self@, path_views(paths@)),
            r.1@ == best_confidence(path_views(paths@)),
            r.2@ == best_reasons(path_views(paths@)),
    {
        assert(path_views(paths@).len() == paths@.len());
        if paths.len() == 0 {
            let empty: Vec<Json> = Vec::new();
            assert(items_view(empty@) =~= Seq::empty());
            (Json::Null, Json::text("unknown"), Json::array(empty))
        } else {
            assert(path_views(paths@)[0] == paths@[0]@);
            let score = self.score_path(&paths[0]);
            (
                self.path_value(&paths[0]),
                Json::text(score.confidence),
                Json::texts(&score.reasons),
            )
        }
    }

    pub fn path_answer(&self, source: &str, target: &str, limit: usize) -> (r: Json)
        ensures
            r@ == path_answer_json(self@, source@, target@, limit as nat),
    {
        let s = self.resolve(source);
        let t = self.resolve(target);
        let paths = self.find_paths(s.name.as_str(), t.name.as_str(), limit);
        assert(path_views(paths@).len() == paths@.len());
        let none = paths.len() == 0;
        let (first, confidence, _) = self.first_path(&paths);
        let values = self.path_values(&paths);
        Json::object().with("kind", Json::text("graph-path")).with(
            "source",
            self.node_value(s.name.as_str(), source),
        ).with("target", self.node_value(t.name.as_str(), target)).with(
            "status",
            Json::text(
                if none {
                    "unknown"
                } else {
                    "connected"
                },
            ),
        ).with("found", Json::Bool(!none)).with("confidence", confidence).with(
            "recommended",
            first,
        ).with("pathCount", Json::count(paths.len())).with("paths", Json::array(values)).with(
            "missing",
            missing_value(none, "no known fact path connects these components"),
        )
    }

    pub fn works_with_answer(&self, left: &str, right: &str, limit: usize) -> (r: Json)
        ensures
            r@ == works_with_json(self@, left@, right@, limit as nat),
    {
        let l = self.resolve(left);
        let rr = self.resolve(right);
        let (direction, paths) = self.best_directional_path(
            l.name.as_str(),
            rr.name.as_str(),
            limit,
        );
        assert(path_views(paths@).len() == paths@.len());
        let none = paths.len() == 0;
        let compatible = !any_invalid_in(&paths);
        let (first, confidence, reasons) = self.first_path(&paths);
        let values = self.path_values(&paths);
        Json::object().with("kind", Json::text("graph-works-with")).with(
            "left",
            self.node_value(l.name.as_str(), left),
        ).with("right", self.node_value(rr.name.as_str(), right)).with(
            "status",
            Json::text(
                if none {
                    "unknown"
                } else if compatible {
                    "compatible"
                } else {
                    "blocked"
                },
            ),
        ).with("compatible", Json::Bool(!none && compatible)).with("confidence", confidence).with(
            "reasons",
            reasons,
        ).with("recommended", first).with("direction", Json::text(direction)).with(
            "pathCount",
            Json::count(paths.len()),
        ).with("paths", Json::array(values)).with(
            "missing",
            missing_value(none, "no known compatibility path connects these components"),
        )
    }
}

/// Components are called compatible only where a path connects them and no edge of
/// the paths that are shown is known to fail; where nothing connects them the answer
/// is unknown, never blocked.
pub proof fn law_no_path_is_unknown(paths: Seq<Seq<EdgeV>>)
    ensures
        paths.len() == 0 ==> works_status(paths) == "unknown"@,
        works_status(paths) == "compatible"@ ==> paths.len() > 0 && none_invalid(paths),
        works_status(paths) == "blocked"@ ==> paths.len() > 0 && !none_invalid(paths),
{
    reveal_strlit("unknown");
    reveal_strlit("compatible");
    reveal_strlit("blocked");
    assert("unknown"@.len() == "blocked"@.len());
    assert("unknown"@[0] != "blocked"@[0]);
}

// ---------------------------------------------------------------------------
// Status
// ---------------------------------------------------------------------------
pub open spec fn first_edges(edges: Seq<EdgeV>, limit: nat) -> Seq<EdgeV> {
    if edges.len() <= limit {
        edges
    } else {
        edges.take(limit as int)
    }
}

/// The answer about a component: how many edges it has, and the first of them.
pub open spec fn status_json(g: IndexV, component: Seq<char>, limit: nat) -> JsonV {
    let key = GraphIndex::resolved(g, component).name;
    JsonV::empty_object().with("kind"@, JsonV::Text("graph-status"@)).with(
        "component"@,
        node_json(g, key, component),
    ).with("outgoing"@, JsonV::Array(edges_json(g, first_edges(outgoing(g, key), limit)))).with(
        "incoming"@,
        JsonV::Array(edges_json(g, first_edges(incoming(g, key), limit))),
    ).with("outgoingCount"@, JsonV::number(outgoing(g, key).len())).with(
        "incomingCount"@,
        JsonV::number(incoming(g, key).len()),
    )
}

impl GraphIndex {
    pub fn status_answer(&self, component: &str, limit: usize) -> (r: Json)
        ensures
            r@ == status_json(self@, component@, limit as nat),
    {
        let c = self.resolve(component);
        let out = self.outgoing_edges(c.name.as_str());
        let inc = self.incoming_edges(c.name.as_str());
        assert(edge_views(out@).len() == out@.len());
        assert(edge_views(inc@).len() == inc@.len());
        Json::object().with("kind", Json::text("graph-status")).with(
            "component",
            self.node_value(c.name.as_str(), component),
        ).with("outgoing", Json::array(self.edge_values(&out, limit))).with(
            "incoming",
            Json::array(self.edge_values(&inc, limit)),
        ).with("outgoingCount", Json::count(out.len())).with(
            "incomingCount",
            Json::count(inc.len()),
        )
    }
}

// ---------------------------------------------------------------------------
// Versions
// ---------------------------------------------------------------------------
/// A version that paths speak for.
#[derive(Debug)]
pub struct VersionCandidate {
    pub version: String,
    pub score: i64,
    pub confidence: String,
    pub path_count: u128,
}

pub struct CandV {
    pub version: Seq<char>,
    pub score: int,
    pub confidence: Seq<char>,
    pub path_count: nat,
}

impl View for VersionCandidate {
    type V = CandV;

    open spec fn view(&self) -> CandV {
        CandV {
            version: self.version@,
            score: self.score as int,
            confidence: self.confidence@,
            path_count: self.path_count as nat,
        }
    }
}

pub open spec fn cand_views(v: Seq<VersionCandidate>) -> Seq<CandV> {
    v.map_values(|c: VersionCandidate| c@)
}

pub open spec fn confidence_rank(s: Seq<char>) -> int {
    if s == "high"@ {
        4
    } else if s == "medium"@ {
        3
    } else if s == "low"@ {
        2
    } else if s == "blocked"@ {
        1
    } else {
        0
    }
}

pub open spec fn known_confidence(s: Seq<char>) -> Seq<char> {
    if confidence_rank(s) > 0 {
        s
    } else {
        "unknown"@
    }
}

/// The stronger of two confidences.
pub open spec fn stronger(a: Seq<char>, b: Seq<char>) -> Seq<char> {
    known_confidence(
        if confidence_rank(a) >= confidence_rank(b) {
            a
        } else {
            b
        },
    )
}

fn rank_of(s: &str) -> (r: u8)
    ensures
        r == confidence_rank(s@),
{
    if same(s, "high") {
        4
    } else if same(s, "medium") {
        3
    } else if same(s, "low") {
        2
    } else if same(s, "blocked") {
        1
    } else {
        0
    }
}

pub fn strongest_confidence(left: &str, right: &str) -> (r: &'static str)
    ensures
        r@ == stronger(left@, right@),
{
    let stronger = if rank_of(left) >= rank_of(right) {
        left
    } else {
        right
    };
    if same(stronger, "high") {
        "high"
    } else if same(stronger, "medium") {
        "medium"
    } else if same(stronger, "low") {
        "low"
    } else if same(stronger, "blocked") {
        "blocked"
    } else {
        "unknown"
    }
}

/// The candidates, in the order of their versions, with one more path for a version.
pub open spec fn recorded(c: Seq<CandV>, version: Seq<char>, score: int, confidence: Seq<char>) -> Seq<
    CandV,
>
    decreases c.len(),
{
    let new = CandV { version, score, confidence, path_count: 1 };
    if c.len() == 0 {
        seq![new]
    } else if c[0].version == version {
        seq![
            CandV {
                version,
                score: if c[0].score >= score {
                    c[0].score
                } else {
                    score
                },
                confidence: stronger(c[0].confidence, confidence),
                path_count: c[0].path_count + 1,
            },
        ] + c.skip(1)
    } else if text_less(version, c[0].version) {
        seq![new] + c
    } else {
        seq![c[0]] + recorded(c.skip(1), version, score, confidence)
    }
}

/// Whether no version stands for more paths than `n`.
pub open spec fn counts_within(c: Seq<CandV>, n: int) -> bool {
    forall|i: int| 0 <= i < c.len() ==> (#[trigger] c[i]).path_count <= n
}

proof fn lemma_recorded_counts(c: Seq<CandV>, version: Seq<char>, score: int, confidence: Seq<char>, n: int)
    requires
        counts_within(c, n),
        n >= 0,
    ensures
        counts_within(recorded(c, version, score, confidence), n + 1),
    decreases c.len(),
{
    let r = recorded(c, version, score, confidence);
    if c.len() == 0 {
    } else if c[0].version == version {
        assert forall|i: int| 0 <= i < r.len() implies (#[trigger] r[i]).path_count <= n + 1 by {
            if i > 0 {
                assert(r[i] == c[i]);
            } else {
                assert(c[0].path_count <= n);
            }
        }
    } else if text_less(version, c[0].version) {
        assert forall|i: int| 0 <= i < r.len() implies (#[trigger] r[i]).path_count <= n + 1 by {
            if i > 0 {
                assert(r[i] == c[i - 1]);
            }
        }
    } else {
        let rest = c.skip(1);
        assert forall|i: int| 0 <= i < rest.len() implies (#[trigger] rest[i]).path_count <= n by {
            assert(rest[i] == c[i + 1]);
        }
        lemma_recorded_counts(rest, version, score, confidence, n);
        let tail = recorded(rest, version, score, confidence);
        assert forall|i: int| 0 <= i < r.len() implies (#[trigger] r[i]).path_count <= n + 1 by {
            if i == 0 {
                assert(c[0].path_count <= n);
            } else {
                assert(r[i] == tail[i - 1]);
            }
        }
    }
}

pub fn record_version_candidate(
    versions: &mut Vec<VersionCandidate>,
    version: String,
    score: &GraphPathScore,
)
    requires
        counts_within(cand_views(old(versions)@), u128::MAX - 1),
    ensures
        cand_views(final(versions)@) == recorded(
            cand_views(old(versions)@),
            version@,
            score.score as int,
            score.confidence@,
        ),
{
    let ghost all = cand_views(versions@);
    let ghost s = score.score as int;
    let ghost f = score.confidence@;
    let ghost v = version@;
    let mut i: usize = 0;
    assert(all.skip(0) =~= all);
    assert(all.take(0) + recorded(all.skip(0), v, s, f) =~= recorded(all, v, s, f));
    while i < versions.len() && !same(versions[i].version.as_str(), version.as_str()) && !less(
        version.as_str(),
        versions[i].version.as_str(),
    )
        invariant
            i <= versions@.len(),
            all == cand_views(versions@),
            v == version@,
            recorded(all, v, s, f) == all.take(i as int) + recorded(all.skip(i as int), v, s, f),
        decreases versions@.len() - i,
    {
        assert(all.skip(i as int)[0] == all[i as int]);
        assert(all[i as int] == versions@[i as int]@);
        assert(all.skip(i as int).skip(1) =~= all.skip(i as int + 1));
        assert(all.take(i as int) + (seq![all[i as int]] + recorded(
            all.skip(i as int + 1),
            v,
            s,
            f,
        )) =~= all.take(i as int + 1) + recorded(all.skip(i as int + 1), v, s, f));
        i += 1;
    }
    assert(i < versions@.len() ==> all.skip(i as int)[0] == all[i as int] && all[i as int]
        == versions@[i as int]@);
    if i < versions.len() && same(versions[i].version.as_str(), version.as_str()) {
        let best: i64 = if versions[i].score >= score.score {
            versions[i].score
        } else {
            score.score
        };
        let confidence = strongest_confidence(versions[i].confidence.as_str(), score.confidence);
        assert(all[i as int].path_count <= u128::MAX - 1);
        let count = versions[i].path_count + 1;
        let merged = VersionCandidate {
            version,
            score: best,
            confidence: confidence.to_owned(),
            path_count: count,
        };
        let ghost m = merged@;
        versions.set(i, merged);
        assert(all.skip(i as int).skip(1) =~= all.skip(i as int + 1));
        assert(cand_views(versions@) =~= all.take(i as int) + (seq![m] + all.skip(i as int + 1)));
    } else {
        let new = VersionCandidate {
            version,
            score: score.score,
            confidence: score.confidence.to_owned(),
            path_count: 1,
        };
        let ghost m = new@;
        versions.insert(i, new);
        assert(cand_views(versions@) =~= all.take(i as int) + (seq![m] + all.skip(i as int)));
        assert(seq![m] + all.skip(i as int) =~= recorded(all.skip(i as int), v, s, f)) by {
            if i == all.len() {
                assert(seq![m] + all.skip(i as int) =~= seq![m]);
            }
        }
    }
}

pub open spec fn recorded_opt(c: Seq<CandV>, version: Option<Seq<char>>, p: Seq<EdgeV>) -> Seq<CandV> {
    match version {
        Some(v) => recorded(c, v, path_score(p), path_confidence(p)),
        None => c,
    }
}

/// The candidates with what the first `n` edges of a path say of a component.
pub open spec fn from_edges(c: Seq<CandV>, p: Seq<EdgeV>, key: Seq<char>, n: int) -> Seq<CandV>
    decreases n,
{
    if n <= 0 {
        c
    } else {
        let before = from_edges(c, p, key, n - 1);
        let e = p[n - 1];
        let one = if e.source == key {
            recorded_opt(before, e.source_version, p)
        } else {
            before
        };
        if e.target == key {
            recorded_opt(one, e.target_version, p)
        } else {
            one
        }
    }
}

/// The candidates with what the first `n` paths say of a component.
pub open spec fn from_paths(c: Seq<CandV>, paths: Seq<Seq<EdgeV>>, key: Seq<char>, n: int) -> Seq<
    CandV,
>
    decreases n,
{
    if n <= 0 {
        c
    } else {
        from_edges(
            from_paths(c, paths, key, n - 1),
            paths[n - 1],
            key,
            paths[n - 1].len() as int,
        )
    }
}

/// Whether a version comes before another: by its score, then the greater first.
pub open spec fn version_before(a: CandV, b: CandV) -> bool {
    a.score > b.score || (a.score == b.score && text_less(b.version, a.version))
}

pub open spec fn version_rule() -> spec_fn(CandV, CandV) -> bool {
    |a: CandV, b: CandV| version_before(a, b)
}

/// The versions of a component that go with another, best first: those that paths
/// between them speak of, else the component's own with little confidence.
pub open spec fn candidates_for(g: IndexV, key: Seq<char>, other: Seq<char>, limit: nat) -> Seq<CandV> {
    let spoken = from_paths(
        from_paths(
            Seq::empty(),
            found_paths(g, other, key, limit),
            key,
            found_paths(g, other, key, limit).len() as int,
        ),
        found_paths(g, key, other, limit),
        key,
        found_paths(g, key, other, limit).len() as int,
    );
    let all = if spoken.len() == 0 {
        match node_at(g, key) {
            Some(n) => match n.version {
                Some(v) => seq![
                    CandV { version: v, score: 25, confidence: "low"@, path_count: 1 },
                ],
                None => spoken,
            },
            None => spoken,
        }
    } else {
        spoken
    };
    sorted_by(all, version_rule())
}

pub open spec fn cand_json(c: CandV) -> JsonV {
    JsonV::empty_object().with("version"@, JsonV::Text(c.version)).with(
        "score"@,
        JsonV::Number(decimal_int(c.score)),
    ).with("confidence"@, JsonV::Text(c.confidence)).with(
        "pathCount"@,
        JsonV::number(c.path_count),
    )
}

pub open spec fn first_cands(c: Seq<CandV>, limit: nat) -> Seq<CandV> {
    if c.len() <= limit {
        c
    } else {
        c.take(limit as int)
    }
}

/// The answer about the versions of a component that go with another.
pub open spec fn versions_json(g: IndexV, component: Seq<char>, other: Seq<char>, limit: nat) -> JsonV {
    let key = GraphIndex::resolved(g, component).name;
    let o = GraphIndex::resolved(g, other).name;
    let best = first_cands(candidates_for(g, key, o, limit), limit);
    JsonV::empty_object().with("kind"@, JsonV::Text("graph-versions-for"@)).with(
        "component"@,
        node_json(g, key, component),
    ).with("for"@, node_json(g, o, other)).with(
        "versions"@,
        JsonV::Array(best.map_values(|c: CandV| JsonV::Text(c.version))),
    ).with("versionCandidates"@, JsonV::Array(best.map_values(|c: CandV| cand_json(c))))
}

pub proof fn lemma_version_rule()
    ensures
        orders(version_rule()),
{
    let f = version_rule();
    assert forall|a: CandV, b: CandV| #[trigger] f(a, b) implies !f(b, a) by {
        lemma_text_less_total(a.version, b.version);
    }
    assert forall|a: CandV, b: CandV, c: CandV|
        !(#[trigger] f(b, a)) && !(#[trigger] f(c, b)) implies !f(c, a) by {
        lemma_text_less_total(a.version, b.version);
        lemma_text_less_total(b.version, c.version);
        lemma_text_less_total(a.version, c.version);
        if text_less(b.version, a.version) && text_less(c.version, b.version) {
            lemma_text_less_transitive(c.version, b.version, a.version);
        }
    }
}

/// The versions that are answered stand best first.
pub proof fn law_versions_best_first(g: IndexV, key: Seq<char>, other: Seq<char>, limit: nat)
    ensures
        in_order(candidates_for(g, key, other, limit), version_rule()),
{
    lemma_version_rule();
    let spoken = from_paths(
        from_paths(
            Seq::empty(),
            found_paths(g, other, key, limit),
            key,
            found_paths(g, other, key, limit).len() as int,
        ),
        found_paths(g, key, other, limit),
        key,
        found_paths(g, key, other, limit).len() as int,
    );
    lemma_sorted_by(spoken, version_rule());
    match node_at(g, key) {
        Some(n) => match n.version {
            Some(v) => {
                lemma_sorted_by(
                    seq![CandV { version: v, score: 25, confidence: "low"@, path_count: 1 }],
                    version_rule(),
                );
            },
            None => {},
        },
        None => {},
    }
}

/// Whether no version stands twice.
pub open spec fn versions_once(c: Seq<CandV>) -> bool {
    forall|i: int, j: int|
        0 <= i < j < c.len() ==> (#[trigger] c[i]).version != (#[trigger] c[j]).version
}

/// Whether the candidates stand in the order of their versions.
pub open spec fn by_version(c: Seq<CandV>) -> bool {
    forall|i: int, j: int|
        0 <= i < j < c.len() ==> text_less((#[trigger] c[i]).version, (#[trigger] c[j]).version)
}

pub proof fn lemma_recorded_by_version(
    c: Seq<CandV>,
    version: Seq<char>,
    score: int,
    confidence: Seq<char>,
)
    requires
        by_version(c),
    ensures
        by_version(recorded(c, version, score, confidence)),
        forall|i: int|
            0 <= i < recorded(c, version, score, confidence).len() ==> (#[trigger] recorded(
                c,
                version,
                score,
                confidence,
            )[i]).version == version || exists|j: int|
                0 <= j < c.len() && (#[trigger] c[j]).version == recorded(
                    c,
                    version,
                    score,
                    confidence,
                )[i].version,
    decreases c.len(),
{
    let r = recorded(c, version, score, confidence);
    if c.len() == 0 {
    } else if c[0].version == version {
        assert forall|i: int| 0 <= i < r.len() implies (#[trigger] r[i]).version == c[i].version by {
            if i > 0 {
                assert(r[i] == c[i]);
            }
        }
    } else if text_less(version, c[0].version) {
        assert forall|i: int| 1 <= i < r.len() implies #[trigger] r[i] == c[i - 1] by {}
        assert forall|i: int, j: int| 0 <= i < j < r.len() implies text_less(
            (#[trigger] r[i]).version,
            (#[trigger] r[j]).version,
        ) by {
            assert(r[j] == c[j - 1]);
            if i == 0 {
                if j > 1 {
                    lemma_text_less_transitive(version, c[0].version, c[j - 1].version);
                }
            } else {
                assert(r[i] == c[i - 1]);
            }
        }
    } else {
        let rest = c.skip(1);
        assert forall|i: int, j: int| 0 <= i < j < rest.len() implies text_less(
            (#[trigger] rest[i]).version,
            (#[trigger] rest[j]).version,
        ) by {
            assert(rest[i] == c[i + 1] && rest[j] == c[j + 1]);
        }
        lemma_recorded_by_version(rest, version, score, confidence);
        let tail = recorded(rest, version, score, confidence);
        lemma_text_less_total(version, c[0].version);
        assert forall|i: int| 0 <= i < tail.len() implies text_less(
            c[0].version,
            (#[trigger] tail[i]).version,
        ) && (tail[i].version == version || exists|j: int|
            0 <= j < c.len() && (#[trigger] c[j]).version == tail[i].version) by {
            if tail[i].version != version {
                let q = choose|q: int|
                    0 <= q < rest.len() && (#[trigger] rest[q]).version == tail[i].version;
                assert(rest[q] == c[q + 1]);
            }
        }
        assert forall|i: int, j: int| 0 <= i < j < r.len() implies text_less(
            (#[trigger] r[i]).version,
            (#[trigger] r[j]).version,
        ) by {
            assert(r[j] == tail[j - 1]);
            if i > 0 {
                assert(r[i] == tail[i - 1]);
            }
        }
        assert forall|i: int| 0 <= i < r.len() implies (#[trigger] r[i]).version == version
            || exists|j: int| 0 <= j < c.len() && (#[trigger] c[j]).version == r[i].version by {
            if i > 0 {
                assert(r[i] == tail[i - 1]);
            } else {
                assert(c[0].version == r[0].version);
            }
        }
    }
}

proof fn lemma_opt_by_version(c: Seq<CandV>, version: Option<Seq<char>>, p: Seq<EdgeV>)
    requires
        by_version(c),
    ensures
        by_version(recorded_opt(c, version, p)),
{
    if version is Some {
        lemma_recorded_by_version(c, version->Some_0, path_score(p), path_confidence(p));
    }
}

proof fn lemma_edges_by_version(c: Seq<CandV>, p: Seq<EdgeV>, key: Seq<char>, n: int)
    requires
        by_version(c),
    ensures
        by_version(from_edges(c, p, key, n)),
    decreases n,
{
    if n > 0 {
        lemma_edges_by_version(c, p, key, n - 1);
        let before = from_edges(c, p, key, n - 1);
        let e = p[n - 1];
        lemma_opt_by_version(before, e.source_version, p);
        let one = if e.source == key {
            recorded_opt(before, e.source_version, p)
        } else {
            before
        };
        lemma_opt_by_version(one, e.target_version, p);
    }
}

proof fn lemma_paths_by_version(c: Seq<CandV>, paths: Seq<Seq<EdgeV>>, key: Seq<char>, n: int)
    requires
        by_version(c),
    ensures
        by_version(from_paths(c, paths, key, n)),
    decreases n,
{
    if n > 0 {
        lemma_paths_by_version(c, paths, key, n - 1);
        lemma_edges_by_version(
            from_paths(c, paths, key, n - 1),
            paths[n - 1],
            key,
            paths[n - 1].len() as int,
        );
    }
}

proof fn lemma_insert_once(c: Seq<CandV>, x: CandV)
    requires
        versions_once(c),
        forall|i: int| 0 <= i < c.len() ==> (#[trigger] c[i]).version != x.version,
    ensures
        versions_once(insert_by(c, x, version_rule())),
        forall|i: int|
            0 <= i < insert_by(c, x, version_rule()).len() ==> (#[trigger] insert_by(
                c,
                x,
                version_rule(),
            )[i]) == x || c.contains(insert_by(c, x, version_rule())[i]),
    decreases c.len(),
{
    let f = version_rule();
    let r = insert_by(c, x, f);
    if c.len() == 0 {
    } else if f(x, c.last()) {
        let d = c.drop_last();
        lemma_insert_once(d, x);
        let t = insert_by(d, x, f);
        assert forall|i: int| 0 <= i < t.len() implies ((#[trigger] t[i]) == x || c.contains(t[i]))
            && t[i].version != c.last().version by {
            if t[i] != x {
                let q = choose|q: int| 0 <= q < d.len() && d[q] == t[i];
                assert(c[q] == d[q]);
            }
        }
        assert forall|i: int, j: int| 0 <= i < j < r.len() implies (#[trigger] r[i]).version != (
        #[trigger] r[j]).version by {
            assert(r[i] == t[i]);
            if j < t.len() {
                assert(r[j] == t[j]);
            }
        }
        assert forall|i: int| 0 <= i < r.len() implies (#[trigger] r[i]) == x || c.contains(
            r[i],
        ) by {
            if i < t.len() {
                assert(r[i] == t[i]);
            } else {
                assert(c[c.len() - 1] == r[i]);
            }
        }
    } else {
        assert forall|i: int| 0 <= i < r.len() implies (#[trigger] r[i]) == x || c.contains(
            r[i],
        ) by {
            if i < c.len() {
                assert(c[i] == r[i]);
            }
        }
    }
}

proof fn lemma_sorted_once(c: Seq<CandV>)
    requires
        versions_once(c),
    ensures
        versions_once(sorted_by(c, version_rule())),
    decreases c.len(),
{
    if c.len() > 0 {
        let d = c.drop_last();
        lemma_sorted_once(d);
        lemma_sorted_by_contains(d, version_rule());
        let t = sorted_by(d, version_rule());
        assert forall|i: int| 0 <= i < t.len() implies (#[trigger] t[i]).version
            != c.last().version by {
            assert(d.contains(t[i]));
            let q = choose|q: int| 0 <= q < d.len() && d[q] == t[i];
            assert(c[q] == d[q]);
        }
        lemma_insert_once(t, c.last());
    }
}

/// No version stands twice among those that are answered.
pub proof fn law_versions_stand_once(g: IndexV, key: Seq<char>, other: Seq<char>, limit: nat)
    ensures
        versions_once(candidates_for(g, key, other, limit)),
        versions_once(first_cands(candidates_for(g, key, other, limit), limit)),
{
    let there = found_paths(g, other, key, limit);
    let back = found_paths(g, key, other, limit);
    let half = from_paths(Seq::empty(), there, key, there.len() as int);
    let spoken = from_paths(half, back, key, back.len() as int);
    lemma_paths_by_version(Seq::empty(), there, key, there.len() as int);
    lemma_paths_by_version(half, back, key, back.len() as int);
    assert forall|i: int, j: int| 0 <= i < j < spoken.len() implies (#[trigger] spoken[i]).version
        != (#[trigger] spoken[j]).version by {
        lemma_text_less_total(spoken[i].version, spoken[j].version);
    }
    lemma_sorted_once(spoken);
    match node_at(g, key) {
        Some(n) => match n.version {
            Some(v) => {
                lemma_sorted_once(
                    seq![CandV { version: v, score: 25, confidence: "low"@, path_count: 1 }],
                );
            },
            None => {},
        },
        None => {},
    }
}

/// Records what the edges of a path say of a component; `n` bounds the counts.
fn record_path(
    versions: &mut Vec<VersionCandidate>,
    path: &GraphPath,
    key: &str,
    score: &GraphPathScore,
    n: Ghost<int>,
)
    requires
        0 <= n@,
        n@ + 2 * path@.len() < u128::MAX,
        counts_within(cand_views(old(versions)@), n@),
        score.score == path_score(path@),
        score.confidence@ == path_confidence(path@),
    ensures
        cand_views(final(versions)@) == from_edges(
            cand_views(old(versions)@),
            path@,
            key@,
            path@.len() as int,
        ),
        counts_within(cand_views(final(versions)@), n@ + 2 * path@.len()),
{
    let ghost base = cand_views(versions@);
    let ghost p = path@;
    let mut i: usize = 0;
    assert(p.len() == path.edges@.len());
    while i < path.edges.len()
        invariant
            p == path@,
            p.len() == path.edges@.len(),
            i <= path.edges@.len(),
            0 <= n@,
            n@ + 2 * p.len() < u128::MAX,
            score.score == path_score(p),
            score.confidence@ == path_confidence(p),
            cand_views(versions@) == from_edges(base, p, key@, i as int),
            counts_within(cand_views(versions@), n@ + 2 * i),
        decreases path.edges@.len() - i,
    {
        let e = &path.edges[i];
        assert(p[i as int] == e@);
        let ghost before = cand_views(versions@);
        let ghost one = if e@.source == key@ {
            recorded_opt(before, e@.source_version, p)
        } else {
            before
        };
        if same(e.source.as_str(), key) {
            match &e.source_version {
                Some(v) => {
                    proof {
                        lemma_recorded_counts(
                            before,
                            v@,
                            score.score as int,
                            score.confidence@,
                            n@ + 2 * i,
                        );
                    }
                    record_version_candidate(versions, v.clone(), score);
                },
                None => {},
            }
        }
        assert(cand_views(versions@) == one);
        assert(counts_within(one, n@ + 2 * i + 1));
        if same(e.target.as_str(), key) {
            match &e.target_version {
                Some(v) => {
                    proof {
                        lemma_recorded_counts(
                            one,
                            v@,
                            score.score as int,
                            score.confidence@,
                            n@ + 2 * i + 1,
                        );
                    }
                    record_version_candidate(versions, v.clone(), score);
                },
                None => {},
            }
        }
        i += 1;
    }
}

/// How often at most the edges of so many paths that can be scored name a version.
spec fn most_records(paths: int) -> int {
    0x1fff_ffff_ffff_fffe * paths
}

impl GraphIndex {
    /// Records what paths say of a component; `n` bounds the counts.
    fn record_paths(
        &self,
        versions: &mut Vec<VersionCandidate>,
        paths: &Vec<GraphPath>,
        key: &str,
        n: Ghost<int>,
    )
        requires
            0 <= n@ <= most_records(usize::MAX as int),
            all_short(path_views(paths@)),
            counts_within(cand_views(old(versions)@), n@),
        ensures
            cand_views(final(versions)@) == from_paths(
                cand_views(old(versions)@),
                path_views(paths@),
                key@,
                paths@.len() as int,
            ),
            counts_within(cand_views(final(versions)@), n@ + most_records(paths@.len() as int)),
    {
        let ghost base = cand_views(versions@);
        let ghost pv = path_views(paths@);
        let mut i: usize = 0;
        while i < paths.len()
            invariant
                pv == path_views(paths@),
                all_short(pv),
                i <= paths@.len(),
                0 <= n@ <= most_records(usize::MAX as int),
                cand_views(versions@) == from_paths(base, pv, key@, i as int),
                counts_within(cand_views(versions@), n@ + most_records(i as int)),
            decreases paths@.len() - i,
        {
            assert(pv[i as int] == paths@[i as int]@);
            let score = self.score_path(&paths[i]);
            record_path(
                versions,
                &paths[i],
                key,
                &score,
                Ghost(n@ + most_records(i as int)),
            );
            i += 1;
        }
    }

    /// The versions of a component that go with another, best first.
    fn version_candidates(&self, key: &str, other: &str, limit: usize) -> (r: Vec<
        VersionCandidate,
    >)
        ensures
            cand_views(r@) == candidates_for(self@, key@, other@, limit as nat),
    {
        let mut versions: Vec<VersionCandidate> = Vec::new();
        assert(cand_views(versions@) =~= Seq::empty());
        let there = self.find_paths(other, key, limit);
        let back = self.find_paths(key, other, limit);
        assert(path_views(there@).len() == there@.len());
        assert(path_views(back@).len() == back@.len());
        self.record_paths(&mut versions, &there, key, Ghost(0));
        self.record_paths(
            &mut versions,
            &back,
            key,
            Ghost(most_records(there@.len() as int)),
        );
        let ghost spoken = cand_views(versions@);
        assert(spoken.len() == versions@.len());
        if versions.len() == 0 {
            match self.node(key) {
                Some(n) => match &n.version {
                    Some(v) => {
                        versions.push(
                            VersionCandidate {
                                version: v.clone(),
                                score: 25,
                                confidence: "low".to_owned(),
                                path_count: 1,
                            },
                        );
                        assert(cand_views(versions@) =~= seq![
                            CandV { version: v@, score: 25, confidence: "low"@, path_count: 1 },
                        ]);
                    },
                    None => {},
                },
                None => {},
            }
        }
        sort_candidates(versions)
    }

    pub fn versions_for_answer(&self, component: &str, for_component: &str, limit: usize) -> (r:
        Json)
        ensures
            r@ == versions_json(self@, component@, for_component@, limit as nat),
    {
        let c = self.resolve(component);
        let o = self.resolve(for_component);
        let mut best = self.version_candidates(c.name.as_str(), o.name.as_str(), limit);
        let ghost all = cand_views(best@);
        assert(all.len() == best@.len());
        if best.len() > limit {
            best.truncate(limit);
            assert(cand_views(best@) =~= all.take(limit as int));
        }
        let ghost shown = cand_views(best@);
        assert(shown.len() == best@.len());
        let ghost names = shown.map_values(|c: CandV| JsonV::Text(c.version));
        let ghost details = shown.map_values(|c: CandV| cand_json(c));
        let mut versions: Vec<Json> = Vec::new();
        let mut candidates: Vec<Json> = Vec::new();
        let mut i: usize = 0;
        while i < best.len()
            invariant
                shown == cand_views(best@),
                names == shown.map_values(|c: CandV| JsonV::Text(c.version)),
                details == shown.map_values(|c: CandV| cand_json(c)),
                i <= best@.len(),
                items_view(versions@) == names.take(i as int),
                items_view(candidates@) == details.take(i as int),
            decreases best@.len() - i,
        {
            assert(shown[i as int] == best@[i as int]@);
            let ghost before = items_view(versions@);
            versions.push(Json::text(best[i].version.as_str()));
            assert(items_view(versions@) =~= before.push(names[i as int]));
            assert(names.take(i as int + 1) =~= before.push(names[i as int]));
            let ghost before = items_view(candidates@);
            candidates.push(
                Json::object().with("version", Json::text(best[i].version.as_str())).with(
                    "score",
                    Json::Number(digits_of_i64(best[i].score)),
                ).with("confidence", Json::text(best[i].confidence.as_str())).with(
                    "pathCount",
                    Json::Number(digits_of_u128(best[i].path_count)),
                ),
            );
            assert(items_view(candidates@) =~= before.push(details[i as int]));
            assert(details.take(i as int + 1) =~= before.push(details[i as int]));
            i += 1;
        }
        assert(names.take(i as int) =~= names);
        assert(details.take(i as int) =~= details);
        Json::object().with("kind", Json::text("graph-versions-for")).with(
            "component",
            self.node_value(c.name.as_str(), component),
        ).with("for", self.node_value(o.name.as_str(), for_component)).with(
            "versions",
            Json::array(versions),
        ).with("versionCandidates", Json::array(candidates))
    }
}

fn sort_candidates(versions: Vec<VersionCandidate>) -> (r: Vec<VersionCandidate>)
    ensures
        cand_views(r@) == sorted_by(cand_views(versions@), version_rule()),
{
    let ghost all = cand_views(versions@);
    let ghost f = version_rule();
    let mut out: Vec<VersionCandidate> = Vec::new();
    let mut i: usize = 0;
    assert(cand_views(out@) =~= all.take(0));
    while i < versions.len()
        invariant
            all == cand_views(versions@),
            f == version_rule(),
            i <= versions@.len(),
            cand_views(out@) == sorted_by(all.take(i as int), f),
        decreases versions@.len() - i,
    {
        let c = &versions[i];
        let ghost view = c@;
        let ghost sorted = cand_views(out@);
        assert(all[i as int] == view);
        let mut k: usize = out.len();
        while k > 0 && (c.score > out[k - 1].score || (c.score == out[k - 1].score && less(
            out[k - 1].version.as_str(),
            c.version.as_str(),
        )))
            invariant
                k <= out@.len(),
                f == version_rule(),
                view == c@,
                sorted == cand_views(out@),
                forall|j: int| k <= j < sorted.len() ==> f(view, #[trigger] sorted[j]),
            decreases k,
        {
            assert(sorted[k - 1] == out@[k - 1]@);
            k -= 1;
        }
        assert(k > 0 ==> sorted[k - 1] == out@[k - 1]@);
        proof {
            lemma_insert_at(sorted, view, f, k as int);
        }
        out.insert(
            k,
            VersionCandidate {
                version: c.version.clone(),
                score: c.score,
                confidence: c.confidence.clone(),
                path_count: c.path_count,
            },
        );
        assert(cand_views(out@) =~= sorted.take(k as int).push(view) + sorted.skip(k as int));
        assert(all.take(i as int + 1).drop_last() =~= all.take(i as int));
        i += 1;
    }
    assert(all.take(i as int) =~= all);
    out
}

// ---------------------------------------------------------------------------
// Names
// ---------------------------------------------------------------------------
pub open spec fn names_alike(name: Option<Seq<char>>, requested: Seq<char>) -> bool {
    match name {
        Some(s) => alias_key(s) == requested,
        None => false,
    }
}

fn is_alike(name: &Option<String>, requested: &str) -> (r: bool)
    ensures
        r == names_alike(opt_view(*name), requested@),
{
    match name {
        Some(s) => same(graph_alias_key(s.as_str()).as_str(), requested),
        None => false,
    }
}

pub open spec fn push_if(s: Seq<Seq<char>>, b: bool, k: Seq<char>) -> Seq<Seq<char>> {
    if b {
        s.push(k)
    } else {
        s
    }
}

/// By which of its names a component is meant: its name, subject, repository or
/// identity, else its key.
pub open spec fn alias_kinds(g: IndexV, key: Seq<char>, requested: Seq<char>) -> Seq<Seq<char>> {
    match node_at(g, key) {
        None => Seq::empty(),
        Some(n) => {
            let asked = alias_key(requested);
            let named = push_if(Seq::empty(), alias_key(n.component) == asked, "component"@);
            let subject = push_if(named, names_alike(n.subject_name, asked), "subject-name"@);
            let repo = push_if(subject, names_alike(n.repo, asked), "repo"@);
            let kinds = push_if(repo, names_alike(n.identity, asked), "identity"@);
            push_if(kinds, kinds.len() == 0 && key_of(asked) == n.key, "component-key"@)
        },
    }
}

/// The warnings that belong to a resolved name: that it is ambiguous, and that it is
/// not the component's own name.
pub open spec fn name_warnings(g: IndexV, requested: Seq<char>, key: Seq<char>, ambiguous: bool) -> Seq<
    Seq<char>,
> {
    let first = push_if(
        Seq::empty(),
        ambiguous,
        "multiple graph nodes match this name; use a more specific repo, package, identity, or component"@,
    );
    match node_at(g, key) {
        Some(n) => {
            let kinds = alias_kinds(g, key, requested);
            push_if(
                first,
                alias_key(requested) != alias_key(n.component) || !kinds.contains("component"@),
                debug_text(requested) + " resolved to component "@ + debug_text(n.component)
                    + " through "@ + (if kinds.len() == 0 {
                    "alias"@
                } else {
                    join(kinds, ", "@)
                }),
            )
        },
        None => first,
    }
}

/// The components that a name matches, sorted; the resolved one where it is no name.
pub open spec fn name_matches(g: IndexV, value: Seq<char>) -> Seq<Seq<char>> {
    let keys = alias_keys(g.aliases, alias_key(ref_of(value).name), g.aliases.len() as int);
    if keys.len() == 0 {
        seq![GraphIndex::resolved(g, value).name]
    } else {
        keys
    }
}

pub open spec fn match_json(g: IndexV, key: Seq<char>, value: Seq<char>) -> JsonV {
    JsonV::empty_object().with("node"@, node_json(g, key, value)).with(
        "aliasKinds"@,
        JsonV::texts(alias_kinds(g, key, ref_of(value).name)),
    ).with("outgoingCount"@, JsonV::number(outgoing(g, key).len())).with(
        "incomingCount"@,
        JsonV::number(incoming(g, key).len()),
    )
}

/// The answer about a name: what it resolves to and what else it matches.
pub open spec fn resolve_json(g: IndexV, value: Seq<char>) -> JsonV {
    let parsed = ref_of(value);
    let key = GraphIndex::resolved(g, value).name;
    let keys = name_matches(g, value);
    let ambiguous = keys.len() > 1;
    JsonV::empty_object().with("kind"@, JsonV::Text("graph-resolve"@)).with(
        "requested"@,
        JsonV::Text(value),
    ).with("name"@, JsonV::Text(parsed.name)).with("version"@, JsonV::opt_text(parsed.version)).with(
        "resolved"@,
        node_json(g, key, value),
    ).with("ambiguous"@, JsonV::Bool(ambiguous)).with("matchCount"@, JsonV::number(keys.len())).with(
        "matches"@,
        JsonV::Array(keys.map_values(|k: Seq<char>| match_json(g, k, value))),
    ).with("warnings"@, JsonV::texts(name_warnings(g, value, key, ambiguous)))
}

fn push_kind(kinds: &mut Vec<String>, held: bool, kind: &str)
    ensures
        views(final(kinds)@) == push_if(views(old(kinds)@), held, kind@),
{
    if held {
        let ghost before = views(kinds@);
        kinds.push(kind.to_owned());
        assert(views(kinds@) =~= before.push(kind@));
    }
}

fn contains_text(list: &Vec<String>, s: &str) -> (r: bool)
    ensures
        r == views(list@).contains(s@),
{
    let mut i: usize = 0;
    while i < list.len()
        invariant
            i <= list@.len(),
            forall|k: int| 0 <= k < i ==> views(list@)[k] != s@,
        decreases list@.len() - i,
    {
        if same(list[i].as_str(), s) {
            assert(views(list@)[i as int] == s@);
            return true;
        }
        i += 1;
    }
    false
}

impl GraphIndex {
    pub fn alias_kinds_for(&self, key: &str, requested: &str) -> (r: Vec<String>)
        ensures
            views(r@) == alias_kinds(self@, key@, requested@),
    {
        let mut kinds: Vec<String> = Vec::new();
        assert(views(kinds@) =~= Seq::empty());
        match self.node(key) {
            None => {},
            Some(n) => {
                let asked = graph_alias_key(requested);
                push_kind(
                    &mut kinds,
                    same(graph_alias_key(n.component.as_str()).as_str(), asked.as_str()),
                    "component",
                );
                push_kind(&mut kinds, is_alike(&n.subject_name, asked.as_str()), "subject-name");
                push_kind(&mut kinds, is_alike(&n.repo, asked.as_str()), "repo");
                push_kind(&mut kinds, is_alike(&n.identity, asked.as_str()), "identity");
                assert(views(kinds@).len() == kinds@.len());
                let by_key = kinds.len() == 0 && same(
                    graph_key(asked.as_str()).as_str(),
                    n.key.as_str(),
                );
                push_kind(&mut kinds, by_key, "component-key");
            },
        }
        kinds
    }

    pub fn resolution_warnings(&self, requested: &str, resolved_key: &str, ambiguous: bool) -> (r:
        Vec<String>)
        ensures
            views(r@) == name_warnings(self@, requested@, resolved_key@, ambiguous),
    {
        let mut warnings: Vec<String> = Vec::new();
        assert(views(warnings@) =~= Seq::empty());
        push_kind(
            &mut warnings,
            ambiguous,
            "multiple graph nodes match this name; use a more specific repo, package, identity, or component",
        );
        match self.node(resolved_key) {
            Some(n) => {
                let kinds = self.alias_kinds_for(resolved_key, requested);
                assert(views(kinds@).len() == kinds@.len());
                let other = !same(
                    graph_alias_key(requested).as_str(),
                    graph_alias_key(n.component.as_str()).as_str(),
                ) || !contains_text(&kinds, "component");
                let through = if kinds.len() == 0 {
                    "alias".to_owned()
                } else {
                    joined(kinds.as_slice(), ", ")
                };
                let warning = cat5(
                    debug_of(requested).as_str(),
                    " resolved to component ",
                    debug_of(n.component.as_str()).as_str(),
                    " through ",
                    through.as_str(),
                );
                push_kind(&mut warnings, other, warning.as_str());
            },
            None => {},
        }
        warnings
    }

    fn matching_keys(&self, name: &str) -> (r: Vec<String>)
        ensures
            views(r@) == alias_keys(self@.aliases, name@, self@.aliases.len() as int),
    {
        let ghost aliases = self@.aliases;
        let mut keys: Vec<String> = Vec::new();
        assert(views(keys@) =~= Seq::empty());
        let mut i: usize = 0;
        while i < self.aliases.len()
            invariant
                aliases == self@.aliases,
                i <= self.aliases@.len(),
                views(keys@) == alias_keys(aliases, name@, i as int),
            decreases self.aliases@.len() - i,
        {
            assert(aliases[i as int] == self.aliases@[i as int]@);
            if same(self.aliases[i].alias.as_str(), name) {
                put_text(&mut keys, self.aliases[i].key.as_str());
            }
            i += 1;
        }
        assert(aliases.len() == self.aliases@.len());
        keys
    }

    pub fn resolve_answer(&self, value: &str) -> (r: Json)
        ensures
            r@ == resolve_json(self@, value@),
    {
        let parsed = parse_graph_ref(value);
        let resolved = self.resolve(value);
        let mut keys = self.matching_keys(graph_alias_key(parsed.name.as_str()).as_str());
        assert(views(keys@).len() == keys@.len());
        if keys.len() == 0 {
            keys.push(resolved.name.clone());
            assert(views(keys@) =~= seq![resolved@.name]);
        }
        let ghost kv = views(keys@);
        assert(kv == name_matches(self@, value@));
        assert(kv.len() == keys@.len());
        let ghost all = kv.map_values(|k: Seq<char>| match_json(self@, k, value@));
        let mut found: Vec<Json> = Vec::new();
        let mut i: usize = 0;
        while i < keys.len()
            invariant
                kv == views(keys@),
                parsed@ == ref_of(value@),
                all == kv.map_values(|k: Seq<char>| match_json(self@, k, value@)),
                i <= keys@.len(),
                items_view(found@) == all.take(i as int),
            decreases keys@.len() - i,
        {
            assert(kv[i as int] == keys@[i as int]@);
            let key = keys[i].as_str();
            let ghost before = items_view(found@);
            let kinds = self.alias_kinds_for(key, parsed.name.as_str());
            let out = self.outgoing_edges(key);
            let inc = self.incoming_edges(key);
            assert(edge_views(out@).len() == out@.len());
            assert(edge_views(inc@).len() == inc@.len());
            let item = Json::object().with("node", self.node_value(key, value)).with(
                "aliasKinds",
                Json::texts(&kinds),
            ).with("outgoingCount", Json::count(out.len())).with(
                "incomingCount",
                Json::count(inc.len()),
            );
            let ghost next = item@;
            found.push(item);
            assert(items_view(found@) =~= before.push(next));
            assert(all[i as int] == next);
            assert(all.take(i as int + 1) =~= before.push(next));
            i += 1;
        }
        assert(all.take(i as int) =~= all);
        let ambiguous = keys.len() > 1;
        let warnings = self.resolution_warnings(value, resolved.name.as_str(), ambiguous);
        Json::object().with("kind", Json::text("graph-resolve")).with(
            "requested",
            Json::text(value),
        ).with("name", Json::text(parsed.name.as_str())).with(
            "version",
            Json::opt_text(&parsed.version),
        ).with("resolved", self.node_value(resolved.name.as_str(), value)).with(
            "ambiguous",
            Json::Bool(ambiguous),
        ).with("matchCount", Json::count(keys.len())).with("matches", Json::array(found)).with(
            "warnings",
            Json::texts(&warnings),
        )
    }
}

} // verus!
