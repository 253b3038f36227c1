//! Paths through the compatibility graph: the search, the score of a path and the
//! ranking of paths.
use vstd::prelude::*;
use crate::graph::{
    alias_key, alias_target, edge_views, invalid_status, is_invalid_status, is_positive_status,
    key_of, parse_graph_ref, positive_status, ref_of, EdgeV, GraphEdge, GraphIndex, GraphRef,
    IndexV, RefV,
};
use crate::order::{
    in_order, lemma_insert_at, lemma_sorted_by, lemma_sorted_by_contains, orders, sorted_by,
};
use crate::text::{
    join, joined, lemma_text_less_total, lemma_text_less_transitive, less, same, text_less, views,
};

verus! {

/// The largest number of edges of a path.
pub const MAX_DEPTH: usize = 6;

/// The largest number of edges whose cost, eight for each, an `i64` holds.
pub const MAX_SCORED_EDGES: u64 = 0x0fff_ffff_ffff_ffff;

#[derive(Debug)]
pub struct GraphPath {
    pub edges: Vec<GraphEdge>,
}

impl View for GraphPath {
    type V = Seq<EdgeV>;

    open spec fn view(&self) -> Seq<EdgeV> {
        edge_views(self.edges@)
    }
}

pub open spec fn path_views(v: Seq<GraphPath>) -> Seq<Seq<EdgeV>> {
    v.map_values(|p: GraphPath| p@)
}

/// The keys of the components along a path.
pub open spec fn path_keys(p: Seq<EdgeV>) -> Seq<Seq<char>> {
    if p.len() == 0 {
        Seq::empty()
    } else {
        seq![p[0].source] + p.map_values(|e: EdgeV| e.target)
    }
}

impl GraphPath {
    pub fn copy(&self) -> (r: GraphPath)
        ensures
            r@ == self@,
    {
        let mut edges: Vec<GraphEdge> = Vec::new();
        let mut i: usize = 0;
        while i < self.edges.len()
            invariant
                i <= self.edges@.len(),
                edge_views(edges@) == self@.take(i as int),
            decreases self.edges@.len() - i,
        {
            let ghost before = edge_views(edges@);
            edges.push(self.edges[i].copy());
            assert(edge_views(edges@) =~= before.push(self.edges@[i as int]@));
            assert(self@.take(i as int + 1) =~= before.push(self.edges@[i as int]@));
            i += 1;
        }
        assert(self@.take(i as int) =~= self@);
        GraphPath { edges }
    }

    pub fn node_keys(&self) -> (r: Vec<String>)
        ensures
            views(r@) == path_keys(self@),
    {
        let mut nodes: Vec<String> = Vec::new();
        if self.edges.len() == 0 {
            assert(views(nodes@) =~= Seq::empty());
            return nodes;
        }
        nodes.push(self.edges[0].source.clone());
        let ghost first = seq![self@[0].source];
        assert(views(nodes@) =~= first);
        let ghost targets = self@.map_values(|e: EdgeV| e.target);
        let mut i: usize = 0;
        assert(first + targets.take(0) =~= first);
        while i < self.edges.len()
            invariant
                i <= self.edges@.len(),
                targets == self@.map_values(|e: EdgeV| e.target),
                views(nodes@) == first + targets.take(i as int),
            decreases self.edges@.len() - i,
        {
            let ghost before = views(nodes@);
            nodes.push(self.edges[i].target.clone());
            assert(views(nodes@) =~= before.push(self.edges@[i as int].target@));
            assert(targets[i as int] == self.edges@[i as int].target@);
            assert(first + targets.take(i as int + 1) =~= before.push(targets[i as int]));
            i += 1;
        }
        assert(targets.take(i as int) =~= targets);
        nodes
    }
}

// ---------------------------------------------------------------------------
// Scores
// ---------------------------------------------------------------------------
pub struct GraphPathScore {
    pub score: i64,
    pub confidence: &'static str,
    pub reasons: Vec<String>,
}

/// Whether some edge is known to fail.
pub open spec fn some_invalid(p: Seq<EdgeV>) -> bool {
    exists|i: int| 0 <= i < p.len() && invalid_status((#[trigger] p[i]).status)
}

/// Whether every edge is known to pass.
pub open spec fn all_positive(p: Seq<EdgeV>) -> bool {
    forall|i: int| 0 <= i < p.len() ==> positive_status((#[trigger] p[i]).status)
}

/// Whether an edge rests on facts at both ends, one of them with a version.
pub open spec fn evidenced(e: EdgeV) -> bool {
    e.source_fact_id is Some && e.target_fact_id is Some && (e.source_version is Some
        || e.target_version is Some)
}

pub open spec fn all_evidenced(p: Seq<EdgeV>) -> bool {
    forall|i: int| 0 <= i < p.len() ==> evidenced(#[trigger] p[i])
}

/// The score of a path: shorter, passing and evidenced paths score higher, and a
/// failing edge costs most.
pub open spec fn path_score(p: Seq<EdgeV>) -> int {
    if p.len() == 0 {
        100
    } else {
        100 - 8 * p.len() + (if p.len() == 1 {
            10int
        } else {
            0
        }) + (if some_invalid(p) {
            -70int
        } else if all_positive(p) {
            20
        } else {
            0
        }) + (if all_evidenced(p) {
            15int
        } else {
            -10
        })
    }
}

/// How far a path can be relied on.
pub open spec fn path_confidence(p: Seq<EdgeV>) -> Seq<char> {
    if p.len() == 0 {
        "high"@
    } else if some_invalid(p) {
        "blocked"@
    } else if path_score(p) >= 120 {
        "high"@
    } else if path_score(p) >= 75 {
        "medium"@
    } else {
        "low"@
    }
}

/// Why a path scores as it does.
pub open spec fn path_reasons(p: Seq<EdgeV>) -> Seq<Seq<char>> {
    if p.len() == 0 {
        seq!["same component"@]
    } else {
        let hops = seq![
            if p.len() == 1 {
                "direct evidence"@
            } else {
                "inferred multi-hop path"@
            },
        ];
        let judged = if some_invalid(p) {
            hops.push("contains blocked or failed evidence"@)
        } else if all_positive(p) {
            hops.push("all edge statuses are passing"@)
        } else {
            hops
        };
        judged.push(
            if all_evidenced(p) {
                "versioned fact evidence"@
            } else {
                "some version or fact details are missing"@
            },
        )
    }
}

fn any_invalid(path: &GraphPath) -> (r: bool)
    ensures
        r == some_invalid(path@),
{
    let ghost p = path@;
    let mut i: usize = 0;
    while i < path.edges.len()
        invariant
            p == path@,
            i <= path.edges@.len(),
            forall|k: int| 0 <= k < i ==> !invalid_status((#[trigger] p[k]).status),
        decreases path.edges@.len() - i,
    {
        assert(p[i as int] == path.edges@[i as int]@);
        if is_invalid_status(&path.edges[i].status) {
            assert(invalid_status(p[i as int].status));
            return true;
        }
        i += 1;
    }
    false
}

fn every_positive(path: &GraphPath) -> (r: bool)
    ensures
        r == all_positive(path@),
{
    let ghost p = path@;
    let mut i: usize = 0;
    while i < path.edges.len()
        invariant
            p == path@,
            i <= path.edges@.len(),
            forall|k: int| 0 <= k < i ==> positive_status((#[trigger] p[k]).status),
        decreases path.edges@.len() - i,
    {
        assert(p[i as int] == path.edges@[i as int]@);
        if !is_positive_status(&path.edges[i].status) {
            assert(!positive_status(p[i as int].status));
            return false;
        }
        i += 1;
    }
    true
}

fn every_evidenced(path: &GraphPath) -> (r: bool)
    ensures
        r == all_evidenced(path@),
{
    let ghost p = path@;
    let mut i: usize = 0;
    while i < path.edges.len()
        invariant
            p == path@,
            i <= path.edges@.len(),
            forall|k: int| 0 <= k < i ==> evidenced(#[trigger] p[k]),
        decreases path.edges@.len() - i,
    {
        let e = &path.edges[i];
        assert(p[i as int] == e@);
        let held = e.source_fact_id.is_some() && e.target_fact_id.is_some() && (
        e.source_version.is_some() || e.target_version.is_some());
        assert(held == evidenced(p[i as int]));
        if !held {
            return false;
        }
        i += 1;
    }
    true
}

/// The score of a path of any length.
fn wide_score(path: &GraphPath) -> (r: i128)
    ensures
        r == path_score(path@),
{
    let n: i128 = path.edges.len() as i128;
    if n == 0 {
        return 100;
    }
    let mut score: i128 = 100 - n * 8;
    if n == 1 {
        score += 10;
    }
    if any_invalid(path) {
        score -= 70;
    } else if every_positive(path) {
        score += 20;
    }
    if every_evidenced(path) {
        score += 15;
    } else {
        score -= 10;
    }
    score
}

impl GraphIndex {
    pub fn score_path(&self, path: &GraphPath) -> (r: GraphPathScore)
        requires
            path@.len() <= MAX_SCORED_EDGES,
        ensures
            r.score == path_score(path@),
            r.confidence@ == path_confidence(path@),
            views(r.reasons@) == path_reasons(path@),
    {
        let mut reasons: Vec<String> = Vec::new();
        let score: i64 = wide_score(path) as i64;
        if path.edges.len() == 0 {
            reasons.push("same component".to_owned());
            assert(views(reasons@) =~= path_reasons(path@));
            return GraphPathScore { score, confidence: "high", reasons };
        }
        if path.edges.len() == 1 {
            reasons.push("direct evidence".to_owned());
        } else {
            reasons.push("inferred multi-hop path".to_owned());
        }
        let invalid = any_invalid(path);
        if invalid {
            reasons.push("contains blocked or failed evidence".to_owned());
        } else if every_positive(path) {
            reasons.push("all edge statuses are passing".to_owned());
        }
        if every_evidenced(path) {
            reasons.push("versioned fact evidence".to_owned());
        } else {
            reasons.push("some version or fact details are missing".to_owned());
        }
        assert(views(reasons@) =~= path_reasons(path@));
        let confidence = if invalid {
            "blocked"
        } else if score >= 120 {
            "high"
        } else if score >= 75 {
            "medium"
        } else {
            "low"
        };
        GraphPathScore { score, confidence, reasons }
    }
}

/// A path is blocked exactly where one of its edges is known to fail, and its score
/// then lies below that of the same path without the failure.
pub proof fn law_blocked_paths(p: Seq<EdgeV>)
    ensures
        p.len() > 0 ==> (path_confidence(p) == "blocked"@ <==> some_invalid(p)),
        some_invalid(p) ==> path_score(p) <= 47,
        path_score(p) <= 137,
{
    reveal_strlit("blocked");
    reveal_strlit("high");
    reveal_strlit("medium");
    reveal_strlit("low");
    assert("medium"@.len() != "blocked"@.len());
}

// ---------------------------------------------------------------------------
// Ranking
// ---------------------------------------------------------------------------
/// The keys along a path in one text.
pub open spec fn keys_text(p: Seq<EdgeV>) -> Seq<char> {
    join(path_keys(p), "\0"@)
}

/// Whether a path ranks before another: by its score, then by its length, then by
/// its keys.
pub open spec fn ranks_before(a: Seq<EdgeV>, b: Seq<EdgeV>) -> bool {
    path_score(a) > path_score(b) || (path_score(a) == path_score(b) && (a.len() < b.len() || (
    a.len() == b.len() && text_less(keys_text(a), keys_text(b)))))
}

pub open spec fn rank_rule() -> spec_fn(Seq<EdgeV>, Seq<EdgeV>) -> bool {
    |a: Seq<EdgeV>, b: Seq<EdgeV>| ranks_before(a, b)
}

/// The paths by rank, and of these as many as asked for, at least one.
pub open spec fn ranked(paths: Seq<Seq<EdgeV>>, limit: nat) -> Seq<Seq<EdgeV>> {
    let all = sorted_by(paths, rank_rule());
    let n = if limit == 0 {
        1
    } else {
        limit
    };
    if all.len() <= n {
        all
    } else {
        all.take(n as int)
    }
}

pub open spec fn all_short(paths: Seq<Seq<EdgeV>>) -> bool {
    forall|i: int| 0 <= i < paths.len() ==> (#[trigger] paths[i]).len() <= MAX_SCORED_EDGES
}

fn ranks(a: &GraphPath, b: &GraphPath) -> (r: bool)
    ensures
        r == ranks_before(a@, b@),
{
    let x = wide_score(a);
    let y = wide_score(b);
    if x != y {
        return x > y;
    }
    if a.edges.len() != b.edges.len() {
        return a.edges.len() < b.edges.len();
    }
    let p = joined(a.node_keys().as_slice(), "\0");
    let q = joined(b.node_keys().as_slice(), "\0");
    less(p.as_str(), q.as_str())
}

pub proof fn lemma_rank_rule()
    ensures
        orders(rank_rule()),
{
    let f = rank_rule();
    assert forall|a: Seq<EdgeV>, b: Seq<EdgeV>| #[trigger] f(a, b) implies !f(b, a) by {
        lemma_text_less_total(keys_text(a), keys_text(b));
    }
    assert forall|a: Seq<EdgeV>, b: Seq<EdgeV>, c: Seq<EdgeV>|
        !(#[trigger] f(b, a)) && !(#[trigger] f(c, b)) implies !f(c, a) by {
        let x = keys_text(a);
        let y = keys_text(b);
        let z = keys_text(c);
        lemma_text_less_total(x, y);
        lemma_text_less_total(y, z);
        lemma_text_less_total(x, z);
        if text_less(x, y) && text_less(y, z) {
            lemma_text_less_transitive(x, y, z);
        }
    }
}

/// Ranking puts no path behind one that it ranks before, gives only paths that were
/// found, and at least one where one was found.
pub proof fn law_ranked(paths: Seq<Seq<EdgeV>>, limit: nat)
    ensures
        in_order(ranked(paths, limit), rank_rule()),
        forall|i: int|
            0 <= i < ranked(paths, limit).len() ==> paths.contains(
                #[trigger] ranked(paths, limit)[i],
            ),
        ranked(paths, limit).len() == 0 <==> paths.len() == 0,
        limit >= paths.len() ==> ranked(paths, limit).to_multiset() == paths.to_multiset(),
        ranked(paths, limit).len() <= (if limit == 0 {
            1
        } else {
            limit
        }),
{
    lemma_rank_rule();
    lemma_sorted_by(paths, rank_rule());
    lemma_sorted_by_contains(paths, rank_rule());
}

impl GraphIndex {
    pub fn rank_paths(&self, paths: Vec<GraphPath>, limit: usize) -> (r: Vec<GraphPath>)
        ensures
            path_views(r@) == ranked(path_views(paths@), limit as nat),
    {
        let ghost all = path_views(paths@);
        let ghost f = rank_rule();
        let mut out: Vec<GraphPath> = Vec::new();
        let mut i: usize = 0;
        assert(path_views(out@) =~= all.take(0));
        while i < paths.len()
            invariant
                all == path_views(paths@),
                f == rank_rule(),
                i <= paths@.len(),
                path_views(out@) == sorted_by(all.take(i as int), f),
            decreases paths@.len() - i,
        {
            let ghost sorted = path_views(out@);
            assert(all[i as int] == paths@[i as int]@);
            let p = paths[i].copy();
            let ghost view = p@;
            let mut k: usize = out.len();
            while k > 0 && ranks(&p, &out[k - 1])
                invariant
                    k <= out@.len(),
                    f == rank_rule(),
                    view == p@,
                    sorted == path_views(out@),
                    forall|j: int| k <= j < sorted.len() ==> f(view, #[trigger] sorted[j]),
                decreases k,
            {
                assert(sorted[k - 1] == out@[k - 1]@);
                k -= 1;
            }
            assert(k > 0 ==> sorted[k - 1] == out@[k - 1]@);
            proof {
                lemma_insert_at(sorted, view, f, k as int);
            }
            out.insert(k, p);
            assert(path_views(out@) =~= sorted.take(k as int).push(view) + sorted.skip(k as int));
            assert(all.take(i as int + 1).drop_last() =~= all.take(i as int));
            i += 1;
        }
        assert(all.take(i as int) =~= all);
        let n: usize = if limit == 0 {
            1
        } else {
            limit
        };
        let ghost sorted = path_views(out@);
        assert(sorted.len() == out@.len());
        if out.len() > n {
            out.truncate(n);
            assert(path_views(out@) =~= sorted.take(n as int));
        }
        out
    }
}

// ---------------------------------------------------------------------------
// The search
// ---------------------------------------------------------------------------
/// The edges among the first `n` that leave a component, in order.
pub open spec fn edges_from(edges: Seq<EdgeV>, key: Seq<char>, n: int) -> Seq<EdgeV>
    decreases n,
{
    if n <= 0 {
        Seq::empty()
    } else if edges[n - 1].source == key {
        edges_from(edges, key, n - 1).push(edges[n - 1])
    } else {
        edges_from(edges, key, n - 1)
    }
}

/// The edges among the first `n` that reach a component, in order.
pub open spec fn edges_to(edges: Seq<EdgeV>, key: Seq<char>, n: int) -> Seq<EdgeV>
    decreases n,
{
    if n <= 0 {
        Seq::empty()
    } else if edges[n - 1].target == key {
        edges_to(edges, key, n - 1).push(edges[n - 1])
    } else {
        edges_to(edges, key, n - 1)
    }
}

pub open spec fn outgoing(g: IndexV, key: Seq<char>) -> Seq<EdgeV> {
    edges_from(g.edges, key, g.edges.len() as int)
}

pub open spec fn incoming(g: IndexV, key: Seq<char>) -> Seq<EdgeV> {
    edges_to(g.edges, key, g.edges.len() as int)
}

/// The component at which a path from `source` ends.
pub open spec fn path_end(source: Seq<char>, p: Seq<EdgeV>) -> Seq<char> {
    if p.len() == 0 {
        source
    } else {
        p.last().target
    }
}

/// Whether an edge leads on to a component that the path has not left before.
pub open spec fn leads_on(source: Seq<char>, p: Seq<EdgeV>, e: EdgeV) -> bool {
    e.target != source && (forall|i: int| 0 <= i < p.len() ==> (#[trigger] p[i]).source != e.target)
}

/// The path with one more edge for each of the first `n` edges that leads on, those
/// that reach the target or those that do not.
pub open spec fn extended(
    source: Seq<char>,
    target: Seq<char>,
    p: Seq<EdgeV>,
    edges: Seq<EdgeV>,
    n: int,
    hit: bool,
) -> Seq<Seq<EdgeV>>
    decreases n,
{
    if n <= 0 {
        Seq::empty()
    } else {
        let before = extended(source, target, p, edges, n - 1, hit);
        let e = edges[n - 1];
        if leads_on(source, p, e) && (e.target == target) == hit {
            before.push(p.push(e))
        } else {
            before
        }
    }
}

/// The first `n` paths with one more edge.
pub open spec fn expanded(
    g: IndexV,
    source: Seq<char>,
    target: Seq<char>,
    paths: Seq<Seq<EdgeV>>,
    n: int,
    hit: bool,
) -> Seq<Seq<EdgeV>>
    decreases n,
{
    if n <= 0 {
        Seq::empty()
    } else {
        let p = paths[n - 1];
        let edges = outgoing(g, path_end(source, p));
        expanded(g, source, target, paths, n - 1, hit) + extended(
            source,
            target,
            p,
            edges,
            edges.len() as int,
            hit,
        )
    }
}

/// The paths of `d` edges from the source that have not reached the target, in the
/// order of a search by breadth.
pub open spec fn frontier(g: IndexV, source: Seq<char>, target: Seq<char>, d: int) -> Seq<
    Seq<EdgeV>,
>
    decreases d,
{
    if d <= 0 {
        seq![Seq::empty()]
    } else {
        let before = frontier(g, source, target, d - 1);
        expanded(g, source, target, before, before.len() as int, false)
    }
}

/// The paths of up to `d` edges from the source to the target, in the order of a
/// search by breadth.
pub open spec fn reached(g: IndexV, source: Seq<char>, target: Seq<char>, d: int) -> Seq<
    Seq<EdgeV>,
>
    decreases d,
{
    if d <= 0 {
        Seq::empty()
    } else {
        let before = frontier(g, source, target, d - 1);
        reached(g, source, target, d - 1) + expanded(
            g,
            source,
            target,
            before,
            before.len() as int,
            true,
        )
    }
}

/// How many paths a search looks for: eight times the limit, up to eighty, and no
/// fewer than the limit.
pub open spec fn search_limit(limit: nat) -> nat {
    let least = if limit == 0 {
        1
    } else {
        limit
    };
    let wanted = 8 * limit;
    let most: nat = if wanted > 80 {
        80
    } else {
        wanted
    };
    if most < least {
        least
    } else {
        most
    }
}

/// The paths from a component to another: the empty one where they are the same;
/// otherwise the first that a search by breadth up to six edges finds, by rank.
pub open spec fn found_paths(g: IndexV, source: Seq<char>, target: Seq<char>, limit: nat) -> Seq<
    Seq<EdgeV>,
> {
    if source == target {
        seq![Seq::empty()]
    } else {
        let all = reached(g, source, target, MAX_DEPTH as int);
        let n = search_limit(limit);
        ranked(
            if all.len() <= n {
                all
            } else {
                all.take(n as int)
            },
            limit,
        )
    }
}

proof fn lemma_extended_prefix(
    source: Seq<char>,
    target: Seq<char>,
    p: Seq<EdgeV>,
    edges: Seq<EdgeV>,
    n: int,
    m: int,
    hit: bool,
)
    requires
        0 <= n <= m,
    ensures
        extended(source, target, p, edges, n, hit).is_prefix_of(
            extended(source, target, p, edges, m, hit),
        ),
    decreases m - n,
{
    if n < m {
        lemma_extended_prefix(source, target, p, edges, n, m - 1, hit);
        let a = extended(source, target, p, edges, n, hit);
        let b = extended(source, target, p, edges, m - 1, hit);
        let c = extended(source, target, p, edges, m, hit);
        assert(b.is_prefix_of(c));
        assert(c.subrange(0, a.len() as int) =~= a);
    }
}

proof fn lemma_expanded_prefix(
    g: IndexV,
    source: Seq<char>,
    target: Seq<char>,
    paths: Seq<Seq<EdgeV>>,
    n: int,
    m: int,
    hit: bool,
)
    requires
        0 <= n <= m,
    ensures
        expanded(g, source, target, paths, n, hit).is_prefix_of(
            expanded(g, source, target, paths, m, hit),
        ),
    decreases m - n,
{
    if n < m {
        lemma_expanded_prefix(g, source, target, paths, n, m - 1, hit);
        let a = expanded(g, source, target, paths, n, hit);
        let b = expanded(g, source, target, paths, m - 1, hit);
        let c = expanded(g, source, target, paths, m, hit);
        assert(c.subrange(0, b.len() as int) =~= b);
        assert(c.subrange(0, a.len() as int) =~= a);
    }
}

proof fn lemma_reached_prefix(g: IndexV, source: Seq<char>, target: Seq<char>, d: int, e: int)
    requires
        0 <= d <= e,
    ensures
        reached(g, source, target, d).is_prefix_of(reached(g, source, target, e)),
    decreases e - d,
{
    if d < e {
        lemma_reached_prefix(g, source, target, d, e - 1);
        let a = reached(g, source, target, d);
        let b = reached(g, source, target, e - 1);
        let c = reached(g, source, target, e);
        assert(c.subrange(0, b.len() as int) =~= b);
        assert(c.subrange(0, a.len() as int) =~= a);
    }
}

/// What was found up to edge `n` of path `i` of depth `d` comes first among all that
/// is found.
proof fn lemma_found_prefix(
    g: IndexV,
    source: Seq<char>,
    target: Seq<char>,
    d: int,
    i: int,
    n: int,
)
    requires
        0 <= d < MAX_DEPTH,
        0 <= i < frontier(g, source, target, d).len(),
        0 <= n <= outgoing(g, path_end(source, frontier(g, source, target, d)[i])).len(),
    ensures
        ({
            let level = frontier(g, source, target, d);
            let edges = outgoing(g, path_end(source, level[i]));
            let so_far = reached(g, source, target, d) + expanded(
                g,
                source,
                target,
                level,
                i,
                true,
            ) + extended(source, target, level[i], edges, n, true);
            so_far.is_prefix_of(reached(g, source, target, MAX_DEPTH as int))
        }),
{
    let level = frontier(g, source, target, d);
    let edges = outgoing(g, path_end(source, level[i]));
    let a = reached(g, source, target, d);
    let b = expanded(g, source, target, level, i, true);
    let c = extended(source, target, level[i], edges, n, true);
    let so_far = a + b + c;
    lemma_extended_prefix(source, target, level[i], edges, n, edges.len() as int, true);
    lemma_expanded_prefix(g, source, target, level, i + 1, level.len() as int, true);
    lemma_reached_prefix(g, source, target, d + 1, MAX_DEPTH as int);
    let full = extended(source, target, level[i], edges, edges.len() as int, true);
    let upto = expanded(g, source, target, level, i + 1, true);
    assert(upto == b + full);
    let whole = expanded(g, source, target, level, level.len() as int, true);
    let next = reached(g, source, target, d + 1);
    assert(next == a + whole);
    assert(next.subrange(0, so_far.len() as int) =~= so_far) by {
        assert forall|k: int| 0 <= k < so_far.len() implies next[k] == so_far[k] by {
            if k >= a.len() {
                assert(next[k] == whole[k - a.len()]);
                assert(whole[k - a.len()] == upto[k - a.len()]);
                if k >= a.len() + b.len() {
                    assert(upto[k - a.len()] == full[k - a.len() - b.len()]);
                    assert(full[k - a.len() - b.len()] == c[k - a.len() - b.len()]);
                } else {
                    assert(upto[k - a.len()] == b[k - a.len()]);
                }
            }
        }
    }
    let total = reached(g, source, target, MAX_DEPTH as int);
    assert(total.subrange(0, so_far.len() as int) =~= so_far);
}

/// Whether a path starts at the source, follows edges of the graph from end to end
/// and does not come back to the source.
pub open spec fn is_walk(g: IndexV, source: Seq<char>, p: Seq<EdgeV>) -> bool {
    &&& forall|i: int| 0 <= i < p.len() ==> g.edges.contains(#[trigger] p[i])
    &&& p.len() > 0 ==> p[0].source == source
    &&& forall|i: int, j: int|
        #![trigger p[i], p[j]]
        0 <= i && j == i + 1 && j < p.len() ==> p[j].source == p[i].target
    &&& forall|i: int| 0 <= i < p.len() ==> (#[trigger] p[i]).target != source
}

/// Whether a path comes to no component twice.
pub open spec fn visits_once(p: Seq<EdgeV>) -> bool {
    forall|i: int, j: int|
        0 <= i < j < p.len() ==> (#[trigger] p[i]).target != (#[trigger] p[j]).target
}

/// Whether no edge leads from a component to itself.
pub open spec fn no_loops(g: IndexV) -> bool {
    forall|i: int| 0 <= i < g.edges.len() ==> (#[trigger] g.edges[i]).source != g.edges[i].target
}

proof fn lemma_edges_from(edges: Seq<EdgeV>, key: Seq<char>, n: int)
    requires
        n <= edges.len(),
    ensures
        forall|i: int|
            0 <= i < edges_from(edges, key, n).len() ==> edges.contains(
                #[trigger] edges_from(edges, key, n)[i],
            ) && edges_from(edges, key, n)[i].source == key,
    decreases n,
{
    if n > 0 {
        lemma_edges_from(edges, key, n - 1);
        let r = edges_from(edges, key, n);
        assert forall|i: int| 0 <= i < r.len() implies edges.contains(#[trigger] r[i])
            && r[i].source == key by {
            if edges[n - 1].source == key && i == r.len() - 1 {
                assert(edges[n - 1] == r[i]);
            } else {
                assert(edges_from(edges, key, n - 1)[i] == r[i]);
            }
        }
    }
}

proof fn lemma_walk_extends(g: IndexV, source: Seq<char>, p: Seq<EdgeV>, e: EdgeV)
    requires
        is_walk(g, source, p),
        g.edges.contains(e),
        e.source == path_end(source, p),
        leads_on(source, p, e),
    ensures
        is_walk(g, source, p.push(e)),
        no_loops(g) && visits_once(p) ==> visits_once(p.push(e)),
{
    let q = p.push(e);
    if no_loops(g) && visits_once(p) {
        assert forall|i: int, j: int| 0 <= i < j < q.len() implies (#[trigger] q[i]).target != (
        #[trigger] q[j]).target by {
            if j == p.len() {
                if i + 1 < p.len() {
                    assert(p[i + 1].source == p[i].target);
                    assert(p[i + 1].source != e.target);
                } else {
                    let k = choose|k: int| 0 <= k < g.edges.len() && g.edges[k] == e;
                    assert(g.edges[k].source != g.edges[k].target);
                }
            }
        }
    }
}

/// Whether each path is a walk of `d` edges that the target, where it is on it, ends.
pub open spec fn are_walks(g: IndexV, source: Seq<char>, paths: Seq<Seq<EdgeV>>, d: nat) -> bool {
    forall|i: int|
        0 <= i < paths.len() ==> is_walk(g, source, #[trigger] paths[i]) && paths[i].len() == d && (
        no_loops(g) ==> visits_once(paths[i]))
}

proof fn lemma_extended_walks(
    g: IndexV,
    source: Seq<char>,
    target: Seq<char>,
    p: Seq<EdgeV>,
    n: int,
    hit: bool,
)
    requires
        is_walk(g, source, p),
        no_loops(g) ==> visits_once(p),
        n <= outgoing(g, path_end(source, p)).len(),
    ensures
        are_walks(
            g,
            source,
            extended(source, target, p, outgoing(g, path_end(source, p)), n, hit),
            p.len() + 1,
        ),
        forall|i: int|
            0 <= i < extended(source, target, p, outgoing(g, path_end(source, p)), n, hit).len()
                ==> ((#[trigger] extended(
                source,
                target,
                p,
                outgoing(g, path_end(source, p)),
                n,
                hit,
            )[i]).last().target == target) == hit,
    decreases n,
{
    if n > 0 {
        let edges = outgoing(g, path_end(source, p));
        lemma_extended_walks(g, source, target, p, n - 1, hit);
        lemma_edges_from(g.edges, path_end(source, p), g.edges.len() as int);
        let e = edges[n - 1];
        if leads_on(source, p, e) && (e.target == target) == hit {
            lemma_walk_extends(g, source, p, e);
            let before = extended(source, target, p, edges, n - 1, hit);
            let r = extended(source, target, p, edges, n, hit);
            assert(p.push(e).last() == e);
            assert forall|i: int| 0 <= i < r.len() implies is_walk(g, source, #[trigger] r[i])
                && r[i].len() == p.len() + 1 && (no_loops(g) ==> visits_once(r[i])) && (
            r[i].last().target == target) == hit by {
                if i < before.len() {
                    assert(r[i] == before[i]);
                }
            }
        }
    }
}

proof fn lemma_expanded_walks(
    g: IndexV,
    source: Seq<char>,
    target: Seq<char>,
    paths: Seq<Seq<EdgeV>>,
    n: int,
    d: nat,
    hit: bool,
)
    requires
        are_walks(g, source, paths, d),
        n <= paths.len(),
    ensures
        are_walks(g, source, expanded(g, source, target, paths, n, hit), d + 1),
        forall|i: int|
            0 <= i < expanded(g, source, target, paths, n, hit).len() ==> ((#[trigger] expanded(
                g,
                source,
                target,
                paths,
                n,
                hit,
            )[i]).last().target == target) == hit,
    decreases n,
{
    if n > 0 {
        lemma_expanded_walks(g, source, target, paths, n - 1, d, hit);
        let p = paths[n - 1];
        let edges = outgoing(g, path_end(source, p));
        lemma_extended_walks(g, source, target, p, edges.len() as int, hit);
        let a = expanded(g, source, target, paths, n - 1, hit);
        let b = extended(source, target, p, edges, edges.len() as int, hit);
        let r = expanded(g, source, target, paths, n, hit);
        assert forall|i: int| 0 <= i < r.len() implies is_walk(g, source, #[trigger] r[i])
            && r[i].len() == d + 1 && (no_loops(g) ==> visits_once(r[i])) && (r[i].last().target
            == target) == hit by {
            if i < a.len() {
                assert(r[i] == a[i]);
            } else {
                assert(r[i] == b[i - a.len()]);
            }
        }
    }
}

proof fn lemma_frontier_walks(g: IndexV, source: Seq<char>, target: Seq<char>, d: int)
    requires
        0 <= d,
    ensures
        are_walks(g, source, frontier(g, source, target, d), d as nat),
    decreases d,
{
    if d > 0 {
        lemma_frontier_walks(g, source, target, d - 1);
        let before = frontier(g, source, target, d - 1);
        lemma_expanded_walks(
            g,
            source,
            target,
            before,
            before.len() as int,
            (d - 1) as nat,
            false,
        );
    }
}

proof fn lemma_reached_walks(g: IndexV, source: Seq<char>, target: Seq<char>, d: int)
    requires
        0 <= d,
    ensures
        forall|i: int|
            0 <= i < reached(g, source, target, d).len() ==> is_walk(
                g,
                source,
                #[trigger] reached(g, source, target, d)[i],
            ) && 1 <= reached(g, source, target, d)[i].len() <= d && reached(
                g,
                source,
                target,
                d,
            )[i].last().target == target && (no_loops(g) ==> visits_once(
                reached(g, source, target, d)[i],
            )),
    decreases d,
{
    if d > 0 {
        lemma_reached_walks(g, source, target, d - 1);
        lemma_frontier_walks(g, source, target, d - 1);
        let before = frontier(g, source, target, d - 1);
        lemma_expanded_walks(g, source, target, before, before.len() as int, (d - 1) as nat, true);
        let a = reached(g, source, target, d - 1);
        let b = expanded(g, source, target, before, before.len() as int, true);
        let r = reached(g, source, target, d);
        assert forall|i: int| 0 <= i < r.len() implies is_walk(g, source, #[trigger] r[i]) && 1
            <= r[i].len() <= d && r[i].last().target == target && (no_loops(g) ==> visits_once(
            r[i],
        )) by {
            if i < a.len() {
                assert(r[i] == a[i]);
            } else {
                assert(r[i] == b[i - a.len()]);
            }
        }
    }
}

/// A path that is found starts at the source, follows edges of the graph from end to
/// end up to the target, has at most six edges, and, where no edge leads from a
/// component to itself, comes to no component twice. No more are found than asked
/// for, or one.
pub proof fn law_found_paths_connect(
    g: IndexV,
    source: Seq<char>,
    target: Seq<char>,
    limit: nat,
    i: int,
)
    requires
        source != target,
        0 <= i < found_paths(g, source, target, limit).len(),
    ensures
        is_walk(g, source, found_paths(g, source, target, limit)[i]),
        1 <= found_paths(g, source, target, limit)[i].len() <= MAX_DEPTH,
        found_paths(g, source, target, limit)[i].last().target == target,
        no_loops(g) ==> visits_once(found_paths(g, source, target, limit)[i]),
        found_paths(g, source, target, limit).len() <= (if limit == 0 {
            1
        } else {
            limit
        }),
{
    let all = reached(g, source, target, MAX_DEPTH as int);
    let n = search_limit(limit);
    let first = if all.len() <= n {
        all
    } else {
        all.take(n as int)
    };
    law_ranked(first, limit);
    lemma_reached_walks(g, source, target, MAX_DEPTH as int);
    let r = found_paths(g, source, target, limit);
    assert(first.contains(r[i]));
    let k = choose|k: int| 0 <= k < first.len() && first[k] == r[i];
    assert(all[k] == r[i]);
}

/// A component has the empty path to itself, and a path is found exactly where the
/// search reaches the target.
pub proof fn law_paths_found_exactly(g: IndexV, source: Seq<char>, target: Seq<char>, limit: nat)
    ensures
        source == target ==> found_paths(g, source, target, limit) == seq![Seq::<EdgeV>::empty()],
        source != target ==> (found_paths(g, source, target, limit).len() == 0 <==> reached(
            g,
            source,
            target,
            MAX_DEPTH as int,
        ).len() == 0),
{
    if source != target {
        let all = reached(g, source, target, MAX_DEPTH as int);
        let n = search_limit(limit);
        let first = if all.len() <= n {
            all
        } else {
            all.take(n as int)
        };
        law_ranked(first, limit);
    }
}

/// Whether edges of the graph lead, one after another, from a component to another.
pub open spec fn is_chain(g: IndexV, source: Seq<char>, target: Seq<char>, p: Seq<EdgeV>) -> bool {
    &&& p.len() > 0
    &&& forall|i: int| 0 <= i < p.len() ==> g.edges.contains(#[trigger] p[i])
    &&& p[0].source == source
    &&& forall|i: int, j: int|
        #![trigger p[i], p[j]]
        0 <= i && j == i + 1 && j < p.len() ==> p[j].source == p[i].target
    &&& p.last().target == target
}

/// Whether each edge of a path leads on from the edges before it, and only the last
/// reaches the target.
spec fn goes_straight(source: Seq<char>, target: Seq<char>, p: Seq<EdgeV>) -> bool {
    &&& forall|i: int| 0 <= i < p.len() ==> leads_on(source, p.take(i), #[trigger] p[i])
    &&& forall|i: int| 0 <= i < p.len() - 1 ==> (#[trigger] p[i]).target != target
}

proof fn lemma_edges_from_all(edges: Seq<EdgeV>, e: EdgeV, n: int)
    requires
        0 <= n <= edges.len(),
        exists|k: int| 0 <= k < n && edges[k] == e,
    ensures
        edges_from(edges, e.source, n).contains(e),
    decreases n,
{
    let r = edges_from(edges, e.source, n);
    if edges[n - 1] == e {
        assert(r[r.len() - 1] == e);
    } else {
        lemma_edges_from_all(edges, e, n - 1);
        let before = edges_from(edges, e.source, n - 1);
        let q = choose|q: int| 0 <= q < before.len() && before[q] == e;
        assert(r[q] == e);
    }
}

proof fn lemma_extended_has(
    source: Seq<char>,
    target: Seq<char>,
    p: Seq<EdgeV>,
    edges: Seq<EdgeV>,
    k: int,
    hit: bool,
)
    requires
        0 <= k < edges.len(),
        leads_on(source, p, edges[k]),
        (edges[k].target == target) == hit,
    ensures
        extended(source, target, p, edges, edges.len() as int, hit).contains(p.push(edges[k])),
{
    let here = extended(source, target, p, edges, k + 1, hit);
    let all = extended(source, target, p, edges, edges.len() as int, hit);
    assert(here.last() == p.push(edges[k]));
    lemma_extended_prefix(source, target, p, edges, k + 1, edges.len() as int, hit);
    assert(all[here.len() - 1] == here[here.len() - 1]);
}

proof fn lemma_expanded_has(
    g: IndexV,
    source: Seq<char>,
    target: Seq<char>,
    paths: Seq<Seq<EdgeV>>,
    k: int,
    e: EdgeV,
    hit: bool,
)
    requires
        0 <= k < paths.len(),
        g.edges.contains(e),
        e.source == path_end(source, paths[k]),
        leads_on(source, paths[k], e),
        (e.target == target) == hit,
    ensures
        expanded(g, source, target, paths, paths.len() as int, hit).contains(paths[k].push(e)),
{
    let edges = outgoing(g, path_end(source, paths[k]));
    lemma_edges_from_all(g.edges, e, g.edges.len() as int);
    let j = choose|j: int| 0 <= j < edges.len() && edges[j] == e;
    lemma_extended_has(source, target, paths[k], edges, j, hit);
    let more = extended(source, target, paths[k], edges, edges.len() as int, hit);
    let q = choose|q: int| 0 <= q < more.len() && more[q] == paths[k].push(e);
    let before = expanded(g, source, target, paths, k, hit);
    let here = expanded(g, source, target, paths, k + 1, hit);
    assert(here == before + more);
    assert(here[before.len() + q] == more[q]);
    lemma_expanded_prefix(g, source, target, paths, k + 1, paths.len() as int, hit);
    let all = expanded(g, source, target, paths, paths.len() as int, hit);
    assert(all[before.len() + q] == here[before.len() + q]);
}

/// The search comes along every chain that goes straight.
proof fn lemma_straight_in_frontier(
    g: IndexV,
    source: Seq<char>,
    target: Seq<char>,
    p: Seq<EdgeV>,
    n: int,
)
    requires
        is_chain(g, source, target, p),
        goes_straight(source, target, p),
        0 <= n < p.len(),
    ensures
        frontier(g, source, target, n).contains(p.take(n)),
    decreases n,
{
    let front = frontier(g, source, target, n);
    if n == 0 {
        assert(p.take(0) =~= Seq::empty());
        assert(front[0] == p.take(0));
    } else {
        lemma_straight_in_frontier(g, source, target, p, n - 1);
        let before = frontier(g, source, target, n - 1);
        let q = choose|q: int| 0 <= q < before.len() && before[q] == p.take(n - 1);
        assert(leads_on(source, p.take(n - 1), p[n - 1]));
        assert(p[n - 1].target != target);
        if n > 1 {
            assert(p.take(n - 1).last() == p[n - 2]);
            assert(p[n - 1].source == p[n - 2].target);
        }
        lemma_expanded_has(g, source, target, before, q, p[n - 1], false);
        assert(p.take(n - 1).push(p[n - 1]) =~= p.take(n));
    }
}

proof fn lemma_straight_is_reached(
    g: IndexV,
    source: Seq<char>,
    target: Seq<char>,
    p: Seq<EdgeV>,
)
    requires
        is_chain(g, source, target, p),
        goes_straight(source, target, p),
        p.len() <= MAX_DEPTH,
    ensures
        reached(g, source, target, MAX_DEPTH as int).len() > 0,
{
    let n = p.len() as int;
    lemma_straight_in_frontier(g, source, target, p, n - 1);
    let before = frontier(g, source, target, n - 1);
    let q = choose|q: int| 0 <= q < before.len() && before[q] == p.take(n - 1);
    assert(leads_on(source, p.take(n - 1), p[n - 1]));
    if n > 1 {
        assert(p.take(n - 1).last() == p[n - 2]);
        assert(p[n - 1].source == p[n - 2].target);
    }
    lemma_expanded_has(g, source, target, before, q, p[n - 1], true);
    assert(expanded(g, source, target, before, before.len() as int, true).len() > 0);
    lemma_reached_prefix(g, source, target, n, MAX_DEPTH as int);
}

/// A chain that does not go straight can be cut short.
proof fn lemma_chain_is_reached(g: IndexV, source: Seq<char>, target: Seq<char>, p: Seq<EdgeV>)
    requires
        source != target,
        is_chain(g, source, target, p),
        p.len() <= MAX_DEPTH,
    ensures
        reached(g, source, target, MAX_DEPTH as int).len() > 0,
    decreases p.len(),
{
    let n = p.len() as int;
    if goes_straight(source, target, p) {
        lemma_straight_is_reached(g, source, target, p);
    } else if exists|i: int| 0 <= i < n - 1 && (#[trigger] p[i]).target == target {
        let i = choose|i: int| 0 <= i < n - 1 && (#[trigger] p[i]).target == target;
        let q = p.take(i + 1);
        assert(q.last() == p[i]);
        lemma_chain_is_reached(g, source, target, q);
    } else if exists|i: int| 0 <= i < n && (#[trigger] p[i]).target == source {
        let i = choose|i: int| 0 <= i < n && (#[trigger] p[i]).target == source;
        assert(p.last() == p[n - 1]);
        let q = p.skip(i + 1);
        assert(q[0] == p[i + 1]);
        assert(q.last() == p.last());
        assert forall|k: int| 0 <= k < q.len() implies g.edges.contains(#[trigger] q[k]) by {
            assert(q[k] == p[k + i + 1]);
        }
        lemma_chain_is_reached(g, source, target, q);
    } else {
        let i = choose|i: int| 0 <= i < n && !leads_on(source, p.take(i), #[trigger] p[i]);
        let t = p.take(i);
        let j = choose|j: int| 0 <= j < t.len() && (#[trigger] t[j]).source == p[i].target;
        assert(t[j] == p[j]);
        if j == 0 {
            assert(p[i].target == source);
        }
        assert(p[j].source == p[j - 1].target);
        if i == n - 1 {
            assert(p.last() == p[i]);
            assert(p[j - 1].target == target);
        }
        let q = p.take(j) + p.skip(i + 1);
        assert(q[0] == p[0]);
        assert(q.last() == p.last());
        assert forall|k: int| 0 <= k < q.len() implies g.edges.contains(#[trigger] q[k]) by {
            if k < j {
                assert(q[k] == p[k]);
            } else {
                assert(q[k] == p[k - j + i + 1]);
            }
        }
        assert forall|a: int, b: int|
            #![trigger q[a], q[b]]
            0 <= a && b == a + 1 && b < q.len() implies q[b].source == q[a].target by {
            if b < j {
                assert(q[a] == p[a] && q[b] == p[b]);
            } else if a >= j {
                assert(q[a] == p[a - j + i + 1] && q[b] == p[b - j + i + 1]);
            } else {
                assert(q[a] == p[j - 1] && q[b] == p[i + 1]);
                assert(p[i + 1].source == p[i].target);
            }
        }
        lemma_chain_is_reached(g, source, target, q);
    }
}

/// No path between two components is found exactly where no chain of up to six edges
/// leads from the one to the other.
pub proof fn law_no_path_means_no_chain(
    g: IndexV,
    source: Seq<char>,
    target: Seq<char>,
    limit: nat,
)
    requires
        source != target,
    ensures
        found_paths(g, source, target, limit).len() == 0 <==> !(exists|p: Seq<EdgeV>|
            is_chain(g, source, target, p) && p.len() <= MAX_DEPTH),
{
    law_paths_found_exactly(g, source, target, limit);
    let all = reached(g, source, target, MAX_DEPTH as int);
    if all.len() > 0 {
        lemma_reached_walks(g, source, target, MAX_DEPTH as int);
        assert(is_walk(g, source, all[0]));
        assert(is_chain(g, source, target, all[0]));
    }
    if exists|p: Seq<EdgeV>| is_chain(g, source, target, p) && p.len() <= MAX_DEPTH {
        let p = choose|p: Seq<EdgeV>| is_chain(g, source, target, p) && p.len() <= MAX_DEPTH;
        lemma_chain_is_reached(g, source, target, p);
    }
}

// ---------------------------------------------------------------------------
// Searching
// ---------------------------------------------------------------------------
fn goes_on(source: &str, path: &GraphPath, e: &GraphEdge) -> (r: bool)
    ensures
        r == leads_on(source@, path@, e@),
{
    if same(e.target.as_str(), source) {
        return false;
    }
    let ghost p = path@;
    let mut i: usize = 0;
    while i < path.edges.len()
        invariant
            p == path@,
            i <= path.edges@.len(),
            forall|k: int| 0 <= k < i ==> (#[trigger] p[k]).source != e@.target,
        decreases path.edges@.len() - i,
    {
        assert(p[i as int] == path.edges@[i as int]@);
        if same(path.edges[i].source.as_str(), e.target.as_str()) {
            assert(p[i as int].source == e@.target);
            return false;
        }
        i += 1;
    }
    true
}

impl GraphIndex {
    pub fn outgoing_edges(&self, key: &str) -> (r: Vec<GraphEdge>)
        ensures
            edge_views(r@) == outgoing(self@, key@),
    {
        let ghost edges = self@.edges;
        let mut out: Vec<GraphEdge> = Vec::new();
        let mut i: usize = 0;
        assert(edge_views(out@) =~= Seq::empty());
        while i < self.edges.len()
            invariant
                edges == self@.edges,
                i <= self.edges@.len(),
                edge_views(out@) == edges_from(edges, key@, i as int),
            decreases self.edges@.len() - i,
        {
            assert(edges[i as int] == self.edges@[i as int]@);
            if same(self.edges[i].source.as_str(), key) {
                let ghost before = edge_views(out@);
                out.push(self.edges[i].copy());
                assert(edge_views(out@) =~= before.push(edges[i as int]));
            }
            i += 1;
        }
        assert(edges.len() == self.edges@.len());
        out
    }

    pub fn incoming_edges(&self, key: &str) -> (r: Vec<GraphEdge>)
        ensures
            edge_views(r@) == incoming(self@, key@),
    {
        let ghost edges = self@.edges;
        let mut out: Vec<GraphEdge> = Vec::new();
        let mut i: usize = 0;
        assert(edge_views(out@) =~= Seq::empty());
        while i < self.edges.len()
            invariant
                edges == self@.edges,
                i <= self.edges@.len(),
                edge_views(out@) == edges_to(edges, key@, i as int),
            decreases self.edges@.len() - i,
        {
            assert(edges[i as int] == self.edges@[i as int]@);
            if same(self.edges[i].target.as_str(), key) {
                let ghost before = edge_views(out@);
                out.push(self.edges[i].copy());
                assert(edge_views(out@) =~= before.push(edges[i as int]));
            }
            i += 1;
        }
        assert(edges.len() == self.edges@.len());
        out
    }

    pub fn find_paths(&self, source: &str, target: &str, limit: usize) -> (r: Vec<GraphPath>)
        ensures
            path_views(r@) == found_paths(self@, source@, target@, limit as nat),
            all_short(path_views(r@)),
    {
        if same(source, target) {
            let mut same_component: Vec<GraphPath> = Vec::new();
            same_component.push(GraphPath { edges: Vec::new() });
            assert(same_component@[0]@ =~= Seq::<EdgeV>::empty());
            assert(path_views(same_component@) =~= seq![Seq::<EdgeV>::empty()]);
            return same_component;
        }
        let found = self.search(source, target, limit);
        proof {
            lemma_short(self@, source@, target@, path_views(found@));
            law_ranked(path_views(found@), limit as nat);
            let r = ranked(path_views(found@), limit as nat);
            assert forall|i: int| 0 <= i < r.len() implies (#[trigger] r[i]).len()
                <= MAX_SCORED_EDGES by {
                assert(path_views(found@).contains(r[i]));
            }
        }
        self.rank_paths(found, limit)
    }

    /// The paths that a search by breadth finds first.
    fn search(&self, source: &str, target: &str, limit: usize) -> (r: Vec<GraphPath>)
        requires
            source@ != target@,
        ensures
            ({
                let all = reached(self@, source@, target@, MAX_DEPTH as int);
                let n = search_limit(limit as nat);
                path_views(r@) == (if all.len() <= n {
                    all
                } else {
                    all.take(n as int)
                })
            }),
    {
        let least: usize = if limit == 0 {
            1
        } else {
            limit
        };
        let most: usize = if limit > 10 {
            80
        } else {
            limit * 8
        };
        let most: usize = if most < least {
            least
        } else {
            most
        };
        let ghost g = self@;
        let ghost all = reached(g, source@, target@, MAX_DEPTH as int);
        let mut paths: Vec<GraphPath> = Vec::new();
        let mut level: Vec<GraphPath> = Vec::new();
        level.push(GraphPath { edges: Vec::new() });
        assert(level@[0]@ =~= Seq::<EdgeV>::empty());
        assert(path_views(level@) =~= frontier(g, source@, target@, 0));
        assert(path_views(paths@) =~= Seq::empty());
        let mut d: usize = 0;
        while d < MAX_DEPTH
            invariant
                g == self@,
                source@ != target@,
                most == search_limit(limit as nat),
                most >= 1,
                all == reached(g, source@, target@, MAX_DEPTH as int),
                d <= MAX_DEPTH,
                path_views(level@) == frontier(g, source@, target@, d as int),
                path_views(paths@) == reached(g, source@, target@, d as int),
                paths@.len() < most,
            decreases MAX_DEPTH - d,
        {
            let ghost front = frontier(g, source@, target@, d as int);
            let ghost base = reached(g, source@, target@, d as int);
            let mut next: Vec<GraphPath> = Vec::new();
            assert(path_views(next@) =~= Seq::empty());
            assert(front.len() == level@.len());
            assert(base + expanded(g, source@, target@, front, 0, true) =~= base);
            let mut i: usize = 0;
            while i < level.len()
                invariant
                    g == self@,
                    source@ != target@,
                    most == search_limit(limit as nat),
                    all == reached(g, source@, target@, MAX_DEPTH as int),
                    d < MAX_DEPTH,
                    front == frontier(g, source@, target@, d as int),
                    base == reached(g, source@, target@, d as int),
                    front == path_views(level@),
                    front.len() == level@.len(),
                    i <= level@.len(),
                    path_views(next@) == expanded(g, source@, target@, front, i as int, false),
                    path_views(paths@) == base + expanded(
                        g,
                        source@,
                        target@,
                        front,
                        i as int,
                        true,
                    ),
                    paths@.len() < most,
                decreases level@.len() - i,
            {
                let path = &level[i];
                let ghost p = path@;
                assert(front[i as int] == p);
                let end = if path.edges.len() == 0 {
                    source.to_owned()
                } else {
                    path.edges[path.edges.len() - 1].target.clone()
                };
                assert(end@ == path_end(source@, p)) by {
                    if p.len() > 0 {
                        assert(p.last() == path.edges@.last()@);
                    }
                }
                let edges = self.outgoing_edges(end.as_str());
                let ghost es = outgoing(g, path_end(source@, p));
                assert(es.len() == edges@.len());
                let ghost next_base = path_views(next@);
                let ghost paths_base = path_views(paths@);
                assert(next_base + extended(source@, target@, p, es, 0, false) =~= next_base);
                assert(paths_base + extended(source@, target@, p, es, 0, true) =~= paths_base);
                let mut j: usize = 0;
                while j < edges.len()
                    invariant
                        g == self@,
                        source@ != target@,
                        most == search_limit(limit as nat),
                        all == reached(g, source@, target@, MAX_DEPTH as int),
                        d < MAX_DEPTH,
                        front == frontier(g, source@, target@, d as int),
                        base == reached(g, source@, target@, d as int),
                        i < front.len(),
                        front[i as int] == p,
                        p == path@,
                        es == outgoing(g, path_end(source@, p)),
                        es == edge_views(edges@),
                        es.len() == edges@.len(),
                        j <= edges@.len(),
                        paths_base == base + expanded(
                            g,
                            source@,
                            target@,
                            front,
                            i as int,
                            true,
                        ),
                        path_views(next@) == next_base + extended(
                            source@,
                            target@,
                            p,
                            es,
                            j as int,
                            false,
                        ),
                        path_views(paths@) == paths_base + extended(
                            source@,
                            target@,
                            p,
                            es,
                            j as int,
                            true,
                        ),
                        paths@.len() < most,
                    decreases edges@.len() - j,
                {
                    let e = &edges[j];
                    assert(es[j as int] == e@);
                    if goes_on(source, path, e) {
                        let mut longer = path.copy();
                        let ghost before = longer@;
                        longer.edges.push(e.copy());
                        assert(longer@ =~= before.push(e@));
                        if same(e.target.as_str(), target) {
                            let ghost so_far = path_views(paths@);
                            paths.push(longer);
                            assert(path_views(paths@) =~= so_far.push(p.push(e@)));
                            assert(path_views(paths@) =~= paths_base + extended(
                                source@,
                                target@,
                                p,
                                es,
                                j as int + 1,
                                true,
                            ));
                            if paths.len() >= most {
                                proof {
                                    lemma_found_prefix(
                                        g,
                                        source@,
                                        target@,
                                        d as int,
                                        i as int,
                                        j as int + 1,
                                    );
                                    let pv = path_views(paths@);
                                    assert(pv.is_prefix_of(all));
                                    assert(pv.len() == most);
                                    assert(all.take(most as int) =~= pv);
                                    if all.len() <= most {
                                        assert(all =~= pv);
                                    }
                                }
                                return paths;
                            }
                        } else {
                            let ghost so_far = path_views(next@);
                            next.push(longer);
                            assert(path_views(next@) =~= so_far.push(p.push(e@)));
                            assert(path_views(next@) =~= next_base + extended(
                                source@,
                                target@,
                                p,
                                es,
                                j as int + 1,
                                false,
                            ));
                        }
                    }
                    j += 1;
                }
                assert(path_views(paths@) =~= base + expanded(
                    g,
                    source@,
                    target@,
                    front,
                    i as int + 1,
                    true,
                ));
                i += 1;
            }
            level = next;
            d += 1;
        }
        assert(path_views(paths@).len() == paths@.len());
        paths
    }

    /// What a reference means: the component that its name is first found for, else
    /// the component with its short name.
    pub open spec fn resolved(g: IndexV, value: Seq<char>) -> RefV {
        let r = ref_of(value);
        RefV {
            raw: r.raw,
            name: match alias_target(g.aliases, alias_key(r.name), 0) {
                Some(k) => k,
                None => key_of(r.name),
            },
            version: r.version,
        }
    }

    pub fn resolve(&self, value: &str) -> (r: GraphRef)
        ensures
            r@ == GraphIndex::resolved(self@, value@),
    {
        let parsed = parse_graph_ref(value);
        let name = crate::graph::graph_alias_key(parsed.name.as_str());
        let ghost aliases = self@.aliases;
        let mut i: usize = 0;
        while i < self.aliases.len()
            invariant
                aliases == self@.aliases,
                i <= self.aliases@.len(),
                parsed@ == ref_of(value@),
                name@ == alias_key(parsed@.name),
                alias_target(aliases, name@, 0) == alias_target(aliases, name@, i as int),
            decreases self.aliases@.len() - i,
        {
            assert(aliases[i as int] == self.aliases@[i as int]@);
            if same(self.aliases[i].alias.as_str(), name.as_str()) {
                let key = self.aliases[i].key.clone();
                return GraphRef { raw: parsed.raw, name: key, version: parsed.version };
            }
            i += 1;
        }
        let key = crate::graph::graph_key(parsed.name.as_str());
        GraphRef { raw: parsed.raw, name: key, version: parsed.version }
    }

    /// The direction in which two components are better connected, and its paths.
    pub open spec fn best_direction(g: IndexV, left: Seq<char>, right: Seq<char>, limit: nat) -> (
        Seq<char>,
        Seq<Seq<EdgeV>>,
    ) {
        let forward = found_paths(g, left, right, limit);
        let reverse = found_paths(g, right, left, limit);
        if forward.len() > 0 && reverse.len() > 0 {
            if path_score(forward[0]) >= path_score(reverse[0]) {
                ("left_to_right"@, forward)
            } else {
                ("right_to_left"@, reverse)
            }
        } else if forward.len() > 0 {
            ("left_to_right"@, forward)
        } else if reverse.len() > 0 {
            ("right_to_left"@, reverse)
        } else {
            ("none"@, Seq::empty())
        }
    }

    pub fn best_directional_path(&self, left: &str, right: &str, limit: usize) -> (r: (
        &'static str,
        Vec<GraphPath>,
    ))
        ensures
            (r.0@, path_views(r.1@)) == GraphIndex::best_direction(
                self@,
                left@,
                right@,
                limit as nat,
            ),
            all_short(path_views(r.1@)),
    {
        let forward = self.find_paths(left, right, limit);
        let reverse = self.find_paths(right, left, limit);
        assert(path_views(forward@).len() == forward@.len());
        assert(path_views(reverse@).len() == reverse@.len());
        if forward.len() > 0 && reverse.len() > 0 {
            assert(path_views(forward@)[0] == forward@[0]@);
            assert(path_views(reverse@)[0] == reverse@[0]@);
            if wide_score(&forward[0]) >= wide_score(&reverse[0]) {
                ("left_to_right", forward)
            } else {
                ("right_to_left", reverse)
            }
        } else if forward.len() > 0 {
            ("left_to_right", forward)
        } else if reverse.len() > 0 {
            ("right_to_left", reverse)
        } else {
            let none: Vec<GraphPath> = Vec::new();
            assert(path_views(none@) =~= Seq::empty());
            ("none", none)
        }
    }
}

proof fn lemma_short(g: IndexV, source: Seq<char>, target: Seq<char>, paths: Seq<Seq<EdgeV>>)
    requires
        paths.is_prefix_of(reached(g, source, target, MAX_DEPTH as int)),
    ensures
        all_short(paths),
{
    lemma_reached_walks(g, source, target, MAX_DEPTH as int);
    assert forall|i: int| 0 <= i < paths.len() implies (#[trigger] paths[i]).len()
        <= MAX_SCORED_EDGES by {
        assert(paths[i] == reached(g, source, target, MAX_DEPTH as int)[i]);
    }
}

} // verus!
