//! What the graph keeps of the facts that it was made of, and how its paths are judged,
//! ranked and answered.
use vstd::prelude::*;
use crate::answer_laws::{law_edge_is_shown, shows_component, shows_edges, tells_against};
use crate::answers::{
    cand_json, candidates_for, edges_json, first_cands, first_edges, match_json, name_matches,
    node_json, path_json, resolve_json, status_json, versions_json, CandV,
};
use crate::facts::short_name;
use crate::graph::{
    alias_key, alias_keys, alias_target, edge_key, has_edge, key_of, node_at, node_index, ref_of,
    reverse_edge, variants_of, with_alias, with_component, with_edge, with_edge_rows, with_node,
    with_opt_alias, with_variants, AliasV, EdgeV, GraphIndex, IndexV, NodeV,
};
use crate::json::{lemma_get_with, lemma_with_is_object, JsonV};
use crate::order::{lemma_sorted_by, lemma_sorted_by_contains, sorted_by};
use crate::paths::{
    edges_from, edges_to, found_paths, incoming, law_ranked, outgoing, path_reasons, path_score,
    rank_rule, ranked, reached, search_limit,
};
use crate::text::{decimal, decimal_int, lower, set_put, text_less, trim};
use crate::text_laws::mark;

verus! {

proof fn lemma_path_members()
    ensures
        mark("confidence"@) == 10010109910,
        mark("edges"@) == 10311510105,
        mark("length"@) == 10310410806,
        mark("nodes"@) == 10011511005,
        mark("reasons"@) == 11511511407,
        mark("score"@) == 11110111505,
{
    reveal_strlit("confidence");
    reveal_strlit("edges");
    reveal_strlit("length");
    reveal_strlit("nodes");
    reveal_strlit("reasons");
    reveal_strlit("score");
}

proof fn lemma_status_members()
    ensures
        mark("component"@) == 11111609909,
        mark("incoming"@) == 10910310508,
        mark("incomingCount"@) == 11011610513,
        mark("kind"@) == 11010010704,
        mark("outgoing"@) == 11110311108,
        mark("outgoingCount"@) == 11011611113,
{
    reveal_strlit("component");
    reveal_strlit("incoming");
    reveal_strlit("incomingCount");
    reveal_strlit("kind");
    reveal_strlit("outgoing");
    reveal_strlit("outgoingCount");
}

proof fn lemma_versions_members()
    ensures
        mark("component"@) == 11111609909,
        mark("for"@) == 11111410203,
        mark("kind"@) == 11010010704,
        mark("versionCandidates"@) == 9711511817,
        mark("versions"@) == 10511511808,
{
    reveal_strlit("component");
    reveal_strlit("for");
    reveal_strlit("kind");
    reveal_strlit("versionCandidates");
    reveal_strlit("versions");
}

proof fn lemma_candidate_members()
    ensures
        "confidence"@ != "pathCount"@,
        "confidence"@ != "score"@,
        "confidence"@ != "version"@,
        "pathCount"@ != "score"@,
        "pathCount"@ != "version"@,
        "score"@ != "version"@,
{
    reveal_strlit("confidence");
    reveal_strlit("pathCount");
    reveal_strlit("score");
    reveal_strlit("version");
    assert("confidence"@.len() != "pathCount"@.len());
    assert("confidence"@.len() != "score"@.len());
    assert("confidence"@.len() != "version"@.len());
    assert("pathCount"@.len() != "score"@.len());
    assert("pathCount"@.len() != "version"@.len());
    assert("score"@.len() != "version"@.len());
}

proof fn lemma_resolve_members()
    ensures
        mark("ambiguous"@) == 10311509709,
        mark("kind"@) == 11010010704,
        mark("matchCount"@) == 6711610910,
        mark("matches"@) == 9911510907,
        mark("name"@) == 10910111004,
        mark("requested"@) == 10110011409,
        mark("resolved"@) == 10810011408,
        mark("version"@) == 11511011807,
        mark("warnings"@) == 10511511908,
{
    reveal_strlit("ambiguous");
    reveal_strlit("kind");
    reveal_strlit("matchCount");
    reveal_strlit("matches");
    reveal_strlit("name");
    reveal_strlit("requested");
    reveal_strlit("resolved");
    reveal_strlit("version");
    reveal_strlit("warnings");
}

proof fn lemma_match_members()
    ensures
        "aliasKinds"@ != "incomingCount"@,
        "aliasKinds"@ != "node"@,
        "aliasKinds"@ != "outgoingCount"@,
        "incomingCount"@ != "node"@,
        "incomingCount"@ != "outgoingCount"@,
        "node"@ != "outgoingCount"@,
{
    reveal_strlit("aliasKinds");
    reveal_strlit("incomingCount");
    reveal_strlit("node");
    reveal_strlit("outgoingCount");
    assert("aliasKinds"@.len() != "incomingCount"@.len());
    assert("aliasKinds"@.len() != "node"@.len());
    assert("aliasKinds"@.len() != "outgoingCount"@.len());
    assert("incomingCount"@.len() != "node"@.len());
    assert("incomingCount"@[0] != "outgoingCount"@[0]);
    assert("node"@.len() != "outgoingCount"@.len());
}

// ---------------------------------------------------------------------------
// Scores
// ---------------------------------------------------------------------------
/// Whether an edge with the status speaks for a connection.
pub open spec fn speaks_for(status: Option<Seq<char>>) -> bool {
    match status {
        Some(s) => {
            let word = lower(s);
            ||| word == "compatible"@
            ||| word == "passed"@
            ||| word == "observed"@
            ||| word == "candidate"@
            ||| word == "valid"@
            ||| word == "ready"@
            ||| word == "success"@
            ||| word == "succeeded"@
        },
        None => false,
    }
}

/// Whether an edge rests on facts at both ends, and a version of one of them is known.
pub open spec fn rests_on_facts(e: EdgeV) -> bool {
    e.source_fact_id is Some && e.target_fact_id is Some && (e.source_version is Some
        || e.target_version is Some)
}

pub open spec fn some_against(p: Seq<EdgeV>) -> bool {
    exists|i: int| 0 <= i < p.len() && tells_against((#[trigger] p[i]).status)
}

pub open spec fn all_for(p: Seq<EdgeV>) -> bool {
    forall|i: int| 0 <= i < p.len() ==> speaks_for((#[trigger] p[i]).status)
}

pub open spec fn all_rest(p: Seq<EdgeV>) -> bool {
    forall|i: int| 0 <= i < p.len() ==> rests_on_facts(#[trigger] p[i])
}

/// What a path scores: each edge costs eight of a hundred; one edge alone gains ten; an
/// edge that tells against the connection costs seventy, and twenty are gained where all
/// speak for it; fifteen are gained where all rest on facts with versions, else ten are
/// lost. A path is relied on by its score, unless an edge tells against it: then it is
/// blocked.
pub proof fn law_path_is_judged(g: IndexV, p: Seq<EdgeV>)
    requires
        p.len() > 0,
    ensures
        ({
            let score = 100 - 8 * p.len() + (if p.len() == 1 {
                10int
            } else {
                0
            }) + (if some_against(p) {
                -70int
            } else if all_for(p) {
                20
            } else {
                0
            }) + (if all_rest(p) {
                15int
            } else {
                -10
            });
            let v = path_json(g, p);
            &&& path_score(p) == score
            &&& v.get("score"@) == Some(JsonV::Number(decimal_int(score)))
            &&& v.text_at("confidence"@) == Some(
                if some_against(p) {
                    "blocked"@
                } else if score >= 120 {
                    "high"@
                } else if score >= 75 {
                    "medium"@
                } else {
                    "low"@
                },
            )
        }),
{
    broadcast use {lemma_get_with, lemma_with_is_object};

    lemma_path_members();
    lemma_same_judgement(p);
}

proof fn lemma_same_judgement(p: Seq<EdgeV>)
    ensures
        crate::paths::some_invalid(p) == some_against(p),
        crate::paths::all_positive(p) == all_for(p),
        crate::paths::all_evidenced(p) == all_rest(p),
{
    if some_against(p) {
        let i = choose|i: int| 0 <= i < p.len() && tells_against((#[trigger] p[i]).status);
        assert(crate::graph::invalid_status(p[i].status));
    }
    if crate::paths::some_invalid(p) {
        let i = choose|i: int|
            0 <= i < p.len() && crate::graph::invalid_status((#[trigger] p[i]).status);
        assert(tells_against(p[i].status));
    }
    assert forall|i: int| 0 <= i < p.len() implies crate::graph::positive_status(
        (#[trigger] p[i]).status,
    ) == speaks_for(p[i].status) by {}
    if all_for(p) {
        assert forall|i: int| 0 <= i < p.len() implies crate::graph::positive_status(
            (#[trigger] p[i]).status,
        ) by {
            assert(speaks_for(p[i].status));
        }
    }
    if crate::paths::all_positive(p) {
        assert forall|i: int| 0 <= i < p.len() implies speaks_for((#[trigger] p[i]).status) by {
            assert(crate::graph::positive_status(p[i].status));
        }
    }
    if all_rest(p) {
        assert forall|i: int| 0 <= i < p.len() implies crate::paths::evidenced(
            #[trigger] p[i],
        ) by {
            assert(rests_on_facts(p[i]));
        }
    }
    if crate::paths::all_evidenced(p) {
        assert forall|i: int| 0 <= i < p.len() implies rests_on_facts(#[trigger] p[i]) by {
            assert(crate::paths::evidenced(p[i]));
        }
    }
}

/// A component and itself are connected with high confidence.
pub proof fn law_same_component_is_judged(g: IndexV)
    ensures
        ({
            let v = path_json(g, Seq::empty());
            &&& path_score(Seq::empty()) == 100
            &&& v.get("score"@) == Some(JsonV::Number(decimal_int(100)))
            &&& v.text_at("confidence"@) == Some("high"@)
            &&& v.items_at("reasons"@).len() == 1
            &&& v.items_at("reasons"@)[0] == JsonV::Text("same component"@)
        }),
{
    broadcast use {lemma_get_with, lemma_with_is_object};

    lemma_path_members();
}

/// The reasons of a judgement are told: whether the evidence is direct, whether it tells
/// for or against the connection, and whether it is complete.
pub proof fn law_path_reasons_are_told(g: IndexV, p: Seq<EdgeV>)
    requires
        p.len() > 0,
    ensures
        ({
            let told = path_json(g, p).items_at("reasons"@);
            &&& told.len() == (if some_against(p) || all_for(p) {
                3int
            } else {
                2
            })
            &&& told[0] == JsonV::Text(
                if p.len() == 1 {
                    "direct evidence"@
                } else {
                    "inferred multi-hop path"@
                },
            )
            &&& some_against(p) ==> told[1] == JsonV::Text("contains blocked or failed evidence"@)
            &&& !some_against(p) && all_for(p) ==> told[1] == JsonV::Text(
                "all edge statuses are passing"@,
            )
            &&& told.last() == JsonV::Text(
                if all_rest(p) {
                    "versioned fact evidence"@
                } else {
                    "some version or fact details are missing"@
                },
            )
        }),
{
    broadcast use {lemma_get_with, lemma_with_is_object};

    lemma_path_members();
    lemma_same_judgement(p);
    let told = path_json(g, p).items_at("reasons"@);
    let reasons = path_reasons(p);
    assert(told.len() == reasons.len());
    assert forall|i: int| 0 <= i < told.len() implies #[trigger] told[i] == JsonV::Text(reasons[i]) by {}
}

// ---------------------------------------------------------------------------
// Ranking
// ---------------------------------------------------------------------------
/// The paths that are answered stand by their scores, the best first; of two that score
/// alike the shorter stands first. As many are answered as are asked for, at least one, or
/// as there are; and where no more were found than the search looks for, none that is left
/// out scores better than one that is answered.
pub proof fn law_best_paths_first(
    g: IndexV,
    source: Seq<char>,
    target: Seq<char>,
    limit: nat,
    q: Seq<EdgeV>,
)
    requires
        source != target,
    ensures
        ({
            let all = reached(g, source, target, 6);
            let r = found_paths(g, source, target, limit);
            let wanted = if limit == 0 {
                1
            } else {
                limit
            };
            &&& r.len() == (if all.len() < wanted {
                all.len()
            } else {
                wanted
            })
            &&& forall|i: int, j: int|
                0 <= i < j < r.len() ==> path_score(#[trigger] r[i]) > path_score(
                    #[trigger] r[j],
                ) || (path_score(r[i]) == path_score(r[j]) && r[i].len() <= r[j].len())
            &&& all.contains(q) && !r.contains(q) && (all.len() <= wanted || (all.len() <= 8 * limit
                && all.len() <= 80)) ==> forall|i: int|
                0 <= i < r.len() ==> path_score(#[trigger] r[i]) >= path_score(q)
        }),
{
    let all = reached(g, source, target, 6);
    let n = search_limit(limit);
    let first = if all.len() <= n {
        all
    } else {
        all.take(n as int)
    };
    law_ranked(first, limit);
    let r = found_paths(g, source, target, limit);
    let sorted = sorted_by(first, rank_rule());
    crate::paths::lemma_rank_rule();
    lemma_sorted_by(first, rank_rule());
    lemma_sorted_by_contains(first, rank_rule());
    assert(r == ranked(first, limit));
    assert forall|i: int, j: int| 0 <= i < j < r.len() implies path_score(#[trigger] r[i])
        > path_score(#[trigger] r[j]) || (path_score(r[i]) == path_score(r[j]) && r[i].len()
        <= r[j].len()) by {
        assert(!(rank_rule())(r[j], r[i]));
    }
    if all.contains(q) && !r.contains(q) && first == all {
        lemma_in_sorted(first, q);
        let k = choose|k: int| 0 <= k < sorted.len() && sorted[k] == q;
        if k < r.len() {
            assert(r[k] == sorted[k]);
        }
        assert forall|i: int| 0 <= i < r.len() implies path_score(#[trigger] r[i]) >= path_score(
            q,
        ) by {
            assert(r[i] == sorted[i]);
            assert(!(rank_rule())(sorted[k], sorted[i]));
        }
    }
}

proof fn lemma_in_sorted(paths: Seq<Seq<EdgeV>>, q: Seq<EdgeV>)
    requires
        paths.contains(q),
    ensures
        sorted_by(paths, rank_rule()).contains(q),
{
    broadcast use vstd::seq_lib::group_to_multiset_ensures;

    crate::paths::lemma_rank_rule();
    lemma_sorted_by(paths, rank_rule());
    let r = sorted_by(paths, rank_rule());
    assert(r.to_multiset().count(q) == paths.to_multiset().count(q));
}

// ---------------------------------------------------------------------------
// Edges of a component
// ---------------------------------------------------------------------------
proof fn lemma_leaving(edges: Seq<EdgeV>, key: Seq<char>, n: int)
    requires
        0 <= n <= edges.len(),
    ensures
        edges_from(edges, key, n) == edges.take(n).filter(|e: EdgeV| e.source == key),
        edges_to(edges, key, n) == edges.take(n).filter(|e: EdgeV| e.target == key),
    decreases n,
{
    reveal(Seq::filter);
    if n > 0 {
        lemma_leaving(edges, key, n - 1);
        assert(edges.take(n).drop_last() =~= edges.take(n - 1));
        assert(edges.take(n).last() == edges[n - 1]);
    } else {
        assert(edges.take(n).filter(|e: EdgeV| e.source == key) =~= Seq::empty());
        assert(edges.take(n).filter(|e: EdgeV| e.target == key) =~= Seq::empty());
    }
}

/// The first items of a list, as many as asked for.
pub open spec fn first_of<A>(s: Seq<A>, limit: nat) -> Seq<A> {
    if s.len() <= limit {
        s
    } else {
        s.take(limit as int)
    }
}

/// The status of a component tells how many edges of the graph leave it and how many reach
/// it, and shows the first of each.
pub proof fn law_status_tells_edges(g: IndexV, component: Seq<char>, limit: nat)
    ensures
        ({
            let answer = status_json(g, component, limit);
            let key = GraphIndex::resolved(g, component).name;
            let leaving = g.edges.filter(|e: EdgeV| e.source == key);
            let reaching = g.edges.filter(|e: EdgeV| e.target == key);
            &&& answer.text_at("kind"@) == Some("graph-status"@)
            &&& answer.get("component"@) is Some && shows_component(
                answer.get("component"@)->Some_0,
                key,
            )
            &&& answer.get("outgoingCount"@) == Some(JsonV::Number(decimal(leaving.len())))
            &&& answer.get("incomingCount"@) == Some(JsonV::Number(decimal(reaching.len())))
            &&& shows_edges(answer.items_at("outgoing"@), first_of(leaving, limit))
            &&& shows_edges(answer.items_at("incoming"@), first_of(reaching, limit))
        }),
{
    broadcast use {lemma_get_with, lemma_with_is_object};

    lemma_status_members();
    let key = GraphIndex::resolved(g, component).name;
    lemma_leaving(g.edges, key, g.edges.len() as int);
    assert(g.edges.take(g.edges.len() as int) =~= g.edges);
    crate::answer_laws::law_component_is_shown(g, key, component);
    let a = first_edges(outgoing(g, key), limit);
    let b = first_edges(incoming(g, key), limit);
    assert forall|i: int| 0 <= i < a.len() implies crate::answer_laws::shows_edge(
        #[trigger] edges_json(g, a)[i],
        a[i],
    ) by {
        law_edge_is_shown(g, a[i]);
    }
    assert forall|i: int| 0 <= i < b.len() implies crate::answer_laws::shows_edge(
        #[trigger] edges_json(g, b)[i],
        b[i],
    ) by {
        law_edge_is_shown(g, b[i]);
    }
}

// ---------------------------------------------------------------------------
// Versions
// ---------------------------------------------------------------------------
/// The answer about versions shows the best candidates, as many as asked for, each with its
/// version, score, confidence and count.
pub proof fn law_versions_answer_shows_candidates(
    g: IndexV,
    component: Seq<char>,
    other: Seq<char>,
    limit: nat,
)
    ensures
        ({
            let answer = versions_json(g, component, other, limit);
            let key = GraphIndex::resolved(g, component).name;
            let c = candidates_for(g, key, GraphIndex::resolved(g, other).name, limit);
            let versions = answer.items_at("versions"@);
            let shown = answer.items_at("versionCandidates"@);
            &&& answer.text_at("kind"@) == Some("graph-versions-for"@)
            &&& answer.get("component"@) is Some && shows_component(
                answer.get("component"@)->Some_0,
                key,
            )
            &&& answer.get("for"@) is Some && shows_component(
                answer.get("for"@)->Some_0,
                GraphIndex::resolved(g, other).name,
            )
            &&& versions.len() == (if c.len() <= limit {
                c.len()
            } else {
                limit
            })
            &&& shown.len() == versions.len()
            &&& forall|i: int|
                0 <= i < versions.len() ==> #[trigger] versions[i] == JsonV::Text(c[i].version)
            &&& forall|i: int|
                0 <= i < shown.len() ==> {
                    &&& (#[trigger] shown[i]).text_at("version"@) == Some(c[i].version)
                    &&& shown[i].get("score"@) == Some(JsonV::Number(decimal_int(c[i].score)))
                    &&& shown[i].text_at("confidence"@) == Some(c[i].confidence)
                    &&& shown[i].get("pathCount"@) == Some(
                        JsonV::Number(decimal(c[i].path_count)),
                    )
                }
        }),
{
    broadcast use {lemma_get_with, lemma_with_is_object};

    lemma_versions_members();
    lemma_candidate_members();
    let key = GraphIndex::resolved(g, component).name;
    let o = GraphIndex::resolved(g, other).name;
    crate::answer_laws::law_component_is_shown(g, key, component);
    crate::answer_laws::law_component_is_shown(g, o, other);
    let best = first_cands(candidates_for(g, key, o, limit), limit);
    let shown = versions_json(g, component, other, limit).items_at("versionCandidates"@);
    assert(shown == best.map_values(|c: CandV| cand_json(c)));
    assert forall|i: int| 0 <= i < shown.len() implies #[trigger] shown[i] == cand_json(best[i]) by {}
}

// ---------------------------------------------------------------------------
// Names
// ---------------------------------------------------------------------------
proof fn lemma_alias_target(aliases: Seq<AliasV>, name: Seq<char>, i: int)
    requires
        0 <= i,
    ensures
        match alias_target(aliases, name, i) {
            Some(key) => exists|j: int|
                i <= j < aliases.len() && (#[trigger] aliases[j]).alias == name && aliases[j].key
                    == key && forall|k: int|
                    i <= k < j ==> (#[trigger] aliases[k]).alias != name,
            None => forall|j: int| i <= j < aliases.len() ==> (#[trigger] aliases[j]).alias != name,
        },
    decreases aliases.len() - i,
{
    if i < aliases.len() && aliases[i].alias != name {
        lemma_alias_target(aliases, name, i + 1);
    }
}

/// A name means the component that the graph first knew under it, whatever its case and
/// the space around it; a name that the graph does not know means the component with its
/// short name.
pub proof fn law_name_means_component(g: IndexV, value: Seq<char>)
    ensures
        ({
            let name = ref_of(value).name;
            let sought = lower(trim(name));
            let meant = GraphIndex::resolved(g, value).name;
            &&& GraphIndex::resolved(g, value).version == ref_of(value).version
            &&& (exists|i: int| {
                &&& 0 <= i < g.aliases.len()
                &&& (#[trigger] g.aliases[i]).alias == sought
                &&& meant == g.aliases[i].key
                &&& forall|k: int| 0 <= k < i ==> (#[trigger] g.aliases[k]).alias != sought
            }) || (meant == lower(short_name(name)) && forall|i: int|
                0 <= i < g.aliases.len() ==> (#[trigger] g.aliases[i]).alias != sought)
        }),
{
    lemma_alias_target(g.aliases, alias_key(ref_of(value).name), 0);
}

proof fn lemma_set_put(s: Seq<Seq<char>>, k: Seq<char>, x: Seq<char>)
    ensures
        set_put(s, k).contains(x) <==> s.contains(x) || x == k,
    decreases s.len(),
{
    let r = set_put(s, k);
    if s.len() == 0 {
        assert(r[0] == k);
    } else if s[0] == k {
        assert(s.contains(k));
    } else if text_less(k, s[0]) {
        assert(r[0] == k);
        if s.contains(x) {
            let i = choose|i: int| 0 <= i < s.len() && s[i] == x;
            assert(r[i + 1] == x);
        }
        if r.contains(x) && x != k {
            let i = choose|i: int| 0 <= i < r.len() && r[i] == x;
            assert(s[i - 1] == x);
        }
    } else {
        lemma_set_put(s.skip(1), k, x);
        let t = set_put(s.skip(1), k);
        assert(r == seq![s[0]] + t);
        if t.contains(x) {
            let i = choose|i: int| 0 <= i < t.len() && t[i] == x;
            assert(r[i + 1] == x);
        }
        if s.skip(1).contains(x) {
            let i = choose|i: int| 0 <= i < s.skip(1).len() && s.skip(1)[i] == x;
            assert(s[i + 1] == x);
        }
        if s.contains(x) {
            let i = choose|i: int| 0 <= i < s.len() && s[i] == x;
            if i == 0 {
                assert(r[0] == x);
            } else {
                assert(s.skip(1)[i - 1] == x);
            }
        }
        if r.contains(x) {
            let i = choose|i: int| 0 <= i < r.len() && r[i] == x;
            if i == 0 {
                assert(s[0] == x);
            } else {
                assert(t[i - 1] == x);
            }
        }
    }
}

proof fn lemma_alias_keys(aliases: Seq<AliasV>, name: Seq<char>, n: int, key: Seq<char>)
    requires
        0 <= n <= aliases.len(),
    ensures
        alias_keys(aliases, name, n).contains(key) <==> exists|i: int|
            0 <= i < n && (#[trigger] aliases[i]).alias == name && aliases[i].key == key,
    decreases n,
{
    if n > 0 {
        lemma_alias_keys(aliases, name, n - 1, key);
        lemma_set_put(alias_keys(aliases, name, n - 1), aliases[n - 1].key, key);
    }
}

/// The answer about a name shows every component that the graph knows under it, and tells
/// that the name is ambiguous exactly where there is more than one.
pub proof fn law_resolve_shows_matches(g: IndexV, value: Seq<char>, key: Seq<char>)
    ensures
        ({
            let answer = resolve_json(g, value);
            let sought = lower(trim(ref_of(value).name));
            let matches = answer.items_at("matches"@);
            let known = exists|i: int|
                0 <= i < g.aliases.len() && (#[trigger] g.aliases[i]).alias == sought;
            &&& answer.text_at("kind"@) == Some("graph-resolve"@)
            &&& answer.text_at("requested"@) == Some(value)
            &&& answer.text_at("name"@) == Some(ref_of(value).name)
            &&& answer.text_at("version"@) == ref_of(value).version
            &&& answer.get("resolved"@) is Some && shows_component(
                answer.get("resolved"@)->Some_0,
                GraphIndex::resolved(g, value).name,
            )
            &&& answer.get("matchCount"@) == Some(JsonV::Number(decimal(matches.len())))
            &&& answer.bool_at("ambiguous"@) == Some(matches.len() > 1)
            &&& matches.len() >= 1
            &&& known ==> ((exists|k: int|
                0 <= k < matches.len() && shows_component(
                    #[trigger] matches[k].get("node"@)->Some_0,
                    key,
                )) <==> exists|i: int|
                0 <= i < g.aliases.len() && (#[trigger] g.aliases[i]).alias == sought
                    && g.aliases[i].key == key)
            &&& !known ==> matches.len() == 1 && shows_component(
                matches[0].get("node"@)->Some_0,
                GraphIndex::resolved(g, value).name,
            )
            &&& matches.len() > 1 ==> answer.items_at("warnings"@).len() > 0
        }),
{
    broadcast use {lemma_get_with, lemma_with_is_object};

    lemma_resolve_members();
    lemma_match_members();
    let answer = resolve_json(g, value);
    let sought = alias_key(ref_of(value).name);
    let keys = name_matches(g, value);
    let found = alias_keys(g.aliases, sought, g.aliases.len() as int);
    let matches = answer.items_at("matches"@);
    assert(matches == keys.map_values(|k: Seq<char>| match_json(g, k, value)));
    crate::answer_laws::law_component_is_shown(g, GraphIndex::resolved(g, value).name, value);
    assert forall|k: int| 0 <= k < matches.len() implies (#[trigger] matches[k]).get("node"@)
        == Some(node_json(g, keys[k], value)) && shows_component(
        matches[k].get("node"@)->Some_0,
        keys[k],
    ) by {
        crate::answer_laws::law_component_is_shown(g, keys[k], value);
    }
    lemma_alias_keys(g.aliases, sought, g.aliases.len() as int, key);
    let known = exists|i: int|
        0 <= i < g.aliases.len() && (#[trigger] g.aliases[i]).alias == sought;
    if known {
        let i = choose|i: int| 0 <= i < g.aliases.len() && (#[trigger] g.aliases[i]).alias == sought;
        lemma_alias_keys(g.aliases, sought, g.aliases.len() as int, g.aliases[i].key);
        assert(found.contains(g.aliases[i].key));
        assert(found.len() > 0);
        assert(keys == found);
        if found.contains(key) {
            let k = choose|k: int| 0 <= k < found.len() && found[k] == key;
            assert(shows_component(matches[k].get("node"@)->Some_0, key));
        }
        if exists|k: int|
            0 <= k < matches.len() && shows_component(
                #[trigger] matches[k].get("node"@)->Some_0,
                key,
            ) {
            let k = choose|k: int|
                0 <= k < matches.len() && shows_component(
                    #[trigger] matches[k].get("node"@)->Some_0,
                    key,
                );
            assert(keys[k] == key);
        }
    } else {
        if found.len() > 0 {
            lemma_alias_keys(g.aliases, sought, g.aliases.len() as int, found[0]);
            assert(found.contains(found[0]));
        }
        assert(keys.len() == 1);
    }
}

// ---------------------------------------------------------------------------
// What the graph is made of
// ---------------------------------------------------------------------------
/// Whether two edges say the same: they connect the same components in the same way, by
/// the same capability and version.
pub open spec fn say_same(a: EdgeV, b: EdgeV) -> bool {
    said(a) == said(b)
}

/// What an edge says, in one text: a part that is not there is empty.
pub open spec fn said(e: EdgeV) -> Seq<char> {
    e.source + "\0"@ + e.target + "\0"@ + e.relationship + "\0"@ + (match e.capability {
        Some(c) => c,
        None => ""@,
    }) + "\0"@ + (match e.capability_version {
        Some(v) => v,
        None => ""@,
    })
}

/// Whether an edge was read, or is the reverse of a membership that was.
pub open spec fn comes_from(e: EdgeV, rows: Seq<EdgeV>, n: int) -> bool {
    exists|i: int|
        0 <= i < n && (e == (#[trigger] rows[i]) || (rows[i].relationship == "contains"@ && e
            == turned(rows[i])))
}

proof fn lemma_with_edge(edges: Seq<EdgeV>, e: EdgeV)
    ensures
        edges.is_prefix_of(with_edge(edges, e)),
        is_said(with_edge(edges, e), e),
        forall|k: int|
            0 <= k < with_edge(edges, e).len() ==> edges.contains(
                #[trigger] with_edge(edges, e)[k],
            ) || with_edge(edges, e)[k] == e,
{
    let r = with_edge(edges, e);
    if has_edge(edges, e) {
        let i = choose|i: int| 0 <= i < edges.len() && edge_key(#[trigger] edges[i]) == edge_key(e);
        assert(say_same(r[i], e));
    } else {
        assert(say_same(r[r.len() - 1], e));
    }
    assert forall|k: int| 0 <= k < r.len() implies edges.contains(#[trigger] r[k]) || r[k] == e by {
        if k < edges.len() {
            assert(edges[k] == r[k]);
        }
    }
}

pub open spec fn only_read(edges: Seq<EdgeV>, rows: Seq<EdgeV>, n: int) -> bool {
    forall|k: int| 0 <= k < edges.len() ==> comes_from(#[trigger] edges[k], rows, n)
}

pub open spec fn is_said(edges: Seq<EdgeV>, e: EdgeV) -> bool {
    exists|k: int| 0 <= k < edges.len() && say_same(#[trigger] edges[k], e)
}

pub open spec fn none_lost(edges: Seq<EdgeV>, rows: Seq<EdgeV>, n: int) -> bool {
    forall|i: int| 0 <= i < n ==> is_said(edges, #[trigger] rows[i])
}

/// An edge as the membership that it is in the other direction.
pub open spec fn turned(e: EdgeV) -> EdgeV {
    EdgeV {
        source: e.target,
        target: e.source,
        relationship: "member-of"@,
        capability: e.capability,
        capability_version: e.capability_version,
        source_version: e.target_version,
        target_version: e.source_version,
        source_fact_id: e.target_fact_id,
        target_fact_id: e.source_fact_id,
        status: e.status,
        observed_at: e.observed_at,
    }
}

pub open spec fn memberships_turned(edges: Seq<EdgeV>, rows: Seq<EdgeV>, n: int) -> bool {
    forall|i: int|
        0 <= i < n && (#[trigger] rows[i]).relationship == "contains"@ ==> is_said(
            edges,
            turned(rows[i]),
        )
}

proof fn lemma_said_longer(a: Seq<EdgeV>, b: Seq<EdgeV>, e: EdgeV)
    requires
        a.is_prefix_of(b),
        is_said(a, e),
    ensures
        is_said(b, e),
{
    let k = choose|k: int| 0 <= k < a.len() && say_same(#[trigger] a[k], e);
    assert(b[k] == a[k]);
}

proof fn lemma_only_read_step(before: Seq<EdgeV>, rows: Seq<EdgeV>, n: int)
    requires
        0 < n <= rows.len(),
        only_read(before, rows, n - 1),
    ensures
        only_read(with_edge(before, rows[n - 1]), rows, n),
        rows[n - 1].relationship == "contains"@ ==> only_read(
            with_edge(with_edge(before, rows[n - 1]), reverse_edge(rows[n - 1])),
            rows,
            n,
        ),
{
    let e = rows[n - 1];
    let one = with_edge(before, e);
    let two = with_edge(one, reverse_edge(e));
    lemma_with_edge(before, e);
    assert forall|k: int| 0 <= k < one.len() implies comes_from(#[trigger] one[k], rows, n) by {
        if one[k] == e {
            assert(rows[n - 1] == e);
        } else {
            let q = choose|q: int| 0 <= q < before.len() && before[q] == one[k];
            assert(comes_from(before[q], rows, n - 1));
            let i = choose|i: int|
                0 <= i < n - 1 && (before[q] == (#[trigger] rows[i]) || (rows[i].relationship
                    == "contains"@ && before[q] == turned(rows[i])));
            assert(rows[i] == rows[i]);
        }
    }
    if e.relationship == "contains"@ {
        lemma_with_edge(one, reverse_edge(e));
        assert forall|k: int| 0 <= k < two.len() implies comes_from(#[trigger] two[k], rows, n) by {
            if two[k] == reverse_edge(e) {
                assert(rows[n - 1] == e);
                assert(two[k] == turned(e));
            } else {
                let q = choose|q: int| 0 <= q < one.len() && one[q] == two[k];
                assert(comes_from(one[q], rows, n));
            }
        }
    }
}

proof fn lemma_with_edge_keeps(edges: Seq<EdgeV>, e: EdgeV)
    ensures
        edges.is_prefix_of(with_edge(edges, e)),
        is_said(with_edge(edges, e), e),
{
    lemma_with_edge(edges, e);
}

proof fn lemma_kept_step(before: Seq<EdgeV>, edges: Seq<EdgeV>, rows: Seq<EdgeV>, n: int)
    requires
        0 < n <= rows.len(),
        before.is_prefix_of(edges),
        none_lost(before, rows, n - 1),
        memberships_turned(before, rows, n - 1),
        is_said(edges, rows[n - 1]),
        rows[n - 1].relationship == "contains"@ ==> is_said(edges, turned(rows[n - 1])),
    ensures
        none_lost(edges, rows, n),
        memberships_turned(edges, rows, n),
{
    assert forall|i: int| 0 <= i < n implies is_said(edges, #[trigger] rows[i]) by {
        if i < n - 1 {
            lemma_said_longer(before, edges, rows[i]);
        }
    }
    assert forall|i: int|
        0 <= i < n && (#[trigger] rows[i]).relationship == "contains"@ implies is_said(
        edges,
        turned(rows[i]),
    ) by {
        if i < n - 1 {
            lemma_said_longer(before, edges, turned(rows[i]));
        }
    }
}

/// The edges of a graph are those that were read, and for each membership its reverse:
/// nothing else is added, and nothing that was read is lost, though of edges that say the
/// same only the first is kept.
pub proof fn law_graph_holds_read_edges(rows: Seq<EdgeV>, n: int)
    requires
        0 <= n <= rows.len(),
    ensures
        only_read(with_edge_rows(Seq::empty(), rows, n), rows, n),
        none_lost(with_edge_rows(Seq::empty(), rows, n), rows, n),
        memberships_turned(with_edge_rows(Seq::empty(), rows, n), rows, n),
    decreases n,
{
    if n > 0 {
        law_graph_holds_read_edges(rows, n - 1);
        let edges = with_edge_rows(Seq::empty(), rows, n);
        let before = with_edge_rows(Seq::empty(), rows, n - 1);
        let e = rows[n - 1];
        let one = with_edge(before, e);
        lemma_only_read_step(before, rows, n);
        lemma_with_edge_keeps(before, e);
        lemma_with_edge_keeps(one, reverse_edge(e));
        if e.relationship == "contains"@ {
            assert(edges == with_edge(one, reverse_edge(e)));
            lemma_said_longer(one, edges, e);
            assert(turned(e) == reverse_edge(e));
            assert(before.is_prefix_of(edges)) by {
                assert(before =~= edges.subrange(0, before.len() as int));
            }
        } else {
            assert(edges == one);
        }
        lemma_kept_step(before, edges, rows, n);
    }
}

proof fn lemma_variants_added(aliases: Seq<AliasV>, variants: Seq<Seq<char>>, key: Seq<char>, n: int)
    requires
        0 <= n <= variants.len(),
    ensures
        forall|i: int|
            0 <= i < n ==> with_variants(aliases, variants, key, n).contains(
                AliasV { alias: #[trigger] variants[i], key },
            ),
        forall|a: AliasV|
            aliases.contains(a) ==> #[trigger] with_variants(aliases, variants, key, n).contains(a),
    decreases n,
{
    if n > 0 {
        lemma_variants_added(aliases, variants, key, n - 1);
        let before = with_variants(aliases, variants, key, n - 1);
        let r = with_variants(aliases, variants, key, n);
        let pair = AliasV { alias: variants[n - 1], key };
        assert forall|a: AliasV| before.contains(a) || a == pair implies #[trigger] r.contains(a) by {
            if before.contains(a) {
                let q = choose|q: int| 0 <= q < before.len() && before[q] == a;
                assert(r[q] == a);
            } else {
                assert(r[r.len() - 1] == a);
            }
        }
    }
}

proof fn lemma_alias_added(aliases: Seq<AliasV>, alias: Seq<char>, key: Seq<char>)
    ensures
        trim(alias).len() > 0 ==> with_alias(aliases, alias, key).contains(
            AliasV { alias: lower(trim(alias)), key },
        ) && with_alias(aliases, alias, key).contains(
            AliasV { alias: lower(short_name(trim(alias))), key },
        ),
        forall|a: AliasV| aliases.contains(a) ==> #[trigger] with_alias(aliases, alias, key).contains(a),
{
    let v = variants_of(alias);
    lemma_variants_added(aliases, v, key, v.len() as int);
    let t = trim(alias);
    if t.len() > 0 {
        let one = set_put(Seq::empty(), lower(t));
        lemma_set_put(Seq::empty(), lower(t), lower(t));
        lemma_set_put(one, key_of(t), lower(t));
        lemma_set_put(one, key_of(t), key_of(t));
        let i = choose|i: int| 0 <= i < v.len() && v[i] == lower(t);
        let j = choose|j: int| 0 <= j < v.len() && v[j] == key_of(t);
        assert(with_alias(aliases, alias, key).contains(AliasV { alias: v[i], key }));
        assert(with_alias(aliases, alias, key).contains(AliasV { alias: v[j], key }));
    }
}

/// Whether the graph knows a component under a name, in full and in short.
pub open spec fn known_under(g: IndexV, name: Seq<char>, key: Seq<char>) -> bool {
    trim(name).len() > 0 ==> g.aliases.contains(AliasV { alias: lower(trim(name)), key })
        && g.aliases.contains(AliasV { alias: lower(short_name(trim(name))), key })
}

/// A component that was observed is known under its name, its subject, its repository and
/// its identity. What is known of it is its latest observation, except that one with a
/// version takes the place of one without. No other component changes.
pub proof fn law_observation_is_kept(g: IndexV, n: NodeV, other: Seq<char>)
    ensures
        ({
            let r = with_component(g, n);
            &&& known_under(r, n.component, n.key)
            &&& n.subject_name is Some ==> known_under(r, n.subject_name->Some_0, n.key)
            &&& n.repo is Some ==> known_under(r, n.repo->Some_0, n.key)
            &&& n.identity is Some ==> known_under(r, n.identity->Some_0, n.key)
            &&& other != n.key ==> node_at(r, other) == node_at(g, other)
            &&& node_at(g, n.key) is None ==> node_at(r, n.key) == Some(n)
            &&& node_at(g, n.key) is Some ==> {
                let old_node = node_at(g, n.key)->Some_0;
                let newer = n.last_observed_at is Some && (old_node.last_observed_at is None
                    || text_less(
                    old_node.last_observed_at->Some_0,
                    n.last_observed_at->Some_0,
                ));
                node_at(r, n.key) == Some(
                    if newer || (old_node.version is None && n.version is Some) {
                        n
                    } else {
                        old_node
                    },
                )
            }
            &&& r.edges == g.edges
        }),
{
    let a1 = with_alias(g.aliases, n.component, n.key);
    let a2 = with_opt_alias(a1, n.subject_name, n.key);
    let a3 = with_opt_alias(a2, n.repo, n.key);
    lemma_alias_added(g.aliases, n.component, n.key);
    if n.subject_name is Some {
        lemma_alias_added(a1, n.subject_name->Some_0, n.key);
    }
    if n.repo is Some {
        lemma_alias_added(a2, n.repo->Some_0, n.key);
    }
    if n.identity is Some {
        lemma_alias_added(a3, n.identity->Some_0, n.key);
    }
    lemma_node_index_of(g.nodes, n.key, 0);
    lemma_nodes_after(g.nodes, n, other, 0);
    lemma_nodes_after(g.nodes, n, n.key, 0);
}

proof fn lemma_node_index_of(nodes: Seq<NodeV>, key: Seq<char>, i: int)
    requires
        0 <= i,
    ensures
        match node_index(nodes, key, i) {
            Some(k) => i <= k < nodes.len() && nodes[k].key == key && forall|j: int|
                i <= j < k ==> (#[trigger] nodes[j]).key != key,
            None => forall|j: int| i <= j < nodes.len() ==> (#[trigger] nodes[j]).key != key,
        },
    decreases nodes.len() - i,
{
    if i < nodes.len() && nodes[i].key != key {
        lemma_node_index_of(nodes, key, i + 1);
    }
}

proof fn lemma_index_is(nodes: Seq<NodeV>, key: Seq<char>, i: int, k: int)
    requires
        0 <= i <= k < nodes.len(),
        nodes[k].key == key,
        forall|j: int| i <= j < k ==> (#[trigger] nodes[j]).key != key,
    ensures
        node_index(nodes, key, i) == Some(k),
    decreases k - i,
{
    if i < k {
        lemma_index_is(nodes, key, i + 1, k);
    }
}

proof fn lemma_nodes_after(nodes: Seq<NodeV>, n: NodeV, key: Seq<char>, i: int)
    ensures
        ({
            let r = with_node(nodes, n);
            let a = node_index(nodes, key, 0);
            let b = node_index(r, key, 0);
            &&& key != n.key ==> (a is Some == b is Some) && (a is Some ==> r[b->Some_0]
                == nodes[a->Some_0])
            &&& key == n.key && a is None ==> b is Some && r[b->Some_0] == n
            &&& key == n.key && a is Some ==> b == a
        }),
{
    let r = with_node(nodes, n);
    lemma_node_index_of(nodes, key, 0);
    lemma_node_index_of(nodes, n.key, 0);
    lemma_node_index_of(r, key, 0);
    let a = node_index(nodes, key, 0);
    if a is Some {
        let k = a->Some_0;
        assert(r[k].key == key);
        assert forall|j: int| 0 <= j < k implies (#[trigger] r[j]).key != key by {
            assert(nodes[j].key != key);
        }
        lemma_index_is(r, key, 0, k);
    } else if key == n.key {
        let k = nodes.len() as int;
        assert(r[k] == n);
        assert forall|j: int| 0 <= j < k implies (#[trigger] r[j]).key != key by {
            assert(nodes[j].key != key);
        }
        lemma_index_is(r, key, 0, k);
    } else {
        assert forall|j: int| 0 <= j < r.len() implies (#[trigger] r[j]).key != key by {
            if j < nodes.len() {
                assert(nodes[j].key != key);
            }
        }
        if node_index(r, key, 0) is Some {
            assert(r[node_index(r, key, 0)->Some_0].key == key);
        }
    }
}

} // verus!
