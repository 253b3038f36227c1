//! What the versions that go with a component are: each is one that a connection between
//! the two names for the component that is asked about.
use vstd::prelude::*;
use crate::answers::{
    by_version, candidates_for, confidence_rank, from_edges, from_paths, known_confidence,
    law_versions_best_first, law_versions_stand_once, lemma_recorded_by_version, recorded,
    recorded_opt, stronger, version_before, version_rule, CandV,
};
use crate::graph::{node_at, EdgeV, IndexV};
use crate::order::{lemma_sorted_by_contains, sorted_by};
use crate::paths::{found_paths, path_confidence, path_score};
use crate::text::{lemma_text_less_total, text_less};

verus! {

/// Whether an edge names a version of a component: of its source, where that is the
/// component, or of its target.
pub open spec fn names_version(e: EdgeV, key: Seq<char>, version: Seq<char>) -> bool {
    (e.source == key && e.source_version == Some(version)) || (e.target == key && e.target_version
        == Some(version))
}

/// Whether an edge of one of the paths names a version of a component.
pub open spec fn paths_name(paths: Seq<Seq<EdgeV>>, key: Seq<char>, version: Seq<char>) -> bool {
    exists|i: int, j: int|
        0 <= i < paths.len() && 0 <= j < paths[i].len() && names_version(
            #[trigger] paths[i][j],
            key,
            version,
        )
}

/// A version that an edge of a path names.
pub struct MentionV {
    pub version: Seq<char>,
    pub path: Seq<EdgeV>,
}

pub open spec fn mention(named: bool, version: Option<Seq<char>>, path: Seq<EdgeV>) -> Seq<MentionV> {
    match version {
        Some(v) => if named {
            seq![MentionV { version: v, path }]
        } else {
            Seq::empty()
        },
        None => Seq::empty(),
    }
}

/// The versions of a component that the first `n` edges of a path name.
pub open spec fn edge_mentions(p: Seq<EdgeV>, key: Seq<char>, n: int) -> Seq<MentionV>
    decreases n,
{
    if n <= 0 {
        Seq::empty()
    } else {
        edge_mentions(p, key, n - 1) + mention(p[n - 1].source == key, p[n - 1].source_version, p)
            + mention(p[n - 1].target == key, p[n - 1].target_version, p)
    }
}

/// The versions of a component that the edges of the first `n` paths name.
pub open spec fn path_mentions(paths: Seq<Seq<EdgeV>>, key: Seq<char>, n: int) -> Seq<MentionV>
    decreases n,
{
    if n <= 0 {
        Seq::empty()
    } else {
        path_mentions(paths, key, n - 1) + edge_mentions(
            paths[n - 1],
            key,
            paths[n - 1].len() as int,
        )
    }
}

/// How often a version is named.
pub open spec fn times_named(all: Seq<MentionV>, version: Seq<char>, n: int) -> nat
    decreases n,
{
    if n <= 0 {
        0
    } else {
        times_named(all, version, n - 1) + (if all[n - 1].version == version {
            1nat
        } else {
            0
        })
    }
}

/// How strong a confidence is.
pub open spec fn strength(confidence: Seq<char>) -> int {
    if confidence == "high"@ {
        4
    } else if confidence == "medium"@ {
        3
    } else if confidence == "low"@ {
        2
    } else if confidence == "blocked"@ {
        1
    } else {
        0
    }
}

/// Whether a candidate sums up the first `n` mentions of its version: it has the best of
/// their scores and the strongest of their confidences, and counts them.
pub open spec fn sums_up(x: CandV, all: Seq<MentionV>, n: int) -> bool {
    &&& exists|i: int|
        0 <= i < n && (#[trigger] all[i]).version == x.version && path_score(all[i].path) == x.score
    &&& exists|i: int|
        0 <= i < n && (#[trigger] all[i]).version == x.version && path_confidence(all[i].path)
            == x.confidence
    &&& forall|i: int|
        0 <= i < n && (#[trigger] all[i]).version == x.version ==> path_score(all[i].path)
            <= x.score && strength(path_confidence(all[i].path)) <= strength(x.confidence)
    &&& x.path_count == times_named(all, x.version, n)
}

spec fn folded(c: Seq<CandV>, all: Seq<MentionV>, n: int) -> Seq<CandV>
    decreases n,
{
    if n <= 0 {
        c
    } else {
        recorded(
            folded(c, all, n - 1),
            all[n - 1].version,
            path_score(all[n - 1].path),
            path_confidence(all[n - 1].path),
        )
    }
}

proof fn lemma_folded_prefix(c: Seq<CandV>, a: Seq<MentionV>, b: Seq<MentionV>, n: int)
    requires
        0 <= n <= a.len(),
    ensures
        folded(c, a + b, n) == folded(c, a, n),
    decreases n,
{
    if n > 0 {
        lemma_folded_prefix(c, a, b, n - 1);
        assert((a + b)[n - 1] == a[n - 1]);
    }
}

proof fn lemma_folded_add(c: Seq<CandV>, a: Seq<MentionV>, b: Seq<MentionV>, n: int)
    requires
        0 <= n <= b.len(),
    ensures
        folded(c, a + b, a.len() + n) == folded(folded(c, a, a.len() as int), b, n),
    decreases n,
{
    if n == 0 {
        lemma_folded_prefix(c, a, b, a.len() as int);
    } else {
        lemma_folded_add(c, a, b, n - 1);
        assert((a + b)[a.len() + n - 1] == b[n - 1]);
    }
}

proof fn lemma_folded_opt(c: Seq<CandV>, version: Option<Seq<char>>, p: Seq<EdgeV>)
    ensures
        folded(c, mention(true, version, p), mention(true, version, p).len() as int)
            == recorded_opt(c, version, p),
        folded(c, mention(false, version, p), 0) == c,
        mention(false, version, p).len() == 0,
{
    let one = mention(true, version, p);
    if version is Some {
        assert(one.len() == 1);
        assert(folded(c, one, 0) == c);
    }
}

proof fn lemma_edges_fold(c: Seq<CandV>, p: Seq<EdgeV>, key: Seq<char>, n: int)
    requires
        0 <= n <= p.len(),
    ensures
        from_edges(c, p, key, n) == folded(
            c,
            edge_mentions(p, key, n),
            edge_mentions(p, key, n).len() as int,
        ),
    decreases n,
{
    if n > 0 {
        lemma_edges_fold(c, p, key, n - 1);
        let e = p[n - 1];
        let a = edge_mentions(p, key, n - 1);
        let b = mention(e.source == key, e.source_version, p);
        let d = mention(e.target == key, e.target_version, p);
        let before = from_edges(c, p, key, n - 1);
        lemma_folded_add(c, a, b, b.len() as int);
        lemma_folded_add(c, a + b, d, d.len() as int);
        lemma_folded_opt(before, e.source_version, p);
        let one = if e.source == key {
            recorded_opt(before, e.source_version, p)
        } else {
            before
        };
        assert(folded(before, b, b.len() as int) == one);
        lemma_folded_opt(one, e.target_version, p);
    }
}

proof fn lemma_paths_fold(c: Seq<CandV>, paths: Seq<Seq<EdgeV>>, key: Seq<char>, n: int)
    requires
        0 <= n <= paths.len(),
    ensures
        from_paths(c, paths, key, n) == folded(
            c,
            path_mentions(paths, key, n),
            path_mentions(paths, key, n).len() as int,
        ),
    decreases n,
{
    if n > 0 {
        lemma_paths_fold(c, paths, key, n - 1);
        let p = paths[n - 1];
        let a = path_mentions(paths, key, n - 1);
        let b = edge_mentions(p, key, p.len() as int);
        lemma_folded_add(c, a, b, b.len() as int);
        lemma_edges_fold(from_paths(c, paths, key, n - 1), p, key, p.len() as int);
    }
}

spec fn is_listed(c: Seq<CandV>, version: Seq<char>) -> bool {
    exists|k: int| 0 <= k < c.len() && (#[trigger] c[k]).version == version
}

spec fn merged(x: CandV, score: int, confidence: Seq<char>) -> CandV {
    CandV {
        version: x.version,
        score: if x.score >= score {
            x.score
        } else {
            score
        },
        confidence: stronger(x.confidence, confidence),
        path_count: x.path_count + 1,
    }
}

/// What recording a version does to the candidates: it is merged into the one with its
/// version, or added, and nothing else changes.
proof fn lemma_recorded(c: Seq<CandV>, v: Seq<char>, s: int, f: Seq<char>)
    requires
        by_version(c),
    ensures
        ({
            let r = recorded(c, v, s, f);
            &&& is_listed(r, v)
            &&& forall|k: int|
                0 <= k < r.len() && (#[trigger] r[k]).version != v ==> c.contains(r[k])
            &&& forall|k: int|
                0 <= k < r.len() && (#[trigger] r[k]).version == v ==> (!is_listed(c, v) && r[k] == (
                CandV { version: v, score: s, confidence: f, path_count: 1 })) || (exists|j: int|
                    0 <= j < c.len() && (#[trigger] c[j]).version == v && r[k] == merged(
                        c[j],
                        s,
                        f,
                    ))
            &&& forall|j: int|
                0 <= j < c.len() && (#[trigger] c[j]).version != v ==> r.contains(c[j])
        }),
    decreases c.len(),
{
    let r = recorded(c, v, s, f);
    let new = CandV { version: v, score: s, confidence: f, path_count: 1 };
    if c.len() == 0 {
        assert(r[0] == new);
    } else if c[0].version == v {
        assert(r[0] == merged(c[0], s, f));
        assert forall|k: int| 1 <= k < r.len() implies #[trigger] r[k] == c[k] by {}
        assert forall|k: int| 0 <= k < r.len() && (#[trigger] r[k]).version == v implies k == 0 by {
            if k > 0 {
                lemma_text_less_total(c[0].version, c[k].version);
                assert(text_less(c[0].version, c[k].version));
            }
        }
        assert forall|j: int| 0 <= j < c.len() && (#[trigger] c[j]).version != v implies r.contains(
            c[j],
        ) by {
            assert(r[j] == c[j]);
        }
    } else if text_less(v, c[0].version) {
        assert(r[0] == new);
        assert forall|k: int| 1 <= k < r.len() implies #[trigger] r[k] == c[k - 1] by {}
        assert forall|k: int| 0 <= k < c.len() implies (#[trigger] c[k]).version != v by {
            lemma_text_less_total(v, c[0].version);
            if k > 0 && c[k].version == v {
                assert(text_less(c[0].version, c[k].version));
                lemma_text_less_total(c[0].version, v);
            }
        }
        assert forall|j: int| 0 <= j < c.len() && (#[trigger] c[j]).version != v implies r.contains(
            c[j],
        ) by {
            assert(r[j + 1] == c[j]);
        }
    } else {
        let rest = c.skip(1);
        assert forall|i: int, j: int| 0 <= i < j < rest.len() implies text_less(
            (#[trigger] rest[i]).version,
            (#[trigger] rest[j]).version,
        ) by {
            assert(rest[i] == c[i + 1] && rest[j] == c[j + 1]);
        }
        lemma_recorded(rest, v, s, f);
        let t = recorded(rest, v, s, f);
        assert(r == seq![c[0]] + t);
        assert(r[0] == c[0]);
        assert forall|k: int| 1 <= k < r.len() implies #[trigger] r[k] == t[k - 1] by {}
        let q = choose|q: int| 0 <= q < t.len() && (#[trigger] t[q]).version == v;
        assert(r[q + 1].version == v);
        assert(is_listed(c, v) == is_listed(rest, v)) by {
            if is_listed(c, v) {
                let a = choose|a: int| 0 <= a < c.len() && (#[trigger] c[a]).version == v;
                assert(rest[a - 1] == c[a]);
            }
            if is_listed(rest, v) {
                let a = choose|a: int| 0 <= a < rest.len() && (#[trigger] rest[a]).version == v;
                assert(c[a + 1] == rest[a]);
            }
        }
        assert forall|k: int| 0 <= k < r.len() && (#[trigger] r[k]).version != v implies c.contains(
            r[k],
        ) by {
            if k > 0 {
                assert(rest.contains(t[k - 1]));
                let a = choose|a: int| 0 <= a < rest.len() && rest[a] == t[k - 1];
                assert(c[a + 1] == r[k]);
            }
        }
        assert forall|k: int| 0 <= k < r.len() && (#[trigger] r[k]).version == v implies (!is_listed(
            c,
            v,
        ) && r[k] == new) || (exists|j: int|
            0 <= j < c.len() && (#[trigger] c[j]).version == v && r[k] == merged(c[j], s, f)) by {
            assert(t[k - 1].version == v);
            if is_listed(rest, v) {
                let a = choose|a: int|
                    0 <= a < rest.len() && (#[trigger] rest[a]).version == v && t[k - 1] == merged(
                        rest[a],
                        s,
                        f,
                    );
                assert(c[a + 1] == rest[a]);
            }
        }
        assert forall|j: int| 0 <= j < c.len() && (#[trigger] c[j]).version != v implies r.contains(
            c[j],
        ) by {
            if j > 0 {
                assert(rest[j - 1] == c[j]);
                assert(t.contains(rest[j - 1]));
                let a = choose|a: int| 0 <= a < t.len() && t[a] == rest[j - 1];
                assert(r[a + 1] == c[j]);
            }
        }
    }
}

proof fn lemma_confidence_known(p: Seq<EdgeV>)
    ensures
        strength(path_confidence(p)) >= 1,
        confidence_rank(path_confidence(p)) == strength(path_confidence(p)),
        known_confidence(path_confidence(p)) == path_confidence(p),
{
}

/// A candidate of another version than the next mention sums up one mention more.
proof fn lemma_sums_kept(x: CandV, all: Seq<MentionV>, n: int)
    requires
        0 < n <= all.len(),
        sums_up(x, all, n - 1),
        all[n - 1].version != x.version,
    ensures
        sums_up(x, all, n),
{
}

proof fn lemma_sums_new(x: CandV, all: Seq<MentionV>, n: int)
    requires
        0 < n <= all.len(),
        all[n - 1].version == x.version,
        x.score == path_score(all[n - 1].path),
        x.confidence == path_confidence(all[n - 1].path),
        x.path_count == 1,
        times_named(all, x.version, n - 1) == 0,
        forall|i: int| 0 <= i < n - 1 ==> (#[trigger] all[i]).version != x.version,
    ensures
        sums_up(x, all, n),
{
    assert(all[n - 1].version == x.version);
}

proof fn lemma_sums_merged(x: CandV, all: Seq<MentionV>, n: int)
    requires
        0 < n <= all.len(),
        sums_up(x, all, n - 1),
        all[n - 1].version == x.version,
    ensures
        sums_up(
            merged(x, path_score(all[n - 1].path), path_confidence(all[n - 1].path)),
            all,
            n,
        ),
{
    let m = all[n - 1];
    let s = path_score(m.path);
    let f = path_confidence(m.path);
    let y = merged(x, s, f);
    let a = choose|a: int|
        0 <= a < n - 1 && (#[trigger] all[a]).version == x.version && path_confidence(all[a].path)
            == x.confidence;
    lemma_confidence_known(all[a].path);
    lemma_confidence_known(m.path);
    let b = choose|b: int|
        0 <= b < n - 1 && (#[trigger] all[b]).version == x.version && path_score(all[b].path)
            == x.score;
    let p = if x.score >= s {
        b
    } else {
        n - 1
    };
    assert(all[p].version == y.version && path_score(all[p].path) == y.score);
    let q = if confidence_rank(x.confidence) >= confidence_rank(f) {
        a
    } else {
        n - 1
    };
    assert(all[q].version == y.version && path_confidence(all[q].path) == y.confidence);
    assert forall|i: int| 0 <= i < n && (#[trigger] all[i]).version == y.version implies path_score(
        all[i].path,
    ) <= y.score && strength(path_confidence(all[i].path)) <= strength(y.confidence) by {
        if i < n - 1 {
            assert(all[i].version == x.version);
        }
    }
}

spec fn all_sum_up(c: Seq<CandV>, all: Seq<MentionV>, n: int) -> bool {
    forall|k: int| 0 <= k < c.len() ==> sums_up(#[trigger] c[k], all, n)
}

spec fn all_listed(c: Seq<CandV>, all: Seq<MentionV>, n: int) -> bool {
    forall|i: int| 0 <= i < n ==> is_listed(c, (#[trigger] all[i]).version)
}

proof fn lemma_sums_one(c: Seq<CandV>, all: Seq<MentionV>, n: int, k: int)
    requires
        0 < n <= all.len(),
        by_version(c),
        all_sum_up(c, all, n - 1),
        all_listed(c, all, n - 1),
        0 <= k < recorded(
            c,
            all[n - 1].version,
            path_score(all[n - 1].path),
            path_confidence(all[n - 1].path),
        ).len(),
    ensures
        sums_up(
            recorded(
                c,
                all[n - 1].version,
                path_score(all[n - 1].path),
                path_confidence(all[n - 1].path),
            )[k],
            all,
            n,
        ),
{
    let m = all[n - 1];
    let s = path_score(m.path);
    let f = path_confidence(m.path);
    let r = recorded(c, m.version, s, f);
    lemma_recorded(c, m.version, s, f);
    let y = r[k];
    if y.version != m.version {
        assert(c.contains(y));
        let j = choose|j: int| 0 <= j < c.len() && c[j] == y;
        assert(sums_up(c[j], all, n - 1));
        lemma_sums_kept(y, all, n);
    } else if exists|j: int|
        0 <= j < c.len() && (#[trigger] c[j]).version == m.version && y == merged(c[j], s, f) {
        let j = choose|j: int|
            0 <= j < c.len() && (#[trigger] c[j]).version == m.version && y == merged(c[j], s, f);
        assert(sums_up(c[j], all, n - 1));
        lemma_sums_merged(c[j], all, n);
    } else {
        lemma_never_named(all, m.version, c, n - 1);
        lemma_sums_new(y, all, n);
    }
}

proof fn lemma_listed_step(c: Seq<CandV>, all: Seq<MentionV>, n: int, s: int, f: Seq<char>)
    requires
        0 < n <= all.len(),
        by_version(c),
        all_listed(c, all, n - 1),
    ensures
        all_listed(recorded(c, all[n - 1].version, s, f), all, n),
{
    let v = all[n - 1].version;
    let r = recorded(c, v, s, f);
    lemma_recorded(c, v, s, f);
    assert forall|i: int| 0 <= i < n implies is_listed(r, (#[trigger] all[i]).version) by {
        if all[i].version != v {
            assert(is_listed(c, all[i].version));
            let j = choose|j: int| 0 <= j < c.len() && (#[trigger] c[j]).version == all[i].version;
            assert(r.contains(c[j]));
            let q = choose|q: int| 0 <= q < r.len() && r[q] == c[j];
            assert(r[q].version == all[i].version);
        }
    }
}

proof fn lemma_by_version_step(c: Seq<CandV>, v: Seq<char>, s: int, f: Seq<char>)
    requires
        by_version(c),
    ensures
        by_version(recorded(c, v, s, f)),
{
    lemma_recorded_by_version(c, v, s, f);
}

proof fn lemma_folded_sums(all: Seq<MentionV>, n: int)
    requires
        0 <= n <= all.len(),
    ensures
        by_version(folded(Seq::empty(), all, n)),
        all_sum_up(folded(Seq::empty(), all, n), all, n),
        all_listed(folded(Seq::empty(), all, n), all, n),
    decreases n,
{
    if n > 0 {
        lemma_folded_sums(all, n - 1);
        let c = folded(Seq::empty(), all, n - 1);
        let m = all[n - 1];
        let s = path_score(m.path);
        let f = path_confidence(m.path);
        let r = recorded(c, m.version, s, f);
        assert(r == folded(Seq::empty(), all, n));
        lemma_listed_step(c, all, n, s, f);
        lemma_by_version_step(c, m.version, s, f);
        assert forall|k: int| 0 <= k < r.len() implies sums_up(#[trigger] r[k], all, n) by {
            lemma_sums_one(c, all, n, k);
        }
    }
}

proof fn lemma_never_named(all: Seq<MentionV>, version: Seq<char>, c: Seq<CandV>, n: int)
    requires
        0 <= n <= all.len(),
        !is_listed(c, version),
        forall|i: int| 0 <= i < n ==> is_listed(c, (#[trigger] all[i]).version),
    ensures
        times_named(all, version, n) == 0,
        forall|i: int| 0 <= i < n ==> (#[trigger] all[i]).version != version,
    decreases n,
{
    if n > 0 {
        lemma_never_named(all, version, c, n - 1);
        assert(is_listed(c, all[n - 1].version));
    }
}

proof fn lemma_edge_mentions(p: Seq<EdgeV>, key: Seq<char>, n: int)
    requires
        0 <= n <= p.len(),
    ensures
        forall|i: int|
            0 <= i < edge_mentions(p, key, n).len() ==> (#[trigger] edge_mentions(
                p,
                key,
                n,
            )[i]).path == p && exists|j: int|
                0 <= j < n && names_version(#[trigger] p[j], key, edge_mentions(p, key, n)[i].version),
        forall|j: int, v: Seq<char>|
            0 <= j < n && #[trigger] names_version(p[j], key, v) ==> edge_mentions(
                p,
                key,
                n,
            ).contains(MentionV { version: v, path: p }),
    decreases n,
{
    if n > 0 {
        lemma_edge_mentions(p, key, n - 1);
        let e = p[n - 1];
        let a = edge_mentions(p, key, n - 1);
        let b = mention(e.source == key, e.source_version, p);
        let d = mention(e.target == key, e.target_version, p);
        let all = edge_mentions(p, key, n);
        assert(all == a + b + d);
        assert forall|i: int| 0 <= i < all.len() implies (#[trigger] all[i]).path == p && exists|j: int|
            0 <= j < n && names_version(#[trigger] p[j], key, all[i].version) by {
            if i < a.len() {
                assert(all[i] == a[i]);
                let j = choose|j: int|
                    0 <= j < n - 1 && names_version(#[trigger] p[j], key, a[i].version);
                assert(names_version(p[j], key, all[i].version));
            } else if i < a.len() + b.len() {
                assert(all[i] == b[i - a.len()]);
                assert(names_version(p[n - 1], key, all[i].version));
            } else {
                assert(all[i] == d[i - a.len() - b.len()]);
                assert(names_version(p[n - 1], key, all[i].version));
            }
        }
        assert forall|j: int, v: Seq<char>|
            0 <= j < n && #[trigger] names_version(p[j], key, v) implies all.contains(
            MentionV { version: v, path: p },
        ) by {
            let m = MentionV { version: v, path: p };
            if j < n - 1 {
                assert(a.contains(m));
                let q = choose|q: int| 0 <= q < a.len() && a[q] == m;
                assert(all[q] == m);
            } else if e.source == key && e.source_version == Some(v) {
                assert(b[0] == m);
                assert(all[a.len() as int] == m);
            } else {
                assert(d[0] == m);
                assert(all[(a.len() + b.len()) as int] == m);
            }
        }
    }
}

proof fn lemma_path_mentions(paths: Seq<Seq<EdgeV>>, key: Seq<char>, n: int)
    requires
        0 <= n <= paths.len(),
    ensures
        forall|i: int|
            0 <= i < path_mentions(paths, key, n).len() ==> exists|k: int, j: int|
                0 <= k < n && 0 <= j < paths[k].len() && paths[k] == path_mentions(
                    paths,
                    key,
                    n,
                )[i].path && names_version(
                    #[trigger] paths[k][j],
                    key,
                    (#[trigger] path_mentions(paths, key, n)[i]).version,
                ),
        forall|k: int, j: int, v: Seq<char>|
            0 <= k < n && 0 <= j < paths[k].len() && #[trigger] names_version(paths[k][j], key, v)
                ==> path_mentions(paths, key, n).contains(
                MentionV { version: v, path: paths[k] },
            ),
    decreases n,
{
    if n > 0 {
        lemma_path_mentions(paths, key, n - 1);
        let p = paths[n - 1];
        lemma_edge_mentions(p, key, p.len() as int);
        let a = path_mentions(paths, key, n - 1);
        let b = edge_mentions(p, key, p.len() as int);
        let all = path_mentions(paths, key, n);
        assert(all == a + b);
        assert forall|i: int| 0 <= i < all.len() implies exists|k: int, j: int|
            0 <= k < n && 0 <= j < paths[k].len() && paths[k] == all[i].path && names_version(
                #[trigger] paths[k][j],
                key,
                (#[trigger] all[i]).version,
            ) by {
            if i < a.len() {
                assert(all[i] == a[i]);
                let (k, j) = choose|k: int, j: int|
                    0 <= k < n - 1 && 0 <= j < paths[k].len() && paths[k] == a[i].path
                        && names_version(#[trigger] paths[k][j], key, a[i].version);
                assert(names_version(paths[k][j], key, all[i].version));
            } else {
                assert(all[i] == b[i - a.len()]);
                let j = choose|j: int|
                    0 <= j < p.len() && names_version(#[trigger] p[j], key, b[i - a.len()].version);
                assert(names_version(paths[n - 1][j], key, all[i].version));
            }
        }
        assert forall|k: int, j: int, v: Seq<char>|
            0 <= k < n && 0 <= j < paths[k].len() && #[trigger] names_version(
                paths[k][j],
                key,
                v,
            ) implies all.contains(MentionV { version: v, path: paths[k] }) by {
            let m = MentionV { version: v, path: paths[k] };
            if k < n - 1 {
                assert(a.contains(m));
                let q = choose|q: int| 0 <= q < a.len() && a[q] == m;
                assert(all[q] == m);
            } else {
                assert(names_version(p[j], key, v));
                assert(b.contains(m));
                let q = choose|q: int| 0 <= q < b.len() && b[q] == m;
                assert(all[a.len() + q] == m);
            }
        }
    }
}

/// What the connections between two components, in both directions, name of the first.
pub open spec fn all_mentions(g: IndexV, key: Seq<char>, other: Seq<char>, limit: nat) -> Seq<
    MentionV,
> {
    let there = found_paths(g, other, key, limit);
    let back = found_paths(g, key, other, limit);
    path_mentions(there, key, there.len() as int) + path_mentions(back, key, back.len() as int)
}

proof fn lemma_all_mentions(g: IndexV, key: Seq<char>, other: Seq<char>, limit: nat, v: Seq<char>)
    ensures
        (exists|i: int|
            0 <= i < all_mentions(g, key, other, limit).len() && (#[trigger] all_mentions(
                g,
                key,
                other,
                limit,
            )[i]).version == v) <==> paths_name(found_paths(g, other, key, limit), key, v)
            || paths_name(found_paths(g, key, other, limit), key, v),
{
    let there = found_paths(g, other, key, limit);
    let back = found_paths(g, key, other, limit);
    let a = path_mentions(there, key, there.len() as int);
    let b = path_mentions(back, key, back.len() as int);
    let all = all_mentions(g, key, other, limit);
    lemma_path_mentions(there, key, there.len() as int);
    lemma_path_mentions(back, key, back.len() as int);
    if exists|i: int| 0 <= i < all.len() && (#[trigger] all[i]).version == v {
        let i = choose|i: int| 0 <= i < all.len() && (#[trigger] all[i]).version == v;
        if i < a.len() {
            assert(all[i] == a[i]);
            let (k, j) = choose|k: int, j: int|
                0 <= k < there.len() && 0 <= j < there[k].len() && there[k] == a[i].path
                    && names_version(#[trigger] there[k][j], key, a[i].version);
            assert(names_version(there[k][j], key, v));
        } else {
            assert(all[i] == b[i - a.len()]);
            let (k, j) = choose|k: int, j: int|
                0 <= k < back.len() && 0 <= j < back[k].len() && back[k] == b[i - a.len()].path
                    && names_version(#[trigger] back[k][j], key, b[i - a.len()].version);
            assert(names_version(back[k][j], key, v));
        }
    }
    if paths_name(there, key, v) {
        let (k, j) = choose|k: int, j: int|
            0 <= k < there.len() && 0 <= j < there[k].len() && names_version(
                #[trigger] there[k][j],
                key,
                v,
            );
        let m = MentionV { version: v, path: there[k] };
        assert(a.contains(m));
        let q = choose|q: int| 0 <= q < a.len() && a[q] == m;
        assert(all[q].version == v);
    }
    if paths_name(back, key, v) {
        let (k, j) = choose|k: int, j: int|
            0 <= k < back.len() && 0 <= j < back[k].len() && names_version(
                #[trigger] back[k][j],
                key,
                v,
            );
        let m = MentionV { version: v, path: back[k] };
        assert(b.contains(m));
        let q = choose|q: int| 0 <= q < b.len() && b[q] == m;
        assert(all[a.len() + q].version == v);
    }
}

/// Whether a connection between two components names a version of the first.
pub open spec fn goes_with(
    g: IndexV,
    key: Seq<char>,
    other: Seq<char>,
    limit: nat,
    version: Seq<char>,
) -> bool {
    paths_name(found_paths(g, other, key, limit), key, version) || paths_name(
        found_paths(g, key, other, limit),
        key,
        version,
    )
}

proof fn lemma_sorted_has(c: Seq<CandV>, x: CandV)
    ensures
        sorted_by(c, version_rule()).contains(x) <==> c.contains(x),
{
    broadcast use vstd::seq_lib::group_to_multiset_ensures;

    crate::answers::lemma_version_rule();
    crate::order::lemma_sorted_by(c, version_rule());
    let r = sorted_by(c, version_rule());
    assert(r.to_multiset().count(x) == c.to_multiset().count(x));
    assert(r.contains(x) <==> r.to_multiset().count(x) > 0);
    assert(c.contains(x) <==> c.to_multiset().count(x) > 0);
}

/// Every version that is answered for a component is one that a connection to the other
/// names for that component, and every such version is answered, each with the best score
/// and the strongest confidence of the connections that name it, and with how often it is
/// named. Only where none is named is the component's own version answered, with little
/// confidence.
pub proof fn law_versions_belong_to_component(
    g: IndexV,
    key: Seq<char>,
    other: Seq<char>,
    limit: nat,
    version: Seq<char>,
)
    ensures
        ({
            let c = candidates_for(g, key, other, limit);
            let all = all_mentions(g, key, other, limit);
            &&& goes_with(g, key, other, limit, version) ==> exists|k: int|
                0 <= k < c.len() && (#[trigger] c[k]).version == version
            &&& (exists|v: Seq<char>| #[trigger] goes_with(g, key, other, limit, v)) ==> forall|k: int|
                0 <= k < c.len() ==> goes_with(g, key, other, limit, (#[trigger] c[k]).version)
                    && sums_up(c[k], all, all.len() as int)
            &&& !(exists|v: Seq<char>| #[trigger] goes_with(g, key, other, limit, v)) ==> match node_at(
                g,
                key,
            ) {
                Some(n) => match n.version {
                    Some(v) => c.len() == 1 && c[0].version == v && c[0].score == 25
                        && c[0].confidence == "low"@ && c[0].path_count == 1,
                    None => c.len() == 0,
                },
                None => c.len() == 0,
            }
            &&& forall|i: int, j: int|
                0 <= i < j < c.len() ==> (#[trigger] c[i]).score > (#[trigger] c[j]).score || (
                c[i].score == c[j].score && text_less(c[j].version, c[i].version))
        }),
{
    let there = found_paths(g, other, key, limit);
    let back = found_paths(g, key, other, limit);
    let a = path_mentions(there, key, there.len() as int);
    let b = path_mentions(back, key, back.len() as int);
    let all = all_mentions(g, key, other, limit);
    let half = from_paths(Seq::empty(), there, key, there.len() as int);
    let spoken = from_paths(half, back, key, back.len() as int);
    lemma_paths_fold(Seq::empty(), there, key, there.len() as int);
    lemma_paths_fold(half, back, key, back.len() as int);
    lemma_folded_add(Seq::empty(), a, b, b.len() as int);
    lemma_folded_sums(all, all.len() as int);
    assert(spoken == folded(Seq::empty(), all, all.len() as int));
    let c = candidates_for(g, key, other, limit);
    assert forall|v: Seq<char>| is_listed(spoken, v) == #[trigger] goes_with(g, key, other, limit, v) by {
        lemma_all_mentions(g, key, other, limit, v);
        if is_listed(spoken, v) {
            let k = choose|k: int| 0 <= k < spoken.len() && (#[trigger] spoken[k]).version == v;
            assert(sums_up(spoken[k], all, all.len() as int));
            let i = choose|i: int|
                0 <= i < all.len() && (#[trigger] all[i]).version == spoken[k].version && path_score(
                    all[i].path,
                ) == spoken[k].score;
            assert(all[i].version == v);
        }
        if exists|i: int| 0 <= i < all.len() && (#[trigger] all[i]).version == v {
            let i = choose|i: int| 0 <= i < all.len() && (#[trigger] all[i]).version == v;
            assert(is_listed(spoken, all[i].version));
        }
    }
    if exists|v: Seq<char>| #[trigger] goes_with(g, key, other, limit, v) {
        let v = choose|v: Seq<char>| #[trigger] goes_with(g, key, other, limit, v);
        assert(is_listed(spoken, v));
        assert(c == sorted_by(spoken, version_rule()));
        lemma_sorted_by_contains(spoken, version_rule());
        assert forall|k: int| 0 <= k < c.len() implies goes_with(
            g,
            key,
            other,
            limit,
            (#[trigger] c[k]).version,
        ) && sums_up(c[k], all, all.len() as int) by {
            assert(spoken.contains(c[k]));
            let q = choose|q: int| 0 <= q < spoken.len() && spoken[q] == c[k];
            assert(is_listed(spoken, spoken[q].version));
            assert(sums_up(spoken[q], all, all.len() as int));
        }
        if goes_with(g, key, other, limit, version) {
            assert(is_listed(spoken, version));
            let q = choose|q: int| 0 <= q < spoken.len() && (#[trigger] spoken[q]).version == version;
            lemma_sorted_has(spoken, spoken[q]);
            assert(spoken.contains(spoken[q]));
            let k = choose|k: int| 0 <= k < c.len() && c[k] == spoken[q];
            assert(c[k].version == version);
        }
    } else {
        if spoken.len() > 0 {
            assert(is_listed(spoken, spoken[0].version));
            assert(goes_with(g, key, other, limit, spoken[0].version));
        }
        if c.len() > 0 {
            lemma_sorted_by_contains(
                seq![
                    CandV {
                        version: node_at(g, key)->Some_0.version->Some_0,
                        score: 25,
                        confidence: "low"@,
                        path_count: 1,
                    },
                ],
                version_rule(),
            );
        }
    }
    law_versions_best_first(g, key, other, limit);
    law_versions_stand_once(g, key, other, limit);
    assert forall|i: int, j: int| 0 <= i < j < c.len() implies (#[trigger] c[i]).score > (
    #[trigger] c[j]).score || (c[i].score == c[j].score && text_less(c[j].version, c[i].version)) by {
        assert(!version_before(c[j], c[i]));
        lemma_text_less_total(c[i].version, c[j].version);
    }
}

} // verus!
