//! The compatibility graph: components and the edges that facts draw between them.
use vstd::prelude::*;
use crate::facts::{component_key, short_name};
use crate::text::{
    cat5, contains, copy_opt, cut_last, has_char, less, lower, opt_view, or, or_text, put_text,
    same, set_put, split_last, text_less, to_lower, trim, trimmed, views, CharClass,
};

verus! {

// ---------------------------------------------------------------------------
// Nodes, edges and names
// ---------------------------------------------------------------------------
/// A component as it was last observed.
#[derive(Debug)]
pub struct GraphNode {
    pub key: String,
    pub component: String,
    pub version: Option<String>,
    pub identity: Option<String>,
    pub subject_name: Option<String>,
    pub repo: Option<String>,
    pub status: Option<String>,
    pub last_observed_at: Option<String>,
}

pub struct NodeV {
    pub key: Seq<char>,
    pub component: Seq<char>,
    pub version: Option<Seq<char>>,
    pub identity: Option<Seq<char>>,
    pub subject_name: Option<Seq<char>>,
    pub repo: Option<Seq<char>>,
    pub status: Option<Seq<char>>,
    pub last_observed_at: Option<Seq<char>>,
}

impl View for GraphNode {
    type V = NodeV;

    open spec fn view(&self) -> NodeV {
        NodeV {
            key: self.key@,
            component: self.component@,
            version: opt_view(self.version),
            identity: opt_view(self.identity),
            subject_name: opt_view(self.subject_name),
            repo: opt_view(self.repo),
            status: opt_view(self.status),
            last_observed_at: opt_view(self.last_observed_at),
        }
    }
}

pub open spec fn node_views(v: Seq<GraphNode>) -> Seq<NodeV> {
    v.map_values(|n: GraphNode| n@)
}

/// An edge between two components, with the evidence for it.
#[derive(Debug)]
pub struct GraphEdge {
    pub source: String,
    pub target: String,
    pub relationship: String,
    pub capability: Option<String>,
    pub capability_version: Option<String>,
    pub source_version: Option<String>,
    pub target_version: Option<String>,
    pub source_fact_id: Option<String>,
    pub target_fact_id: Option<String>,
    pub status: Option<String>,
    pub observed_at: Option<String>,
}

pub struct EdgeV {
    pub source: Seq<char>,
    pub target: Seq<char>,
    pub relationship: Seq<char>,
    pub capability: Option<Seq<char>>,
    pub capability_version: Option<Seq<char>>,
    pub source_version: Option<Seq<char>>,
    pub target_version: Option<Seq<char>>,
    pub source_fact_id: Option<Seq<char>>,
    pub target_fact_id: Option<Seq<char>>,
    pub status: Option<Seq<char>>,
    pub observed_at: Option<Seq<char>>,
}

impl View for GraphEdge {
    type V = EdgeV;

    open spec fn view(&self) -> EdgeV {
        EdgeV {
            source: self.source@,
            target: self.target@,
            relationship: self.relationship@,
            capability: opt_view(self.capability),
            capability_version: opt_view(self.capability_version),
            source_version: opt_view(self.source_version),
            target_version: opt_view(self.target_version),
            source_fact_id: opt_view(self.source_fact_id),
            target_fact_id: opt_view(self.target_fact_id),
            status: opt_view(self.status),
            observed_at: opt_view(self.observed_at),
        }
    }
}

pub open spec fn edge_views(v: Seq<GraphEdge>) -> Seq<EdgeV> {
    v.map_values(|e: GraphEdge| e@)
}

impl GraphEdge {
    pub fn copy(&self) -> (r: GraphEdge)
        ensures
            r@ == self@,
    {
        GraphEdge {
            source: self.source.clone(),
            target: self.target.clone(),
            relationship: self.relationship.clone(),
            capability: copy_opt(&self.capability),
            capability_version: copy_opt(&self.capability_version),
            source_version: copy_opt(&self.source_version),
            target_version: copy_opt(&self.target_version),
            source_fact_id: copy_opt(&self.source_fact_id),
            target_fact_id: copy_opt(&self.target_fact_id),
            status: copy_opt(&self.status),
            observed_at: copy_opt(&self.observed_at),
        }
    }
}

/// A name under which a component is found.
#[derive(Debug)]
pub struct GraphAlias {
    pub alias: String,
    pub key: String,
}

pub struct AliasV {
    pub alias: Seq<char>,
    pub key: Seq<char>,
}

impl View for GraphAlias {
    type V = AliasV;

    open spec fn view(&self) -> AliasV {
        AliasV { alias: self.alias@, key: self.key@ }
    }
}

pub open spec fn alias_views(v: Seq<GraphAlias>) -> Seq<AliasV> {
    v.map_values(|a: GraphAlias| a@)
}

/// The graph: its components, the names they are found under in the order in which
/// they came, and its edges in the order in which they came.
#[derive(Debug)]
pub struct GraphIndex {
    pub nodes: Vec<GraphNode>,
    pub aliases: Vec<GraphAlias>,
    pub edges: Vec<GraphEdge>,
}

pub struct IndexV {
    pub nodes: Seq<NodeV>,
    pub aliases: Seq<AliasV>,
    pub edges: Seq<EdgeV>,
}

impl View for GraphIndex {
    type V = IndexV;

    open spec fn view(&self) -> IndexV {
        IndexV {
            nodes: node_views(self.nodes@),
            aliases: alias_views(self.aliases@),
            edges: edge_views(self.edges@),
        }
    }
}

/// A reference to a component: as it was written, its name, and the version asked
/// for.
#[derive(Debug)]
pub struct GraphRef {
    pub raw: String,
    pub name: String,
    pub version: Option<String>,
}

pub struct RefV {
    pub raw: Seq<char>,
    pub name: Seq<char>,
    pub version: Option<Seq<char>>,
}

impl View for GraphRef {
    type V = RefV;

    open spec fn view(&self) -> RefV {
        RefV { raw: self.raw@, name: self.name@, version: opt_view(self.version) }
    }
}

/// The key of a component: its short name in lower case.
pub open spec fn key_of(s: Seq<char>) -> Seq<char> {
    lower(short_name(s))
}

pub fn graph_key(value: &str) -> (r: String)
    ensures
        r@ == key_of(value@),
{
    to_lower(component_key(value).as_str())
}

/// The form in which a name is looked up.
pub open spec fn alias_key(s: Seq<char>) -> Seq<char> {
    lower(trim(s))
}

pub fn graph_alias_key(value: &str) -> (r: String)
    ensures
        r@ == alias_key(value@),
{
    to_lower(trimmed(value).as_str())
}

/// The forms under which a name is found: itself and its short name, in lower case;
/// none where it is blank.
pub open spec fn variants_of(s: Seq<char>) -> Seq<Seq<char>> {
    let t = trim(s);
    if t.len() == 0 {
        Seq::empty()
    } else {
        set_put(set_put(Seq::empty(), lower(t)), key_of(t))
    }
}

pub fn alias_variants(value: &str) -> (r: Vec<String>)
    ensures
        views(r@) == variants_of(value@),
{
    let t = trimmed(value);
    let mut variants: Vec<String> = Vec::new();
    assert(views(variants@) =~= Seq::empty());
    if !t.as_str().is_empty() {
        put_text(&mut variants, to_lower(t.as_str()).as_str());
        put_text(&mut variants, graph_key(t.as_str()).as_str());
    }
    variants
}

/// A name and the version behind its last at-sign, unless that stands first or a
/// slash follows it.
pub open spec fn split_version(s: Seq<char>) -> (Seq<char>, Option<Seq<char>>) {
    match split_last(s, CharClass::Is('@')) {
        Some((name, version)) => if name.len() > 0 && !version.contains('/') {
            (name, Some(version))
        } else {
            (s, None)
        },
        None => (s, None),
    }
}

pub fn split_graph_version(value: &str) -> (r: (String, Option<String>))
    ensures
        (r.0@, opt_view(r.1)) == split_version(value@),
{
    match cut_last(value, CharClass::Is('@')) {
        Some((name, version)) => {
            if !name.as_str().is_empty() && !has_char(version.as_str(), '/') {
                return (name, Some(version));
            }
        },
        None => {},
    }
    (value.to_owned(), None)
}

/// The reference that a text writes.
pub open spec fn ref_of(s: Seq<char>) -> RefV {
    let raw = trim(s);
    RefV { raw, name: split_version(raw).0, version: split_version(raw).1 }
}

pub fn parse_graph_ref(value: &str) -> (r: GraphRef)
    ensures
        r@ == ref_of(value@),
{
    let raw = trimmed(value);
    let (name, version) = split_graph_version(raw.as_str());
    GraphRef { raw, name, version }
}

pub open spec fn invalid_status(status: Option<Seq<char>>) -> bool {
    match status {
        Some(s) => lower(s) == "incompatible"@ || lower(s) == "failed"@ || lower(s) == "invalid"@
            || lower(s) == "blocked"@,
        None => false,
    }
}

pub fn is_invalid_status(status: &Option<String>) -> (r: bool)
    ensures
        r == invalid_status(opt_view(*status)),
{
    match status {
        Some(s) => {
            let low = to_lower(s.as_str());
            let t = low.as_str();
            same(t, "incompatible") || same(t, "failed") || same(t, "invalid") || same(t, "blocked")
        },
        None => false,
    }
}

pub open spec fn positive_status(status: Option<Seq<char>>) -> bool {
    match status {
        Some(s) => lower(s) == "compatible"@ || lower(s) == "passed"@ || lower(s) == "observed"@
            || lower(s) == "candidate"@ || lower(s) == "valid"@ || lower(s) == "ready"@ || lower(s)
            == "success"@ || lower(s) == "succeeded"@,
        None => false,
    }
}

pub fn is_positive_status(status: &Option<String>) -> (r: bool)
    ensures
        r == positive_status(opt_view(*status)),
{
    match status {
        Some(s) => {
            let low = to_lower(s.as_str());
            let t = low.as_str();
            same(t, "compatible") || same(t, "passed") || same(t, "observed") || same(t, "candidate")
                || same(t, "valid") || same(t, "ready") || same(t, "success") || same(
                t,
                "succeeded",
            )
        },
        None => false,
    }
}

// ---------------------------------------------------------------------------
// Building the graph
// ---------------------------------------------------------------------------
/// The index, from `i` on, of the component with the key.
pub open spec fn node_index(nodes: Seq<NodeV>, key: Seq<char>, i: int) -> Option<int>
    decreases nodes.len() - i,
{
    if i < 0 || i >= nodes.len() {
        None
    } else if nodes[i].key == key {
        Some(i)
    } else {
        node_index(nodes, key, i + 1)
    }
}

/// The component with the key.
pub open spec fn node_at(g: IndexV, key: Seq<char>) -> Option<NodeV> {
    match node_index(g.nodes, key, 0) {
        Some(i) => Some(g.nodes[i]),
        None => None,
    }
}

/// The order of optional texts: none comes before any.
pub open spec fn later(a: Option<Seq<char>>, b: Option<Seq<char>>) -> bool {
    match (a, b) {
        (Some(x), Some(y)) => text_less(y, x),
        (Some(_), None) => true,
        _ => false,
    }
}

fn is_later(a: &Option<String>, b: &Option<String>) -> (r: bool)
    ensures
        r == later(opt_view(*a), opt_view(*b)),
{
    match (a, b) {
        (Some(x), Some(y)) => less(y.as_str(), x.as_str()),
        (Some(_), None) => true,
        _ => false,
    }
}

/// Whether an observation of a component takes the place of another: it is later,
/// or it knows a version and the other none.
pub open spec fn supersedes(new: NodeV, old_node: NodeV) -> bool {
    later(new.last_observed_at, old_node.last_observed_at) || (old_node.version is None
        && new.version is Some)
}

/// The components with one more observation.
pub open spec fn with_node(nodes: Seq<NodeV>, n: NodeV) -> Seq<NodeV> {
    match node_index(nodes, n.key, 0) {
        Some(i) => if supersedes(n, nodes[i]) {
            nodes.update(i, n)
        } else {
            nodes
        },
        None => nodes.push(n),
    }
}

/// The names with those of the first `n` variants for a key, each pair once.
pub open spec fn with_variants(aliases: Seq<AliasV>, variants: Seq<Seq<char>>, key: Seq<char>, n: int) -> Seq<
    AliasV,
>
    decreases n,
{
    if n <= 0 {
        aliases
    } else {
        let before = with_variants(aliases, variants, key, n - 1);
        let pair = AliasV { alias: variants[n - 1], key };
        if before.contains(pair) {
            before
        } else {
            before.push(pair)
        }
    }
}

/// The names with those of an alias for a key.
pub open spec fn with_alias(aliases: Seq<AliasV>, alias: Seq<char>, key: Seq<char>) -> Seq<AliasV> {
    with_variants(aliases, variants_of(alias), key, variants_of(alias).len() as int)
}

pub open spec fn with_opt_alias(aliases: Seq<AliasV>, alias: Option<Seq<char>>, key: Seq<char>) -> Seq<
    AliasV,
> {
    match alias {
        Some(a) => with_alias(aliases, a, key),
        None => aliases,
    }
}

/// The graph with one more observation of a component, found under its name, its
/// subject, its repository and its identity.
pub open spec fn with_component(g: IndexV, n: NodeV) -> IndexV {
    IndexV {
        nodes: with_node(g.nodes, n),
        aliases: with_opt_alias(
            with_opt_alias(
                with_opt_alias(with_alias(g.aliases, n.component, n.key), n.subject_name, n.key),
                n.repo,
                n.key,
            ),
            n.identity,
            n.key,
        ),
        edges: g.edges,
    }
}

pub open spec fn or_empty(o: Option<Seq<char>>) -> Seq<char> {
    match o {
        Some(s) => s,
        None => ""@,
    }
}

fn or_blank(o: &Option<String>) -> (r: String)
    ensures
        r@ == or_empty(opt_view(*o)),
{
    match o {
        Some(s) => s.clone(),
        None => "".to_owned(),
    }
}

/// What two edges share that stand for the same one.
pub open spec fn edge_key(e: EdgeV) -> Seq<char> {
    e.source + "\0"@ + e.target + "\0"@ + e.relationship + "\0"@ + or_empty(e.capability) + "\0"@
        + or_empty(e.capability_version)
}

fn edge_key_of(e: &GraphEdge) -> (r: String)
    ensures
        r@ == edge_key(e@),
{
    let mut key = cat5(e.source.as_str(), "\0", e.target.as_str(), "\0", e.relationship.as_str());
    key.push_str("\0");
    key.push_str(or_blank(&e.capability).as_str());
    key.push_str("\0");
    key.push_str(or_blank(&e.capability_version).as_str());
    key
}

/// Whether an edge is known already.
pub open spec fn has_edge(edges: Seq<EdgeV>, e: EdgeV) -> bool {
    exists|i: int| 0 <= i < edges.len() && edge_key(#[trigger] edges[i]) == edge_key(e)
}

/// The edges with one more, unless it is known.
pub open spec fn with_edge(edges: Seq<EdgeV>, e: EdgeV) -> Seq<EdgeV> {
    if has_edge(edges, e) {
        edges
    } else {
        edges.push(e)
    }
}

/// Whether no edge is known twice and no component stands twice.
pub open spec fn index_wf(g: IndexV) -> bool {
    &&& forall|i: int, j: int|
        0 <= i < j < g.edges.len() ==> edge_key(#[trigger] g.edges[i]) != edge_key(
            #[trigger] g.edges[j],
        )
    &&& forall|i: int, j: int|
        0 <= i < j < g.nodes.len() ==> (#[trigger] g.nodes[i]).key != (#[trigger] g.nodes[j]).key
    &&& g.aliases.no_duplicates()
}

/// The edge that a membership has in the other direction.
pub open spec fn reverse_edge(e: EdgeV) -> EdgeV {
    EdgeV {
        source: e.target,
        target: e.source,
        relationship: "member-of"@,
        capability: e.capability,
        capability_version: e.capability_version,
        source_version: e.target_version,
        target_version: e.source_version,
        source_fact_id: e.target_fact_id,
        target_fact_id: e.source_fact_id,
        status: e.status,
        observed_at: e.observed_at,
    }
}

/// The edges with one that was read; a membership comes with its reverse.
pub open spec fn with_read_edge(edges: Seq<EdgeV>, e: EdgeV) -> Seq<EdgeV> {
    if e.relationship == "contains"@ {
        with_edge(with_edge(edges, e), reverse_edge(e))
    } else {
        with_edge(edges, e)
    }
}

/// A row of components as it was read.
#[derive(Debug)]
pub struct NodeRow {
    pub component: String,
    pub identity: Option<String>,
    pub subject_name: Option<String>,
    pub repo: Option<String>,
    pub version: Option<String>,
    pub status: Option<String>,
    pub last_observed_at: Option<String>,
}

/// The observation that a row holds.
pub open spec fn row_node(r: NodeRow) -> NodeV {
    NodeV {
        key: key_of(r.component@),
        component: r.component@,
        version: opt_view(r.version),
        identity: opt_view(r.identity),
        subject_name: opt_view(r.subject_name),
        repo: opt_view(r.repo),
        status: opt_view(r.status),
        last_observed_at: opt_view(r.last_observed_at),
    }
}

/// A row of names as it was read.
#[derive(Debug)]
pub struct AliasRow {
    pub identity: Option<String>,
    pub canonical_component: Option<String>,
    pub subject_name: Option<String>,
    pub repo: Option<String>,
    pub alias: String,
}

pub open spec fn opt_short(o: Option<Seq<char>>) -> Option<Seq<char>> {
    match o {
        Some(s) => Some(short_name(s)),
        None => None,
    }
}

fn short_opt(o: &Option<String>) -> (r: Option<String>)
    ensures
        opt_view(r) == opt_short(opt_view(*o)),
{
    match o {
        Some(s) => Some(component_key(s.as_str())),
        None => None,
    }
}

/// The component that a row of names is about: the canonical one, else the short
/// name of its subject, its repository or its identity.
pub open spec fn alias_row_key(r: AliasRow) -> Option<Seq<char>> {
    or(
        or(
            or(opt_view(r.canonical_component), opt_short(opt_view(r.subject_name))),
            opt_short(opt_view(r.repo)),
        ),
        opt_short(opt_view(r.identity)),
    )
}

pub open spec fn with_alias_row(aliases: Seq<AliasV>, r: AliasRow) -> Seq<AliasV> {
    match alias_row_key(r) {
        Some(key) => with_alias(aliases, r.alias@, key_of(key)),
        None => aliases,
    }
}

/// The graph with the first `n` rows of components.
pub open spec fn with_node_rows(g: IndexV, rows: Seq<NodeRow>, n: int) -> IndexV
    decreases n,
{
    if n <= 0 {
        g
    } else {
        with_component(with_node_rows(g, rows, n - 1), row_node(rows[n - 1]))
    }
}

/// The names with the first `n` rows of names.
pub open spec fn with_alias_rows(aliases: Seq<AliasV>, rows: Seq<AliasRow>, n: int) -> Seq<AliasV>
    decreases n,
{
    if n <= 0 {
        aliases
    } else {
        with_alias_row(with_alias_rows(aliases, rows, n - 1), rows[n - 1])
    }
}

/// The edges with the first `n` that were read.
pub open spec fn with_edge_rows(edges: Seq<EdgeV>, rows: Seq<EdgeV>, n: int) -> Seq<EdgeV>
    decreases n,
{
    if n <= 0 {
        edges
    } else {
        with_read_edge(with_edge_rows(edges, rows, n - 1), rows[n - 1])
    }
}

impl GraphIndex {
    pub fn new() -> (r: GraphIndex)
        ensures
            r@.nodes.len() == 0,
            r@.aliases.len() == 0,
            r@.edges.len() == 0,
            index_wf(r@),
    {
        GraphIndex { nodes: Vec::new(), aliases: Vec::new(), edges: Vec::new() }
    }

    fn find_node(&self, key: &str) -> (r: Option<usize>)
        ensures
            match r {
                Some(i) => node_index(self@.nodes, key@, 0) == Some(i as int) && i
                    < self.nodes@.len() && self@.nodes[i as int] == self.nodes@[i as int]@,
                None => node_index(self@.nodes, key@, 0) is None,
            },
    {
        let ghost nodes = self@.nodes;
        let mut i: usize = 0;
        while i < self.nodes.len()
            invariant
                nodes == self@.nodes,
                i <= self.nodes@.len(),
                node_index(nodes, key@, 0) == node_index(nodes, key@, i as int),
            decreases self.nodes@.len() - i,
        {
            assert(nodes[i as int] == self.nodes@[i as int]@);
            if same(self.nodes[i].key.as_str(), key) {
                return Some(i);
            }
            i += 1;
        }
        None
    }

    pub fn node(&self, key: &str) -> (r: Option<&GraphNode>)
        ensures
            match r {
                Some(n) => node_at(self@, key@) == Some(n@),
                None => node_at(self@, key@) is None,
            },
    {
        match self.find_node(key) {
            Some(i) => Some(&self.nodes[i]),
            None => None,
        }
    }

    fn has_alias(&self, alias: &str, key: &str) -> (r: bool)
        ensures
            r == self@.aliases.contains(AliasV { alias: alias@, key: key@ }),
    {
        let ghost pair = AliasV { alias: alias@, key: key@ };
        let ghost aliases = self@.aliases;
        let mut i: usize = 0;
        while i < self.aliases.len()
            invariant
                aliases == self@.aliases,
                pair == (AliasV { alias: alias@, key: key@ }),
                i <= self.aliases@.len(),
                forall|k: int| 0 <= k < i ==> aliases[k] != pair,
            decreases self.aliases@.len() - i,
        {
            assert(aliases[i as int] == self.aliases@[i as int]@);
            if same(self.aliases[i].alias.as_str(), alias) && same(
                self.aliases[i].key.as_str(),
                key,
            ) {
                assert(aliases[i as int] == pair);
                return true;
            }
            i += 1;
        }
        false
    }

    pub fn add_alias(&mut self, alias: &str, key: &str)
        ensures
            final(self)@ == (IndexV {
                aliases: with_alias(old(self)@.aliases, alias@, key@),
                ..old(self)@
            }),
    {
        let variants = alias_variants(alias);
        let ghost v = views(variants@);
        let ghost base = self@.aliases;
        let mut i: usize = 0;
        while i < variants.len()
            invariant
                v == views(variants@),
                i <= variants@.len(),
                self@.aliases == with_variants(base, v, key@, i as int),
                self@.nodes == old(self)@.nodes,
                self@.edges == old(self)@.edges,
            decreases variants@.len() - i,
        {
            assert(v[i as int] == variants@[i as int]@);
            if !self.has_alias(variants[i].as_str(), key) {
                let ghost before = self@.aliases;
                let ghost pair = AliasV { alias: v[i as int], key: key@ };
                self.aliases.push(
                    GraphAlias { alias: variants[i].clone(), key: key.to_owned() },
                );
                assert(self@.aliases =~= before.push(pair));
            }
            i += 1;
        }
        assert(v.len() == variants@.len());
    }

    fn add_opt_alias(&mut self, alias: &Option<String>, key: &str)
        ensures
            final(self)@ == (IndexV {
                aliases: with_opt_alias(old(self)@.aliases, opt_view(*alias), key@),
                ..old(self)@
            }),
    {
        match alias {
            Some(a) => {
                self.add_alias(a.as_str(), key);
            },
            None => {},
        }
    }

    pub fn add_node(&mut self, node: GraphNode)
        ensures
            final(self)@ == with_component(old(self)@, node@),
    {
        self.add_alias(node.component.as_str(), node.key.as_str());
        self.add_opt_alias(&node.subject_name, node.key.as_str());
        self.add_opt_alias(&node.repo, node.key.as_str());
        self.add_opt_alias(&node.identity, node.key.as_str());
        let ghost nodes = self@.nodes;
        let ghost view = node@;
        match self.find_node(node.key.as_str()) {
            Some(i) => {
                let replace = is_later(
                    &node.last_observed_at,
                    &self.nodes[i].last_observed_at,
                ) || (self.nodes[i].version.is_none() && node.version.is_some());
                if replace {
                    self.nodes.set(i, node);
                    assert(self@.nodes =~= nodes.update(i as int, view));
                }
            },
            None => {
                self.nodes.push(node);
                assert(self@.nodes =~= nodes.push(view));
            },
        }
    }

    pub fn add_edge(&mut self, edge: GraphEdge)
        ensures
            final(self)@ == (IndexV { edges: with_edge(old(self)@.edges, edge@), ..old(self)@ }),
    {
        let key = edge_key_of(&edge);
        let ghost edges = self@.edges;
        let ghost view = edge@;
        let mut i: usize = 0;
        while i < self.edges.len()
            invariant
                *self == *old(self),
                edges == self@.edges,
                view == edge@,
                key@ == edge_key(view),
                i <= self.edges@.len(),
                forall|k: int| 0 <= k < i ==> edge_key(#[trigger] edges[k]) != edge_key(view),
            decreases self.edges@.len() - i,
        {
            assert(edges[i as int] == self.edges@[i as int]@);
            if same(edge_key_of(&self.edges[i]).as_str(), key.as_str()) {
                assert(edge_key(edges[i as int]) == edge_key(view));
                return ;
            }
            i += 1;
        }
        self.edges.push(edge);
        assert(self@.edges =~= edges.push(view));
    }

    /// Takes in the components and names that were read.
    pub fn load_nodes(&mut self, nodes: Vec<NodeRow>, aliases: Vec<AliasRow>)
        ensures
            final(self)@ == (IndexV {
                aliases: with_alias_rows(
                    with_node_rows(old(self)@, nodes@, nodes@.len() as int).aliases,
                    aliases@,
                    aliases@.len() as int,
                ),
                ..with_node_rows(old(self)@, nodes@, nodes@.len() as int)
            }),
    {
        let ghost start = self@;
        let mut i: usize = 0;
        while i < nodes.len()
            invariant
                i <= nodes@.len(),
                self@ == with_node_rows(start, nodes@, i as int),
            decreases nodes@.len() - i,
        {
            let r = &nodes[i];
            let node = GraphNode {
                key: graph_key(r.component.as_str()),
                component: r.component.clone(),
                version: copy_opt(&r.version),
                identity: copy_opt(&r.identity),
                subject_name: copy_opt(&r.subject_name),
                repo: copy_opt(&r.repo),
                status: copy_opt(&r.status),
                last_observed_at: copy_opt(&r.last_observed_at),
            };
            assert(node@ == row_node(nodes@[i as int]));
            self.add_node(node);
            i += 1;
        }
        let ghost loaded = self@;
        let mut i: usize = 0;
        while i < aliases.len()
            invariant
                i <= aliases@.len(),
                self@ == (IndexV {
                    aliases: with_alias_rows(loaded.aliases, aliases@, i as int),
                    ..loaded
                }),
            decreases aliases@.len() - i,
        {
            let r = &aliases[i];
            let key = or_text(
                or_text(
                    or_text(copy_opt(&r.canonical_component), short_opt(&r.subject_name)),
                    short_opt(&r.repo),
                ),
                short_opt(&r.identity),
            );
            match key {
                Some(k) => {
                    self.add_alias(r.alias.as_str(), graph_key(k.as_str()).as_str());
                },
                None => {},
            }
            i += 1;
        }
    }

    /// Takes in the edges that were read.
    pub fn load_edges(&mut self, rows: Vec<GraphEdge>)
        ensures
            final(self)@ == (IndexV {
                edges: with_edge_rows(
                    old(self)@.edges,
                    edge_views(rows@),
                    rows@.len() as int,
                ),
                ..old(self)@
            }),
    {
        let ghost start = self@;
        let ghost all = edge_views(rows@);
        let mut i: usize = 0;
        while i < rows.len()
            invariant
                all == edge_views(rows@),
                i <= rows@.len(),
                self@ == (IndexV {
                    edges: with_edge_rows(start.edges, all, i as int),
                    ..start
                }),
            decreases rows@.len() - i,
        {
            let e = &rows[i];
            assert(all[i as int] == e@);
            self.add_edge(e.copy());
            if same(e.relationship.as_str(), "contains") {
                let reverse = GraphEdge {
                    source: e.target.clone(),
                    target: e.source.clone(),
                    relationship: "member-of".to_owned(),
                    capability: copy_opt(&e.capability),
                    capability_version: copy_opt(&e.capability_version),
                    source_version: copy_opt(&e.target_version),
                    target_version: copy_opt(&e.source_version),
                    source_fact_id: copy_opt(&e.target_fact_id),
                    target_fact_id: copy_opt(&e.source_fact_id),
                    status: copy_opt(&e.status),
                    observed_at: copy_opt(&e.observed_at),
                };
                assert(reverse@ == reverse_edge(e@));
                self.add_edge(reverse);
            }
            i += 1;
        }
    }
}

proof fn lemma_node_index(nodes: Seq<NodeV>, key: Seq<char>, i: int)
    requires
        0 <= i,
    ensures
        match node_index(nodes, key, i) {
            Some(k) => i <= k < nodes.len() && nodes[k].key == key,
            None => forall|j: int| i <= j < nodes.len() ==> (#[trigger] nodes[j]).key != key,
        },
    decreases nodes.len() - i,
{
    if i < nodes.len() && nodes[i].key != key {
        lemma_node_index(nodes, key, i + 1);
    }
}

proof fn lemma_variants_distinct(aliases: Seq<AliasV>, variants: Seq<Seq<char>>, key: Seq<char>, n: int)
    requires
        aliases.no_duplicates(),
    ensures
        with_variants(aliases, variants, key, n).no_duplicates(),
    decreases n,
{
    if n > 0 {
        lemma_variants_distinct(aliases, variants, key, n - 1);
        let before = with_variants(aliases, variants, key, n - 1);
        let pair = AliasV { alias: variants[n - 1], key };
        if !before.contains(pair) {
            assert forall|i: int, j: int|
                0 <= i < before.push(pair).len() && 0 <= j < before.push(pair).len() && i
                    != j implies before.push(pair)[i] != before.push(pair)[j] by {
                if i < before.len() && j < before.len() {
                } else if i < before.len() {
                    assert(before.contains(before[i]));
                } else {
                    assert(before.contains(before[j]));
                }
            }
        }
    }
}

/// A component, a name or an edge that is taken in keeps the graph free of
/// duplicates.
pub proof fn law_index_stays_distinct(g: IndexV, n: NodeV, alias: Seq<char>, key: Seq<char>, e: EdgeV)
    requires
        index_wf(g),
    ensures
        index_wf(with_component(g, n)),
        index_wf(IndexV { aliases: with_alias(g.aliases, alias, key), ..g }),
        index_wf(IndexV { edges: with_edge(g.edges, e), ..g }),
{
    lemma_node_index(g.nodes, n.key, 0);
    let a1 = with_alias(g.aliases, n.component, n.key);
    lemma_variants_distinct(
        g.aliases,
        variants_of(n.component),
        n.key,
        variants_of(n.component).len() as int,
    );
    let a2 = with_opt_alias(a1, n.subject_name, n.key);
    if n.subject_name is Some {
        let v = variants_of(n.subject_name.unwrap());
        lemma_variants_distinct(a1, v, n.key, v.len() as int);
    }
    let a3 = with_opt_alias(a2, n.repo, n.key);
    if n.repo is Some {
        let v = variants_of(n.repo.unwrap());
        lemma_variants_distinct(a2, v, n.key, v.len() as int);
    }
    if n.identity is Some {
        let v = variants_of(n.identity.unwrap());
        lemma_variants_distinct(a3, v, n.key, v.len() as int);
    }
    lemma_variants_distinct(g.aliases, variants_of(alias), key, variants_of(alias).len() as int);
}

/// What a name is found under stays: names that come later do not change it.
pub proof fn law_first_alias_wins(aliases: Seq<AliasV>, alias: Seq<char>, key: Seq<char>, name: Seq<char>)
    requires
        alias_target(aliases, name, 0) is Some,
    ensures
        alias_target(with_alias(aliases, alias, key), name, 0) == alias_target(aliases, name, 0),
{
    lemma_variants_keep(
        aliases,
        variants_of(alias),
        key,
        variants_of(alias).len() as int,
        name,
    );
}

proof fn lemma_variants_keep(
    aliases: Seq<AliasV>,
    variants: Seq<Seq<char>>,
    key: Seq<char>,
    n: int,
    name: Seq<char>,
)
    requires
        alias_target(aliases, name, 0) is Some,
    ensures
        alias_target(with_variants(aliases, variants, key, n), name, 0) == alias_target(
            aliases,
            name,
            0,
        ),
    decreases n,
{
    if n > 0 {
        lemma_variants_keep(aliases, variants, key, n - 1, name);
        let before = with_variants(aliases, variants, key, n - 1);
        lemma_target_push(before, AliasV { alias: variants[n - 1], key }, name, 0);
    }
}

proof fn lemma_target_push(aliases: Seq<AliasV>, pair: AliasV, name: Seq<char>, i: int)
    requires
        0 <= i,
        alias_target(aliases, name, i) is Some,
    ensures
        alias_target(aliases.push(pair), name, i) == alias_target(aliases, name, i),
    decreases aliases.len() - i,
{
    if i < aliases.len() && aliases[i].alias != name {
        lemma_target_push(aliases, pair, name, i + 1);
    }
}

/// The component that a name, from `i` on, is first found for.
pub open spec fn alias_target(aliases: Seq<AliasV>, name: Seq<char>, i: int) -> Option<Seq<char>>
    decreases aliases.len() - i,
{
    if i < 0 || i >= aliases.len() {
        None
    } else if aliases[i].alias == name {
        Some(aliases[i].key)
    } else {
        alias_target(aliases, name, i + 1)
    }
}

/// The components that a name is found for among the first `n` pairs, sorted.
pub open spec fn alias_keys(aliases: Seq<AliasV>, name: Seq<char>, n: int) -> Seq<Seq<char>>
    decreases n,
{
    if n <= 0 {
        Seq::empty()
    } else if aliases[n - 1].alias == name {
        set_put(alias_keys(aliases, name, n - 1), aliases[n - 1].key)
    } else {
        alias_keys(aliases, name, n - 1)
    }
}

} // verus!
