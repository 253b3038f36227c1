//! What can be selected of the answers to graph queries.
use vstd::prelude::*;
use crate::graphql::{field_views, lemma_field_view, FieldV, GraphQlField};
use crate::text::{cat4, debug_of, debug_text, opt_view, same};

verus! {

/// The types of what graph queries answer.
#[derive(Clone, Copy, Debug, PartialEq, Eq, Structural)]
pub enum GraphType {
    GraphPathAnswer,
    GraphWorksWithAnswer,
    GraphVersionsForAnswer,
    GraphStatusAnswer,
    GraphResolveAnswer,
    ProducerInventory,
    Component,
    GraphPath,
    GraphEdge,
    VersionCandidate,
    ProducerSummary,
    Producer,
    ResolveMatch,
    Scalar,
}

pub open spec fn graph_path_answer_member(name: Seq<char>) -> Option<GraphType> {
    if name == "kind"@ || name == "status"@ || name == "found"@ || name == "confidence"@
        || name == "pathCount"@ || name == "missing"@ {
        Some(GraphType::Scalar)
    } else if name == "source"@ || name == "target"@ {
        Some(GraphType::Component)
    } else if name == "recommended"@ || name == "paths"@ {
        Some(GraphType::GraphPath)
    } else {
        None
    }
}

fn graph_path_answer_field(name: &str) -> (r: Option<GraphType>)
    ensures
        r == graph_path_answer_member(name@),
{
    if same(name, "kind") || same(name, "status") || same(name, "found")
        || same(name, "confidence") || same(name, "pathCount") || same(name, "missing") {
        Some(GraphType::Scalar)
    } else if same(name, "source") || same(name, "target") {
        Some(GraphType::Component)
    } else if same(name, "recommended") || same(name, "paths") {
        Some(GraphType::GraphPath)
    } else {
        None
    }
}

pub open spec fn graph_works_with_answer_member(name: Seq<char>) -> Option<GraphType> {
    if name == "kind"@ || name == "status"@ || name == "compatible"@ || name == "confidence"@
        || name == "direction"@ || name == "pathCount"@ || name == "reasons"@
        || name == "missing"@ {
        Some(GraphType::Scalar)
    } else if name == "left"@ || name == "right"@ {
        Some(GraphType::Component)
    } else if name == "recommended"@ || name == "paths"@ {
        Some(GraphType::GraphPath)
    } else {
        None
    }
}

fn graph_works_with_answer_field(name: &str) -> (r: Option<GraphType>)
    ensures
        r == graph_works_with_answer_member(name@),
{
    if same(name, "kind") || same(name, "status") || same(name, "compatible")
        || same(name, "confidence") || same(name, "direction") || same(name, "pathCount")
        || same(name, "reasons") || same(name, "missing") {
        Some(GraphType::Scalar)
    } else if same(name, "left") || same(name, "right") {
        Some(GraphType::Component)
    } else if same(name, "recommended") || same(name, "paths") {
        Some(GraphType::GraphPath)
    } else {
        None
    }
}

pub open spec fn graph_versions_for_answer_member(name: Seq<char>) -> Option<GraphType> {
    if name == "kind"@ || name == "versions"@ {
        Some(GraphType::Scalar)
    } else if name == "component"@ || name == "for"@ {
        Some(GraphType::Component)
    } else if name == "versionCandidates"@ {
        Some(GraphType::VersionCandidate)
    } else {
        None
    }
}

fn graph_versions_for_answer_field(name: &str) -> (r: Option<GraphType>)
    ensures
        r == graph_versions_for_answer_member(name@),
{
    if same(name, "kind") || same(name, "versions") {
        Some(GraphType::Scalar)
    } else if same(name, "component") || same(name, "for") {
        Some(GraphType::Component)
    } else if same(name, "versionCandidates") {
        Some(GraphType::VersionCandidate)
    } else {
        None
    }
}

pub open spec fn graph_status_answer_member(name: Seq<char>) -> Option<GraphType> {
    if name == "kind"@ || name == "outgoingCount"@ || name == "incomingCount"@ {
        Some(GraphType::Scalar)
    } else if name == "component"@ {
        Some(GraphType::Component)
    } else if name == "outgoing"@ || name == "incoming"@ {
        Some(GraphType::GraphEdge)
    } else {
        None
    }
}

fn graph_status_answer_field(name: &str) -> (r: Option<GraphType>)
    ensures
        r == graph_status_answer_member(name@),
{
    if same(name, "kind") || same(name, "outgoingCount") || same(name, "incomingCount") {
        Some(GraphType::Scalar)
    } else if same(name, "component") {
        Some(GraphType::Component)
    } else if same(name, "outgoing") || same(name, "incoming") {
        Some(GraphType::GraphEdge)
    } else {
        None
    }
}

pub open spec fn graph_resolve_answer_member(name: Seq<char>) -> Option<GraphType> {
    if name == "kind"@ || name == "requested"@ || name == "name"@ || name == "version"@
        || name == "ambiguous"@ || name == "matchCount"@ || name == "warnings"@ {
        Some(GraphType::Scalar)
    } else if name == "resolved"@ {
        Some(GraphType::Component)
    } else if name == "matches"@ {
        Some(GraphType::ResolveMatch)
    } else {
        None
    }
}

fn graph_resolve_answer_field(name: &str) -> (r: Option<GraphType>)
    ensures
        r == graph_resolve_answer_member(name@),
{
    if same(name, "kind") || same(name, "requested") || same(name, "name")
        || same(name, "version") || same(name, "ambiguous") || same(name, "matchCount")
        || same(name, "warnings") {
        Some(GraphType::Scalar)
    } else if same(name, "resolved") {
        Some(GraphType::Component)
    } else if same(name, "matches") {
        Some(GraphType::ResolveMatch)
    } else {
        None
    }
}

pub open spec fn producer_inventory_member(name: Seq<char>) -> Option<GraphType> {
    if name == "kind"@ || name == "columns"@ {
        Some(GraphType::Scalar)
    } else if name == "summary"@ {
        Some(GraphType::ProducerSummary)
    } else if name == "rows"@ {
        Some(GraphType::Producer)
    } else {
        None
    }
}

fn producer_inventory_field(name: &str) -> (r: Option<GraphType>)
    ensures
        r == producer_inventory_member(name@),
{
    if same(name, "kind") || same(name, "columns") {
        Some(GraphType::Scalar)
    } else if same(name, "summary") {
        Some(GraphType::ProducerSummary)
    } else if same(name, "rows") {
        Some(GraphType::Producer)
    } else {
        None
    }
}

pub open spec fn component_member(name: Seq<char>) -> Option<GraphType> {
    if name == "requested"@ || name == "key"@ || name == "component"@ || name == "version"@
        || name == "identity"@ || name == "subjectName"@ || name == "repo"@ || name == "status"@
        || name == "lastObservedAt"@ {
        Some(GraphType::Scalar)
    } else {
        None
    }
}

fn component_field(name: &str) -> (r: Option<GraphType>)
    ensures
        r == component_member(name@),
{
    if same(name, "requested") || same(name, "key") || same(name, "component")
        || same(name, "version") || same(name, "identity") || same(name, "subjectName")
        || same(name, "repo") || same(name, "status") || same(name, "lastObservedAt") {
        Some(GraphType::Scalar)
    } else {
        None
    }
}

pub open spec fn graph_path_member(name: Seq<char>) -> Option<GraphType> {
    if name == "length"@ || name == "score"@ || name == "confidence"@ || name == "reasons"@ {
        Some(GraphType::Scalar)
    } else if name == "nodes"@ {
        Some(GraphType::Component)
    } else if name == "edges"@ {
        Some(GraphType::GraphEdge)
    } else {
        None
    }
}

fn graph_path_field(name: &str) -> (r: Option<GraphType>)
    ensures
        r == graph_path_member(name@),
{
    if same(name, "length") || same(name, "score") || same(name, "confidence")
        || same(name, "reasons") {
        Some(GraphType::Scalar)
    } else if same(name, "nodes") {
        Some(GraphType::Component)
    } else if same(name, "edges") {
        Some(GraphType::GraphEdge)
    } else {
        None
    }
}

pub open spec fn graph_edge_member(name: Seq<char>) -> Option<GraphType> {
    if name == "from"@ || name == "to"@ {
        Some(GraphType::Component)
    } else if name == "relationship"@ || name == "capability"@ || name == "capabilityVersion"@
        || name == "sourceVersion"@ || name == "targetVersion"@ || name == "sourceFactId"@
        || name == "targetFactId"@ || name == "status"@ || name == "observedAt"@ {
        Some(GraphType::Scalar)
    } else {
        None
    }
}

fn graph_edge_field(name: &str) -> (r: Option<GraphType>)
    ensures
        r == graph_edge_member(name@),
{
    if same(name, "from") || same(name, "to") {
        Some(GraphType::Component)
    } else if same(name, "relationship") || same(name, "capability")
        || same(name, "capabilityVersion") || same(name, "sourceVersion")
        || same(name, "targetVersion") || same(name, "sourceFactId") || same(name, "targetFactId")
        || same(name, "status") || same(name, "observedAt") {
        Some(GraphType::Scalar)
    } else {
        None
    }
}

pub open spec fn version_candidate_member(name: Seq<char>) -> Option<GraphType> {
    if name == "version"@ || name == "score"@ || name == "confidence"@ || name == "pathCount"@ {
        Some(GraphType::Scalar)
    } else {
        None
    }
}

fn version_candidate_field(name: &str) -> (r: Option<GraphType>)
    ensures
        r == version_candidate_member(name@),
{
    if same(name, "version") || same(name, "score") || same(name, "confidence")
        || same(name, "pathCount") {
        Some(GraphType::Scalar)
    } else {
        None
    }
}

pub open spec fn producer_summary_member(name: Seq<char>) -> Option<GraphType> {
    if name == "producers"@ || name == "staleProducers"@ || name == "facts"@
        || name == "invalidFacts"@ || name == "sourceRepoFacts"@
        || name == "inferredSubjectRepoFacts"@ || name == "unknownProducerFacts"@
        || name == "missingProducerMetadataFacts"@ || name == "staleAfterDays"@ {
        Some(GraphType::Scalar)
    } else {
        None
    }
}

fn producer_summary_field(name: &str) -> (r: Option<GraphType>)
    ensures
        r == producer_summary_member(name@),
{
    if same(name, "producers") || same(name, "staleProducers") || same(name, "facts")
        || same(name, "invalidFacts") || same(name, "sourceRepoFacts")
        || same(name, "inferredSubjectRepoFacts") || same(name, "unknownProducerFacts")
        || same(name, "missingProducerMetadataFacts") || same(name, "staleAfterDays") {
        Some(GraphType::Scalar)
    } else {
        None
    }
}

pub open spec fn producer_member(name: Seq<char>) -> Option<GraphType> {
    if name == "pick"@ || name == "producer"@ || name == "facts"@ || name == "components"@
        || name == "zones"@ || name == "invalid_facts"@ || name == "source_repo_facts"@
        || name == "inferred_subject_repo_facts"@ || name == "unknown_producer_facts"@
        || name == "producer_metadata"@ || name == "last_observed_at"@ || name == "freshness"@ {
        Some(GraphType::Scalar)
    } else {
        None
    }
}

fn producer_field(name: &str) -> (r: Option<GraphType>)
    ensures
        r == producer_member(name@),
{
    if same(name, "pick") || same(name, "producer") || same(name, "facts")
        || same(name, "components") || same(name, "zones") || same(name, "invalid_facts")
        || same(name, "source_repo_facts") || same(name, "inferred_subject_repo_facts")
        || same(name, "unknown_producer_facts") || same(name, "producer_metadata")
        || same(name, "last_observed_at") || same(name, "freshness") {
        Some(GraphType::Scalar)
    } else {
        None
    }
}

pub open spec fn resolve_match_member(name: Seq<char>) -> Option<GraphType> {
    if name == "node"@ {
        Some(GraphType::Component)
    } else if name == "aliasKinds"@ || name == "outgoingCount"@ || name == "incomingCount"@ {
        Some(GraphType::Scalar)
    } else {
        None
    }
}

fn resolve_match_field(name: &str) -> (r: Option<GraphType>)
    ensures
        r == resolve_match_member(name@),
{
    if same(name, "node") {
        Some(GraphType::Component)
    } else if same(name, "aliasKinds") || same(name, "outgoingCount")
        || same(name, "incomingCount") {
        Some(GraphType::Scalar)
    } else {
        None
    }
}

impl GraphType {
    pub open spec fn title(self) -> Seq<char> {
        match self {
            GraphType::GraphPathAnswer => "GraphPathAnswer"@,
            GraphType::GraphWorksWithAnswer => "GraphWorksWithAnswer"@,
            GraphType::GraphVersionsForAnswer => "GraphVersionsForAnswer"@,
            GraphType::GraphStatusAnswer => "GraphStatusAnswer"@,
            GraphType::GraphResolveAnswer => "GraphResolveAnswer"@,
            GraphType::ProducerInventory => "ProducerInventory"@,
            GraphType::Component => "Component"@,
            GraphType::GraphPath => "GraphPath"@,
            GraphType::GraphEdge => "GraphEdge"@,
            GraphType::VersionCandidate => "VersionCandidate"@,
            GraphType::ProducerSummary => "ProducerSummary"@,
            GraphType::Producer => "Producer"@,
            GraphType::ResolveMatch => "ResolveMatch"@,
            GraphType::Scalar => "Scalar"@,
        }
    }

    /// The type of a member of this type.
    pub open spec fn member(self, name: Seq<char>) -> Option<GraphType> {
        match self {
            GraphType::GraphPathAnswer => graph_path_answer_member(name),
            GraphType::GraphWorksWithAnswer => graph_works_with_answer_member(name),
            GraphType::GraphVersionsForAnswer => graph_versions_for_answer_member(name),
            GraphType::GraphStatusAnswer => graph_status_answer_member(name),
            GraphType::GraphResolveAnswer => graph_resolve_answer_member(name),
            GraphType::ProducerInventory => producer_inventory_member(name),
            GraphType::Component => component_member(name),
            GraphType::GraphPath => graph_path_member(name),
            GraphType::GraphEdge => graph_edge_member(name),
            GraphType::VersionCandidate => version_candidate_member(name),
            GraphType::ProducerSummary => producer_summary_member(name),
            GraphType::Producer => producer_member(name),
            GraphType::ResolveMatch => resolve_match_member(name),
            GraphType::Scalar => None,
        }
    }

    pub fn name(self) -> (r: &'static str)
        ensures
            r@ == self.title(),
    {
        match self {
            GraphType::GraphPathAnswer => "GraphPathAnswer",
            GraphType::GraphWorksWithAnswer => "GraphWorksWithAnswer",
            GraphType::GraphVersionsForAnswer => "GraphVersionsForAnswer",
            GraphType::GraphStatusAnswer => "GraphStatusAnswer",
            GraphType::GraphResolveAnswer => "GraphResolveAnswer",
            GraphType::ProducerInventory => "ProducerInventory",
            GraphType::Component => "Component",
            GraphType::GraphPath => "GraphPath",
            GraphType::GraphEdge => "GraphEdge",
            GraphType::VersionCandidate => "VersionCandidate",
            GraphType::ProducerSummary => "ProducerSummary",
            GraphType::Producer => "Producer",
            GraphType::ResolveMatch => "ResolveMatch",
            GraphType::Scalar => "Scalar",
        }
    }

    pub fn field(self, name: &str) -> (r: Option<GraphType>)
        ensures
            r == self.member(name@),
    {
        match self {
            GraphType::GraphPathAnswer => graph_path_answer_field(name),
            GraphType::GraphWorksWithAnswer => graph_works_with_answer_field(name),
            GraphType::GraphVersionsForAnswer => graph_versions_for_answer_field(name),
            GraphType::GraphStatusAnswer => graph_status_answer_field(name),
            GraphType::GraphResolveAnswer => graph_resolve_answer_field(name),
            GraphType::ProducerInventory => producer_inventory_field(name),
            GraphType::Component => component_field(name),
            GraphType::GraphPath => graph_path_field(name),
            GraphType::GraphEdge => graph_edge_field(name),
            GraphType::VersionCandidate => version_candidate_field(name),
            GraphType::ProducerSummary => producer_summary_field(name),
            GraphType::Producer => producer_field(name),
            GraphType::ResolveMatch => resolve_match_field(name),
            GraphType::Scalar => None,
        }
    }
}

pub open spec fn unsupported_field(t: GraphType, name: Seq<char>) -> Seq<char> {
    "unsupported GraphQL field "@ + debug_text(name) + " on "@ + t.title()
}

/// Why the first `n` fields cannot all be selected of a type, if they cannot: the first
/// field, at any depth, that its type does not have.
pub open spec fn selection_fault(t: GraphType, selection: Seq<FieldV>, n: int) -> Option<Seq<char>>
    decreases selection, n,
{
    if n <= 0 || n > selection.len() {
        None
    } else {
        match selection_fault(t, selection, n - 1) {
            Some(m) => Some(m),
            None => {
                let f = selection[n - 1];
                match t.member(f.name) {
                    None => Some(unsupported_field(t, f.name)),
                    Some(u) => selection_fault(u, f.selection, f.selection.len() as int),
                }
            },
        }
    }
}

proof fn lemma_fault_stays(t: GraphType, selection: Seq<FieldV>, n: int, m: int)
    requires
        0 <= n <= m <= selection.len(),
        selection_fault(t, selection, n) is Some,
    ensures
        selection_fault(t, selection, m) == selection_fault(t, selection, n),
    decreases m - n,
{
    if n < m {
        lemma_fault_stays(t, selection, n, m - 1);
    }
}

pub fn check_selection(t: GraphType, selection: &Vec<GraphQlField>) -> (r: Option<String>)
    ensures
        opt_view(r) == selection_fault(
            t,
            field_views(selection@),
            selection@.len() as int,
        ),
    decreases selection,
{
    let ghost fv = field_views(selection@);
    let mut i: usize = 0;
    while i < selection.len()
        invariant
            i <= selection@.len(),
            fv == field_views(selection@),
            fv.len() == selection@.len(),
            selection_fault(t, fv, i as int) is None,
        decreases selection@.len() - i,
    {
        proof {
            lemma_field_view(selection@[i as int]);
        }
        assert(fv[i as int] == selection@[i as int]@);
        let name = selection[i].name.as_str();
        match t.field(name) {
            None => {
                proof {
                    lemma_fault_stays(t, fv, i as int + 1, selection@.len() as int);
                }
                return Some(
                    cat4(
                        "unsupported GraphQL field ",
                        debug_of(name).as_str(),
                        " on ",
                        t.name(),
                    ),
                );
            },
            Some(u) => {
                match check_selection(u, &selection[i].selection) {
                    Some(m) => {
                        proof {
                            lemma_fault_stays(t, fv, i as int + 1, selection@.len() as int);
                        }
                        return Some(m);
                    },
                    None => {},
                }
            },
        }
        i += 1;
    }
    None
}

/// A field that a type does not have cannot be selected of it, wherever it stands.
pub proof fn law_unsupported_fields_are_refused(t: GraphType, selection: Seq<FieldV>, i: int)
    requires
        0 <= i < selection.len(),
        t.member(selection[i].name) is None,
    ensures
        selection_fault(t, selection, selection.len() as int) is Some,
{
    if selection_fault(t, selection, i) is Some {
        lemma_fault_stays(t, selection, i, i + 1);
    }
    lemma_fault_stays(t, selection, i + 1, selection.len() as int);
}

} // verus!
