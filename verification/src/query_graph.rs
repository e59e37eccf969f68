//! Graphs whose nodes are told apart by their text.

use crate::text::decimal;
use vstd::hash_map::StringHashMap;
use vstd::prelude::*;
use vstd::string::*;

verus! {

/// The direction of edges, of the crate `petgraph`.
#[verifier::external_type_specification]
#[verifier::external_body]
pub struct ExDirected(petgraph::Directed);

/// The graph type of the crate `petgraph`.
#[verifier::external_type_specification]
#[verifier::external_body]
#[verifier::reject_recursive_types(N)]
#[verifier::reject_recursive_types(E)]
#[verifier::reject_recursive_types(Ty)]
#[verifier::reject_recursive_types(Ix)]
pub struct ExGraph<N, E, Ty, Ix>(petgraph::graph::Graph<N, E, Ty, Ix>);

/// A directed graph whose nodes hold a text.
pub type TextGraph = petgraph::graph::Graph<String, (), petgraph::Directed, u32>;

/// The texts of the nodes of a graph, by index.
pub uninterp spec fn graph_nodes(graph: TextGraph) -> Seq<Seq<char>>;

/// The edges of a graph in the order in which they were added: from where to where,
/// by index.
pub uninterp spec fn graph_edges(graph: TextGraph) -> Seq<(int, int)>;

/// `petgraph::graph::Graph::new`. Trusted: the graph has no nodes and no edges.
#[verifier::external_body]
fn empty_graph() -> (graph: TextGraph)
    ensures
        graph_nodes(graph) == Seq::<Seq<char>>::empty(),
        graph_edges(graph) == Seq::<(int, int)>::empty(),
{
    petgraph::graph::Graph::new()
}

/// `petgraph::graph::Graph::add_node`. Trusted: the node comes behind all others,
/// and its index is handed back. The call panics where no index is left.
#[verifier::external_body]
fn push_node(graph: &mut TextGraph, text: String) -> (index: usize)
    requires
        graph_nodes(*old(graph)).len() < u32::MAX,
    ensures
        index == graph_nodes(*old(graph)).len(),
        graph_nodes(*final(graph)) == graph_nodes(*old(graph)).push(text@),
        graph_edges(*final(graph)) == graph_edges(*old(graph)),
{
    graph.add_node(text).index()
}

/// `petgraph::graph::Graph::add_edge`. Trusted: the edge comes behind all others, also
/// where there is one like it. The call panics where a node does not exist or no index
/// is left.
#[verifier::external_body]
fn push_edge(graph: &mut TextGraph, source: usize, target: usize)
    requires
        source < graph_nodes(*old(graph)).len(),
        target < graph_nodes(*old(graph)).len(),
        graph_edges(*old(graph)).len() < u32::MAX,
    ensures
        graph_nodes(*final(graph)) == graph_nodes(*old(graph)),
        graph_edges(*final(graph)) == graph_edges(*old(graph)).push((source as int, target as int)),
{
    let source = petgraph::graph::NodeIndex::new(source);
    let target = petgraph::graph::NodeIndex::new(target);
    graph.add_edge(source, target, ());
}

/// The attribute of a node in the DOT language that shows its text.
pub open spec fn node_attribute(text: Seq<char>) -> Seq<char> {
    "label=\""@ + text + "\""@
}

/// The attribute of a node in the DOT language that shows `text`.
pub fn format_node_attribute(text: &str) -> (attribute: String)
    ensures
        attribute@ == node_attribute(text@),
{
    let mut attribute = "label=\"".to_string();
    attribute.append(text);
    attribute.append("\"");
    attribute
}

/// The attribute of an edge in the DOT language: there is none.
pub fn format_edge_attribute() -> (attribute: String)
    ensures
        attribute@ == ""@,
{
    "".to_string()
}

/// The label that stands in for those of nodes and edges: none.
pub fn no_label() -> (label: &'static str)
    ensures
        label@ == ""@,
{
    ""
}

/// The line of a node in the DOT language.
pub open spec fn node_line(index: nat, text: Seq<char>) -> Seq<char> {
    "    "@ + decimal(index) + " [ label = \""@ + ""@ + "\" "@ + node_attribute(text) + "]\n"@
}

/// The lines of the first `n` of `nodes`.
pub open spec fn node_lines(nodes: Seq<Seq<char>>, n: nat) -> Seq<char>
    decreases n,
{
    if n == 0 {
        Seq::empty()
    } else {
        node_lines(nodes, (n - 1) as nat) + node_line((n - 1) as nat, nodes[n - 1])
    }
}

/// The line of an edge in the DOT language.
pub open spec fn edge_line(source: nat, target: nat) -> Seq<char> {
    "    "@ + decimal(source) + " -> "@ + decimal(target) + " [ "@ + ""@ + "]\n"@
}

/// The lines of the first `n` of `edges`.
pub open spec fn edge_lines(edges: Seq<(int, int)>, n: nat) -> Seq<char>
    decreases n,
{
    if n == 0 {
        Seq::empty()
    } else {
        edge_lines(edges, (n - 1) as nat) + edge_line(
            edges[n - 1].0 as nat,
            edges[n - 1].1 as nat,
        )
    }
}

/// A graph in the DOT language.
pub open spec fn dot_text(nodes: Seq<Seq<char>>, edges: Seq<(int, int)>) -> Seq<char> {
    "digraph {\n"@ + node_lines(nodes, nodes.len()) + edge_lines(edges, edges.len()) + "}\n"@
}

/// `petgraph::dot::Dot::with_attr_getters` and its `Display`, on the graph that
/// `petgraph::graph::Graph::map` gives, with the same nodes and edges but no labels.
/// Trusted: the text has a line for each node by index, with its label and its
/// attribute, and then a line for each edge in order, with its attribute alone.
#[verifier::external_body]
fn format_dot(graph: &TextGraph) -> (text: String)
    ensures
        text@ == dot_text(graph_nodes(*graph), graph_edges(*graph)),
{
    let bare = graph.map(|_, _| no_label(), |_, _| no_label());
    format!(
        "{}",
        petgraph::dot::Dot::with_attr_getters(
            &bare,
            &[petgraph::dot::Config::EdgeNoLabel],
            &|_, _| format_edge_attribute(),
            &|_, (node, _)| format_node_attribute(&graph[node]),
        )
    )
}

/// A graph in which no two nodes have the same text.
pub struct QueryGraph {
    nodes: StringHashMap<usize>,
    graph: TextGraph,
}

impl QueryGraph {
    /// The texts of the nodes, in the order in which they were added.
    pub closed spec fn nodes(self) -> Seq<Seq<char>> {
        graph_nodes(self.graph)
    }

    /// The edges in the order in which they were added: from where to where.
    pub closed spec fn edges(self) -> Seq<(int, int)> {
        graph_edges(self.graph)
    }

    /// Whether each node is known by its text, and each edge is between nodes.
    pub closed spec fn well_formed(self) -> bool {
        &&& forall|text: Seq<char>| #[trigger]
            self.nodes@.contains_key(text) <==> self.nodes().contains(text)
        &&& forall|i: int|
            0 <= i < self.nodes().len() ==> self.nodes@[#[trigger] self.nodes()[i]] == i
        &&& forall|k: int|
            0 <= k < self.edges().len() ==> self.has_node(#[trigger] self.edges()[k].0)
                && self.has_node(self.edges()[k].1)
    }

    /// Whether `index` is the index of a node.
    pub open spec fn has_node(self, index: int) -> bool {
        0 <= index < self.nodes().len()
    }

    /// A graph without nodes.
    pub fn new() -> (graph: Self)
        ensures
            graph.well_formed(),
            graph.nodes() == Seq::<Seq<char>>::empty(),
            graph.edges() == Seq::<(int, int)>::empty(),
    {
        QueryGraph { nodes: StringHashMap::new(), graph: empty_graph() }
    }

    /// Adds a node, unless there is one with this text.
    pub fn add_node(&mut self, text: String)
        requires
            old(self).well_formed(),
            old(self).nodes().len() < u32::MAX,
        ensures
            final(self).well_formed(),
            final(self).nodes() == with_node(old(self).nodes(), text@),
            final(self).edges() == old(self).edges(),
    {
        if !self.nodes.contains_key(text.as_str()) {
            let ghost graph_before = *self;
            let ghost before = self.nodes();
            let copy = text.clone();
            let index = push_node(&mut self.graph, copy);
            self.nodes.insert(text, index);
            assert(self.nodes()[before.len() as int] == text@);
            assert forall|t: Seq<char>| #[trigger]
                self.nodes@.contains_key(t) <==> self.nodes().contains(t) by {
                if before.contains(t) {
                    let i = before.index_of(t);
                    assert(self.nodes()[i] == t);
                }
            }
            assert forall|i: int| 0 <= i < self.nodes().len() implies self.nodes@[
                #[trigger] self.nodes()[i]] == i by {
                if i < before.len() {
                    assert(before[i] == self.nodes()[i]);
                    assert(before.contains(before[i]));
                }
            }
            assert forall|k: int| 0 <= k < self.edges().len() implies self.has_node(
                #[trigger] self.edges()[k].0,
            ) && self.has_node(self.edges()[k].1) by {
                assert(graph_before.has_node(graph_before.edges()[k].0));
            }
        }
    }

    /// Adds an edge, where there are nodes with these texts.
    pub fn add_edge(&mut self, source: &str, target: &str)
        requires
            old(self).well_formed(),
            old(self).edges().len() < u32::MAX,
        ensures
            final(self).well_formed(),
            final(self).nodes() == old(self).nodes(),
            final(self).edges() == with_edge(
                old(self).nodes(),
                old(self).edges(),
                source@,
                target@,
            ),
    {
        if let (Some(source_index), Some(target_index)) = (
            self.nodes.get(source),
            self.nodes.get(target),
        ) {
            let ghost nodes = self.nodes();
            assert(nodes.contains(source@) && nodes.contains(target@));
            assert(nodes[nodes.index_of(source@)] == source@);
            assert(nodes[nodes.index_of(target@)] == target@);
            push_edge(&mut self.graph, *source_index, *target_index);
        }
    }

    /// The graph in the DOT language.
    pub fn to_dot(&self) -> (text: String)
        ensures
            text@ == dot_text(self.nodes(), self.edges()),
    {
        format_dot(&self.graph)
    }
}

/// `nodes`, and `text` behind them where it is not among them.
pub open spec fn with_node(nodes: Seq<Seq<char>>, text: Seq<char>) -> Seq<Seq<char>> {
    if nodes.contains(text) {
        nodes
    } else {
        nodes.push(text)
    }
}

/// `edges`, and an edge between `source` and `target` behind them where both are
/// among `nodes`.
pub open spec fn with_edge(
    nodes: Seq<Seq<char>>,
    edges: Seq<(int, int)>,
    source: Seq<char>,
    target: Seq<char>,
) -> Seq<(int, int)> {
    if nodes.contains(source) && nodes.contains(target) {
        edges.push((nodes.index_of(source), nodes.index_of(target)))
    } else {
        edges
    }
}

/// No two nodes of a graph have the same text, and its edges are between its nodes.
pub proof fn nodes_differ(graph: QueryGraph)
    requires
        graph.well_formed(),
    ensures
        graph.nodes().no_duplicates(),
        forall|k: int|
            0 <= k < graph.edges().len() ==> graph.has_node(#[trigger] graph.edges()[k].0)
                && graph.has_node(graph.edges()[k].1),
{
    assert forall|i: int, j: int|
        0 <= i < graph.nodes().len() && 0 <= j < graph.nodes().len() && i
            != j implies graph.nodes()[i] != graph.nodes()[j] by {
        assert(graph.nodes@[graph.nodes()[i]] == i);
        assert(graph.nodes@[graph.nodes()[j]] == j);
    }
}

} // verus!
