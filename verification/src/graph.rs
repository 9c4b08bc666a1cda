//! Graph topology, compilation checks and routing.
//!
//! A graph is a set of node ids, an entry point and a list of edges. An edge
//! leaves a node either unkeyed (the default `continue` path) or under a
//! transition key; it leads either to a fixed node or to whatever a router
//! picks at run time. For each source node and key the first edge added
//! wins. Node execution itself is outside this module: it decides where a
//! node's output leads.

use crate::text::{
    append_str, chars_of, concat_strings, join, owned, str_eq, string_of, strings_view,
};
use vstd::prelude::*;

verus! {

broadcast use vstd::string::group_string_axioms;

/// Continue to the next node based on edges.
pub const CONTINUE: &'static str = "__continue__";

/// Finish execution and return the final state.
pub const FINISH: &'static str = "__finish__";

/// End node marker.
pub const END: &'static str = "__end__";

/// Start node marker.
pub const START: &'static str = "__start__";

/// The result of a node execution.
#[derive(Clone, Debug)]
pub enum NodeOutput {
    /// Continue execution, optionally naming the next node.
    Continue(Option<String>),
    /// Finish execution with the current state.
    Finish,
    /// Route to a specific node.
    Route(String),
    /// Follow an outgoing edge with the given transition key.
    Transition(String),
}

/// Mathematical value of a [`NodeOutput`].
pub enum OutputView {
    Continue(Option<Seq<char>>),
    Finish,
    Route(Seq<char>),
    Transition(Seq<char>),
}

impl View for NodeOutput {
    type V = OutputView;

    open spec fn view(&self) -> OutputView {
        match self {
            NodeOutput::Continue(t) => OutputView::Continue(
                match t {
                    Some(s) => Some(s@),
                    None => None,
                },
            ),
            NodeOutput::Finish => OutputView::Finish,
            NodeOutput::Route(s) => OutputView::Route(s@),
            NodeOutput::Transition(s) => OutputView::Transition(s@),
        }
    }
}

/// The node or key an output names, if it names one.
pub open spec fn output_target(o: OutputView) -> Option<Seq<char>> {
    match o {
        OutputView::Continue(Some(s)) => Some(s),
        OutputView::Route(s) => Some(s),
        OutputView::Transition(s) => Some(s),
        _ => None,
    }
}

impl NodeOutput {
    /// Continue along the default edge.
    pub fn cont() -> (r: Self)
        ensures
            r@ == OutputView::Continue(None),
    {
        NodeOutput::Continue(None)
    }

    /// Continue to a specific next node.
    pub fn continue_to(next: &str) -> (r: Self)
        ensures
            r@ == OutputView::Continue(Some(next@)),
    {
        NodeOutput::Continue(Some(owned(next)))
    }

    /// Finish execution.
    pub fn finish() -> (r: Self)
        ensures
            r@ == OutputView::Finish,
    {
        NodeOutput::Finish
    }

    /// Alias for `finish()`: ends graph execution.
    pub fn end() -> (r: Self)
        ensures
            r@ == OutputView::Finish,
    {
        NodeOutput::Finish
    }

    /// Route to a specific node.
    pub fn route(target: &str) -> (r: Self)
        ensures
            r@ == OutputView::Route(target@),
    {
        NodeOutput::Route(owned(target))
    }

    /// Follow the outgoing edge with this transition key.
    pub fn transition(key: &str) -> (r: Self)
        ensures
            r@ == OutputView::Transition(key@),
    {
        NodeOutput::Transition(owned(key))
    }

    /// Whether this output ends execution.
    pub fn is_terminal(&self) -> (r: bool)
        ensures
            r == (self@ == OutputView::Finish),
    {
        match self {
            NodeOutput::Finish => true,
            _ => false,
        }
    }

    /// The target node or transition key, if this output names one.
    pub fn target(&self) -> (r: Option<&str>)
        ensures
            match r {
                Some(s) => output_target(self@) == Some(s@),
                None => output_target(self@) is None,
            },
    {
        match self {
            NodeOutput::Continue(Some(s)) => Some(s.as_str()),
            NodeOutput::Route(s) => Some(s.as_str()),
            NodeOutput::Transition(s) => Some(s.as_str()),
            _ => None,
        }
    }
}

/// How an edge picks its target.
#[derive(Clone, Copy, Debug, PartialEq, Eq, Structural)]
pub enum EdgeKind {
    /// A fixed target node.
    Direct,
    /// A router evaluated on the state at run time.
    Conditional,
}

/// An edge between two nodes.
#[derive(Clone, Debug, PartialEq, Eq)]
pub struct GraphEdge {
    /// Source node id.
    pub from: String,
    /// Target node id (or [`END`]); empty for conditional edges.
    pub to: String,
    /// Transition key required to follow this edge; `None` makes it the
    /// default `continue` path.
    pub transition_key: Option<String>,
    /// Whether the target is fixed or chosen by a router.
    pub kind: EdgeKind,
}

/// Mathematical value of a [`GraphEdge`].
pub struct EdgeView {
    pub from: Seq<char>,
    pub to: Seq<char>,
    pub key: Option<Seq<char>>,
    pub kind: EdgeKind,
}

impl View for GraphEdge {
    type V = EdgeView;

    open spec fn view(&self) -> EdgeView {
        EdgeView {
            from: self.from@,
            to: self.to@,
            key: match self.transition_key {
                Some(k) => Some(k@),
                None => None,
            },
            kind: self.kind,
        }
    }
}

/// The views of a sequence of edges.
pub open spec fn edges_view(es: Seq<GraphEdge>) -> Seq<EdgeView> {
    es.map_values(|e: GraphEdge| e@)
}

impl GraphEdge {
    /// A direct, unkeyed edge.
    pub fn direct(from: &str, to: &str) -> (r: Self)
        ensures
            r@ == (EdgeView { from: from@, to: to@, key: None, kind: EdgeKind::Direct }),
    {
        GraphEdge { from: owned(from), to: owned(to), transition_key: None, kind: EdgeKind::Direct }
    }

    /// A direct edge followed under a transition key.
    pub fn direct_with_key(from: &str, to: &str, transition_key: &str) -> (r: Self)
        ensures
            r@ == (EdgeView {
                from: from@,
                to: to@,
                key: Some(transition_key@),
                kind: EdgeKind::Direct,
            }),
    {
        GraphEdge {
            from: owned(from),
            to: owned(to),
            transition_key: Some(owned(transition_key)),
            kind: EdgeKind::Direct,
        }
    }

    /// An unkeyed edge whose target a router picks.
    pub fn conditional(from: &str) -> (r: Self)
        ensures
            r@ == (EdgeView {
                from: from@,
                to: Seq::empty(),
                key: None,
                kind: EdgeKind::Conditional,
            }),
    {
        GraphEdge {
            from: owned(from),
            to: String::new(),
            transition_key: None,
            kind: EdgeKind::Conditional,
        }
    }

    /// A router edge followed under a transition key.
    pub fn conditional_with_key(from: &str, transition_key: &str) -> (r: Self)
        ensures
            r@ == (EdgeView {
                from: from@,
                to: Seq::empty(),
                key: Some(transition_key@),
                kind: EdgeKind::Conditional,
            }),
    {
        GraphEdge {
            from: owned(from),
            to: String::new(),
            transition_key: Some(owned(transition_key)),
            kind: EdgeKind::Conditional,
        }
    }

    /// A copy of this edge.
    pub fn duplicate(&self) -> (r: Self)
        ensures
            r@ == self@,
    {
        GraphEdge {
            from: self.from.clone(),
            to: self.to.clone(),
            transition_key: match &self.transition_key {
                Some(k) => Some(k.clone()),
                None => None,
            },
            kind: self.kind,
        }
    }
}

/// Why a graph cannot be compiled.
#[derive(Clone, Debug, PartialEq, Eq)]
pub enum GraphError {
    /// No entry point was set.
    NoEntryPoint,
    /// A node named as entry point or edge end does not exist.
    NodeNotFound(String),
}

/// Mathematical value of a [`GraphError`].
pub enum GraphErrorView {
    NoEntryPoint,
    NodeNotFound(Seq<char>),
}

impl View for GraphError {
    type V = GraphErrorView;

    open spec fn view(&self) -> GraphErrorView {
        match self {
            GraphError::NoEntryPoint => GraphErrorView::NoEntryPoint,
            GraphError::NodeNotFound(s) => GraphErrorView::NodeNotFound(s@),
        }
    }
}

/// The node ids, edges, entry point and labels of a graph under
/// construction.
#[derive(Clone, Debug)]
pub struct GraphTopology {
    /// Node ids, each once, in the order first added.
    pub node_ids: Vec<String>,
    /// Edges in the order added.
    pub edges: Vec<GraphEdge>,
    /// Entry node, once set.
    pub entry_point: Option<String>,
    /// Graph name.
    pub name: Option<String>,
    /// Graph description.
    pub description: Option<String>,
}

/// Whether `id` names a node, counting the implicit END node.
pub open spec fn known_node(ids: Seq<Seq<char>>, id: Seq<char>) -> bool {
    ids.contains(id) || id == END@
}

/// The first edge, at or after index `i`, whose source is a missing node or
/// which is direct and leads to a missing node.
pub open spec fn first_bad_edge_from(ids: Seq<Seq<char>>, es: Seq<EdgeView>, i: int) -> Option<
    Seq<char>,
>
    decreases es.len() - i,
{
    if i < 0 || i >= es.len() {
        None
    } else if !known_node(ids, es[i].from) {
        Some(es[i].from)
    } else if es[i].kind == EdgeKind::Direct && !known_node(ids, es[i].to) {
        Some(es[i].to)
    } else {
        first_bad_edge_from(ids, es, i + 1)
    }
}

/// Outcome of compiling a graph: its entry point, or the first problem
/// found (missing entry point, entry point not a node, then edges in the
/// order added).
pub open spec fn spec_compile(ids: Seq<Seq<char>>, es: Seq<EdgeView>, entry: Option<Seq<char>>) -> Result<
    Seq<char>,
    GraphErrorView,
> {
    match entry {
        None => Err(GraphErrorView::NoEntryPoint),
        Some(e) => if !ids.contains(e) {
            Err(GraphErrorView::NodeNotFound(e))
        } else {
            match first_bad_edge_from(ids, es, 0) {
                Some(n) => Err(GraphErrorView::NodeNotFound(n)),
                None => Ok(e),
            }
        },
    }
}

/// Whether `id` is among `ids`.
fn contains_id(ids: &Vec<String>, id: &str) -> (r: bool)
    ensures
        r == strings_view(ids@).contains(id@),
{
    let mut i: usize = 0;
    while i < ids.len()
        invariant
            i <= ids@.len(),
            forall|k: int| 0 <= k < i ==> ids@[k]@ != id@,
        decreases ids@.len() - i,
    {
        if str_eq(ids[i].as_str(), id) {
            assert(strings_view(ids@)[i as int] == id@);
            return true;
        }
        i += 1;
    }
    assert forall|k: int| 0 <= k < strings_view(ids@).len() implies strings_view(ids@)[k]
        != id@ by {
        assert(strings_view(ids@)[k] == ids@[k]@);
    }
    false
}

/// Whether `id` names a node or END.
fn is_known(ids: &Vec<String>, id: &str) -> (r: bool)
    ensures
        r == known_node(strings_view(ids@), id@),
{
    contains_id(ids, id) || str_eq(id, END)
}

impl GraphTopology {
    /// An empty graph.
    pub fn new() -> (r: Self)
        ensures
            r.node_ids@.len() == 0,
            r.edges@.len() == 0,
            r.entry_point is None,
            r.name is None,
            r.description is None,
    {
        GraphTopology {
            node_ids: Vec::new(),
            edges: Vec::new(),
            entry_point: None,
            name: None,
            description: None,
        }
    }

    /// Adds a node id; adding an id again keeps one entry.
    pub fn add_node(&mut self, id: &str)
        ensures
            strings_view(final(self).node_ids@) == if strings_view(old(self).node_ids@).contains(
                id@,
            ) {
                strings_view(old(self).node_ids@)
            } else {
                strings_view(old(self).node_ids@).push(id@)
            },
            final(self).edges@ == old(self).edges@,
            final(self).entry_point == old(self).entry_point,
            final(self).name == old(self).name,
            final(self).description == old(self).description,
    {
        if !contains_id(&self.node_ids, id) {
            let ghost before = self.node_ids@;
            let n = owned(id);
            self.node_ids.push(n);
            assert(strings_view(self.node_ids@) == strings_view(before).push(n@));
        }
    }

    /// Adds an edge after the existing ones.
    pub fn add_edge(&mut self, edge: GraphEdge)
        ensures
            final(self).edges@ == old(self).edges@.push(edge),
            final(self).node_ids@ == old(self).node_ids@,
            final(self).entry_point == old(self).entry_point,
            final(self).name == old(self).name,
            final(self).description == old(self).description,
    {
        self.edges.push(edge);
    }

    /// Checks the graph and fixes its routes: the entry point must be set
    /// and name a node, and every edge must leave a node (or END) and, when
    /// direct, lead to one.
    pub fn compile(&self) -> (r: Result<CompiledRoutes, GraphError>)
        ensures
            match r {
                Ok(c) => spec_compile(
                    strings_view(self.node_ids@),
                    edges_view(self.edges@),
                    match self.entry_point {
                        Some(e) => Some(e@),
                        None => None,
                    },
                ) == Ok::<Seq<char>, GraphErrorView>(c.entry_point@) && strings_view(
                    c.node_ids@,
                ) == strings_view(self.node_ids@) && edges_view(c.edges@) == edges_view(
                    self.edges@,
                ),
                Err(e) => spec_compile(
                    strings_view(self.node_ids@),
                    edges_view(self.edges@),
                    match self.entry_point {
                        Some(e) => Some(e@),
                        None => None,
                    },
                ) == Err::<Seq<char>, GraphErrorView>(e@),
            },
            r is Ok ==> (self.entry_point matches Some(e) && strings_view(self.node_ids@).contains(e@)),
            r is Ok ==> forall|k: int|
                0 <= k < self.edges@.len() ==> known_node(
                    strings_view(self.node_ids@),
                    (#[trigger] self.edges@[k]).from@,
                ) && (self.edges@[k].kind == EdgeKind::Direct ==> known_node(
                    strings_view(self.node_ids@),
                    self.edges@[k].to@,
                )),
    {
        let entry = match &self.entry_point {
            None => {
                return Err(GraphError::NoEntryPoint);
            },
            Some(e) => e,
        };
        if !contains_id(&self.node_ids, entry.as_str()) {
            return Err(GraphError::NodeNotFound(entry.clone()));
        }
        let ghost ids = strings_view(self.node_ids@);
        let ghost es = edges_view(self.edges@);
        let mut i: usize = 0;
        while i < self.edges.len()
            invariant
                i <= self.edges@.len(),
                ids == strings_view(self.node_ids@),
                es == edges_view(self.edges@),
                self.entry_point == Some(*entry),
                ids.contains(entry@),
                first_bad_edge_from(ids, es, 0) == first_bad_edge_from(ids, es, i as int),
            decreases self.edges@.len() - i,
        {
            let e = &self.edges[i];
            assert(es[i as int] == e@);
            if !is_known(&self.node_ids, e.from.as_str()) {
                return Err(GraphError::NodeNotFound(e.from.clone()));
            }
            match e.kind {
                EdgeKind::Direct => {
                    if !is_known(&self.node_ids, e.to.as_str()) {
                        return Err(GraphError::NodeNotFound(e.to.clone()));
                    }
                },
                EdgeKind::Conditional => {},
            }
            i += 1;
        }
        let mut node_ids: Vec<String> = Vec::new();
        let mut k: usize = 0;
        while k < self.node_ids.len()
            invariant
                k <= self.node_ids@.len(),
                strings_view(node_ids@) == strings_view(self.node_ids@).take(k as int),
            decreases self.node_ids@.len() - k,
        {
            let ghost before = node_ids@;
            let c = self.node_ids[k].clone();
            node_ids.push(c);
            assert(strings_view(node_ids@) == strings_view(before).push(c@));
            assert(strings_view(self.node_ids@).take(k + 1) == strings_view(self.node_ids@).take(
                k as int,
            ).push(self.node_ids@[k as int]@));
            k += 1;
        }
        assert(strings_view(self.node_ids@).take(self.node_ids@.len() as int) == strings_view(
            self.node_ids@,
        ));
        let mut edges: Vec<GraphEdge> = Vec::new();
        let mut j: usize = 0;
        while j < self.edges.len()
            invariant
                j <= self.edges@.len(),
                edges_view(edges@) == edges_view(self.edges@).take(j as int),
            decreases self.edges@.len() - j,
        {
            let ghost before = edges@;
            let c = self.edges[j].duplicate();
            edges.push(c);
            assert(edges_view(edges@) == edges_view(before).push(c@));
            assert(edges_view(self.edges@).take(j + 1) == edges_view(self.edges@).take(
                j as int,
            ).push(self.edges@[j as int]@));
            j += 1;
        }
        assert(edges_view(self.edges@).take(self.edges@.len() as int) == edges_view(self.edges@));
        proof {
            let ids = strings_view(self.node_ids@);
            let es = edges_view(self.edges@);
            assert(first_bad_edge_from(ids, es, 0) is None);
            lemma_first_bad_edge(ids, es, 0);
            assert forall|k: int| 0 <= k < self.edges@.len() implies known_node(
                ids,
                (#[trigger] self.edges@[k]).from@,
            ) && (self.edges@[k].kind == EdgeKind::Direct ==> known_node(ids, self.edges@[k].to@)) by {
                assert(es[k] == self.edges@[k]@);
            }
        }
        Ok(
            CompiledRoutes {
                node_ids,
                edges,
                entry_point: entry.clone(),
                name: match &self.name {
                    Some(n) => Some(n.clone()),
                    None => None,
                },
                description: match &self.description {
                    Some(d) => Some(d.clone()),
                    None => None,
                },
            },
        )
    }
}

/// Where an edge leads.
#[derive(Clone, Debug, PartialEq, Eq)]
pub enum EdgeTarget {
    /// A fixed node id (possibly [`END`]).
    Node(String),
    /// The router of the edge at this index picks the node.
    Router(usize),
}

/// Mathematical value of an [`EdgeTarget`].
pub enum TargetView {
    Node(Seq<char>),
    Router(nat),
}

impl View for EdgeTarget {
    type V = TargetView;

    open spec fn view(&self) -> TargetView {
        match self {
            EdgeTarget::Node(s) => TargetView::Node(s@),
            EdgeTarget::Router(i) => TargetView::Router(*i as nat),
        }
    }
}

/// Index of the first edge at or after `i` that leaves `from` under `key`
/// (`None`: unkeyed).
pub open spec fn first_edge_from(
    es: Seq<EdgeView>,
    from: Seq<char>,
    key: Option<Seq<char>>,
    i: int,
) -> Option<int>
    decreases es.len() - i,
{
    if i < 0 || i >= es.len() {
        None
    } else if es[i].from == from && es[i].key == key {
        Some(i)
    } else {
        first_edge_from(es, from, key, i + 1)
    }
}

/// The edge followed from `from` under transition `key`: the first edge
/// with that key, or for the `continue` key the first unkeyed edge.
pub open spec fn route_edge(es: Seq<EdgeView>, from: Seq<char>, key: Seq<char>) -> Option<int> {
    match first_edge_from(es, from, Some(key), 0) {
        Some(i) => Some(i),
        None => if key == CONTINUE@ {
            first_edge_from(es, from, None, 0)
        } else {
            None
        },
    }
}

/// Where edge `i` leads.
pub open spec fn edge_target(es: Seq<EdgeView>, i: int) -> TargetView {
    match es[i].kind {
        EdgeKind::Direct => TargetView::Node(es[i].to),
        EdgeKind::Conditional => TargetView::Router(i as nat),
    }
}

/// Where following `key` from `from` leads, if any edge applies.
pub open spec fn spec_next(es: Seq<EdgeView>, from: Seq<char>, key: Seq<char>) -> Option<
    TargetView,
> {
    match route_edge(es, from, key) {
        Some(i) => Some(edge_target(es, i)),
        None => None,
    }
}

/// Where a node's output leads: finishing ends the run, an explicit target
/// is taken as is, and otherwise the edges decide, ending the run when none
/// applies.
pub open spec fn spec_resolve(es: Seq<EdgeView>, current: Seq<char>, out: OutputView) -> TargetView {
    match out {
        OutputView::Finish => TargetView::Node(END@),
        OutputView::Continue(Some(t)) => TargetView::Node(t),
        OutputView::Route(t) => TargetView::Node(t),
        OutputView::Continue(None) => match spec_next(es, current, CONTINUE@) {
            Some(t) => t,
            None => TargetView::Node(END@),
        },
        OutputView::Transition(k) => match spec_next(es, current, k) {
            Some(t) => t,
            None => TargetView::Node(END@),
        },
    }
}

/// A checked graph with fixed routes.
#[derive(Clone, Debug)]
pub struct CompiledRoutes {
    /// Node ids, each once.
    pub node_ids: Vec<String>,
    /// Edges in the order added.
    pub edges: Vec<GraphEdge>,
    /// Entry node.
    pub entry_point: String,
    /// Graph name.
    pub name: Option<String>,
    /// Graph description.
    pub description: Option<String>,
}

/// Index of the first edge at or after `start` leaving `from` under `key`.
fn find_edge(edges: &Vec<GraphEdge>, from: &str, key: Option<&str>, start: usize) -> (r: Option<
    usize,
>)
    requires
        start <= edges@.len(),
    ensures
        match r {
            Some(i) => first_edge_from(
                edges_view(edges@),
                from@,
                match key {
                    Some(k) => Some(k@),
                    None => None,
                },
                start as int,
            ) == Some(i as int),
            None => first_edge_from(
                edges_view(edges@),
                from@,
                match key {
                    Some(k) => Some(k@),
                    None => None,
                },
                start as int,
            ) is None,
        },
{
    let ghost es = edges_view(edges@);
    let ghost kv = match key {
        Some(k) => Some(k@),
        None => None::<Seq<char>>,
    };
    let mut i: usize = start;
    while i < edges.len()
        invariant
            start <= i <= edges@.len(),
            es == edges_view(edges@),
            kv == match key {
                Some(k) => Some(k@),
                None => None::<Seq<char>>,
            },
            first_edge_from(es, from@, kv, start as int) == first_edge_from(es, from@, kv, i as int),
        decreases edges@.len() - i,
    {
        let e = &edges[i];
        assert(es[i as int] == e@);
        if str_eq(e.from.as_str(), from) {
            let same_key = match (&e.transition_key, key) {
                (Some(a), Some(b)) => str_eq(a.as_str(), b),
                (None, None) => true,
                _ => false,
            };
            if same_key {
                return Some(i);
            }
        }
        i += 1;
    }
    None
}

impl CompiledRoutes {
    /// The entry point node id.
    pub fn entry_point(&self) -> (r: &str)
        ensures
            r@ == self.entry_point@,
    {
        self.entry_point.as_str()
    }

    /// Whether a node with this id exists (the END node included).
    pub fn has_node(&self, id: &str) -> (r: bool)
        ensures
            r == known_node(strings_view(self.node_ids@), id@),
    {
        is_known(&self.node_ids, id)
    }

    /// The graph name.
    pub fn name(&self) -> (r: Option<&str>)
        ensures
            match r {
                Some(s) => self.name matches Some(n) && n@ == s@,
                None => self.name is None,
            },
    {
        match &self.name {
            Some(n) => Some(n.as_str()),
            None => None,
        }
    }

    /// The graph description.
    pub fn description(&self) -> (r: Option<&str>)
        ensures
            match r {
                Some(s) => self.description matches Some(n) && n@ == s@,
                None => self.description is None,
            },
    {
        match &self.description {
            Some(n) => Some(n.as_str()),
            None => None,
        }
    }

    /// Where following `transition_key` from `from` leads: the first edge
    /// with that key, or for the `continue` key the first unkeyed edge.
    pub fn get_next_for_transition(&self, from: &str, transition_key: &str) -> (r: Option<
        EdgeTarget,
    >)
        ensures
            match r {
                Some(t) => spec_next(edges_view(self.edges@), from@, transition_key@) == Some(
                    t@,
                ),
                None => spec_next(edges_view(self.edges@), from@, transition_key@) is None,
            },
    {
        let ghost es = edges_view(self.edges@);
        let found = match find_edge(&self.edges, from, Some(transition_key), 0) {
            Some(i) => Some(i),
            None => {
                if str_eq(transition_key, CONTINUE) {
                    find_edge(&self.edges, from, None, 0)
                } else {
                    None
                }
            },
        };
        assert(found matches Some(i) ==> route_edge(es, from@, transition_key@) == Some(i as int));
        assert(found is None ==> route_edge(es, from@, transition_key@) is None);
        match found {
            Some(i) => {
                proof {
                    assert(0 <= i < self.edges@.len()) by {
                        lemma_first_edge_in_bounds(es, from@, Some(transition_key@), 0);
                        lemma_first_edge_in_bounds(es, from@, None, 0);
                    }
                }
                let e = &self.edges[i];
                assert(es[i as int] == e@);
                match e.kind {
                    EdgeKind::Direct => Some(EdgeTarget::Node(e.to.clone())),
                    EdgeKind::Conditional => Some(EdgeTarget::Router(i)),
                }
            },
            None => None,
        }
    }

    /// Where the default `continue` path from `from` leads.
    pub fn get_next(&self, from: &str) -> (r: Option<EdgeTarget>)
        ensures
            match r {
                Some(t) => spec_next(edges_view(self.edges@), from@, CONTINUE@) == Some(t@),
                None => spec_next(edges_view(self.edges@), from@, CONTINUE@) is None,
            },
    {
        self.get_next_for_transition(from, CONTINUE)
    }

    /// Where a node's output leads; [`END`] when the output finishes or no
    /// edge applies.
    pub fn resolve_next_node(&self, current: &str, output: &NodeOutput) -> (r: EdgeTarget)
        ensures
            r@ == spec_resolve(edges_view(self.edges@), current@, output@),
            output@ matches OutputView::Continue(Some(t)) ==> r@ == TargetView::Node(t),
            output@ matches OutputView::Route(t) ==> r@ == TargetView::Node(t),
            output@ is Finish ==> r@ == TargetView::Node(END@),
    {
        match output {
            NodeOutput::Finish => EdgeTarget::Node(owned(END)),
            NodeOutput::Continue(Some(t)) => EdgeTarget::Node(t.clone()),
            NodeOutput::Route(t) => EdgeTarget::Node(t.clone()),
            NodeOutput::Continue(None) => match self.get_next_for_transition(current, CONTINUE) {
                Some(t) => t,
                None => EdgeTarget::Node(owned(END)),
            },
            NodeOutput::Transition(k) => match self.get_next_for_transition(current, k.as_str()) {
                Some(t) => t,
                None => EdgeTarget::Node(owned(END)),
            },
        }
    }
}

/// A node id as a Mermaid identifier: hyphens become underscores.
pub open spec fn mermaid_id(s: Seq<char>) -> Seq<char> {
    s.map_values(|c: char| if c == '-' { '_' } else { c })
}

/// The Mermaid lines declaring the nodes, in order, the END node left out.
pub open spec fn mermaid_nodes(ids: Seq<Seq<char>>) -> Seq<char>
    decreases ids.len(),
{
    if ids.len() == 0 {
        Seq::empty()
    } else {
        mermaid_nodes(ids.drop_last()) + if ids.last() == END@ {
            Seq::empty()
        } else {
            "    "@ + mermaid_id(ids.last()) + "["@ + ids.last() + "]\n"@
        }
    }
}

/// The Mermaid line of one edge: an arrow to its target, or a dotted arrow
/// for a router.
pub open spec fn mermaid_edge(e: EdgeView) -> Seq<char> {
    match e.kind {
        EdgeKind::Direct => "    "@ + mermaid_id(e.from) + " --> "@ + mermaid_id(e.to) + "\n"@,
        EdgeKind::Conditional => "    "@ + mermaid_id(e.from) + " -.->|conditional| ...\n"@,
    }
}

/// The Mermaid lines of the edges, in order.
pub open spec fn mermaid_edges(es: Seq<EdgeView>) -> Seq<char>
    decreases es.len(),
{
    if es.len() == 0 {
        Seq::empty()
    } else {
        mermaid_edges(es.drop_last()) + mermaid_edge(es.last())
    }
}

/// A Mermaid flowchart of a graph: the nodes, the END node, the start
/// marker pointing at the entry point, then the edges.
pub open spec fn mermaid(ids: Seq<Seq<char>>, entry: Seq<char>, es: Seq<EdgeView>) -> Seq<char> {
    "graph TD\n"@ + mermaid_nodes(ids) + "    "@ + mermaid_id(END@) + "((END))\n"@
        + "    __start__([Start]) --> "@ + mermaid_id(entry) + "\n"@ + mermaid_edges(es)
}

/// Appends a node id as a Mermaid identifier.
fn append_mermaid_id(acc: &mut Vec<char>, s: &str)
    ensures
        final(acc)@ == old(acc)@ + mermaid_id(s@),
{
    let v = chars_of(s);
    let ghost start = acc@;
    let mut j: usize = 0;
    while j < v.len()
        invariant
            j <= v@.len(),
            v@ == s@,
            acc@ == start + mermaid_id(v@.take(j as int)),
        decreases v@.len() - j,
    {
        let c = v[j];
        acc.push(if c == '-' { '_' } else { c });
        j += 1;
        assert(mermaid_id(v@.take(j as int)) =~= mermaid_id(v@.take(j - 1)).push(if c == '-' { '_' } else { c }));
    }
    assert(v@.take(v@.len() as int) == v@);
}

impl CompiledRoutes {
    /// A Mermaid flowchart of the graph.
    pub fn to_mermaid(&self) -> (r: String)
        ensures
            r@ == mermaid(strings_view(self.node_ids@), self.entry_point@, edges_view(self.edges@)),
    {
        let ghost ids = strings_view(self.node_ids@);
        let ghost es = edges_view(self.edges@);
        let mut acc: Vec<char> = Vec::new();
        append_str(&mut acc, "graph TD\n");
        let ghost head = acc@;
        let mut i: usize = 0;
        while i < self.node_ids.len()
            invariant
                i <= self.node_ids@.len(),
                ids == strings_view(self.node_ids@),
                acc@ == head + mermaid_nodes(ids.take(i as int)),
            decreases self.node_ids@.len() - i,
        {
            let id = self.node_ids[i].as_str();
            let ghost before = acc@;
            if !str_eq(id, END) {
                append_str(&mut acc, "    ");
                append_mermaid_id(&mut acc, id);
                append_str(&mut acc, "[");
                append_str(&mut acc, id);
                append_str(&mut acc, "]\n");
            }
            proof {
                assert(ids.take(i + 1).drop_last() == ids.take(i as int));
                assert(ids.take(i + 1).last() == id@);
                if id@ == END@ {
                    assert(acc@ == before + Seq::<char>::empty());
                }
            }
            i += 1;
        }
        assert(ids.take(ids.len() as int) == ids);
        append_str(&mut acc, "    ");
        append_mermaid_id(&mut acc, END);
        append_str(&mut acc, "((END))\n");
        append_str(&mut acc, "    __start__([Start]) --> ");
        append_mermaid_id(&mut acc, self.entry_point.as_str());
        append_str(&mut acc, "\n");
        let ghost mid = acc@;
        let mut k: usize = 0;
        while k < self.edges.len()
            invariant
                k <= self.edges@.len(),
                es == edges_view(self.edges@),
                acc@ == mid + mermaid_edges(es.take(k as int)),
            decreases self.edges@.len() - k,
        {
            let e = &self.edges[k];
            assert(es[k as int] == e@);
            append_str(&mut acc, "    ");
            append_mermaid_id(&mut acc, e.from.as_str());
            match e.kind {
                EdgeKind::Direct => {
                    append_str(&mut acc, " --> ");
                    append_mermaid_id(&mut acc, e.to.as_str());
                    append_str(&mut acc, "\n");
                },
                EdgeKind::Conditional => {
                    append_str(&mut acc, " -.->|conditional| ...\n");
                },
            }
            proof {
                assert(es.take(k + 1).drop_last() == es.take(k as int));
                assert(es.take(k + 1).last() == e@);
            }
            k += 1;
        }
        assert(es.take(es.len() as int) == es);
        string_of(acc.as_slice())
    }
}

proof fn lemma_first_edge_in_bounds(
    es: Seq<EdgeView>,
    from: Seq<char>,
    key: Option<Seq<char>>,
    i: int,
)
    ensures
        first_edge_from(es, from, key, i) matches Some(j) ==> i <= j < es.len() && es[j].from
            == from && es[j].key == key,
    decreases es.len() - i,
{
    if 0 <= i < es.len() && !(es[i].from == from && es[i].key == key) {
        lemma_first_edge_in_bounds(es, from, key, i + 1);
    }
}

proof fn lemma_first_edge_is_first(
    es: Seq<EdgeView>,
    from: Seq<char>,
    key: Option<Seq<char>>,
    i: int,
)
    requires
        0 <= i,
    ensures
        match first_edge_from(es, from, key, i) {
            Some(j) => forall|k: int| i <= k < j ==> !(es[k].from == from && es[k].key == key),
            None => forall|k: int| i <= k < es.len() ==> !(es[k].from == from && es[k].key == key),
        },
    decreases es.len() - i,
{
    if i < es.len() && !(es[i].from == from && es[i].key == key) {
        lemma_first_edge_is_first(es, from, key, i + 1);
    }
}

/// For each source node and transition key, the first edge added with that
/// key is the one followed; edges added later with the same source and key
/// never change the route.
pub proof fn lemma_first_keyed_edge_wins(
    es: Seq<EdgeView>,
    from: Seq<char>,
    key: Seq<char>,
    i: int,
)
    requires
        0 <= i < es.len(),
        es[i].from == from,
        es[i].key == Some(key),
        forall|k: int| 0 <= k < i ==> !(es[k].from == from && es[k].key == Some(key)),
    ensures
        route_edge(es, from, key) == Some(i),
{
    lemma_first_edge_is_first(es, from, Some(key), 0);
    lemma_first_edge_in_bounds(es, from, Some(key), 0);
}

/// Unkeyed edges are only the default `continue` path: a transition under
/// any other key never follows them.
pub proof fn lemma_unkeyed_edges_only_continue(es: Seq<EdgeView>, from: Seq<char>, key: Seq<char>)
    requires
        key != CONTINUE@,
    ensures
        route_edge(es, from, key) matches Some(i) ==> es[i].key == Some(key),
{
    lemma_first_edge_in_bounds(es, from, Some(key), 0);
}

/// Adding an edge after the existing ones changes no route that already
/// existed, unless the route was the default path and the new edge is
/// keyed with the `continue` key itself.
pub proof fn lemma_added_edge_keeps_routes(
    es: Seq<EdgeView>,
    e: EdgeView,
    from: Seq<char>,
    key: Seq<char>,
)
    requires
        route_edge(es, from, key) is Some,
        first_edge_from(es, from, Some(key), 0) is Some || !(e.from == from && e.key == Some(
            key,
        )),
    ensures
        route_edge(es.push(e), from, key) == route_edge(es, from, key),
{
    lemma_prefix_first_edge(es, e, from, Some(key), 0);
    lemma_prefix_first_edge(es, e, from, None, 0);
    if first_edge_from(es, from, Some(key), 0) is None {
        lemma_absent_first_edge(es, e, from, Some(key), 0);
    }
}

proof fn lemma_absent_first_edge(
    es: Seq<EdgeView>,
    e: EdgeView,
    from: Seq<char>,
    key: Option<Seq<char>>,
    i: int,
)
    requires
        0 <= i <= es.len(),
        first_edge_from(es, from, key, i) is None,
        !(e.from == from && e.key == key),
    ensures
        first_edge_from(es.push(e), from, key, i) is None,
    decreases es.len() + 1 - i,
{
    if i < es.len() {
        assert(es.push(e)[i] == es[i]);
        lemma_absent_first_edge(es, e, from, key, i + 1);
    } else {
        assert(es.push(e)[i] == e);
        assert(first_edge_from(es.push(e), from, key, i + 1) is None);
    }
}

proof fn lemma_prefix_first_edge(
    es: Seq<EdgeView>,
    e: EdgeView,
    from: Seq<char>,
    key: Option<Seq<char>>,
    i: int,
)
    requires
        0 <= i,
    ensures
        first_edge_from(es, from, key, i) is Some ==> first_edge_from(es.push(e), from, key, i)
            == first_edge_from(es, from, key, i),
    decreases es.len() - i,
{
    if i < es.len() {
        assert(es.push(e)[i] == es[i]);
        if !(es[i].from == from && es[i].key == key) {
            lemma_prefix_first_edge(es, e, from, key, i + 1);
        }
    }
}


/// What `first_bad_edge_from` finds: an edge from `i` on that leaves an
/// unknown node or leads directly to one, naming that node; none when every
/// edge from `i` on is sound.
proof fn lemma_first_bad_edge(ids: Seq<Seq<char>>, es: Seq<EdgeView>, i: int)
    requires
        0 <= i <= es.len(),
    ensures
        first_bad_edge_from(ids, es, i) is None <==> forall|k: int|
            i <= k < es.len() ==> known_node(ids, (#[trigger] es[k]).from) && (es[k].kind
                == EdgeKind::Direct ==> known_node(ids, es[k].to)),
        first_bad_edge_from(ids, es, i) matches Some(n) ==> !known_node(ids, n),
    decreases es.len() - i,
{
    if i < es.len() {
        lemma_first_bad_edge(ids, es, i + 1);
    }
}

/// A graph compiles exactly when its entry point is set and is one of its
/// nodes, and every edge leaves a node (or the end) and, when direct, leads
/// to one; a failure names a node that is missing.
pub proof fn lemma_compile_checks_every_edge(ids: Seq<Seq<char>>, es: Seq<EdgeView>, entry: Option<Seq<char>>)
    ensures
        spec_compile(ids, es, entry) is Ok <==> (entry matches Some(e) && ids.contains(e) && forall|k: int|
            0 <= k < es.len() ==> known_node(ids, (#[trigger] es[k]).from) && (es[k].kind
                == EdgeKind::Direct ==> known_node(ids, es[k].to))),
        spec_compile(ids, es, entry) matches Ok(e) ==> entry == Some(e),
        spec_compile(ids, es, entry) matches Err(GraphErrorView::NodeNotFound(n)) ==> !ids.contains(n),
{
    lemma_first_bad_edge(ids, es, 0);
}

/// An output that names its next node is taken as is, whatever the edges
/// say; finishing always leads to the end.
pub proof fn lemma_explicit_targets_win(es: Seq<EdgeView>, current: Seq<char>, t: Seq<char>)
    ensures
        spec_resolve(es, current, OutputView::Continue(Some(t))) == TargetView::Node(t),
        spec_resolve(es, current, OutputView::Route(t)) == TargetView::Node(t),
        spec_resolve(es, current, OutputView::Finish) == TargetView::Node(END@),
{
}

} // verus!
