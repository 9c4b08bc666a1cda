//! Echo, delay, fixed-transition and context-routing nodes.

use crate::graph::{NodeOutput, OutputView, END};
use crate::kv::{kv_get, kv_map};
use crate::text::{copy_string, opt_view, owned, str_eq};
use vstd::prelude::*;

verus! {

broadcast use vstd::string::group_string_axioms;

/// A write of a text value under a context key.
#[derive(Clone, Debug)]
pub struct ContextWrite {
    /// The context key.
    pub key: String,
    /// The value, as text.
    pub value: String,
}

/// Writes a message into the context and continues.
#[derive(Clone, Debug)]
pub struct EchoNode {
    id: String,
    message: String,
    context_key: String,
}

impl EchoNode {
    /// An echo node writing under the key `echo`.
    pub fn new(id: &str, message: &str) -> (r: Self)
        ensures
            r.id()@ == id@,
            r.message()@ == message@,
            r.context_key()@ == "echo"@,
    {
        EchoNode { id: owned(id), message: owned(message), context_key: owned("echo") }
    }

    /// The node writing under another key.
    pub fn with_context_key(self, key: &str) -> (r: Self)
        ensures
            r.id() == self.id(),
            r.message() == self.message(),
            r.context_key()@ == key@,
    {
        EchoNode { context_key: owned(key), ..self }
    }

    /// The node id.
    pub closed spec fn id(&self) -> String {
        self.id
    }

    /// The message written.
    pub closed spec fn message(&self) -> String {
        self.message
    }

    /// The key written under.
    pub closed spec fn context_key(&self) -> String {
        self.context_key
    }

    /// The node id.
    pub fn node_id(&self) -> (r: &str)
        ensures
            r@ == self.id()@,
    {
        self.id.as_str()
    }

    /// The write the node makes, and that it then continues.
    pub fn execute(&self) -> (r: (ContextWrite, NodeOutput))
        ensures
            r.0.key@ == self.context_key()@,
            r.0.value@ == self.message()@,
            r.1@ == OutputView::Continue(None),
    {
        (ContextWrite { key: copy_string(&self.context_key), value: copy_string(&self.message) }, NodeOutput::cont())
    }
}

/// Waits for a fixed time and continues.
#[derive(Clone, Debug)]
pub struct DelayNode {
    /// The node id.
    pub id: String,
    /// Whole seconds of the delay.
    pub secs: u64,
    /// Nanoseconds beyond the whole seconds, below one billion.
    pub nanos: u32,
}

impl DelayNode {
    /// A delay of whole seconds and nanoseconds (`Duration::new`): excess
    /// nanoseconds carry into seconds.
    pub fn new(id: &str, secs: u64, nanos: u32) -> (r: Self)
        requires
            secs + nanos / 1_000_000_000 <= u64::MAX,
        ensures
            r.id@ == id@,
            r.secs == secs + nanos / 1_000_000_000,
            r.nanos == nanos % 1_000_000_000,
    {
        DelayNode {
            id: owned(id),
            secs: secs + (nanos / 1_000_000_000) as u64,
            nanos: nanos % 1_000_000_000,
        }
    }

    /// A delay of `millis` milliseconds.
    pub fn from_millis(id: &str, millis: u64) -> (r: Self)
        ensures
            r.id@ == id@,
            r.secs == millis / 1000,
            r.nanos == (millis % 1000) * 1_000_000,
    {
        DelayNode { id: owned(id), secs: millis / 1000, nanos: ((millis % 1000) as u32) * 1_000_000 }
    }

    /// A delay of `secs` seconds.
    pub fn from_secs(id: &str, secs: u64) -> (r: Self)
        ensures
            r.id@ == id@,
            r.secs == secs,
            r.nanos == 0,
    {
        DelayNode { id: owned(id), secs, nanos: 0 }
    }

    /// The node id.
    pub fn node_id(&self) -> (r: &str)
        ensures
            r@ == self.id@,
    {
        self.id.as_str()
    }

    /// After the wait the node continues.
    pub fn execute(&self) -> (r: NodeOutput)
        ensures
            r@ == OutputView::Continue(None),
    {
        NodeOutput::cont()
    }
}

/// Moves to a fixed target node, or finishes when the target is the end.
#[derive(Clone, Debug)]
pub struct StaticTransitionNode {
    id: String,
    target: String,
}

impl StaticTransitionNode {
    /// A node moving to `target`.
    pub fn new(id: &str, target: &str) -> (r: Self)
        ensures
            r.id()@ == id@,
            r.target()@ == target@,
    {
        StaticTransitionNode { id: owned(id), target: owned(target) }
    }

    /// A node that finishes the graph.
    pub fn to_end(id: &str) -> (r: Self)
        ensures
            r.id()@ == id@,
            r.target()@ == END@,
    {
        StaticTransitionNode::new(id, END)
    }

    /// The node id.
    pub closed spec fn id(&self) -> String {
        self.id
    }

    /// The target node.
    pub closed spec fn target(&self) -> String {
        self.target
    }

    /// The node id.
    pub fn node_id(&self) -> (r: &str)
        ensures
            r@ == self.id()@,
    {
        self.id.as_str()
    }

    /// Finishes when the target is the end marker, else continues to it.
    pub fn execute(&self) -> (r: NodeOutput)
        ensures
            r@ == if self.target()@ == END@ {
                OutputView::Finish
            } else {
                OutputView::Continue(Some(self.target()@))
            },
    {
        if str_eq(self.target.as_str(), END) {
            NodeOutput::finish()
        } else {
            NodeOutput::continue_to(self.target.as_str())
        }
    }
}

/// Routes on a text value in the context.
#[derive(Clone, Debug)]
pub struct ContextRouterNode {
    id: String,
    context_key: String,
    routes: Vec<(String, String)>,
    default: Option<String>,
}

impl ContextRouterNode {
    /// A router on `context_key` with no routes and no default.
    pub fn new(id: &str, context_key: &str) -> (r: Self)
        ensures
            r.id()@ == id@,
            r.context_key()@ == context_key@,
            kv_map(r.routes()) == Map::<Seq<char>, Seq<char>>::empty(),
            r.default_target() is None,
    {
        ContextRouterNode { id: owned(id), context_key: owned(context_key), routes: Vec::new(), default: None }
    }

    /// The router with a route from a value to a target; a later route for
    /// the same value replaces an earlier one.
    pub fn route(self, value: &str, target: &str) -> (r: Self)
        ensures
            r.id() == self.id(),
            r.context_key() == self.context_key(),
            kv_map(r.routes()) == kv_map(self.routes()).insert(value@, target@),
            r.default_target() == self.default_target(),
    {
        let mut s = self;
        let ghost before = s.routes@;
        s.routes.push((owned(value), owned(target)));
        assert(s.routes@.drop_last() == before);
        s
    }

    /// The router with a default target.
    pub fn default_route(self, target: &str) -> (r: Self)
        ensures
            r.id() == self.id(),
            r.context_key() == self.context_key(),
            r.routes() == self.routes(),
            opt_view(r.default_target()) == Some(target@),
    {
        ContextRouterNode { default: Some(owned(target)), ..self }
    }

    /// The node id.
    pub closed spec fn id(&self) -> String {
        self.id
    }

    /// The key routed on.
    pub closed spec fn context_key(&self) -> String {
        self.context_key
    }

    /// The routes, as value/target pairs.
    pub closed spec fn routes(&self) -> Seq<(String, String)> {
        self.routes@
    }

    /// The default target.
    pub closed spec fn default_target(&self) -> Option<String> {
        self.default
    }

    /// The node id.
    pub fn node_id(&self) -> (r: &str)
        ensures
            r@ == self.id()@,
    {
        self.id.as_str()
    }

    /// The key routed on.
    pub fn key(&self) -> (r: &str)
        ensures
            r@ == self.context_key()@,
    {
        self.context_key.as_str()
    }

    /// Continues to the target routed for the context value; without a
    /// route for it, to the default target; without one, finishes.
    pub fn execute(&self, value: Option<&str>) -> (r: NodeOutput)
        ensures
            r@ == match value {
                Some(v) if kv_map(self.routes()).contains_key(v@) => OutputView::Continue(
                    Some(kv_map(self.routes())[v@]),
                ),
                _ => match opt_view(self.default_target()) {
                    Some(d) => OutputView::Continue(Some(d)),
                    None => OutputView::Finish,
                },
            },
    {
        match value {
            Some(v) => match kv_get(&self.routes, v) {
                Some(target) => {
                    return NodeOutput::continue_to(target.as_str());
                },
                None => {},
            },
            None => {},
        }
        match &self.default {
            Some(d) => NodeOutput::continue_to(d.as_str()),
            None => NodeOutput::finish(),
        }
    }
}

} // verus!
