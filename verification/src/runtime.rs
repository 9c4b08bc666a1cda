//! Runtime configuration for graph execution.

use crate::text::{owned, str_eq, strings_view};
use vstd::prelude::*;

verus! {

broadcast use vstd::string::group_string_axioms;

/// Configuration for the runtime.
#[derive(Clone, Debug)]
pub struct RuntimeConfig {
    /// Whether to stream events.
    pub stream: bool,
    /// Maximum number of steps.
    pub recursion_limit: u32,
    /// Thread id for checkpointing.
    pub thread_id: Option<String>,
    /// Tags for tracing, each once, in the order first added.
    pub tags: Vec<String>,
}

impl Default for RuntimeConfig {
    /// Streaming, twenty-five steps, no thread id, no tags.
    fn default() -> (r: Self)
        ensures
            r.stream,
            r.recursion_limit == 25,
            r.thread_id is None,
            r.tags@.len() == 0,
    {
        RuntimeConfig { stream: true, recursion_limit: 25, thread_id: None, tags: Vec::new() }
    }
}

impl RuntimeConfig {
    /// The default configuration.
    pub fn new() -> (r: Self)
        ensures
            r.stream,
            r.recursion_limit == 25,
            r.thread_id is None,
            r.tags@.len() == 0,
    {
        RuntimeConfig::default()
    }

    /// The configuration with its step limit set.
    pub fn recursion_limit(self, limit: u32) -> (r: Self)
        ensures
            r.recursion_limit == limit,
            r.stream == self.stream,
            r.thread_id == self.thread_id,
            r.tags == self.tags,
    {
        RuntimeConfig { recursion_limit: limit, ..self }
    }

    /// The configuration with a thread id.
    pub fn thread_id(self, id: &str) -> (r: Self)
        ensures
            r.recursion_limit == self.recursion_limit,
            r.stream == self.stream,
            r.thread_id matches Some(t) && t@ == id@,
            r.tags == self.tags,
    {
        RuntimeConfig { thread_id: Some(owned(id)), ..self }
    }

    /// The configuration with a tag added, unless it is already there.
    pub fn tag(self, tag: &str) -> (r: Self)
        ensures
            r.recursion_limit == self.recursion_limit,
            r.stream == self.stream,
            r.thread_id == self.thread_id,
            strings_view(r.tags@) == if strings_view(self.tags@).contains(tag@) {
                strings_view(self.tags@)
            } else {
                strings_view(self.tags@).push(tag@)
            },
    {
        let mut c = self;
        let mut i: usize = 0;
        while i < c.tags.len()
            invariant
                i <= c.tags@.len(),
                c.tags == self.tags,
                c.recursion_limit == self.recursion_limit,
                c.stream == self.stream,
                c.thread_id == self.thread_id,
                forall|k: int| 0 <= k < i ==> (#[trigger] c.tags@[k])@ != tag@,
            decreases c.tags@.len() - i,
        {
            if str_eq(c.tags[i].as_str(), tag) {
                assert(strings_view(c.tags@)[i as int] == tag@);
                return c;
            }
            i += 1;
        }
        proof {
            if strings_view(self.tags@).contains(tag@) {
                let k = choose|k: int| 0 <= k < strings_view(self.tags@).len() && strings_view(self.tags@)[k] == tag@;
                assert(c.tags@[k]@ == tag@);
            }
        }
        let t = owned(tag);
        let ghost before = c.tags@;
        c.tags.push(t);
        assert(strings_view(c.tags@) == strings_view(before).push(t@));
        c
    }

    /// The configuration with streaming set.
    pub fn streaming(self, enabled: bool) -> (r: Self)
        ensures
            r.stream == enabled,
            r.recursion_limit == self.recursion_limit,
            r.thread_id == self.thread_id,
            r.tags == self.tags,
    {
        RuntimeConfig { stream: enabled, ..self }
    }
}

} // verus!
