//! Bookkeeping for dynamically spawned subgraphs: unique ids and the set of
//! subgraphs still running.

use crate::runner::RunnerConfig;
use crate::text::{concat_strings, copy_string, copy_strings, decimal, owned, str_eq, strings_view, u64_to_string};
use vstd::prelude::*;

verus! {

broadcast use vstd::string::group_string_axioms;

/// Tracks spawned subgraphs: the runner configuration they get, the ids
/// still running, and a counter for fresh ids.
#[derive(Debug)]
pub struct SubgraphSpawner {
    config: RunnerConfig,
    active: Vec<String>,
    counter: u64,
}

impl View for SubgraphSpawner {
    type V = Set<Seq<char>>;

    /// The ids of the subgraphs still running.
    closed spec fn view(&self) -> Set<Seq<char>> {
        strings_view(self.active@).to_set()
    }
}

impl Default for SubgraphSpawner {
    fn default() -> (r: Self)
        ensures
            r.inv(),
            r@ == Set::<Seq<char>>::empty(),
            r.next_number() == 0,
            r.config_view().max_iterations == 100,
            !r.config_view().verbose,
            r.config_view().tags@.len() == 0,
    {
        SubgraphSpawner::new()
    }
}

impl SubgraphSpawner {
    /// Each running id is listed once.
    pub closed spec fn inv(&self) -> bool {
        strings_view(self.active@).no_duplicates()
    }

    /// The number the next generated id will carry.
    pub closed spec fn next_number(&self) -> u64 {
        self.counter
    }

    /// The configuration spawned runners get.
    pub closed spec fn config_view(&self) -> RunnerConfig {
        self.config
    }

    /// A spawner with the default runner configuration and nothing running.
    pub fn new() -> (r: Self)
        ensures
            r.inv(),
            r@ == Set::<Seq<char>>::empty(),
            r.next_number() == 0,
            r.config_view().max_iterations == 100,
            !r.config_view().verbose,
            r.config_view().tags@.len() == 0,
    {
        let r = SubgraphSpawner { config: RunnerConfig::default(), active: Vec::new(), counter: 0 };
        assert(strings_view(r.active@) =~= Seq::<Seq<char>>::empty());
        assert(r@ =~= Set::<Seq<char>>::empty());
        r
    }

    /// The spawner with the runner configuration for spawned subgraphs set.
    pub fn with_config(self, config: RunnerConfig) -> (r: Self)
        requires
            self.inv(),
        ensures
            r.inv(),
            r@ == self@,
            r.next_number() == self.next_number(),
            r.config_view() == config,
    {
        SubgraphSpawner { config, ..self }
    }

    /// The runner configuration for spawned subgraphs.
    pub fn config(&self) -> (r: &RunnerConfig)
        ensures
            *r == self.config_view(),
    {
        &self.config
    }

    /// A fresh id: the prefix, a hyphen and the counter, which then moves
    /// on (wrapping at the top of `u64`).
    pub fn generate_id(&mut self, prefix: &str) -> (r: String)
        requires
            old(self).inv(),
        ensures
            final(self).inv(),
            r@ == prefix@ + "-"@ + decimal(old(self).next_number() as int),
            final(self).next_number() == if old(self).next_number() == u64::MAX {
                0
            } else {
                (old(self).next_number() + 1) as u64
            },
            final(self)@ == old(self)@,
            final(self).config_view() == old(self).config_view(),
    {
        let n = self.counter;
        self.counter = if n == u64::MAX { 0 } else { n + 1 };
        let head = concat_strings(prefix, "-");
        let digits = u64_to_string(n);
        concat_strings(head.as_str(), digits.as_str())
    }

    fn position(&self, id: &str) -> (r: Option<usize>)
        ensures
            match r {
                Some(p) => p < self.active@.len() && self.active@[p as int]@ == id@,
                None => !strings_view(self.active@).contains(id@),
            },
    {
        let mut i: usize = 0;
        while i < self.active.len()
            invariant
                i <= self.active@.len(),
                forall|k: int| 0 <= k < i ==> (#[trigger] self.active@[k])@ != id@,
            decreases self.active@.len() - i,
        {
            if str_eq(self.active[i].as_str(), id) {
                return Some(i);
            }
            i += 1;
        }
        proof {
            if strings_view(self.active@).contains(id@) {
                let k = choose|k: int| 0 <= k < strings_view(self.active@).len() && strings_view(self.active@)[k] == id@;
                assert(self.active@[k]@ == id@);
            }
        }
        None
    }

    /// Records a subgraph as running.
    pub fn register(&mut self, subgraph_id: &str)
        requires
            old(self).inv(),
        ensures
            final(self).inv(),
            final(self)@ == old(self)@.insert(subgraph_id@),
            final(self).next_number() == old(self).next_number(),
            final(self).config_view() == old(self).config_view(),
    {
        if self.position(subgraph_id).is_none() {
            let ghost before = strings_view(self.active@);
            self.active.push(owned(subgraph_id));
            proof {
                assert(strings_view(self.active@) =~= before.push(subgraph_id@));
                assert(strings_view(self.active@).to_set() =~= before.to_set().insert(subgraph_id@)) by {
                    before.lemma_push_to_set_commute(subgraph_id@);
                }
                assert(strings_view(self.active@).no_duplicates()) by {
                    assert forall|i: int, j: int|
                        0 <= i < strings_view(self.active@).len() && 0 <= j < strings_view(self.active@).len() && i != j implies
                        strings_view(self.active@)[i] != strings_view(self.active@)[j] by {
                        if i < before.len() && j < before.len() {
                            assert(strings_view(self.active@)[i] == before[i]);
                            assert(strings_view(self.active@)[j] == before[j]);
                        } else if i < before.len() {
                            assert(before.contains(before[i]));
                        } else if j < before.len() {
                            assert(before.contains(before[j]));
                        }
                    }
                }
            }
        } else {
            proof {
                let p = choose|p: int| 0 <= p < self.active@.len() && self.active@[p]@ == subgraph_id@;
                assert(strings_view(self.active@)[p] == subgraph_id@);
                assert(self@.insert(subgraph_id@) =~= self@);
            }
        }
    }

    /// Records a subgraph as finished.
    pub fn complete(&mut self, subgraph_id: &str)
        requires
            old(self).inv(),
        ensures
            final(self).inv(),
            final(self)@ == old(self)@.remove(subgraph_id@),
            final(self).next_number() == old(self).next_number(),
            final(self).config_view() == old(self).config_view(),
    {
        match self.position(subgraph_id) {
            Some(p) => {
                let ghost before = strings_view(self.active@);
                self.active.remove(p);
                proof {
                    assert(strings_view(self.active@) =~= before.remove(p as int));
                    assert(strings_view(self.active@).no_duplicates()) by {
                        let after = strings_view(self.active@);
                        assert forall|i: int, j: int| 0 <= i < after.len() && 0 <= j < after.len() && i != j implies after[i]
                            != after[j] by {
                            let oi = if i < p { i } else { i + 1 };
                            let oj = if j < p { j } else { j + 1 };
                            assert(after[i] == before[oi] && after[j] == before[oj]);
                        }
                    }
                    assert(strings_view(self.active@).to_set() =~= before.to_set().remove(subgraph_id@)) by {
                        assert forall|x: Seq<char>| strings_view(self.active@).to_set().contains(x) <==> before.to_set().remove(
                            subgraph_id@,
                        ).contains(x) by {
                            if strings_view(self.active@).contains(x) {
                                let k = choose|k: int| 0 <= k < strings_view(self.active@).len() && strings_view(self.active@)[k] == x;
                                let ok = if k < p { k } else { k + 1 };
                                assert(before[ok] == x);
                                assert(before[p as int] == subgraph_id@);
                                assert(ok != p);
                                assert(before.contains(x));
                            }
                            if before.contains(x) && x != subgraph_id@ {
                                let k = choose|k: int| 0 <= k < before.len() && before[k] == x;
                                if k < p {
                                    assert(strings_view(self.active@)[k] == x);
                                } else {
                                    assert(k != p);
                                    assert(strings_view(self.active@)[k - 1] == x);
                                }
                            }
                        }
                    }
                }
            },
            None => {
                assert(self@.remove(subgraph_id@) =~= self@);
            },
        }
    }

    /// How many subgraphs are running.
    pub fn active_count(&self) -> (r: usize)
        requires
            self.inv(),
        ensures
            r == self@.len(),
    {
        proof {
            strings_view(self.active@).unique_seq_to_set();
        }
        self.active.len()
    }

    /// Whether any subgraph is running.
    pub fn has_active(&self) -> (r: bool)
        requires
            self.inv(),
        ensures
            r == (self@.len() > 0),
    {
        self.active_count() > 0
    }

    /// The ids of the running subgraphs, each once, in the order they were
    /// registered.
    pub fn active_ids(&self) -> (r: Vec<String>)
        requires
            self.inv(),
        ensures
            strings_view(r@).to_set() == self@,
            strings_view(r@).no_duplicates(),
    {
        copy_strings(&self.active)
    }
}

/// Each id generated by one spawner is distinct from the ones generated
/// before it, for as long as the counter has not wrapped: the numbers
/// differ, so the texts do.
pub proof fn lemma_generated_ids_differ(prefix: Seq<char>, a: u64, b: u64)
    requires
        a != b,
    ensures
        prefix + "-"@ + decimal(a as int) != prefix + "-"@ + decimal(b as int),
{
    crate::text::lemma_decimal_injective(a as nat, b as nat);
    if prefix + "-"@ + decimal(a as int) == prefix + "-"@ + decimal(b as int) {
        let pa = prefix + "-"@;
        assert((pa + decimal(a as int)).skip(pa.len() as int) =~= decimal(a as int));
        assert((pa + decimal(b as int)).skip(pa.len() as int) =~= decimal(b as int));
    }
}

} // verus!
