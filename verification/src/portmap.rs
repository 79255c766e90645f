//! A small table keyed by TCP port, held as an association list. One table
//! per address records the expected next sequence number per port, another
//! the last advertised window size per port.

use vstd::prelude::*;
use crate::assoc::{assoc_map, lemma_assoc_map_lookup, lemma_assoc_map_push, lemma_assoc_map_update,
    unique_keys};

verus! {

/// A map from TCP port to a recorded value, with each port held at most once.
pub struct PortTable<V> {
    pairs: Vec<(u16, V)>,
}

impl<V> View for PortTable<V> {
    type V = Map<u16, V>;

    closed spec fn view(&self) -> Map<u16, V> {
        assoc_map(self.pairs@)
    }
}

impl<V: Copy> PortTable<V> {
    /// Each port occurs at most once among the pairs.
    pub closed spec fn wf(&self) -> bool {
        unique_keys(self.pairs@)
    }

    /// An empty table.
    pub fn new() -> (r: PortTable<V>)
        ensures
            r.wf(),
            r@ =~= Map::<u16, V>::empty(),
    {
        PortTable { pairs: Vec::new() }
    }

    /// The value recorded for `port`, if any.
    pub fn get(&self, port: u16) -> (r: Option<V>)
        requires
            self.wf(),
        ensures
            match r {
                Some(v) => self@.contains_key(port) && self@[port] == v,
                None => !self@.contains_key(port),
            },
    {
        proof {
            lemma_assoc_map_lookup(self.pairs@, port);
        }
        let n = self.pairs.len();
        let mut i: usize = 0;
        while i < n
            invariant
                n == self.pairs@.len(),
                i <= n,
                self.wf(),
                forall|j: int| 0 <= j < i ==> self.pairs@[j].0 != port,
                assoc_map(self.pairs@).contains_key(port) <==> exists|j: int|
                    0 <= j < n && self.pairs@[j].0 == port,
                forall|j: int|
                    0 <= j < n && self.pairs@[j].0 == port ==> assoc_map(self.pairs@)[port]
                        == self.pairs@[j].1,
            decreases n - i,
        {
            if self.pairs[i].0 == port {
                return Some(self.pairs[i].1);
            }
            i = i + 1;
        }
        None
    }

    /// Records `v` for `port`, replacing any earlier value.
    pub fn set(&mut self, port: u16, v: V)
        requires
            old(self).wf(),
        ensures
            final(self).wf(),
            final(self)@ =~= old(self)@.insert(port, v),
    {
        let n = self.pairs.len();
        let mut i: usize = 0;
        while i < n
            invariant
                n == self.pairs@.len(),
                i <= n,
                self.wf(),
                self.pairs@ == old(self).pairs@,
                forall|j: int| 0 <= j < i ==> self.pairs@[j].0 != port,
            decreases n - i,
        {
            if self.pairs[i].0 == port {
                proof {
                    lemma_assoc_map_update(self.pairs@, i as int, v);
                }
                let mut pair = self.pairs.remove(i);
                pair.1 = v;
                self.pairs.insert(i, pair);
                proof {
                    assert(self.pairs@ =~= old(self).pairs@.update(i as int, (port, v)));
                }
                return ;
            }
            i = i + 1;
        }
        proof {
            lemma_assoc_map_push(self.pairs@, port, v);
        }
        self.pairs.push((port, v));
    }
}

} // verus!
