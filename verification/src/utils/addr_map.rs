//! A map keyed by socket addresses.
use crate::utils::SocketAddr;
use vstd::prelude::*;

verus! {

/// A map from socket addresses to values, kept as a list of entries. Its view is the map.
#[derive(Debug)]
pub struct AddrMap<V> {
    entries: Vec<(SocketAddr, V)>,
}

/// The place of an address in a list of entries.
spec fn holds_at<V>(entries: Seq<(SocketAddr, V)>, addr: SocketAddr, i: int) -> bool {
    0 <= i < entries.len() && entries[i].0 == addr
}

impl<V> View for AddrMap<V> {
    type V = Map<SocketAddr, V>;

    closed spec fn view(&self) -> Map<SocketAddr, V> {
        Map::new(
            |addr: SocketAddr| exists|i: int| holds_at(self.entries@, addr, i),
            |addr: SocketAddr| self.entries@[choose|i: int| holds_at(self.entries@, addr, i)].1,
        )
    }
}

impl<V> AddrMap<V> {
    /// No address has two entries.
    pub closed spec fn wf(&self) -> bool {
        forall|i: int, j: int|
            0 <= i < j < self.entries@.len() ==> (#[trigger] self.entries@[i]).0 != (
            #[trigger] self.entries@[j]).0
    }

    /// The map without entries.
    pub fn new() -> (map: AddrMap<V>)
        ensures
            map.wf(),
            map@ == Map::<SocketAddr, V>::empty(),
    {
        let map = AddrMap { entries: Vec::new() };
        assert(map@ =~= Map::<SocketAddr, V>::empty());
        map
    }

    /// What the map holds at the place of an entry.
    proof fn lemma_entry(&self, i: int)
        requires
            self.wf(),
            0 <= i < self.entries@.len(),
        ensures
            self@.contains_key(self.entries@[i].0),
            self@[self.entries@[i].0] == self.entries@[i].1,
    {
        let addr = self.entries@[i].0;
        assert(holds_at(self.entries@, addr, i));
        let j = choose|j: int| holds_at(self.entries@, addr, j);
        assert(i == j);
    }

    /// The place of an address that the map contains.
    proof fn lemma_place(&self, addr: SocketAddr) -> (i: int)
        requires
            self.wf(),
            self@.contains_key(addr),
        ensures
            0 <= i < self.entries@.len(),
            self.entries@[i].0 == addr,
            self@[addr] == self.entries@[i].1,
    {
        choose|i: int| holds_at(self.entries@, addr, i)
    }

    /// The place of `addr` among the entries.
    fn find(&self, addr: SocketAddr) -> (place: Option<usize>)
        requires
            self.wf(),
        ensures
            match place {
                Some(i) => i < self.entries@.len() && self.entries@[i as int].0 == addr,
                None => !self@.contains_key(addr),
            },
    {
        for i in 0..self.entries.len()
            invariant
                forall|j: int| 0 <= j < i ==> (#[trigger] self.entries@[j]).0 != addr,
        {
            if self.entries[i].0 == addr {
                return Some(i);
            }
        }
        None
    }

    /// The value at `addr`.
    pub fn get(&self, addr: SocketAddr) -> (value: Option<&V>)
        requires
            self.wf(),
        ensures
            match value {
                Some(value) => self@.contains_key(addr) && self@[addr] == *value,
                None => !self@.contains_key(addr),
            },
    {
        match self.find(addr) {
            Some(i) => {
                proof {
                    self.lemma_entry(i as int);
                }
                Some(&self.entries[i].1)
            },
            None => None,
        }
    }

    /// Takes the entry at `addr` out of the map.
    pub fn remove(&mut self, addr: SocketAddr) -> (value: Option<V>)
        requires
            old(self).wf(),
        ensures
            final(self).wf(),
            final(self)@ == old(self)@.remove(addr),
            match value {
                Some(value) => old(self)@.contains_key(addr) && old(self)@[addr] == value,
                None => !old(self)@.contains_key(addr),
            },
    {
        match self.find(addr) {
            Some(i) => {
                proof {
                    self.lemma_entry(i as int);
                }
                let (_, value) = self.entries.remove(i);
                proof {
                    let pre = old(self);
                    let post = &*self;
                    assert(post.wf());
                    assert forall|other: SocketAddr| #[trigger]
                        post@.contains_key(other) <==> pre@.remove(addr).contains_key(other) by {
                        if pre@.contains_key(other) && other != addr {
                            let k = pre.lemma_place(other);
                            if k < i {
                                assert(post.entries@[k] == pre.entries@[k]);
                                post.lemma_entry(k);
                            } else {
                                assert(post.entries@[k - 1] == pre.entries@[k]);
                                post.lemma_entry(k - 1);
                            }
                        }
                        if post@.contains_key(other) {
                            let k = post.lemma_place(other);
                            if k < i {
                                pre.lemma_entry(k);
                            } else {
                                pre.lemma_entry(k + 1);
                            }
                        }
                    }
                    assert forall|other: SocketAddr| #[trigger] post@.contains_key(other) implies post@[other]
                        == pre@.remove(addr)[other] by {
                        let k = post.lemma_place(other);
                        if k < i {
                            pre.lemma_entry(k);
                        } else {
                            pre.lemma_entry(k + 1);
                        }
                    }
                    assert(post@ =~= pre@.remove(addr));
                }
                Some(value)
            },
            None => {
                assert(self@ =~= old(self)@.remove(addr));
                None
            },
        }
    }

    /// Puts `value` at `addr`, in the place of what was there.
    pub fn insert(&mut self, addr: SocketAddr, value: V)
        requires
            old(self).wf(),
        ensures
            final(self).wf(),
            final(self)@ == old(self)@.insert(addr, value),
    {
        let _ = self.remove(addr);
        let ghost pre = *self;
        self.entries.push((addr, value));
        proof {
            let post = &*self;
            assert forall|i: int, j: int| 0 <= i < j < post.entries@.len() implies (
            #[trigger] post.entries@[i]).0 != (#[trigger] post.entries@[j]).0 by {
                pre.lemma_entry(i);
            }
            assert forall|other: SocketAddr| #[trigger]
                post@.contains_key(other) <==> old(self)@.insert(addr, value).contains_key(other) by {
                if other == addr {
                    post.lemma_entry(pre.entries@.len() as int);
                } else if pre@.contains_key(other) {
                    let k = pre.lemma_place(other);
                    assert(post.entries@[k] == pre.entries@[k]);
                    post.lemma_entry(k);
                } else if post@.contains_key(other) {
                    let k = post.lemma_place(other);
                    pre.lemma_entry(k);
                }
            }
            assert forall|other: SocketAddr| #[trigger] post@.contains_key(other) implies post@[other]
                == old(self)@.insert(addr, value)[other] by {
                let k = post.lemma_place(other);
                if other == addr {
                    post.lemma_entry(pre.entries@.len() as int);
                } else {
                    pre.lemma_entry(k);
                }
            }
            assert(post@ =~= old(self)@.insert(addr, value));
        }
    }
}

} // verus!
