//! A table of values kept per peer socket address.

use vstd::prelude::*;
use crate::net::SocketAddress;

verus! {

/// No socket address occurs twice among the entries.
pub open spec fn keys_unique<T>(e: Seq<(SocketAddress, T)>) -> bool {
    forall|i: int, j: int|
        0 <= i < e.len() && 0 <= j < e.len() && i != j ==> #[trigger] e[i].0 != #[trigger] e[j].0
}

/// Some entry is kept for `k`.
pub open spec fn has_key<T>(e: Seq<(SocketAddress, T)>, k: SocketAddress) -> bool {
    exists|i: int| 0 <= i < e.len() && #[trigger] e[i].0 == k
}

/// The entries read as a map from peer to value.
pub open spec fn entries_map<T>(e: Seq<(SocketAddress, T)>) -> Map<SocketAddress, T> {
    Map::new(
        |k: SocketAddress| has_key(e, k),
        |k: SocketAddress| e[choose|i: int| 0 <= i < e.len() && #[trigger] e[i].0 == k].1,
    )
}

proof fn lemma_entry_value<T>(e: Seq<(SocketAddress, T)>, j: int)
    requires
        keys_unique(e),
        0 <= j < e.len(),
    ensures
        entries_map(e).contains_key(e[j].0),
        entries_map(e)[e[j].0] == e[j].1,
{
    let k = e[j].0;
    assert(has_key(e, k));
    let i = choose|i: int| 0 <= i < e.len() && #[trigger] e[i].0 == k;
    assert(i == j);
}

/// Values kept per peer socket address, at most one per peer.
pub struct PeerTable<T> {
    entries: Vec<(SocketAddress, T)>,
}

impl<T> View for PeerTable<T> {
    type V = Map<SocketAddress, T>;

    closed spec fn view(&self) -> Map<SocketAddress, T> {
        entries_map(self.entries@)
    }
}

impl<T> PeerTable<T> {
    pub closed spec fn wf(&self) -> bool {
        keys_unique(self.entries@)
    }

    pub fn new() -> (t: PeerTable<T>)
        ensures
            t.wf(),
            t@ == Map::<SocketAddress, T>::empty(),
    {
        let t = PeerTable { entries: Vec::new() };
        assert(t@ =~= Map::<SocketAddress, T>::empty());
        t
    }

    fn find(&self, addr: &SocketAddress) -> (r: Option<usize>)
        ensures
            r matches Some(j) ==> j < self.entries@.len() && self.entries@[j as int].0 == *addr,
            r is None ==> !has_key(self.entries@, *addr),
    {
        let mut i: usize = 0;
        while i < self.entries.len()
            invariant
                0 <= i <= self.entries@.len(),
                forall|k: int| 0 <= k < i ==> #[trigger] self.entries@[k].0 != *addr,
            decreases self.entries@.len() - i,
        {
            if self.entries[i].0.same_as(addr) {
                return Some(i);
            }
            i = i + 1;
        }
        None
    }

    /// Whether a value is kept for `addr`.
    pub fn contains(&self, addr: &SocketAddress) -> (r: bool)
        requires
            self.wf(),
        ensures
            r == self@.contains_key(*addr),
    {
        self.find(addr).is_some()
    }

    /// The value kept for `addr`, if any.
    pub fn get(&self, addr: &SocketAddress) -> (r: Option<&T>)
        requires
            self.wf(),
        ensures
            r matches Some(v) ==> self@.contains_key(*addr) && self@[*addr] == *v,
            r is None ==> !self@.contains_key(*addr),
    {
        match self.find(addr) {
            Some(j) => {
                proof {
                    lemma_entry_value(self.entries@, j as int);
                }
                Some(&self.entries[j].1)
            },
            None => None,
        }
    }

    /// Keeps `value` for `addr`, in place of any value kept for it before.
    pub fn insert(&mut self, addr: SocketAddress, value: T)
        requires
            old(self).wf(),
        ensures
            final(self).wf(),
            final(self)@ == old(self)@.insert(addr, value),
    {
        let ghost e = self.entries@;
        match self.find(&addr) {
            Some(j) => {
                self.entries.set(j, (addr, value));
                proof {
                    let e2 = self.entries@;
                    assert(e2 == e.update(j as int, (addr, value)));
                    assert forall|k: SocketAddress| has_key(e2, k) <==> (has_key(e, k) || k == addr) by {
                        if has_key(e, k) {
                            let i = choose|i: int| 0 <= i < e.len() && #[trigger] e[i].0 == k;
                            assert(e2[i].0 == k);
                        }
                        if has_key(e2, k) {
                            let i = choose|i: int| 0 <= i < e2.len() && #[trigger] e2[i].0 == k;
                            if i != j {
                                assert(e[i].0 == k);
                            }
                        }
                        if k == addr {
                            assert(e2[j as int].0 == k);
                        }
                    }
                    assert forall|k: SocketAddress| #[trigger]
                        entries_map(e2).contains_key(k) implies entries_map(e2)[k]
                        == entries_map(e).insert(addr, value)[k] by {
                        if k == addr {
                            lemma_entry_value(e2, j as int);
                        } else {
                            let i = choose|i: int| 0 <= i < e2.len() && #[trigger] e2[i].0 == k;
                            lemma_entry_value(e2, i);
                            lemma_entry_value(e, i);
                        }
                    }
                    assert(entries_map(e2) =~= entries_map(e).insert(addr, value));
                }
            },
            None => {
                self.entries.push((addr, value));
                proof {
                    let e2 = self.entries@;
                    assert(e2 == e.push((addr, value)));
                    let n = e.len() as int;
                    assert forall|k: SocketAddress| has_key(e2, k) <==> (has_key(e, k) || k == addr) by {
                        if has_key(e, k) {
                            let i = choose|i: int| 0 <= i < e.len() && #[trigger] e[i].0 == k;
                            assert(e2[i].0 == k);
                        }
                        if has_key(e2, k) {
                            let i = choose|i: int| 0 <= i < e2.len() && #[trigger] e2[i].0 == k;
                            if i != n {
                                assert(e[i].0 == k);
                            }
                        }
                        if k == addr {
                            assert(e2[n].0 == k);
                        }
                    }
                    assert forall|k: SocketAddress| #[trigger]
                        entries_map(e2).contains_key(k) implies entries_map(e2)[k]
                        == entries_map(e).insert(addr, value)[k] by {
                        if k == addr {
                            lemma_entry_value(e2, n);
                        } else {
                            let i = choose|i: int| 0 <= i < e2.len() && #[trigger] e2[i].0 == k;
                            lemma_entry_value(e2, i);
                            lemma_entry_value(e, i);
                        }
                    }
                    assert(entries_map(e2) =~= entries_map(e).insert(addr, value));
                }
            },
        }
    }

    /// Stops keeping a value for `addr`.
    pub fn remove(&mut self, addr: &SocketAddress)
        requires
            old(self).wf(),
        ensures
            final(self).wf(),
            final(self)@ == old(self)@.remove(*addr),
    {
        let ghost e = self.entries@;
        match self.find(addr) {
            Some(j) => {
                let _ = self.entries.remove(j);
                proof {
                    let e2 = self.entries@;
                    assert(e2 == e.remove(j as int));
                    assert forall|k: SocketAddress| has_key(e2, k) <==> (has_key(e, k) && k != *addr) by {
                        if has_key(e, k) && k != *addr {
                            let i = choose|i: int| 0 <= i < e.len() && #[trigger] e[i].0 == k;
                            if i < j {
                                assert(e2[i].0 == k);
                            } else {
                                assert(e2[i - 1].0 == k);
                            }
                        }
                        if has_key(e2, k) {
                            let i = choose|i: int| 0 <= i < e2.len() && #[trigger] e2[i].0 == k;
                            if i < j {
                                assert(e[i].0 == k);
                            } else {
                                assert(e[i + 1].0 == k);
                            }
                        }
                    }
                    assert forall|k: SocketAddress| #[trigger]
                        entries_map(e2).contains_key(k) implies entries_map(e2)[k]
                        == entries_map(e).remove(*addr)[k] by {
                        let i = choose|i: int| 0 <= i < e2.len() && #[trigger] e2[i].0 == k;
                        lemma_entry_value(e2, i);
                        if i < j {
                            lemma_entry_value(e, i);
                        } else {
                            lemma_entry_value(e, i + 1);
                        }
                    }
                    assert(entries_map(e2) =~= entries_map(e).remove(*addr));
                }
            },
            None => {
                assert(entries_map(e) =~= entries_map(e).remove(*addr));
            },
        }
    }
}

} // verus!
