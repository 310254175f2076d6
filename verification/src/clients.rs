//! The clients of a capture socket.

use std::collections::HashMap;
use vstd::prelude::*;

verus! {

/// What is known of the clients of a capture socket.
pub struct FanoutView<T> {
    /// How each client is reached, by its number.
    pub clients: Map<u64, T>,
    /// The number of the next client.
    pub next: u64,
}

/// The clients of a capture socket: for each, how it is reached.
#[derive(Debug)]
pub struct FanoutSlot<T> {
    clients: HashMap<u64, T>,
    next_client_id: u64,
}

impl<T> View for FanoutSlot<T> {
    type V = FanoutView<T>;

    closed spec fn view(&self) -> FanoutView<T> {
        FanoutView { clients: self.clients@, next: self.next_client_id }
    }
}

/// Whether `out` has each client once, in some order.
pub open spec fn is_snapshot<T: Clone>(clients: Map<u64, T>, out: Seq<T>) -> bool {
    exists|ids: Seq<u64>| #[trigger]
        lists(clients, ids) && ids.len() == out.len() && forall|i: int|
            0 <= i < out.len() ==> cloned(clients[ids[i]], #[trigger] out[i])
}

/// Whether `ids` are the numbers of the clients, each once.
pub open spec fn lists<T>(clients: Map<u64, T>, ids: Seq<u64>) -> bool {
    &&& ids.no_duplicates()
    &&& ids.len() == clients.dom().len()
    &&& forall|i: int| 0 <= i < ids.len() ==> clients.contains_key(#[trigger] ids[i])
    &&& forall|id: u64| clients.contains_key(id) ==> #[trigger] ids.contains(id)
}

impl<T> FanoutSlot<T> {
    /// No clients; the first will have the number one.
    pub fn new() -> (r: FanoutSlot<T>)
        ensures
            r@ == (FanoutView { clients: Map::<u64, T>::empty(), next: 1 }),
    {
        FanoutSlot { clients: HashMap::new(), next_client_id: 1 }
    }

    /// Adds a client. The result is its number; after the largest number comes zero.
    pub fn register(&mut self, tx: T) -> (r: u64)
        ensures
            r == old(self)@.next,
            final(self)@ == (FanoutView {
                clients: old(self)@.clients.insert(r, tx),
                next: if r == u64::MAX {
                    0
                } else {
                    (r + 1) as u64
                },
            }),
    {
        broadcast use vstd::std_specs::hash::group_hash_axioms;

        let id: u64 = self.next_client_id;
        self.next_client_id = id.wrapping_add(1);
        self.clients.insert(id, tx);
        id
    }

    /// Removes a client, if there is one of that number.
    pub fn unregister(&mut self, id: u64)
        ensures
            final(self)@ == (FanoutView {
                clients: old(self)@.clients.remove(id),
                ..old(self)@
            }),
    {
        broadcast use vstd::std_specs::hash::group_hash_axioms;

        self.clients.remove(&id);
    }
}

impl<T: Clone> FanoutSlot<T> {
    /// Replaces what is in `out` by how each client is reached.
    pub fn snapshot_clients_into(&self, out: &mut Vec<T>)
        ensures
            is_snapshot(self@.clients, final(out)@),
    {
        broadcast use vstd::std_specs::hash::group_hash_axioms;

        out.clear();
        let ghost all = self.clients@;
        let ghost mut ids: Seq<u64> = seq![];
        for (id, tx) in it: self.clients.iter()
            invariant
                all == self.clients@,
                ids.len() == it.index(),
                out@.len() == it.index(),
                forall|i: int| 0 <= i < ids.len() ==> ids[i] == *(#[trigger] it.seq()[i]).0,
                forall|i: int|
                    0 <= i < ids.len() ==> all.contains_key(#[trigger] ids[i]) && cloned(
                        all[ids[i]],
                        out@[i],
                    ),
                ids.no_duplicates(),
                ids.len() == it.seq().len() ==> forall|k: u64|
                    all.contains_key(k) ==> #[trigger] ids.contains(k),
                it.seq().no_duplicates(),
                it.seq().len() == all.dom().len(),
                forall|k: u64| #[trigger] all.contains_key(k) ==> it.seq().contains((&k, &all[k])),
                forall|i: int|
                    0 <= i < it.seq().len() ==> all.contains_key(*(#[trigger] it.seq()[i]).0)
                        && all[*it.seq()[i].0] == *it.seq()[i].1,
        {
            out.push(tx.clone());
            proof {
                let before = ids;
                ids = ids.push(*id);
                assert(it.seq()[before.len() as int] == (id, tx));
                assert forall|i: int| 0 <= i < before.len() implies before[i] != *id by {
                    assert(it.seq()[i] != it.seq()[before.len() as int]);
                }
                assert(forall|i: int|
                    0 <= i < ids.len() ==> ids[i] == *(#[trigger] it.seq()[i]).0);
                assert forall|k: u64|
                    all.contains_key(k) && ids.len() == it.seq().len() implies #[trigger] ids.contains(
                    k,
                ) by {
                    assert(it.seq().contains((&k, &all[k])));
                    assert(exists|n: int| 0 <= n < ids.len() && #[trigger] ids[n] == k);
                }
            }
        }
        assert(lists(all, ids));
    }
}

/// A snapshot has every client, each once and nobody else: clients and places in it can be
/// paired so that each client stands at its own place.
pub proof fn law_snapshot_has_everybody<T: Clone>(clients: Map<u64, T>, out: Seq<T>)
    requires
        is_snapshot(clients, out),
    ensures
        out.len() == clients.dom().len(),
        exists|ids: Seq<u64>|
            ids.len() == out.len() && #[trigger] ids.no_duplicates() && (forall|i: int|
                0 <= i < out.len() ==> clients.contains_key(#[trigger] ids[i]) && cloned(
                    clients[ids[i]],
                    out[i],
                )) && forall|id: u64|
                clients.contains_key(id) ==> exists|i: int|
                    0 <= i < out.len() && #[trigger] ids[i] == id,
{
    let ids = choose|ids: Seq<u64>| #[trigger]
        lists(clients, ids) && ids.len() == out.len() && forall|i: int|
            0 <= i < out.len() ==> cloned(clients[ids[i]], #[trigger] out[i]);
    assert(ids.no_duplicates());
    assert forall|i: int| 0 <= i < out.len() implies clients.contains_key(#[trigger] ids[i])
        && cloned(clients[ids[i]], out[i]) by {
        assert(cloned(clients[ids[i]], out[i]));
    }
    assert forall|id: u64| clients.contains_key(id) implies exists|i: int|
        0 <= i < out.len() && #[trigger] ids[i] == id by {
        assert(ids.contains(id));
    }
}

} // verus!
