//! The event loop's table of live listeners, keyed by token, and the two
//! turn steps that move connections in and out of it.
use vstd::prelude::*;
use std::collections::HashMap;

use crate::reactor::{Reactor, WAKER_TOKEN};

verus! {

broadcast use vstd::std_specs::hash::group_hash_axioms;

/// Every registered token other than the wakeup's names exactly one listener
/// of the table (a table holds one listener per key).
pub open spec fn tokens_backed<H>(tokens: Set<usize>, table: Map<usize, H>) -> bool {
    forall|t: usize| #[trigger] tokens.contains(t) && t != WAKER_TOKEN ==> table.contains_key(t)
}

/// No token waiting to be retired is still registered.
pub open spec fn retiring_unregistered(tokens: Set<usize>, retiring: Seq<usize>) -> bool {
    forall|i: int| 0 <= i < retiring.len() ==> !tokens.contains(#[trigger] retiring[i])
}

pub open spec fn first_of<H>(p: (usize, H)) -> usize {
    p.0
}

pub struct EventLoop<H> {
    connection_handler_map: HashMap<usize, H>,
}

impl<H> EventLoop<H> {
    pub closed spec fn spec_table(&self) -> Map<usize, H> {
        self.connection_handler_map@
    }

    pub fn new() -> (r: Self)
        ensures
            r.spec_table() == Map::<usize, H>::empty(),
    {
        EventLoop { connection_handler_map: HashMap::new() }
    }

    pub fn contains(&self, id: usize) -> (r: bool)
        ensures
            r == self.spec_table().contains_key(id),
    {
        self.connection_handler_map.contains_key(&id)
    }

    /// Puts a listener in the table under `id`.
    pub fn insert(&mut self, id: usize, handler: H)
        ensures
            final(self).spec_table() == old(self).spec_table().insert(id, handler),
    {
        self.connection_handler_map.insert(id, handler);
    }

    /// Takes the listener under `id` out of the table.
    pub fn remove(&mut self, id: usize) -> (r: Option<H>)
        ensures
            final(self).spec_table() == old(self).spec_table().remove(id),
            r == (if old(self).spec_table().contains_key(id) {
                Some(old(self).spec_table()[id])
            } else {
                None
            }),
    {
        self.connection_handler_map.remove(&id)
    }

    /// Installs every connection waiting in the reactor, in order, each
    /// under its id, and returns their ids, each of which is to be polled once.
    pub fn handle_new_connections(&mut self, reactor: &mut Reactor<H>) -> (ids: Vec<usize>)
        requires
            old(reactor).wf(),
        ensures
            final(reactor).wf(),
            final(reactor).spec_new_source().len() == 0,
            final(reactor).spec_tokens() == old(reactor).spec_tokens(),
            final(reactor).spec_tasks() == old(reactor).spec_tasks(),
            final(reactor).spec_old_source() == old(reactor).spec_old_source(),
            ids@ == old(reactor).spec_new_source().map_values(|p: (usize, H)| first_of(p)),
            final(self).spec_table() == install_all(
                old(self).spec_table(),
                old(reactor).spec_new_source(),
            ),
            forall|k: usize| #[trigger]
                final(self).spec_table().contains_key(k) <==> (old(self).spec_table().contains_key(
                    k,
                ) || ids@.contains(k)),
            tokens_backed(old(reactor).spec_tokens(), old(self).spec_table()) ==> tokens_backed(
                final(reactor).spec_tokens(),
                final(self).spec_table(),
            ),
    {
        let ghost orig = reactor.spec_new_source().map_values(|p: (usize, H)| first_of(p));
        let ghost target = install_all(self.spec_table(), reactor.spec_new_source());
        let mut ids: Vec<usize> = Vec::new();
        loop
            invariant
                reactor.wf(),
                reactor.spec_tokens() == old(reactor).spec_tokens(),
                reactor.spec_tasks() == old(reactor).spec_tasks(),
                reactor.spec_old_source() == old(reactor).spec_old_source(),
                orig == old(reactor).spec_new_source().map_values(|p: (usize, H)| first_of(p)),
                orig == ids@ + reactor.spec_new_source().map_values(|p: (usize, H)| first_of(p)),
                target == install_all(old(self).spec_table(), old(reactor).spec_new_source()),
                target == install_all(self.spec_table(), reactor.spec_new_source()),
                forall|k: usize| #[trigger]
                    self.spec_table().contains_key(k) <==> (old(self).spec_table().contains_key(
                        k,
                    ) || ids@.contains(k)),
            ensures
                reactor.spec_new_source().len() == 0,
                reactor.wf(),
                reactor.spec_tokens() == old(reactor).spec_tokens(),
                reactor.spec_tasks() == old(reactor).spec_tasks(),
                reactor.spec_old_source() == old(reactor).spec_old_source(),
                orig == ids@,
                self.spec_table() == target,
                forall|k: usize| #[trigger]
                    self.spec_table().contains_key(k) <==> (old(self).spec_table().contains_key(
                        k,
                    ) || ids@.contains(k)),
            decreases reactor.spec_new_source().len(),
        {
            let ghost before = reactor.spec_new_source();
            match reactor.next_new_connection() {
                Some((id, handler)) => {
                    proof {
                        assert(before.map_values(|p: (usize, H)| first_of(p)) =~= seq![id]
                            + reactor.spec_new_source().map_values(|p: (usize, H)| first_of(p)));
                    }
                    let ghost prev = ids@;
                    let ghost prev_table = self.spec_table();
                    self.connection_handler_map.insert(id, handler);
                    ids.push(id);
                    proof {
                        assert(self.spec_table() == prev_table.insert(id, handler));
                        assert(ids@ == prev.push(id));
                        lemma_push_contains(prev, id);
                        assert forall|k: usize| #[trigger]
                            self.spec_table().contains_key(k) <==> (old(
                                self,
                            ).spec_table().contains_key(k) || ids@.contains(k)) by {
                            assert(self.spec_table().contains_key(k) <==> (prev_table.contains_key(
                                k,
                            ) || k == id));
                        }
                        assert(orig =~= ids@ + reactor.spec_new_source().map_values(
                            |p: (usize, H)| first_of(p),
                        ));
                    }
                },
                None => {
                    proof {
                        assert(orig =~= ids@);
                    }
                    break ;
                },
            }
        }
        ids
    }

    /// Drops from the table every connection waiting to be retired, in
    /// order, and hands back the listeners that were removed, in that order.
    pub fn handle_dead_connections(&mut self, reactor: &mut Reactor<H>) -> (dropped: Vec<H>)
        requires
            old(reactor).wf(),
        ensures
            final(reactor).wf(),
            final(reactor).spec_old_source().len() == 0,
            final(reactor).spec_tokens() == old(reactor).spec_tokens(),
            final(reactor).spec_tasks() == old(reactor).spec_tasks(),
            final(reactor).spec_new_source() == old(reactor).spec_new_source(),
            final(self).spec_table() == old(self).spec_table().remove_keys(
                old(reactor).spec_old_source().to_set(),
            ),
            dropped@ == retired(old(self).spec_table(), old(reactor).spec_old_source()),
            tokens_backed(old(reactor).spec_tokens(), old(self).spec_table())
                && retiring_unregistered(old(reactor).spec_tokens(), old(reactor).spec_old_source())
                ==> tokens_backed(final(reactor).spec_tokens(), final(self).spec_table()),
    {
        let ghost orig = reactor.spec_old_source();
        let ghost all = retired(self.spec_table(), orig);
        let mut dropped: Vec<H> = Vec::new();
        let ghost mut done: Seq<usize> = Seq::empty();
        proof {
            assert(self.spec_table() =~= old(self).spec_table().remove_keys(done.to_set()));
        }
        loop
            invariant
                reactor.wf(),
                reactor.spec_tokens() == old(reactor).spec_tokens(),
                reactor.spec_tasks() == old(reactor).spec_tasks(),
                reactor.spec_new_source() == old(reactor).spec_new_source(),
                orig == old(reactor).spec_old_source(),
                all == retired(old(self).spec_table(), orig),
                orig == done + reactor.spec_old_source(),
                self.spec_table() == old(self).spec_table().remove_keys(done.to_set()),
                all == dropped@ + retired(self.spec_table(), reactor.spec_old_source()),
            ensures
                reactor.spec_old_source().len() == 0,
                reactor.wf(),
                reactor.spec_tokens() == old(reactor).spec_tokens(),
                reactor.spec_tasks() == old(reactor).spec_tasks(),
                reactor.spec_new_source() == old(reactor).spec_new_source(),
                orig == done,
                self.spec_table() == old(self).spec_table().remove_keys(done.to_set()),
                all == dropped@,
            decreases reactor.spec_old_source().len(),
        {
            let ghost before = reactor.spec_old_source();
            match reactor.next_old_connection() {
                Some(id) => {
                    let ghost prev = done;
                    let ghost prev_table = self.spec_table();
                    let ghost prev_dropped = dropped@;
                    proof {
                        done = done.push(id);
                        assert(orig =~= done + reactor.spec_old_source());
                        lemma_push_contains(prev, id);
                    }
                    if let Some(h) = self.connection_handler_map.remove(&id) {
                        dropped.push(h);
                    }
                    proof {
                        assert(self.spec_table() == prev_table.remove(id));
                        assert(self.spec_table() =~= old(self).spec_table().remove_keys(
                            done.to_set(),
                        ));
                        assert(before.drop_first() == reactor.spec_old_source());
                        if prev_table.contains_key(id) {
                            assert(all =~= dropped@ + retired(
                                self.spec_table(),
                                reactor.spec_old_source(),
                            ));
                        } else {
                            assert(dropped@ == prev_dropped);
                        }
                    }
                },
                None => {
                    proof {
                        assert(orig =~= done);
                        assert(dropped@ + retired(self.spec_table(), reactor.spec_old_source())
                            =~= dropped@);
                    }
                    break ;
                },
            }
        }
        proof {
            let tokens = reactor.spec_tokens();
            if tokens_backed(tokens, old(self).spec_table()) && retiring_unregistered(tokens, orig) {
                assert forall|t: usize| #[trigger]
                    tokens.contains(t) && t != WAKER_TOKEN implies self.spec_table().contains_key(t) by {
                    if orig.contains(t) {
                        let j = choose|j: int| 0 <= j < orig.len() && orig[j] == t;
                        assert(!tokens.contains(orig[j]));
                    }
                }
            }
        }
        dropped
    }
}

/// The table after installing each queued listener under its id, in queue
/// order: a later listener under the same id replaces an earlier one.
pub open spec fn install_all<H>(table: Map<usize, H>, queue: Seq<(usize, H)>) -> Map<usize, H>
    decreases queue.len(),
{
    if queue.len() == 0 {
        table
    } else {
        install_all(table.insert(queue[0].0, queue[0].1), queue.drop_first())
    }
}

/// The listeners that retiring the queued ids, in order, takes out of the
/// table, in the order in which they leave it.
pub open spec fn retired<H>(table: Map<usize, H>, queue: Seq<usize>) -> Seq<H>
    decreases queue.len(),
{
    if queue.len() == 0 {
        Seq::empty()
    } else if table.contains_key(queue[0]) {
        seq![table[queue[0]]] + retired(table.remove(queue[0]), queue.drop_first())
    } else {
        retired(table.remove(queue[0]), queue.drop_first())
    }
}

/// Installing a queue leaves every entry whose key it does not name as it was.
pub proof fn lemma_install_all_keeps_others<H>(table: Map<usize, H>, queue: Seq<(usize, H)>, k: usize)
    requires
        forall|i: int| 0 <= i < queue.len() ==> (#[trigger] queue[i]).0 != k,
    ensures
        install_all(table, queue).contains_key(k) == table.contains_key(k),
        table.contains_key(k) ==> install_all(table, queue)[k] == table[k],
    decreases queue.len(),
{
    if queue.len() > 0 {
        assert forall|i: int| 0 <= i < queue.drop_first().len() implies (
        #[trigger] queue.drop_first()[i]).0 != k by {
            assert(queue.drop_first()[i] == queue[i + 1]);
        }
        lemma_install_all_keeps_others(table.insert(queue[0].0, queue[0].1), queue.drop_first(), k);
    }
}

/// After a push, a sequence holds what it held and the pushed item.
pub proof fn lemma_push_contains<T>(s: Seq<T>, x: T)
    ensures
        forall|k: T| #[trigger] s.push(x).contains(k) <==> (s.contains(k) || k == x),
{
    assert forall|k: T| #[trigger] s.push(x).contains(k) <==> (s.contains(k) || k == x) by {
        if s.push(x).contains(k) {
            let j = choose|j: int| 0 <= j < s.push(x).len() && s.push(x)[j] == k;
            if j < s.len() {
                assert(s[j] == k);
            }
        }
        if k == x {
            assert(s.push(x)[s.len() as int] == k);
        }
        if s.contains(k) {
            let j = choose|j: int| 0 <= j < s.len() && s[j] == k;
            assert(s.push(x)[j] == k);
        }
    }
}

/// Confirming the registration of an installed listener's token keeps every registered
/// token tied to one listener.
pub proof fn lemma_register_installed<H>(tokens: Set<usize>, table: Map<usize, H>, fd: usize)
    requires
        tokens_backed(tokens, table),
        table.contains_key(fd),
    ensures
        tokens_backed(tokens.insert(fd), table),
{
}

/// Forgetting a token before its listener leaves the table keeps every
/// registered token tied to one listener, and the token is no longer
/// registered when the table drops it.
pub proof fn lemma_retire_unregistered<H>(tokens: Set<usize>, retiring: Seq<usize>, table: Map<
    usize,
    H,
>, fd: usize)
    requires
        tokens_backed(tokens, table),
        retiring_unregistered(tokens, retiring),
    ensures
        tokens_backed(tokens.remove(fd), table),
        retiring_unregistered(tokens.remove(fd), retiring.push(fd)),
{
    assert forall|i: int| 0 <= i < retiring.push(fd).len() implies !tokens.remove(fd).contains(
        #[trigger] retiring.push(fd)[i],
    ) by {
        if i < retiring.len() {
            assert(retiring.push(fd)[i] == retiring[i]);
        }
    }
}

} // verus!
