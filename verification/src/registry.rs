//! Who waits for which message number on a connection.
//!
//! A client gives each request the next number and keeps, under that number,
//! where the answers have to go. A number is forgotten once its single answer
//! has come, once nobody takes the answers any more, or when the connection
//! is given up; in the last case numbering starts over.
use std::collections::BTreeMap;
use vstd::prelude::*;

use crate::rpc::Error;

verus! {

/// The state of a registry, as a value: the last number given out, and the
/// waiting requesters by number, each with whether it gets just one answer.
pub struct RegistryView<S> {
    pub id: u32,
    pub regs: Map<u32, (S, bool)>,
}

impl<S> RegistryView<S> {
    /// Nobody waits, and no number has been given out.
    pub open spec fn fresh() -> Self {
        RegistryView { id: 0, regs: Map::empty() }
    }

    /// Whoever waits does so under a number that has been given out.
    pub open spec fn valid(self) -> bool {
        &&& self.regs.dom().finite()
        &&& forall|k: u32| #[trigger] self.regs.contains_key(k) ==> 1 <= k <= self.id
    }

    /// One number further.
    pub open spec fn advanced(self) -> Self {
        RegistryView { id: (self.id + 1) as u32, regs: self.regs }
    }

    /// With `sender` waiting under the last number given out.
    pub open spec fn with(self, sender: S, once: bool) -> Self {
        RegistryView { id: self.id, regs: self.regs.insert(self.id, (sender, once)) }
    }

    /// With nobody waiting under `msg_id`.
    pub open spec fn without(self, msg_id: u32) -> Self {
        RegistryView { id: self.id, regs: self.regs.remove(msg_id) }
    }

    /// After an answer to `msg_id` has been handed on: who gets only one
    /// answer has it now, and who did not take it is gone.
    pub open spec fn answered(self, msg_id: u32, taken: bool) -> Self {
        if self.regs.contains_key(msg_id) && (!taken || self.regs[msg_id].1) {
            self.without(msg_id)
        } else {
            self
        }
    }

    /// Those who wait under the numbers up to `n`, by number.
    pub open spec fn waiting(self, n: nat) -> Seq<S>
        decreases n,
    {
        if n == 0 {
            Seq::empty()
        } else if self.regs.contains_key(n as u32) {
            self.waiting((n - 1) as nat).push(self.regs[n as u32].0)
        } else {
            self.waiting((n - 1) as nat)
        }
    }

    /// All who wait, by number.
    pub open spec fn all_waiting(self) -> Seq<S> {
        self.waiting(self.id as nat)
    }

    /// `ids` are the numbers under which somebody waits, in order.
    pub open spec fn lists(self, ids: Seq<u32>) -> bool {
        &&& forall|i: int, j: int| 0 <= i < j < ids.len() ==> ids[i] < ids[j]
        &&& forall|i: int| 0 <= i < ids.len() ==> self.regs.contains_key(#[trigger] ids[i])
        &&& forall|k: u32| #[trigger] self.regs.contains_key(k) ==> ids.contains(k)
    }

    /// The numbers up to `n` under which somebody waits, in order.
    spec fn ids_upto(self, n: nat) -> Seq<u32>
        decreases n,
    {
        if n == 0 {
            Seq::empty()
        } else if self.regs.contains_key(n as u32) {
            self.ids_upto((n - 1) as nat).push(n as u32)
        } else {
            self.ids_upto((n - 1) as nat)
        }
    }

    proof fn lemma_ids_upto(self, n: nat)
        requires
            n <= u32::MAX,
        ensures
            ({
                let ids = self.ids_upto(n);
                &&& forall|i: int, j: int| 0 <= i < j < ids.len() ==> ids[i] < ids[j]
                &&& forall|i: int|
                    0 <= i < ids.len() ==> self.regs.contains_key(#[trigger] ids[i]) && 1 <= ids[i]
                        <= n
                &&& forall|k: u32|
                    #![trigger self.regs.contains_key(k)]
                    1 <= k <= n && self.regs.contains_key(k) ==> ids.contains(k)
                &&& self.waiting(n) == ids.map_values(|id: u32| self.regs[id].0)
            }),
        decreases n,
    {
        let ids = self.ids_upto(n);
        let f = |id: u32| self.regs[id].0;
        if n > 0 {
            let before = self.ids_upto((n - 1) as nat);
            self.lemma_ids_upto((n - 1) as nat);
            assert forall|k: u32|
                #![trigger self.regs.contains_key(k)]
                1 <= k <= n && self.regs.contains_key(k) implies ids.contains(k) by {
                if k < n {
                    let i = before.index_of(k);
                    assert(before.contains(k));
                    assert(ids[i] == k);
                } else {
                    assert(ids.last() == k);
                }
            }
            if self.regs.contains_key(n as u32) {
                assert(ids.map_values(f) =~= before.map_values(f).push(f(n as u32)));
            }
        } else {
            assert(ids.map_values(f) =~= Seq::<S>::empty());
        }
    }

    /// All who wait are listed once each, by number.
    pub proof fn law_all_waiting(self)
        requires
            self.valid(),
        ensures
            exists|ids: Seq<u32>|
                {
                    &&& #[trigger] self.lists(ids)
                    &&& self.all_waiting() == ids.map_values(|id: u32| self.regs[id].0)
                },
    {
        self.lemma_ids_upto(self.id as nat);
        assert(self.lists(self.ids_upto(self.id as nat)));
    }

    /// Nobody is passed over or told twice when all who wait are told, and
    /// they are told in the order of their numbers: the i-th one told waits
    /// under the i-th of the numbers in use.
    pub proof fn law_everybody_is_told_once(self) -> (ids: Seq<u32>)
        requires
            self.valid(),
        ensures
            ids.len() == self.all_waiting().len(),
            forall|i: int|
                0 <= i < ids.len() ==> self.regs.contains_key(#[trigger] ids[i])
                    && self.all_waiting()[i] == self.regs[ids[i]].0,
            forall|k: u32| #[trigger]
                self.regs.contains_key(k) ==> exists|i: int| 0 <= i < ids.len() && ids[i] == k,
            forall|i: int, j: int| 0 <= i < j < ids.len() ==> ids[i] < ids[j],
    {
        self.lemma_ids_upto(self.id as nat);
        self.ids_upto(self.id as nat)
    }

    /// What the steps of a registry leave as it was, and what they change:
    /// giving out a number changes who waits for nobody, letting somebody wait
    /// or forgetting a number concerns that number alone, and an answer ends
    /// the wait of who gets just one, or did not take it, and of nobody else.
    pub proof fn law_steps(self, sender: S, once: bool, msg_id: u32, taken: bool)
        ensures
            RegistryView::<S>::fresh().id == 0,
            forall|k: u32| !(#[trigger] RegistryView::<S>::fresh().regs.contains_key(k)),
            self.id < u32::MAX ==> self.advanced().id == self.id + 1,
            self.advanced().regs == self.regs,
            self.with(sender, once).id == self.id,
            self.with(sender, once).regs == self.regs.insert(self.id, (sender, once)),
            self.without(msg_id).id == self.id,
            self.without(msg_id).regs == self.regs.remove(msg_id),
            self.answered(msg_id, taken).id == self.id,
            self.answered(msg_id, taken).regs.contains_key(msg_id) <==> self.regs.contains_key(
                msg_id,
            ) && taken && !self.regs[msg_id].1,
            self.answered(msg_id, taken).regs.remove(msg_id) == self.regs.remove(msg_id),
            forall|k: u32| #[trigger]
                self.answered(msg_id, taken).regs.contains_key(k) ==> self.regs.contains_key(k)
                    && self.answered(msg_id, taken).regs[k] == self.regs[k],
    {
        assert(self.answered(msg_id, taken).regs.remove(msg_id) =~= self.regs.remove(msg_id));
    }
}

/// The waiting requesters of a connection. `S` is what an answer is handed
/// to.
pub struct Registry<S> {
    id: u32,
    regs: BTreeMap<u32, (S, bool)>,
}

impl<S> View for Registry<S> {
    type V = RegistryView<S>;

    closed spec fn view(&self) -> RegistryView<S> {
        RegistryView { id: self.id, regs: self.regs@ }
    }
}

impl<S> Registry<S> {
    pub fn new() -> (r: Self)
        ensures
            r@ == RegistryView::<S>::fresh(),
            r@.valid(),
    {
        Registry { id: 0, regs: BTreeMap::new() }
    }

    /// Gives out the next number, unless all have been given out.
    pub fn next_id(&mut self) -> (res: Option<u32>)
        requires
            old(self)@.valid(),
        ensures
            final(self)@.valid(),
            match res {
                None => old(self)@.id == u32::MAX && final(self)@ == old(self)@,
                Some(id) => {
                    &&& old(self)@.id < u32::MAX
                    &&& id == old(self)@.id + 1
                    &&& final(self)@ == old(self)@.advanced()
                },
            },
    {
        if self.id == u32::MAX {
            return None;
        }
        self.id = self.id + 1;
        Some(self.id)
    }

    /// Lets `sender` wait under the last number given out.
    pub fn register(&mut self, sender: S, once: bool)
        requires
            old(self)@.valid(),
            old(self)@.id >= 1,
        ensures
            final(self)@.valid(),
            final(self)@ == old(self)@.with(sender, once),
    {
        broadcast use vstd::std_specs::btree::group_btree_axioms;

        let id = self.id;
        let _ = self.regs.insert(id, (sender, once));
    }

    /// Forgets `msg_id`. Tells whether anybody waited under it.
    pub fn remove(&mut self, msg_id: u32) -> (known: bool)
        requires
            old(self)@.valid(),
        ensures
            final(self)@.valid(),
            known == old(self)@.regs.contains_key(msg_id),
            final(self)@ == old(self)@.without(msg_id),
    {
        broadcast use vstd::std_specs::btree::group_btree_axioms;

        self.regs.remove(&msg_id).is_some()
    }

    /// Hands an answer on to whoever waits under `msg_id`, by `deliver`,
    /// which tells whether it was taken.
    pub fn answer<D: FnOnce(&S, Result<Vec<u8>, Error>) -> bool>(
        &mut self,
        msg_id: u32,
        data: Result<Vec<u8>, Error>,
        deliver: D,
    )
        requires
            old(self)@.valid(),
            old(self)@.regs.contains_key(msg_id) ==> call_requires(
                deliver,
                (&old(self)@.regs[msg_id].0, data),
            ),
        ensures
            final(self)@.valid(),
            !old(self)@.regs.contains_key(msg_id) ==> final(self)@ == old(self)@,
            old(self)@.regs.contains_key(msg_id) ==> exists|taken: bool|
                {
                    &&& #[trigger] call_ensures(
                        deliver,
                        (&old(self)@.regs[msg_id].0, data),
                        taken,
                    )
                    &&& final(self)@ == old(self)@.answered(msg_id, taken)
                },
    {
        broadcast use vstd::std_specs::btree::group_btree_axioms;

        let mut drop_it = false;
        if let Some(reg) = self.regs.get(&msg_id) {
            let taken = deliver(&reg.0, data);
            drop_it = !taken || reg.1;
        }
        if drop_it {
            let _ = self.regs.remove(&msg_id);
        }
    }

    /// Forgets everybody and starts numbering over. Gives those who waited,
    /// by number.
    pub fn close(&mut self) -> (closed: Vec<S>)
        requires
            old(self)@.valid(),
        ensures
            final(self)@.valid(),
            final(self)@ == RegistryView::<S>::fresh(),
            closed@ == old(self)@.all_waiting(),
    {
        broadcast use vstd::std_specs::btree::group_btree_axioms;

        let ghost before = self@;
        let ids = self.ids();
        let mut closed: Vec<S> = Vec::new();
        let mut i: usize = 0;
        while i < ids.len()
            invariant
                0 <= i <= ids@.len(),
                before.valid(),
                before.lists(ids@),
                self@.id == before.id,
                forall|k: u32|
                    self@.regs.contains_key(k) <==> exists|j: int|
                        i <= j < ids@.len() && #[trigger] ids@[j] == k,
                forall|k: u32| #[trigger]
                    self@.regs.contains_key(k) ==> before.regs.contains_key(k)
                        && self@.regs[k] == before.regs[k],
                closed@.len() == i,
                forall|j: int| 0 <= j < i ==> #[trigger] closed@[j] == before.regs[ids@[j]].0,
            decreases ids@.len() - i,
        {
            let id = ids[i];
            proof {
                assert(self@.regs.contains_key(ids@[i as int]));
            }
            match self.regs.remove(&id) {
                Some(reg) => {
                    closed.push(reg.0);
                },
                None => {
                    proof {
                        assert(false);
                    }
                },
            }
            i += 1;
        }
        self.id = 0;
        self.regs = BTreeMap::new();
        proof {
            lemma_waiting_by_ids(before, ids@, ids@.len(), before.id as nat);
            assert(closed@ =~= before.all_waiting());
        }
        closed
    }

    /// The numbers under which somebody waits, in order.
    fn ids(&self) -> (ids: Vec<u32>)
        ensures
            self@.lists(ids@),
    {
        broadcast use vstd::std_specs::btree::group_btree_axioms;

        let mut ids: Vec<u32> = Vec::new();
        let entries = self.regs.iter();
        let ghost listed = vstd::std_specs::iter::IteratorSpec::remaining(&entries);
        let ghost keys = listed.map_values(|kv: (&u32, &(S, bool))| *kv.0);
        for kv in it: entries
            invariant
                it.seq() == listed,
                ids@.len() == it.index(),
                forall|j: int| 0 <= j < ids@.len() ==> ids@[j] == *(#[trigger] it.seq()[j]).0,
        {
            ids.push(*kv.0);
        }
        proof {
            assert(ids@ =~= keys);
            assert(vstd::std_specs::btree::increasing_seq(keys));
            assert forall|k: u32| #[trigger] self@.regs.contains_key(k) implies ids@.contains(k) by {
                assert(listed.contains((&k, &self.regs@[k])));
                let i = choose|i: int|
                    0 <= i < listed.len() && listed[i] == (&k, &self.regs@[k]);
                assert(ids@[i] == k);
            }
            assert forall|i: int, j: int| 0 <= i < j < ids@.len() implies ids@[i] < ids@[j] by {
                assert(vstd::std_specs::cmp::OrdSpec::cmp_spec(&keys[i], &keys[j]) is Less);
            }
            assert forall|i: int| 0 <= i < ids@.len() implies self@.regs.contains_key(
                #[trigger] ids@[i],
            ) by {
                assert(self.regs@.contains_key(*listed[i].0));
            }
        }
        ids
    }
}

/// Walking the listed numbers visits those who wait in the same order as
/// counting up does.
proof fn lemma_waiting_by_ids<S>(v: RegistryView<S>, ids: Seq<u32>, m: nat, n: nat)
    requires
        v.valid(),
        v.lists(ids),
        m <= ids.len(),
        n <= v.id,
        forall|i: int| 0 <= i < m ==> #[trigger] ids[i] <= n,
        forall|i: int| m <= i < ids.len() ==> #[trigger] ids[i] > n,
    ensures
        v.waiting(n) == Seq::new(m, |i: int| v.regs[ids[i]].0),
    decreases n,
{
    let listed = Seq::new(m, |i: int| v.regs[ids[i]].0);
    if n == 0 {
        if m > 0 {
            assert(v.regs.contains_key(ids[0]));
        }
        assert(listed =~= Seq::empty());
    } else if v.regs.contains_key(n as u32) {
        assert(ids.contains(n as u32));
        let at = choose|i: int| 0 <= i < ids.len() && ids[i] == n as u32;
        assert(at < m);
        assert(ids[m - 1] <= n);
        assert(at == m - 1);
        lemma_waiting_by_ids(v, ids, (m - 1) as nat, (n - 1) as nat);
        assert(listed =~= Seq::new((m - 1) as nat, |i: int| v.regs[ids[i]].0).push(
            v.regs[n as u32].0,
        ));
    } else {
        assert forall|i: int| 0 <= i < m implies #[trigger] ids[i] <= n - 1 by {
            assert(v.regs.contains_key(ids[i]));
        }
        lemma_waiting_by_ids(v, ids, m, (n - 1) as nat);
    }
}

} // verus!
