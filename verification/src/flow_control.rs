//! Flow-control identifiers and the process-wide registry that grants
//! flow membership.
//!
//! A [`FlowControlId`] groups one producer address (the only entity
//! allowed to originate traffic of that flow) with the set of addresses
//! registered as legitimate consumers of its output.  Registration is
//! the only way to grant membership; identifiers are issued fresh, never
//! reused, by the registry itself.  The registry is explicitly
//! constructed process-scoped state, passed by reference into every
//! component that needs it.

use vstd::prelude::*;

use crate::address::Address;
use crate::address::AddressView;

verus! {

/// An opaque identifier grouping a producer with its authorized
/// consumers.  Fresh per secure-channel or connection instance.
#[derive(Clone, Copy, Debug, PartialEq, Eq, Hash, Structural)]
pub struct FlowControlId {
    id: u64,
}

impl View for FlowControlId {
    type V = u64;

    closed spec fn view(&self) -> u64 {
        self.id
    }
}

/// The process-wide flow-control registry: which address produces into
/// each flow, which addresses consume from it, and which listener
/// (spawner) flows exist.  Insert-only.
pub struct FlowControls {
    producers: Vec<(Address, FlowControlId)>,
    consumers: Vec<(Address, FlowControlId)>,
    spawners: Vec<(Address, FlowControlId)>,
    next_id: u64,
}

/// The entries of a registration table, as address and identifier models.
pub open spec fn pairs_view(s: Seq<(Address, FlowControlId)>) -> Seq<(AddressView, u64)> {
    Seq::new(s.len(), |i: int| (s[i].0@, s[i].1@))
}

/// The identifier that a table maps `a` to, front entry winning.
pub open spec fn table_lookup(s: Seq<(AddressView, u64)>, a: AddressView) -> Option<u64>
    decreases s.len(),
{
    if s.len() == 0 {
        None
    } else if s[0].0 == a {
        Some(s[0].1)
    } else {
        table_lookup(s.drop_first(), a)
    }
}

/// True when a table holds the entry `(a, id)`.
pub open spec fn table_holds(s: Seq<(AddressView, u64)>, a: AddressView, id: u64) -> bool {
    exists|k: int| 0 <= k < s.len() && #[trigger] s[k] == (a, id)
}

proof fn lemma_table_lookup_at(s: Seq<(AddressView, u64)>, a: AddressView, j: int)
    requires
        0 <= j < s.len(),
        s[j].0 == a,
        forall|k: int| 0 <= k < j ==> (#[trigger] s[k]).0 != a,
    ensures
        table_lookup(s, a) == Some(s[j].1),
    decreases s.len(),
{
    if j > 0 {
        let t = s.drop_first();
        assert(forall|k: int| 0 <= k < j - 1 ==> (#[trigger] t[k]) == s[k + 1]);
        lemma_table_lookup_at(t, a, j - 1);
    }
}

proof fn lemma_table_lookup_none(s: Seq<(AddressView, u64)>, a: AddressView)
    requires
        forall|k: int| 0 <= k < s.len() ==> (#[trigger] s[k]).0 != a,
    ensures
        table_lookup(s, a) is None,
    decreases s.len(),
{
    if s.len() > 0 {
        let t = s.drop_first();
        assert(forall|k: int| 0 <= k < t.len() ==> (#[trigger] t[k]) == s[k + 1]);
        lemma_table_lookup_none(t, a);
    }
}

proof fn lemma_table_lookup_push(s: Seq<(AddressView, u64)>, p: (AddressView, u64), a: AddressView)
    ensures
        table_lookup(s.push(p), a) == if table_lookup(s, a) is Some {
            table_lookup(s, a)
        } else if p.0 == a {
            Some(p.1)
        } else {
            None
        },
    decreases s.len(),
{
    if s.len() == 0 {
        assert(s.push(p)[0] == p);
        assert(s.push(p).drop_first() =~= Seq::<(AddressView, u64)>::empty());
        assert(table_lookup(Seq::<(AddressView, u64)>::empty(), a) is None);
        if p.0 == a {
            assert(table_lookup(s.push(p), a) == Some(p.1));
        } else {
            assert(table_lookup(s.push(p), a) == table_lookup(s.push(p).drop_first(), a));
        }
    } else {
        let t = s.drop_first();
        lemma_table_lookup_push(t, p, a);
        assert(s.push(p)[0] == s[0]);
        assert(s.push(p).drop_first() =~= t.push(p));
        if s[0].0 == a {
            assert(table_lookup(s.push(p), a) == Some(s[0].1));
            assert(table_lookup(s, a) == Some(s[0].1));
        } else {
            assert(table_lookup(s.push(p), a) == table_lookup(t.push(p), a));
            assert(table_lookup(s, a) == table_lookup(t, a));
        }
    }
}

fn table_find(s: &Vec<(Address, FlowControlId)>, a: &Address) -> (r: Option<FlowControlId>)
    ensures
        match r {
            Some(id) => table_lookup(pairs_view(s@), a@) == Some(id@),
            None => table_lookup(pairs_view(s@), a@) is None,
        },
{
    let n = s.len();
    let mut i: usize = 0;
    while i < n
        invariant
            0 <= i <= n,
            n == s@.len(),
            forall|k: int| 0 <= k < i ==> (#[trigger] pairs_view(s@)[k]).0 != a@,
        decreases n - i,
    {
        if &s[i].0 == a {
            proof {
                assert(pairs_view(s@)[i as int].0 == a@);
                lemma_table_lookup_at(pairs_view(s@), a@, i as int);
            }
            return Some(s[i].1);
        }
        proof {
            assert(pairs_view(s@)[i as int].0 == s@[i as int].0@);
        }
        i += 1;
    }
    proof {
        lemma_table_lookup_none(pairs_view(s@), a@);
    }
    None
}

impl FlowControls {
    /// How many identifiers this registry has issued.
    pub closed spec fn issued(&self) -> u64 {
        self.next_id
    }

    /// The flow that `a` is registered to produce into, if any.
    pub closed spec fn producer_of_addr(&self, a: AddressView) -> Option<u64> {
        table_lookup(pairs_view(self.producers@), a)
    }

    /// The flow that the listener at `a` spawns channels into, if any.
    pub closed spec fn spawner_of_addr(&self, a: AddressView) -> Option<u64> {
        table_lookup(pairs_view(self.spawners@), a)
    }

    /// True when `a` is a registered consumer of flow `id`.
    pub closed spec fn consumer_registered(&self, a: AddressView, id: u64) -> bool {
        table_holds(pairs_view(self.consumers@), a, id)
    }

    /// The registrations of `a` and `b` agree.
    pub open spec fn same_registrations(a: &Self, b: &Self) -> bool {
        &&& forall|x: AddressView| a.producer_of_addr(x) == b.producer_of_addr(x)
        &&& forall|x: AddressView| a.spawner_of_addr(x) == b.spawner_of_addr(x)
        &&& forall|x: AddressView, id: u64| a.consumer_registered(x, id) == b.consumer_registered(x, id)
    }

    /// An empty registry that has issued no identifier yet.
    pub fn new() -> (r: Self)
        ensures
            forall|a: AddressView| r.producer_of_addr(a) is None,
            forall|a: AddressView| r.spawner_of_addr(a) is None,
            forall|a: AddressView, id: u64| !r.consumer_registered(a, id),
            r.issued() == 0,
    {
        let r = FlowControls { producers: Vec::new(), consumers: Vec::new(), spawners: Vec::new(), next_id: 0 };
        proof {
            assert(pairs_view(r.producers@) =~= Seq::<(AddressView, u64)>::empty());
            assert(pairs_view(r.spawners@) =~= Seq::<(AddressView, u64)>::empty());
            assert(pairs_view(r.consumers@) =~= Seq::<(AddressView, u64)>::empty());
        }
        r
    }

    /// Issue a fresh identifier: one this registry has never handed out,
    /// so never equal to an identifier issued before or after.
    pub fn generate_flow_control_id(&mut self) -> (r: FlowControlId)
        requires
            old(self).issued() < u64::MAX,
        ensures
            r@ == old(self).issued(),
            final(self).issued() == old(self).issued() + 1,
            Self::same_registrations(old(self), final(self)),
    {
        let id = FlowControlId { id: self.next_id };
        self.next_id += 1;
        id
    }

    /// Register `address` as the one producer of flow `flow_control_id`,
    /// recording the spawner it came from, if any, and granting each of
    /// `additional_consumers` membership in the flow.
    pub fn add_producer(
        &mut self,
        address: &Address,
        flow_control_id: &FlowControlId,
        spawner: Option<&FlowControlId>,
        additional_consumers: &Vec<Address>,
    )
        ensures
            old(self).producer_of_addr(address@) is None
                ==> final(self).producer_of_addr(address@) == Some(flow_control_id@),
            old(self).producer_of_addr(address@) is Some
                ==> final(self).producer_of_addr(address@) == old(self).producer_of_addr(address@),
            forall|x: AddressView| x != address@
                ==> final(self).producer_of_addr(x) == old(self).producer_of_addr(x),
            spawner is None ==> forall|x: AddressView|
                final(self).spawner_of_addr(x) == old(self).spawner_of_addr(x),
            spawner is Some ==> {
                &&& old(self).spawner_of_addr(address@) is None
                    ==> final(self).spawner_of_addr(address@) == Some(spawner->Some_0@)
                &&& old(self).spawner_of_addr(address@) is Some
                    ==> final(self).spawner_of_addr(address@) == old(self).spawner_of_addr(address@)
                &&& forall|x: AddressView| x != address@
                    ==> final(self).spawner_of_addr(x) == old(self).spawner_of_addr(x)
            },
            forall|x: AddressView, id: u64| old(self).consumer_registered(x, id)
                ==> final(self).consumer_registered(x, id),
            forall|k: int| 0 <= k < additional_consumers@.len()
                ==> final(self).consumer_registered((#[trigger] additional_consumers@[k])@, flow_control_id@),
            forall|x: AddressView, id: u64| final(self).consumer_registered(x, id)
                ==> old(self).consumer_registered(x, id)
                    || (id == flow_control_id@
                        && exists|k: int| 0 <= k < additional_consumers@.len()
                            && (#[trigger] additional_consumers@[k])@ == x),
            final(self).issued() == old(self).issued(),
    {
        let ghost prods0 = pairs_view(self.producers@);
        self.producers.push((address.clone(), *flow_control_id));
        proof {
            assert(pairs_view(self.producers@) =~= prods0.push((address@, flow_control_id@)));
            lemma_table_lookup_push(prods0, (address@, flow_control_id@), address@);
            assert forall|x: AddressView| x != address@
                implies table_lookup(pairs_view(self.producers@), x) == table_lookup(prods0, x) by {
                lemma_table_lookup_push(prods0, (address@, flow_control_id@), x);
            }
        }
        match spawner {
            Some(spawner_id) => {
                let ghost spwn0 = pairs_view(self.spawners@);
                self.spawners.push((address.clone(), *spawner_id));
                proof {
                    assert(pairs_view(self.spawners@) =~= spwn0.push((address@, spawner_id@)));
                    lemma_table_lookup_push(spwn0, (address@, spawner_id@), address@);
                    assert forall|x: AddressView| x != address@
                        implies table_lookup(pairs_view(self.spawners@), x) == table_lookup(spwn0, x) by {
                        lemma_table_lookup_push(spwn0, (address@, spawner_id@), x);
                    }
                }
            },
            None => {},
        }
        let ghost cons0 = pairs_view(self.consumers@);
        let ghost prods1 = pairs_view(self.producers@);
        let ghost spwn1 = pairs_view(self.spawners@);
        let ghost nid = self.next_id;
        let n = additional_consumers.len();
        let mut i: usize = 0;
        while i < n
            invariant
                0 <= i <= n,
                n == additional_consumers@.len(),
                pairs_view(self.producers@) == prods1,
                pairs_view(self.spawners@) == spwn1,
                self.next_id == nid,
                forall|x: AddressView, id: u64| table_holds(cons0, x, id)
                    ==> table_holds(pairs_view(self.consumers@), x, id),
                forall|k: int| 0 <= k < i
                    ==> table_holds(pairs_view(self.consumers@), (#[trigger] additional_consumers@[k])@, flow_control_id@),
                forall|x: AddressView, id: u64| table_holds(pairs_view(self.consumers@), x, id)
                    ==> table_holds(cons0, x, id)
                        || (id == flow_control_id@
                            && exists|k: int| 0 <= k < additional_consumers@.len()
                                && (#[trigger] additional_consumers@[k])@ == x),
            decreases n - i,
        {
            let ghost cprev = pairs_view(self.consumers@);
            self.consumers.push((additional_consumers[i].clone(), *flow_control_id));
            proof {
                assert(pairs_view(self.consumers@) =~= cprev.push((additional_consumers@[i as int]@, flow_control_id@)));
                lemma_table_holds_push(cprev, (additional_consumers@[i as int]@, flow_control_id@));
            }
            i += 1;
        }
    }

    /// Grant `address` membership in flow `flow_control_id`.
    pub fn add_consumer(&mut self, address: &Address, flow_control_id: &FlowControlId)
        ensures
            final(self).consumer_registered(address@, flow_control_id@),
            forall|x: AddressView, id: u64| old(self).consumer_registered(x, id)
                ==> final(self).consumer_registered(x, id),
            forall|x: AddressView, id: u64| final(self).consumer_registered(x, id)
                ==> old(self).consumer_registered(x, id) || (x == address@ && id == flow_control_id@),
            forall|x: AddressView| final(self).producer_of_addr(x) == old(self).producer_of_addr(x),
            forall|x: AddressView| final(self).spawner_of_addr(x) == old(self).spawner_of_addr(x),
            final(self).issued() == old(self).issued(),
    {
        let ghost cons0 = pairs_view(self.consumers@);
        self.consumers.push((address.clone(), *flow_control_id));
        proof {
            assert(pairs_view(self.consumers@) =~= cons0.push((address@, flow_control_id@)));
            lemma_table_holds_push(cons0, (address@, flow_control_id@));
        }
    }

    /// Register the listener at `address` as a spawner for flow
    /// `flow_control_id`.
    pub fn add_spawner(&mut self, address: &Address, flow_control_id: &FlowControlId)
        ensures
            old(self).spawner_of_addr(address@) is None
                ==> final(self).spawner_of_addr(address@) == Some(flow_control_id@),
            old(self).spawner_of_addr(address@) is Some
                ==> final(self).spawner_of_addr(address@) == old(self).spawner_of_addr(address@),
            forall|x: AddressView| x != address@
                ==> final(self).spawner_of_addr(x) == old(self).spawner_of_addr(x),
            forall|x: AddressView| final(self).producer_of_addr(x) == old(self).producer_of_addr(x),
            forall|x: AddressView, id: u64| final(self).consumer_registered(x, id)
                == old(self).consumer_registered(x, id),
            final(self).issued() == old(self).issued(),
    {
        let ghost spwn0 = pairs_view(self.spawners@);
        self.spawners.push((address.clone(), *flow_control_id));
        proof {
            assert(pairs_view(self.spawners@) =~= spwn0.push((address@, flow_control_id@)));
            lemma_table_lookup_push(spwn0, (address@, flow_control_id@), address@);
            assert forall|x: AddressView| x != address@
                implies table_lookup(pairs_view(self.spawners@), x) == table_lookup(spwn0, x) by {
                lemma_table_lookup_push(spwn0, (address@, flow_control_id@), x);
            }
        }
    }

    /// The flow that `address` produces into, if it is a producer.
    pub fn get_flow_control_with_producer(&self, address: &Address) -> (r: Option<FlowControlId>)
        ensures
            match r {
                Some(id) => self.producer_of_addr(address@) == Some(id@),
                None => self.producer_of_addr(address@) is None,
            },
    {
        table_find(&self.producers, address)
    }

    /// The flow that the listener at `address` spawns into, if any.
    pub fn get_flow_control_with_spawner(&self, address: &Address) -> (r: Option<FlowControlId>)
        ensures
            match r {
                Some(id) => self.spawner_of_addr(address@) == Some(id@),
                None => self.spawner_of_addr(address@) is None,
            },
    {
        table_find(&self.spawners, address)
    }

    /// True when `address` is a registered consumer of `flow_control_id`.
    pub fn is_consumer(&self, address: &Address, flow_control_id: &FlowControlId) -> (r: bool)
        ensures
            r == self.consumer_registered(address@, flow_control_id@),
    {
        let n = self.consumers.len();
        let mut i: usize = 0;
        while i < n
            invariant
                0 <= i <= n,
                n == self.consumers@.len(),
                forall|k: int| 0 <= k < i
                    ==> (#[trigger] pairs_view(self.consumers@)[k]) != (address@, flow_control_id@),
            decreases n - i,
        {
            if &self.consumers[i].0 == address && self.consumers[i].1 == *flow_control_id {
                proof {
                    assert(pairs_view(self.consumers@)[i as int] == (address@, flow_control_id@));
                }
                return true;
            }
            proof {
                assert(pairs_view(self.consumers@)[i as int] == (self.consumers@[i as int].0@, self.consumers@[i as int].1@));
            }
            i += 1;
        }
        false
    }
}

proof fn lemma_table_holds_push(s: Seq<(AddressView, u64)>, p: (AddressView, u64))
    ensures
        table_holds(s.push(p), p.0, p.1),
        forall|x: AddressView, id: u64| table_holds(s, x, id) ==> table_holds(s.push(p), x, id),
        forall|x: AddressView, id: u64| table_holds(s.push(p), x, id)
            ==> table_holds(s, x, id) || (x == p.0 && id == p.1),
{
    assert(s.push(p)[s.len() as int] == p);
    assert forall|x: AddressView, id: u64| table_holds(s, x, id) implies table_holds(s.push(p), x, id) by {
        let k = choose|k: int| 0 <= k < s.len() && #[trigger] s[k] == (x, id);
        assert(s.push(p)[k] == (x, id));
    }
    assert forall|x: AddressView, id: u64| table_holds(s.push(p), x, id)
        implies table_holds(s, x, id) || (x == p.0 && id == p.1) by {
        let k = choose|k: int| 0 <= k < s.push(p).len() && #[trigger] s.push(p)[k] == (x, id);
        if k < s.len() {
            assert(s[k] == (x, id));
        }
    }
}

} // verus!
