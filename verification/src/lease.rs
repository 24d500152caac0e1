//! The token-lease issuer service: its registry on the node, and the
//! queue of active tokens it watches, earliest expiry first.

use vstd::prelude::*;
use vstd::string::StringExecFns;

use crate::address::Address;
use crate::address::AddressView;
use crate::flow_control::FlowControls;

verus! {

/// Starting or using a lease issuer failed.
#[derive(Clone, Copy, Debug, PartialEq, Eq, Structural)]
pub enum LeaseError {
    /// The secure-channel listener's flow control could not be found, so
    /// the service cannot be reached securely.
    NoListenerFlowControl,
}

/// A lease token: its identifier and when it expires.
pub struct LeaseToken {
    pub id: String,
    pub expires_at: i64,
}

/// Mathematical model of a [`LeaseToken`].
pub struct LeaseTokenView {
    pub id: Seq<char>,
    pub expires_at: i64,
}

impl View for LeaseToken {
    type V = LeaseTokenView;

    closed spec fn view(&self) -> LeaseTokenView {
        LeaseTokenView { id: self.id@, expires_at: self.expires_at }
    }
}

impl LeaseToken {
    /// A token expiring at the given moment.
    pub fn new(id: &str, expires_at: i64) -> (r: Self)
        ensures
            r@.id == id@,
            r@.expires_at == expires_at,
    {
        LeaseToken { id: String::from_str(id), expires_at }
    }
}

/// True when the tokens are in order of expiry, earliest first.
pub open spec fn sorted_by_expiry(s: Seq<LeaseTokenView>) -> bool {
    forall|i: int, j: int| 0 <= i < j < s.len()
        ==> (#[trigger] s[i]).expires_at <= (#[trigger] s[j]).expires_at
}

/// The active tokens of a lease issuer, ordered by expiration time,
/// earliest first.
pub struct ActiveTokens {
    tokens: Vec<LeaseToken>,
}

impl View for ActiveTokens {
    type V = Seq<LeaseTokenView>;

    closed spec fn view(&self) -> Seq<LeaseTokenView> {
        Seq::new(self.tokens@.len(), |i: int| self.tokens@[i]@)
    }
}

impl ActiveTokens {
    /// An empty queue, trivially in order.
    pub fn new() -> (r: Self)
        ensures
            r@ == Seq::<LeaseTokenView>::empty(),
            sorted_by_expiry(r@),
    {
        let r = ActiveTokens { tokens: Vec::new() };
        proof {
            assert(r@ =~= Seq::<LeaseTokenView>::empty());
        }
        r
    }

    /// How many tokens are active.
    pub fn len(&self) -> (r: usize)
        ensures
            r == self@.len(),
    {
        self.tokens.len()
    }

    /// Add a token, keeping the queue in order of expiry: it lands
    /// before the first token expiring later, after everything expiring
    /// no later than it.
    pub fn push(&mut self, token: LeaseToken)
        requires
            sorted_by_expiry(old(self)@),
        ensures
            sorted_by_expiry(final(self)@),
            final(self)@.len() == old(self)@.len() + 1,
            exists|k: int| {
                &&& 0 <= k <= old(self)@.len()
                &&& #[trigger] final(self)@[k] == token@
                &&& final(self)@.subrange(0, k) == old(self)@.subrange(0, k)
                &&& final(self)@.subrange(k + 1, final(self)@.len() as int)
                    == old(self)@.subrange(k, old(self)@.len() as int)
            },
    {
        let n = self.tokens.len();
        let mut k: usize = 0;
        while k < n
            invariant_except_break
                k <= n,
            invariant
                0 <= k <= n,
                n == self@.len(),
                forall|q: int| 0 <= q < k ==> (#[trigger] self@[q]).expires_at <= token@.expires_at,
            ensures
                0 <= k <= n,
                forall|q: int| 0 <= q < k ==> (#[trigger] self@[q]).expires_at <= token@.expires_at,
                k < n ==> self@[k as int].expires_at > token@.expires_at,
            decreases n - k,
        {
            if self.tokens[k].expires_at > token.expires_at {
                break;
            }
            k += 1;
        }
        let ghost before = self@;
        let ghost kk = k as int;
        self.tokens.insert(k, token);
        proof {
            assert(self@[kk] == token@);
            assert(self@.subrange(0, kk) =~= before.subrange(0, kk));
            assert(self@.subrange(kk + 1, self@.len() as int) =~= before.subrange(kk, before.len() as int));
            assert forall|i: int, j: int| 0 <= i < j < self@.len()
                implies (#[trigger] self@[i]).expires_at <= (#[trigger] self@[j]).expires_at by {
                if i < kk {
                    assert(self@[i] == before[i]);
                }
                if j < kk {
                    assert(self@[j] == before[j]);
                }
                if i > kk {
                    assert(self@[i] == before[i - 1]);
                }
                if j > kk {
                    assert(self@[j] == before[j - 1]);
                }
            }
        }
    }

    /// Remove and return the token expiring soonest: the front of the
    /// queue, expiring no later than anything still in it.
    pub fn pop(&mut self) -> (r: Option<LeaseToken>)
        requires
            sorted_by_expiry(old(self)@),
        ensures
            sorted_by_expiry(final(self)@),
            old(self)@.len() == 0 ==> r is None && final(self)@ == old(self)@,
            old(self)@.len() > 0 ==> (r matches Some(t) && t@ == old(self)@[0]
                && final(self)@ == old(self)@.subrange(1, old(self)@.len() as int)
                && forall|q: int| 0 <= q < old(self)@.len()
                    ==> t@.expires_at <= (#[trigger] old(self)@[q]).expires_at),
    {
        if self.tokens.len() == 0 {
            return None;
        }
        let ghost before = self@;
        let t = self.tokens.remove(0);
        proof {
            assert(t@ == before[0]);
            assert(self@ =~= before.subrange(1, before.len() as int));
        }
        Some(t)
    }
}

/// The lease issuer services running on one node, by address.
pub struct InfluxDbServices {
    services: Vec<Address>,
}

impl InfluxDbServices {
    /// The addresses of the running services.
    pub closed spec fn services_view(&self) -> Seq<AddressView> {
        Seq::new(self.services@.len(), |i: int| self.services@[i]@)
    }

    /// True when a service runs at `a`.
    pub open spec fn has_service(&self, a: AddressView) -> bool {
        exists|k: int| 0 <= k < self.services_view().len() && #[trigger] self.services_view()[k] == a
    }

    /// A node with no lease issuer running.
    pub fn new() -> (r: Self)
        ensures
            r.services_view() == Seq::<AddressView>::empty(),
    {
        let r = InfluxDbServices { services: Vec::new() };
        proof {
            assert(r.services_view() =~= Seq::<AddressView>::empty());
        }
        r
    }

    /// Start a lease issuer at `address`: it must be reachable through
    /// the secure-channel listener's flow, so the listener must own a
    /// flow control; the service is then registered as a consumer of
    /// that flow and recorded.  The issuer's own worker is the runner's
    /// to start.
    pub fn start_influxdb_lease_issuer_service(
        &mut self,
        flow_controls: &mut FlowControls,
        listener_address: &Address,
        address: &Address,
    ) -> (r: Result<(), LeaseError>)
        ensures
            old(flow_controls).spawner_of_addr(listener_address@) is None ==> {
                &&& r == Result::<(), LeaseError>::Err(LeaseError::NoListenerFlowControl)
                &&& final(self).services_view() == old(self).services_view()
                &&& FlowControls::same_registrations(old(flow_controls), final(flow_controls))
            },
            old(flow_controls).spawner_of_addr(listener_address@) matches Some(id) ==> {
                &&& r is Ok
                &&& final(flow_controls).consumer_registered(address@, id)
                &&& final(self).services_view() == old(self).services_view().push(address@)
            },
    {
        let listener_flow = match flow_controls.get_flow_control_with_spawner(listener_address) {
            Some(id) => id,
            None => {
                return Err(LeaseError::NoListenerFlowControl);
            },
        };
        flow_controls.add_consumer(address, &listener_flow);
        let ghost before = self.services_view();
        self.services.push(address.clone());
        proof {
            assert(self.services_view() =~= before.push(address@));
        }
        Ok(())
    }

    /// Delete the lease issuer at `address`, if one is recorded: hands
    /// back whether there was one to stop, leaving every other service
    /// in place.
    pub fn delete_influxdb_lease_issuer_service(&mut self, address: &Address) -> (r: Option<()>)
        ensures
            r is Some <==> old(self).has_service(address@),
            !old(self).has_service(address@) ==> final(self).services_view() == old(self).services_view(),
            old(self).has_service(address@) ==> {
                &&& final(self).services_view().len() == old(self).services_view().len() - 1
                &&& exists|k: int| 0 <= k < old(self).services_view().len()
                    && #[trigger] old(self).services_view()[k] == address@
                    && final(self).services_view() == old(self).services_view().remove(k)
            },
    {
        let n = self.services.len();
        let mut k: usize = 0;
        while k < n
            invariant
                0 <= k <= n,
                n == self.services_view().len(),
                self.services_view() == old(self).services_view(),
                forall|q: int| 0 <= q < k ==> #[trigger] self.services_view()[q] != address@,
            decreases n - k,
        {
            if &self.services[k] == address {
                let ghost before = self.services_view();
                proof {
                    assert(before[k as int] == address@);
                }
                let _ = self.services.remove(k);
                proof {
                    assert(self.services_view() =~= before.remove(k as int));
                }
                return Some(());
            }
            proof {
                assert(self.services_view()[k as int] == self.services@[k as int]@);
            }
            k += 1;
        }
        None
    }
}

} // verus!
