//! Relays: remotely hosted forwarding addresses kept alive through a
//! session, and the node's registry of them.
//!
//! A relay is created under an alias, at most once: a second creation
//! under the same alias fails with `AlreadyExists` and leaves the first
//! relay's session untouched.  Deleting or showing a missing alias
//! fails with `NotFound`.  The connection work itself — reaching the
//! remote node, registering the forwarding address — is the runner's
//! business; the replacer here decides what to do and records what came
//! back, holding only a weak claim on its owner: once the owner is
//! gone, every operation is `Cancelled`.

use vstd::prelude::*;
use vstd::string::StrSliceExecFns;
use vstd::string::StringExecFns;

use crate::address::Address;
use crate::address::AddressView;
use crate::route::Route;
use crate::session::ConnectionStatus;
use crate::session::ReplacerError;
use crate::session::ReplacerOutcome;
use crate::session::Session;
use crate::session::SessionView;

verus! {

/// Failure of a registry operation.
#[derive(Clone, Copy, Debug, PartialEq, Eq, Structural)]
pub enum RegistryError {
    /// A relay with this alias already exists.
    AlreadyExists,
    /// No relay with this alias exists.
    NotFound,
}

/// What the remote node reports after allocating a forwarding address.
pub struct RemoteRelayInfo {
    pub worker_address: Address,
    pub remote_address: String,
}

/// A relay as management operations report it.
pub struct RelayInfo {
    destination_address: String,
    alias: String,
    connection_status: ConnectionStatus,
    remote_address: Option<String>,
}

/// Mathematical model of a [`RelayInfo`].
pub struct RelayInfoView {
    pub destination: Seq<char>,
    pub alias: Seq<char>,
    pub status: ConnectionStatus,
    pub remote_address: Option<Seq<char>>,
}

impl View for RelayInfo {
    type V = RelayInfoView;

    closed spec fn view(&self) -> RelayInfoView {
        RelayInfoView {
            destination: self.destination_address@,
            alias: self.alias@,
            status: self.connection_status,
            remote_address: match self.remote_address {
                Some(ref s) => Some(s@),
                None => None,
            },
        }
    }
}

impl RelayInfo {
    /// A report for a relay without remote metadata yet.
    pub fn new(destination_address: &str, alias: &str, connection_status: ConnectionStatus) -> (r: Self)
        ensures
            r@ == (RelayInfoView {
                destination: destination_address@,
                alias: alias@,
                status: connection_status,
                remote_address: None::<Seq<char>>,
            }),
    {
        RelayInfo {
            destination_address: String::from_str(destination_address),
            alias: String::from_str(alias),
            connection_status,
            remote_address: None,
        }
    }

    /// The same report, carrying what the remote node answered.
    pub fn with(self, remote: &RemoteRelayInfo) -> (r: Self)
        ensures
            r@ == (RelayInfoView { remote_address: Some(remote.remote_address@), ..self@ }),
    {
        RelayInfo {
            destination_address: self.destination_address,
            alias: self.alias,
            connection_status: self.connection_status,
            remote_address: Some(remote.remote_address.clone()),
        }
    }

    /// The alias this relay is registered under.
    pub fn alias(&self) -> (r: &str)
        ensures
            r@ == self@.alias,
    {
        self.alias.as_str()
    }

    /// The connection status of the relay's session.
    pub fn connection_status(&self) -> (r: ConnectionStatus)
        ensures
            r == self@.status,
    {
        self.connection_status
    }

    /// The forwarding address the remote node allocated, once known.
    pub fn remote_address(&self) -> (r: Option<&str>)
        ensures
            match r {
                Some(s) => self@.remote_address == Some(s@),
                None => self@.remote_address is None,
            },
    {
        match &self.remote_address {
            Some(s) => Some(s.as_str()),
            None => None,
        }
    }
}

/// One registry entry: the relay's coordinates and the session keeping
/// it alive.
pub struct RegistryRelayInfo {
    destination_address: String,
    alias: String,
    session: Session,
}

/// Mathematical model of a [`RegistryRelayInfo`].
pub struct RegistryRelayInfoView {
    pub destination: Seq<char>,
    pub alias: Seq<char>,
    pub session: SessionView,
}

impl View for RegistryRelayInfo {
    type V = RegistryRelayInfoView;

    closed spec fn view(&self) -> RegistryRelayInfoView {
        RegistryRelayInfoView {
            destination: self.destination_address@,
            alias: self.alias@,
            session: self.session@,
        }
    }
}

/// The first entry registered under `alias`, if any.
pub open spec fn find_relay(s: Seq<RegistryRelayInfoView>, alias: Seq<char>) -> Option<int>
    decreases s.len(),
{
    if s.len() == 0 {
        None
    } else if s[0].alias == alias {
        Some(0)
    } else {
        match find_relay(s.drop_first(), alias) {
            Some(i) => Some(i + 1),
            None => None,
        }
    }
}

proof fn lemma_find_relay_at(s: Seq<RegistryRelayInfoView>, alias: Seq<char>, j: int)
    requires
        0 <= j < s.len(),
        s[j].alias == alias,
        forall|k: int| 0 <= k < j ==> (#[trigger] s[k]).alias != alias,
    ensures
        find_relay(s, alias) == Some(j),
    decreases s.len(),
{
    if j > 0 {
        let t = s.drop_first();
        assert(forall|k: int| 0 <= k < j - 1 ==> (#[trigger] t[k]) == s[k + 1]);
        lemma_find_relay_at(t, alias, j - 1);
    }
}

proof fn lemma_find_relay_none(s: Seq<RegistryRelayInfoView>, alias: Seq<char>)
    requires
        forall|k: int| 0 <= k < s.len() ==> (#[trigger] s[k]).alias != alias,
    ensures
        find_relay(s, alias) is None,
    decreases s.len(),
{
    if s.len() > 0 {
        let t = s.drop_first();
        assert(forall|k: int| 0 <= k < t.len() ==> (#[trigger] t[k]) == s[k + 1]);
        lemma_find_relay_none(t, alias);
    }
}

/// The node's relay registry: every relay this node maintains, each
/// exclusively owning its session.
pub struct NodeManager {
    relays: Vec<RegistryRelayInfo>,
}

impl NodeManager {
    /// The registered relays, as models, in registration order.
    pub closed spec fn relays_view(&self) -> Seq<RegistryRelayInfoView> {
        Seq::new(self.relays@.len(), |i: int| self.relays@[i]@)
    }

    /// A node with no relays yet.
    pub fn new() -> (r: Self)
        ensures
            r.relays_view() == Seq::<RegistryRelayInfoView>::empty(),
    {
        let r = NodeManager { relays: Vec::new() };
        proof {
            assert(r.relays_view() =~= Seq::<RegistryRelayInfoView>::empty());
        }
        r
    }

    fn find_alias(&self, alias: &str) -> (r: Option<usize>)
        ensures
            match r {
                Some(i) => 0 <= i < self.relays_view().len() && find_relay(self.relays_view(), alias@) == Some(i as int),
                None => find_relay(self.relays_view(), alias@) is None,
            },
    {
        let key = String::from_str(alias);
        let n = self.relays.len();
        let mut i: usize = 0;
        while i < n
            invariant
                0 <= i <= n,
                n == self.relays@.len(),
                key@ == alias@,
                forall|k: int| 0 <= k < i ==> (#[trigger] self.relays_view()[k]).alias != alias@,
            decreases n - i,
        {
            if self.relays[i].alias == key {
                proof {
                    assert(self.relays_view()[i as int].alias == alias@);
                    lemma_find_relay_at(self.relays_view(), alias@, i as int);
                }
                return Some(i);
            }
            proof {
                assert(self.relays_view()[i as int].alias == self.relays@[i as int]@.alias);
            }
            i += 1;
        }
        proof {
            lemma_find_relay_none(self.relays_view(), alias@);
        }
        None
    }

    /// Create a new relay under `alias`, aimed at `destination_address`.
    /// At most one relay may hold an alias: a second creation fails with
    /// `AlreadyExists` and disturbs nothing, least of all the first
    /// relay's session.  When the caller waited for the initial
    /// connection attempt, its outcome is recorded; either way the new
    /// relay's session is monitored from here on.
    pub fn create_relay(
        &mut self,
        alias: &str,
        destination_address: &str,
        create_result: Option<Result<ReplacerOutcome, ReplacerError>>,
    ) -> (r: Result<RelayInfo, RegistryError>)
        ensures
            find_relay(old(self).relays_view(), alias@) is Some ==> {
                &&& r == Result::<RelayInfo, RegistryError>::Err(RegistryError::AlreadyExists)
                &&& final(self).relays_view() == old(self).relays_view()
            },
            find_relay(old(self).relays_view(), alias@) is None ==> {
                &&& r matches Ok(info)
                &&& final(self).relays_view().len() == old(self).relays_view().len() + 1
                &&& final(self).relays_view().subrange(0, old(self).relays_view().len() as int)
                    == old(self).relays_view()
                &&& ({
                    let entry = final(self).relays_view().last();
                    let status = match create_result {
                        Some(Ok(_)) => ConnectionStatus::Connected,
                        Some(Err(_)) => ConnectionStatus::Connecting,
                        None => ConnectionStatus::Connecting,
                    };
                    &&& entry.alias == alias@
                    &&& entry.destination == destination_address@
                    &&& entry.session.status == status
                    &&& entry.session.monitoring
                    &&& !entry.session.closed
                    &&& !entry.session.retry_in_flight
                    &&& info@.alias == alias@
                    &&& info@.destination == destination_address@
                    &&& info@.status == status
                    &&& info@.remote_address == (match create_result {
                        Some(Ok(o)) => o@.remote_address,
                        _ => None::<Seq<char>>,
                    })
                })
            },
    {
        if self.find_alias(alias).is_some() {
            return Err(RegistryError::AlreadyExists);
        }
        let mut session = Session::create();
        // The remote end's answer, when the caller waited for one,
        // travels into the report.
        let remote_address: Option<String> = match &create_result {
            Some(Ok(o)) => match &o.remote_address {
                Some(s) => Some(s.clone()),
                None => None,
            },
            _ => None,
        };
        match create_result {
            Some(result) => {
                // The caller asked to return only after one connection
                // attempt; a failure is reported through the status, and
                // monitoring will retry.
                let _ = session.initial_connect(result);
            },
            None => {},
        }
        session.start_monitoring();
        let status = session.connection_status();
        let entry = RegistryRelayInfo {
            destination_address: String::from_str(destination_address),
            alias: String::from_str(alias),
            session,
        };
        let ghost before = self.relays_view();
        self.relays.push(entry);
        proof {
            assert(self.relays_view().subrange(0, before.len() as int) =~= before);
        }
        Ok(RelayInfo {
            destination_address: String::from_str(destination_address),
            alias: String::from_str(alias),
            connection_status: status,
            remote_address,
        })
    }

    /// Remove the relay registered under `alias` and close its session;
    /// a missing alias is reported as `NotFound`.
    pub fn delete_relay_impl(&mut self, alias: &str) -> (r: Result<(), RegistryError>)
        ensures
            match find_relay(old(self).relays_view(), alias@) {
                Some(j) => r is Ok
                    && final(self).relays_view() == old(self).relays_view().remove(j),
                None => r == Result::<(), RegistryError>::Err(RegistryError::NotFound)
                    && final(self).relays_view() == old(self).relays_view(),
            },
    {
        match self.find_alias(alias) {
            Some(i) => {
                let ghost before = self.relays_view();
                let mut entry = self.relays.remove(i);
                let _ = entry.session.close();
                proof {
                    assert(self.relays_view() =~= before.remove(i as int));
                }
                Ok(())
            },
            None => Err(RegistryError::NotFound),
        }
    }

    /// Report the relay registered under `alias`; a missing alias is
    /// reported as `NotFound`.
    pub fn show_relay(&self, alias: &str) -> (r: Result<RelayInfo, RegistryError>)
        ensures
            match find_relay(self.relays_view(), alias@) {
                Some(j) => r matches Ok(info) && {
                    let entry = self.relays_view()[j];
                    &&& info@.alias == entry.alias
                    &&& info@.destination == entry.destination
                    &&& info@.status == entry.session.status
                },
                None => r == Result::<RelayInfo, RegistryError>::Err(RegistryError::NotFound),
            },
    {
        match self.find_alias(alias) {
            Some(i) => {
                let entry = &self.relays[i];
                Ok(RelayInfo::new(
                    entry.destination_address.as_str(),
                    entry.alias.as_str(),
                    entry.session.connection_status(),
                ))
            },
            None => Err(RegistryError::NotFound),
        }
    }

    /// Report every relay currently registered, in registration order.
    pub fn get_relays(&self) -> (r: Vec<RelayInfo>)
        ensures
            r@.len() == self.relays_view().len(),
            forall|k: int| 0 <= k < r@.len() ==> {
                let entry = self.relays_view()[k];
                &&& (#[trigger] r@[k])@.alias == entry.alias
                &&& r@[k]@.destination == entry.destination
                &&& r@[k]@.status == entry.session.status
            },
    {
        let n = self.relays.len();
        let mut out: Vec<RelayInfo> = Vec::new();
        let mut i: usize = 0;
        while i < n
            invariant
                0 <= i <= n,
                n == self.relays@.len(),
                out@.len() == i,
                forall|k: int| 0 <= k < i ==> {
                    let entry = self.relays_view()[k];
                    &&& (#[trigger] out@[k])@.alias == entry.alias
                    &&& out@[k]@.destination == entry.destination
                    &&& out@[k]@.status == entry.session.status
                },
            decreases n - i,
        {
            let entry = &self.relays[i];
            out.push(RelayInfo::new(
                entry.destination_address.as_str(),
                entry.alias.as_str(),
                entry.session.connection_status(),
            ));
            i += 1;
        }
        out
    }
}

/// How a management request failed, as the node answers it over its
/// API: a missing resource is named as such; everything else is an
/// internal error.
#[derive(Clone, Copy, Debug, PartialEq, Eq, Structural)]
pub enum ApiError {
    NotFound,
    InternalError,
}

/// The worker answering management requests about relays: it holds the
/// node manager and translates each outcome into an API answer.
pub struct NodeManagerWorker {
    node_manager: NodeManager,
}

impl NodeManagerWorker {
    /// The registry this worker answers about.
    pub closed spec fn spec_node_manager(&self) -> &NodeManager {
        &self.node_manager
    }

    /// A worker over the given node manager.
    pub fn new(node_manager: NodeManager) -> (r: Self)
        ensures
            r.spec_node_manager().relays_view() == node_manager.relays_view(),
    {
        NodeManagerWorker { node_manager }
    }

    /// Answer a create-relay request.  Any failure to create — here, a
    /// taken alias — is answered as an internal error.
    pub fn create_relay(
        &mut self,
        alias: &str,
        destination_address: &str,
        create_result: Option<Result<ReplacerOutcome, ReplacerError>>,
    ) -> (r: Result<RelayInfo, ApiError>)
        ensures
            find_relay(old(self).spec_node_manager().relays_view(), alias@) is Some ==> {
                &&& r == Result::<RelayInfo, ApiError>::Err(ApiError::InternalError)
                &&& final(self).spec_node_manager().relays_view()
                    == old(self).spec_node_manager().relays_view()
            },
            find_relay(old(self).spec_node_manager().relays_view(), alias@) is None ==> {
                &&& r matches Ok(info) && info@.alias == alias@ && info@.destination == destination_address@
                &&& final(self).spec_node_manager().relays_view().len()
                    == old(self).spec_node_manager().relays_view().len() + 1
            },
    {
        match self.node_manager.create_relay(alias, destination_address, create_result) {
            Ok(info) => Ok(info),
            Err(_) => Err(ApiError::InternalError),
        }
    }

    /// Answer a delete-relay request: a missing alias is answered as
    /// not found.
    pub fn delete_relay(&mut self, alias: &str) -> (r: Result<(), ApiError>)
        ensures
            match find_relay(old(self).spec_node_manager().relays_view(), alias@) {
                Some(j) => r is Ok
                    && final(self).spec_node_manager().relays_view()
                        == old(self).spec_node_manager().relays_view().remove(j),
                None => r == Result::<(), ApiError>::Err(ApiError::NotFound)
                    && final(self).spec_node_manager().relays_view()
                        == old(self).spec_node_manager().relays_view(),
            },
    {
        match self.node_manager.delete_relay_impl(alias) {
            Ok(_) => Ok(()),
            Err(_) => Err(ApiError::NotFound),
        }
    }

    /// Answer a show-relay request: a missing alias is answered as not
    /// found.
    pub fn show_relay(&self, alias: &str) -> (r: Result<RelayInfo, ApiError>)
        ensures
            match find_relay(self.spec_node_manager().relays_view(), alias@) {
                Some(j) => r matches Ok(info) && {
                    let entry = self.spec_node_manager().relays_view()[j];
                    &&& info@.alias == entry.alias
                    &&& info@.destination == entry.destination
                    &&& info@.status == entry.session.status
                },
                None => r == Result::<RelayInfo, ApiError>::Err(ApiError::NotFound),
            },
    {
        match self.node_manager.show_relay(alias) {
            Ok(info) => Ok(info),
            Err(_) => Err(ApiError::NotFound),
        }
    }

    /// Answer a list-relays request.
    pub fn get_relays(&self) -> (r: Vec<RelayInfo>)
        ensures
            r@.len() == self.spec_node_manager().relays_view().len(),
            forall|k: int| 0 <= k < r@.len() ==> {
                let entry = self.spec_node_manager().relays_view()[k];
                &&& (#[trigger] r@[k])@.alias == entry.alias
                &&& r@[k]@.destination == entry.destination
                &&& r@[k]@.status == entry.session.status
            },
    {
        self.node_manager.get_relays()
    }
}

/// What a relay replacer asks its runner to do to create one relay
/// incarnation: reach this destination.
pub struct ConnectRequest {
    pub destination_address: String,
}

/// What a relay replacer asks its runner to tear down.
pub struct TeardownPlan {
    /// Close the transport connection of the last incarnation, if one
    /// was made.
    pub close_connection: bool,
    /// Stop the local relay worker at this address, if one was created.
    pub stop_worker: Option<Address>,
}

/// The relay-specific replacer: decides each create/close step from
/// plain facts and records what the runner reports back.  It holds only
/// a weak, lookup-only claim on the owning node: when the owner is gone,
/// every operation is `Cancelled` rather than blocking shutdown.
pub struct RelaySessionReplacer {
    destination_address: String,
    relay_worker_address: Option<Address>,
    connection_open: bool,
}

impl RelaySessionReplacer {
    /// The destination this replacer reaches for.
    pub closed spec fn spec_destination(&self) -> Seq<char> {
        self.destination_address@
    }

    /// The relay worker of the current incarnation, if one is up.
    pub closed spec fn spec_worker(&self) -> Option<AddressView> {
        match self.relay_worker_address {
            Some(ref a) => Some(a@),
            None => None,
        }
    }

    /// Whether the current incarnation's connection is open.
    pub closed spec fn spec_connection_open(&self) -> bool {
        self.connection_open
    }

    /// A replacer aimed at `destination_address`, with nothing created
    /// yet.
    pub fn new(destination_address: &str) -> (r: Self)
        ensures
            r.spec_destination() == destination_address@,
            r.spec_worker() is None,
            !r.spec_connection_open(),
    {
        RelaySessionReplacer {
            destination_address: String::from_str(destination_address),
            relay_worker_address: None,
            connection_open: false,
        }
    }

    /// Decide one create attempt.  With the owner gone the attempt is
    /// `Cancelled`; otherwise the runner is asked to connect to the
    /// destination.
    pub fn create_plan(&self, owner_alive: bool) -> (r: Result<ConnectRequest, ReplacerError>)
        ensures
            owner_alive ==> (r matches Ok(req) && req.destination_address@ == self.spec_destination()),
            !owner_alive ==> r == Result::<ConnectRequest, ReplacerError>::Err(ReplacerError::Cancelled),
    {
        if owner_alive {
            Ok(ConnectRequest { destination_address: self.destination_address.clone() })
        } else {
            Err(ReplacerError::Cancelled)
        }
    }

    /// Record what the runner created: the connection's transport route
    /// and the relay the remote node allocated.  The outcome carries the
    /// route to probe and the worker to tear down on replacement.
    pub fn on_created(&mut self, transport_route: Route, remote: &RemoteRelayInfo) -> (r: ReplacerOutcome)
        ensures
            final(self).spec_worker() == Some(remote.worker_address@),
            final(self).spec_connection_open(),
            final(self).spec_destination() == old(self).spec_destination(),
            r@.ping_route == transport_route@,
            r@.worker_address == remote.worker_address@,
            r@.remote_address == Some(remote.remote_address@),
    {
        self.relay_worker_address = Some(remote.worker_address.clone());
        self.connection_open = true;
        ReplacerOutcome {
            ping_route: transport_route,
            worker_address: remote.worker_address.clone(),
            remote_address: Some(remote.remote_address.clone()),
        }
    }

    /// Decide a close: hand the runner everything of the current
    /// incarnation that must be torn down, leaving the replacer empty.
    /// Idempotent: a second close has nothing left to tear down.
    pub fn close_plan(&mut self) -> (r: TeardownPlan)
        ensures
            r.close_connection == old(self).spec_connection_open(),
            (match r.stop_worker {
                Some(a) => old(self).spec_worker() == Some(a@),
                None => old(self).spec_worker() is None,
            }),
            final(self).spec_worker() is None,
            !final(self).spec_connection_open(),
            final(self).spec_destination() == old(self).spec_destination(),
    {
        let close_connection = self.connection_open;
        self.connection_open = false;
        let stop_worker = self.relay_worker_address.take();
        TeardownPlan { close_connection, stop_worker }
    }
}

} // verus!
