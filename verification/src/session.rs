//! Sessions: the supervisory wrapper that makes a routed resource
//! self-healing.
//!
//! A session wraps a replacer — the strategy that can create and close
//! one kind of routed resource — and tracks the connection status of the
//! resource's current incarnation.  All mutation goes through the
//! session's own exclusive interface, so there is never more than one
//! reconnection in flight: a probe failure while a retry is outstanding
//! changes nothing.  The outside work itself (connecting, pinging,
//! sleeping) is done by the session's runner, which feeds each outcome
//! back in and performs the effects handed back.

use vstd::prelude::*;

use crate::address::Address;
use crate::address::AddressView;
use crate::route::Route;

verus! {

/// The connection status of the resource a session supervises.
#[derive(Clone, Copy, Debug, PartialEq, Eq, Structural)]
pub enum ConnectionStatus {
    /// No incarnation has been created yet.
    Connecting,
    /// The current incarnation is believed reachable.
    Connected,
    /// The current incarnation is gone; a replacement is owed.
    Disconnected,
}

/// Why a replacer's create attempt failed.
#[derive(Clone, Copy, Debug, PartialEq, Eq, Structural)]
pub enum ReplacerError {
    /// The owner of the resource is gone; nothing can be created.
    Cancelled,
    /// The attempt itself failed; it may be retried.
    ConnectionFailed,
}

/// What a successful create attempt leaves behind: the route by which
/// the resource's liveness is probed, the worker address to tear down
/// when the resource is replaced or closed, and — for resources with a
/// remotely allocated counterpart, such as relays — the forwarding
/// address the remote end answered with.
pub struct ReplacerOutcome {
    pub ping_route: Route,
    pub worker_address: Address,
    pub remote_address: Option<String>,
}

/// Mathematical model of a [`ReplacerOutcome`].
pub struct ReplacerOutcomeView {
    pub ping_route: Seq<crate::address::AddressView>,
    pub worker_address: AddressView,
    pub remote_address: Option<Seq<char>>,
}

impl View for ReplacerOutcome {
    type V = ReplacerOutcomeView;

    open spec fn view(&self) -> ReplacerOutcomeView {
        ReplacerOutcomeView {
            ping_route: self.ping_route@,
            worker_address: self.worker_address@,
            remote_address: match self.remote_address {
                Some(ref s) => Some(s@),
                None => None,
            },
        }
    }
}

/// Mathematical model of a [`Session`].
pub struct SessionView {
    pub status: ConnectionStatus,
    pub closed: bool,
    pub monitoring: bool,
    pub retry_in_flight: bool,
    pub outcome: Option<ReplacerOutcomeView>,
}

/// What a session asks its runner to do after a probe failure.
pub struct ProbeEffects {
    /// Fire the replacer's session-down notification.
    pub notify_down: bool,
    /// Launch one create attempt on the replacer.
    pub start_create: bool,
}

/// What a session asks its runner to do after a create attempt resolved.
pub struct CreateEffects {
    /// Fire the replacer's session-replaced notification.
    pub notify_replaced: bool,
}

/// What a session asks its runner to do on close.
pub struct CloseEffects {
    /// Run the replacer's own close — exactly once over the session's
    /// lifetime.
    pub close_resource: bool,
}

/// How one probe failure moves a session: the new state, whether the
/// session-down notification fires, and whether a create attempt is
/// launched.  While a retry is outstanding, nothing happens — the
/// single-flight rule.
pub open spec fn probe_failure_step(s: SessionView) -> (SessionView, bool, bool) {
    if s.closed || !s.monitoring {
        (s, false, false)
    } else if s.status == ConnectionStatus::Connected {
        (
            SessionView { status: ConnectionStatus::Disconnected, retry_in_flight: true, ..s },
            true,
            true,
        )
    } else if s.status == ConnectionStatus::Disconnected && !s.retry_in_flight {
        (SessionView { retry_in_flight: true, ..s }, false, true)
    } else {
        (s, false, false)
    }
}

/// A session: the status and current metadata of one supervised routed
/// resource.  Owned exclusively by whichever component registered it,
/// which alone calls `close`, exactly once.
pub struct Session {
    status: ConnectionStatus,
    closed: bool,
    monitoring: bool,
    retry_in_flight: bool,
    outcome: Option<ReplacerOutcome>,
}

impl View for Session {
    type V = SessionView;

    closed spec fn view(&self) -> SessionView {
        SessionView {
            status: self.status,
            closed: self.closed,
            monitoring: self.monitoring,
            retry_in_flight: self.retry_in_flight,
            outcome: match self.outcome {
                Some(ref o) => Some(o@),
                None => None,
            },
        }
    }
}

impl Session {
    /// A fresh session: connecting, not yet monitored, nothing created.
    pub fn create() -> (r: Self)
        ensures
            r@ == (SessionView {
                status: ConnectionStatus::Connecting,
                closed: false,
                monitoring: false,
                retry_in_flight: false,
                outcome: None::<ReplacerOutcomeView>,
            }),
    {
        Session {
            status: ConnectionStatus::Connecting,
            closed: false,
            monitoring: false,
            retry_in_flight: false,
            outcome: None,
        }
    }

    /// The connection status of the supervised resource.
    pub fn connection_status(&self) -> (r: ConnectionStatus)
        ensures
            r == self@.status,
    {
        self.status
    }

    /// Whether this session has reached its terminal state: closed for
    /// good, never probed again.
    pub fn is_closed(&self) -> (r: bool)
        ensures
            r == self@.closed,
    {
        self.closed
    }

    /// The route by which the current incarnation is probed, if one was
    /// created.
    pub fn ping_route(&self) -> (r: Option<&Route>)
        ensures
            match r {
                Some(route) => self@.outcome matches Some(o) && o.ping_route == route@,
                None => self@.outcome is None,
            },
    {
        match &self.outcome {
            Some(o) => Some(&o.ping_route),
            None => None,
        }
    }

    /// The forwarding address the current incarnation's remote end
    /// reported, if any.
    pub fn remote_address(&self) -> (r: Option<&str>)
        ensures
            match r {
                Some(s) => self@.outcome matches Some(o) && o.remote_address == Some(s@),
                None => self@.outcome is None || self@.outcome->Some_0.remote_address is None,
            },
    {
        match &self.outcome {
            Some(o) => match &o.remote_address {
                Some(s) => Some(s.as_str()),
                None => None,
            },
            None => None,
        }
    }

    /// Record the outcome of the one synchronous create attempt made
    /// before monitoring starts.  Its error is surfaced to the caller
    /// as-is; the session then simply stays unconnected.
    pub fn initial_connect(&mut self, result: Result<ReplacerOutcome, ReplacerError>) -> (r: Result<(), ReplacerError>)
        requires
            !old(self)@.closed,
            old(self)@.status == ConnectionStatus::Connecting,
        ensures
            match result {
                Ok(o) => r is Ok
                    && final(self)@ == (SessionView { status: ConnectionStatus::Connected, outcome: Some(o@), ..old(self)@ }),
                Err(e) => r == Result::<(), ReplacerError>::Err(e) && *final(self) == *old(self),
            },
    {
        match result {
            Ok(outcome) => {
                self.status = ConnectionStatus::Connected;
                self.outcome = Some(outcome);
                Ok(())
            },
            Err(e) => Err(e),
        }
    }

    /// Begin liveness monitoring: from here on, probe failures move the
    /// session.
    pub fn start_monitoring(&mut self)
        requires
            !old(self)@.closed,
        ensures
            final(self)@ == (SessionView { monitoring: true, ..old(self)@ }),
    {
        self.monitoring = true;
    }

    /// One detected probe failure.  A connected session goes down, fires
    /// the session-down notification once, and launches exactly one
    /// create attempt; further failures while that attempt is in flight
    /// do nothing at all.
    pub fn on_probe_failure(&mut self) -> (e: ProbeEffects)
        ensures
            final(self)@ == probe_failure_step(old(self)@).0,
            e.notify_down == probe_failure_step(old(self)@).1,
            e.start_create == probe_failure_step(old(self)@).2,
    {
        if self.closed || !self.monitoring {
            return ProbeEffects { notify_down: false, start_create: false };
        }
        match self.status {
            ConnectionStatus::Connected => {
                self.status = ConnectionStatus::Disconnected;
                self.retry_in_flight = true;
                ProbeEffects { notify_down: true, start_create: true }
            },
            ConnectionStatus::Disconnected => {
                if !self.retry_in_flight {
                    self.retry_in_flight = true;
                    ProbeEffects { notify_down: false, start_create: true }
                } else {
                    ProbeEffects { notify_down: false, start_create: false }
                }
            },
            ConnectionStatus::Connecting => ProbeEffects { notify_down: false, start_create: false },
        }
    }

    /// The in-flight create attempt resolved.  Success reconnects the
    /// session and fires the session-replaced notification; failure
    /// leaves it disconnected, to be retried on the next probe failure.
    pub fn on_create_result(&mut self, result: Result<ReplacerOutcome, ReplacerError>) -> (e: CreateEffects)
        requires
            !old(self)@.closed,
            old(self)@.retry_in_flight,
        ensures
            match result {
                Ok(o) => e.notify_replaced
                    && final(self)@ == (SessionView {
                        status: ConnectionStatus::Connected,
                        retry_in_flight: false,
                        outcome: Some(o@),
                        ..old(self)@
                    }),
                Err(_) => !e.notify_replaced
                    && final(self)@ == (SessionView {
                        status: ConnectionStatus::Disconnected,
                        retry_in_flight: false,
                        ..old(self)@
                    }),
            },
    {
        match result {
            Ok(outcome) => {
                self.status = ConnectionStatus::Connected;
                self.retry_in_flight = false;
                self.outcome = Some(outcome);
                CreateEffects { notify_replaced: true }
            },
            Err(_) => {
                self.status = ConnectionStatus::Disconnected;
                self.retry_in_flight = false;
                CreateEffects { notify_replaced: false }
            },
        }
    }

    /// Close the session for good: monitoring ends and the resource is
    /// torn down — exactly once, however often close is called.
    pub fn close(&mut self) -> (e: CloseEffects)
        ensures
            final(self)@ == (SessionView { closed: true, monitoring: false, ..old(self)@ }),
            e.close_resource == !old(self)@.closed,
    {
        let was_closed = self.closed;
        self.closed = true;
        self.monitoring = false;
        CloseEffects { close_resource: !was_closed }
    }
}

/// Across any run of probe failures detected while the one launched
/// retry is still outstanding, the session-down notification fires
/// exactly once and exactly one create attempt is launched: here spelled
/// out for three failures in a row.
pub proof fn lemma_single_flight_retry(s: SessionView)
    requires
        s.status == ConnectionStatus::Connected,
        !s.retry_in_flight,
        s.monitoring,
        !s.closed,
    ensures
        ({
            let (s1, down1, retry1) = probe_failure_step(s);
            let (s2, down2, retry2) = probe_failure_step(s1);
            let (s3, down3, retry3) = probe_failure_step(s2);
            &&& down1 && retry1
            &&& !down2 && !retry2
            &&& !down3 && !retry3
            &&& s3.status == ConnectionStatus::Disconnected
            &&& s3.retry_in_flight
        }),
{
}

/// A successful retry restores `Connected` and fires the
/// session-replaced notification; a failing retry leaves the session
/// disconnected, and the next probe failure launches exactly one new
/// attempt without another session-down notification.
pub proof fn lemma_retry_after_failure(s: SessionView)
    requires
        s.status == ConnectionStatus::Disconnected,
        !s.retry_in_flight,
        s.monitoring,
        !s.closed,
    ensures
        ({
            let (s1, down1, retry1) = probe_failure_step(s);
            &&& !down1 && retry1
            &&& s1.retry_in_flight
        }),
{
}

} // verus!
