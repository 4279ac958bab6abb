//! The peripheral session controller, as a state machine over plain inputs.
//! The embedding owns the radio and the event channel: it polls power,
//! registers services, starts advertising, and pulls events, feeding each
//! result back into `step`, which decides the next phase and the one action
//! owed. Startup failures are fatal; a failed single request is not: once
//! running, the loop leaves only when the event channel closes.

use vstd::prelude::*;

use crate::catalog::CatalogError;
use crate::catalog::INITIAL_BATTERY_LEVEL;
use crate::hid::Report;
use crate::catalog::Service;
use crate::catalog::ServiceCatalog;
use crate::router::EngineState;
use crate::router::GattEvent;
use crate::router::Outcome;
use crate::router::Subscription;
use crate::router::handle_event;
use crate::router::initial_state;
use crate::router::spec_read;
use crate::router::spec_subscribe_eligible;
use crate::router::spec_write_reply;
use crate::router::WriteReply;
use crate::uuids::BleUuid;

verus! {

/// A fatal startup error: the process is expected to exit on it.
#[derive(Clone, Copy, Debug, PartialEq, Eq, Structural)]
pub enum StartupError {
    /// The stack collaborator rejected a service registration.
    Registration(CatalogError),
    /// The stack collaborator rejected the advertising start.
    AdvertisingRejected,
}

/// Where the session stands in its lifetime.
#[derive(Clone, Copy, Debug, PartialEq, Eq, Structural)]
pub enum SessionPhase {
    /// Polling the stack's power state until the radio is on.
    WaitingForPower,
    /// Registering catalog services in order; `next` is the index whose
    /// registration result is awaited.
    Registering { next: usize },
    /// Awaiting the advertising start result.
    StartingAdvertising,
    /// Serving events.
    Running,
    /// A fatal startup error was hit.
    Failed(StartupError),
    /// The event channel closed: the session is over.
    Stopped,
}

/// One answer from the outside world, reduced to plain values.
#[derive(Debug, PartialEq, Eq)]
pub enum SessionInput {
    /// The result of one power poll.
    PowerState(bool),
    /// Whether the stack accepted the service whose registration was awaited.
    ServiceRegistered(bool),
    /// Whether the stack accepted the advertising start.
    AdvertisingStarted(bool),
    /// One inbound GATT event.
    Gatt(GattEvent),
    /// The event channel closed.
    ChannelClosed,
}

/// The one thing the embedding must do after a step.
#[derive(Debug, PartialEq, Eq)]
pub enum SessionAction {
    /// Poll the stack's power state and feed back `PowerState`.
    QueryPower,
    /// Register the catalog service at this index and feed back
    /// `ServiceRegistered`.
    RegisterService(usize),
    /// Start advertising (device name and primary service UUIDs) and feed
    /// back `AdvertisingStarted`.
    StartAdvertising,
    /// Deliver this outcome to the requester: exactly one send for a read
    /// or an expected write response, nothing otherwise.
    Respond(Outcome),
    /// Abort startup with this fatal error.
    Fail(StartupError),
    /// Nothing is owed.
    NoAction,
}

/// A session: its phase and the router state it owns.
pub struct Session {
    pub phase: SessionPhase,
    pub state: EngineState,
}

impl Session {
    /// The session invariant, against the catalog it serves: the router
    /// state is well formed and a pending registration index is in range.
    pub open spec fn wf(self, cat: ServiceCatalog) -> bool {
        &&& self.state.wf()
        &&& (self.phase matches SessionPhase::Registering { next } ==> next
            < cat.services@.len())
    }
}

/// A fresh session, waiting for the radio.
pub fn new_session() -> (s: Session)
    ensures
        s.phase == SessionPhase::WaitingForPower,
        s.state.wf(),
        s.state.current_report == (Report { buttons: 0, hat: None, x: 0, y: 0, z: 0, rz: 0 }),
        s.state.battery_level == INITIAL_BATTERY_LEVEL,
        s.state.subscriptions@ =~= Seq::<Subscription>::empty(),
{
    Session { phase: SessionPhase::WaitingForPower, state: initial_state() }
}

/// Advance the session by one input and return the action owed.
///
/// Startup: power polls repeat until the radio is on; services are then
/// registered in catalog order, the first rejection aborting with
/// `Registration(InvalidCharacteristic)`; an accepted advertising start
/// enters `Running`. Running: every GATT event is routed (a read is always
/// answered exactly once) and a closed channel stops the session. An input
/// that does not belong to the current phase changes nothing. A failed or
/// stopped session stays so.
pub fn step(catalog: &ServiceCatalog, session: &mut Session, input: &SessionInput) -> (action:
    SessionAction)
    requires
        old(session).wf(*catalog),
    ensures
        final(session).wf(*catalog),
        old(session).phase is WaitingForPower ==> match *input {
            SessionInput::PowerState(on) => {
                &&& final(session).state == old(session).state
                &&& (!on ==> final(session).phase is WaitingForPower && action
                    == SessionAction::QueryPower)
                &&& (on && catalog.services@.len() > 0 ==> final(session).phase == (
                SessionPhase::Registering { next: 0 }) && action == SessionAction::RegisterService(
                    0,
                ))
                &&& (on && catalog.services@.len() == 0 ==> final(session).phase
                    is StartingAdvertising && action == SessionAction::StartAdvertising)
            },
            _ => *final(session) == *old(session) && action == SessionAction::NoAction,
        },
        old(session).phase matches SessionPhase::Registering { next } ==> match *input {
            SessionInput::ServiceRegistered(ok) => {
                &&& final(session).state == old(session).state
                &&& (ok && next + 1 < catalog.services@.len() ==> final(session).phase == (
                SessionPhase::Registering { next: (next + 1) as usize }) && action
                    == SessionAction::RegisterService((next + 1) as usize))
                &&& (ok && next + 1 == catalog.services@.len() ==> final(session).phase
                    is StartingAdvertising && action == SessionAction::StartAdvertising)
                &&& (!ok ==> final(session).phase == SessionPhase::Failed(
                    StartupError::Registration(CatalogError::InvalidCharacteristic),
                ) && action == SessionAction::Fail(
                    StartupError::Registration(CatalogError::InvalidCharacteristic),
                ))
            },
            _ => *final(session) == *old(session) && action == SessionAction::NoAction,
        },
        old(session).phase is StartingAdvertising ==> match *input {
            SessionInput::AdvertisingStarted(ok) => {
                &&& final(session).state == old(session).state
                &&& (ok ==> final(session).phase is Running && action == SessionAction::NoAction)
                &&& (!ok ==> final(session).phase == SessionPhase::Failed(
                    StartupError::AdvertisingRejected,
                ) && action == SessionAction::Fail(StartupError::AdvertisingRejected))
            },
            _ => *final(session) == *old(session) && action == SessionAction::NoAction,
        },
        old(session).phase is Running ==> match *input {
            SessionInput::Gatt(event) => {
                &&& final(session).phase is Running
                &&& (event matches GattEvent::Read { service, characteristic, offset, .. } ==> {
                    &&& final(session).state == old(session).state
                    &&& (action matches SessionAction::Respond(out) && out
                        matches Outcome::ReadResponse(r) && r.status == spec_read(
                        *catalog,
                        old(session).state,
                        service,
                        characteristic,
                        offset,
                    ).0 && r.value@ == spec_read(
                        *catalog,
                        old(session).state,
                        service,
                        characteristic,
                        offset,
                    ).1)
                })
                &&& (event matches GattEvent::Write { service, characteristic, with_response, .. }
                    ==> {
                    &&& final(session).state == old(session).state
                    &&& (match spec_write_reply(*catalog, service, characteristic, with_response) {
                        Some(status) => action == SessionAction::Respond(
                            Outcome::WriteResponse(WriteReply { status }),
                        ),
                        None => action == SessionAction::Respond(Outcome::NoResponse),
                    })
                })
                &&& (event matches GattEvent::SubscriptionUpdate {
                    client,
                    service,
                    characteristic,
                    subscribed,
                } ==> {
                    &&& action == SessionAction::Respond(Outcome::NoResponse)
                    &&& final(session).state.current_report == old(session).state.current_report
                    &&& final(session).state.battery_level == old(session).state.battery_level
                    &&& (subscribed ==> forall|q: Subscription|
                        #[trigger] final(session).state.subscriptions@.contains(q) <==> (
                        old(session).state.subscriptions@.contains(q) || (spec_subscribe_eligible(
                            *catalog,
                            service,
                            characteristic,
                        ) && q == Subscription { client, characteristic })))
                    &&& (!subscribed ==> forall|q: Subscription|
                        #[trigger] final(session).state.subscriptions@.contains(q) <==> (
                        old(session).state.subscriptions@.contains(q) && q != Subscription {
                            client,
                            characteristic,
                        }))
                })
            },
            SessionInput::ChannelClosed => {
                &&& final(session).state == old(session).state
                &&& final(session).phase is Stopped
                &&& action == SessionAction::NoAction
            },
            _ => *final(session) == *old(session) && action == SessionAction::NoAction,
        },
        old(session).phase is Failed ==> *final(session) == *old(session) && action
            == SessionAction::NoAction,
        old(session).phase is Stopped ==> *final(session) == *old(session) && action
            == SessionAction::NoAction,
{
    let phase = session.phase;
    match phase {
        SessionPhase::WaitingForPower => match input {
            SessionInput::PowerState(on) => {
                if !*on {
                    SessionAction::QueryPower
                } else if catalog.services.len() > 0 {
                    session.phase = SessionPhase::Registering { next: 0 };
                    SessionAction::RegisterService(0)
                } else {
                    session.phase = SessionPhase::StartingAdvertising;
                    SessionAction::StartAdvertising
                }
            },
            _ => SessionAction::NoAction,
        },
        SessionPhase::Registering { next } => match input {
            SessionInput::ServiceRegistered(ok) => {
                let n = catalog.services.len();
                proof {
                    assert(next < catalog.services@.len());
                }
                if *ok {
                    if next + 1 < n {
                        session.phase = SessionPhase::Registering { next: next + 1 };
                        SessionAction::RegisterService(next + 1)
                    } else {
                        session.phase = SessionPhase::StartingAdvertising;
                        SessionAction::StartAdvertising
                    }
                } else {
                    let err = StartupError::Registration(CatalogError::InvalidCharacteristic);
                    session.phase = SessionPhase::Failed(err);
                    SessionAction::Fail(err)
                }
            },
            _ => SessionAction::NoAction,
        },
        SessionPhase::StartingAdvertising => match input {
            SessionInput::AdvertisingStarted(ok) => {
                if *ok {
                    session.phase = SessionPhase::Running;
                    SessionAction::NoAction
                } else {
                    session.phase = SessionPhase::Failed(StartupError::AdvertisingRejected);
                    SessionAction::Fail(StartupError::AdvertisingRejected)
                }
            },
            _ => SessionAction::NoAction,
        },
        SessionPhase::Running => match input {
            SessionInput::Gatt(event) => {
                let outcome = handle_event(catalog, &mut session.state, event);
                SessionAction::Respond(outcome)
            },
            SessionInput::ChannelClosed => {
                session.phase = SessionPhase::Stopped;
                SessionAction::NoAction
            },
            _ => SessionAction::NoAction,
        },
        SessionPhase::Failed(_) => SessionAction::NoAction,
        SessionPhase::Stopped => SessionAction::NoAction,
    }
}

/// The device name the peripheral advertises.
pub fn device_name() -> (r: &'static str)
    ensures
        r@ == "Repeatapad"@,
{
    "Repeatapad"
}

/// The UUIDs of the primary services, in registration order: what the
/// advertising start announces.
pub open spec fn spec_primary_uuids(ss: Seq<Service>) -> Seq<BleUuid>
    decreases ss.len(),
{
    if ss.len() == 0 {
        Seq::empty()
    } else {
        let prefix = spec_primary_uuids(ss.drop_last());
        if ss.last().primary {
            prefix.push(ss.last().uuid)
        } else {
            prefix
        }
    }
}

/// Collect the primary service UUIDs to advertise, in registration order.
pub fn advertised_services(catalog: &ServiceCatalog) -> (out: Vec<BleUuid>)
    ensures
        out@ == spec_primary_uuids(catalog.services@),
{
    let n = catalog.services.len();
    let mut out: Vec<BleUuid> = Vec::new();
    let mut i: usize = 0;
    proof {
        assert(catalog.services@.take(0) =~= Seq::<Service>::empty());
    }
    while i < n
        invariant
            n == catalog.services@.len(),
            i <= n,
            out@ =~= spec_primary_uuids(catalog.services@.take(i as int)),
        decreases n - i,
    {
        let ghost taken = catalog.services@.take(i as int);
        let ghost taken_next = catalog.services@.take(i as int + 1);
        proof {
            assert(taken_next.drop_last() =~= taken);
            assert(taken_next.last() == catalog.services@[i as int]);
        }
        if catalog.services[i].primary {
            out.push(catalog.services[i].uuid);
        }
        i = i + 1;
    }
    proof {
        assert(catalog.services@.take(n as int) =~= catalog.services@);
    }
    out
}

} // verus!
