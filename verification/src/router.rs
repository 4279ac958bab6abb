//! The request router: it maps an inbound (service UUID, characteristic
//! UUID, operation) tuple to the catalog's characteristic and produces a
//! protocol-correct outcome. Every read is answered exactly once; an
//! operation the catalog or the property set does not cover falls through
//! to one explicit `RequestNotSupported` default. Subscriber state is kept
//! per (client, characteristic) pair, and report or battery updates produce
//! the notifications owed to subscribers.

use vstd::prelude::*;

use crate::catalog::Characteristic;
use crate::catalog::is_default_catalog;
use crate::catalog::lemma_default_catalog_lookup;
use crate::catalog::CharacteristicProperty;
use crate::catalog::ServiceCatalog;
use crate::catalog::ValueSource;
use crate::catalog::has_property;
use crate::catalog::notify_capable;
use crate::catalog::spec_has_property;
use crate::catalog::spec_notify_capable;
use crate::catalog::INITIAL_BATTERY_LEVEL;
use crate::hid::CodecError;
use crate::hid::Report;
use crate::hid::encode_report;
use crate::hid::report_wf;
use crate::hid::spec_encode;
use crate::uuids::BleUuid;
use crate::uuids::battery_level_uuid;
use crate::uuids::hid_control_point_uuid;
use crate::uuids::hid_service_uuid;
use crate::uuids::expand_u16;
use crate::uuids::report_uuid;
use crate::uuids::SHORT_CHAR_BATTERY_LEVEL;
use crate::uuids::SHORT_CHAR_REPORT;

verus! {

/// The protocol-level status of a reply to a read or write request.
#[derive(Clone, Copy, Debug, PartialEq, Eq, Structural)]
pub enum ReplyStatus {
    Success,
    RequestNotSupported,
}

/// The one reply owed to a read request.
#[derive(Debug, PartialEq, Eq)]
pub struct ReadReply {
    pub status: ReplyStatus,
    pub value: Vec<u8>,
}

/// The one reply owed to a write-with-response request.
#[derive(Clone, Copy, Debug, PartialEq, Eq, Structural)]
pub struct WriteReply {
    pub status: ReplyStatus,
}

/// One subscriber record: the client holds notifications enabled on the
/// characteristic. Created by a subscription update, destroyed on
/// unsubscribe or client teardown.
#[derive(Clone, Copy, Debug, PartialEq, Eq, Structural)]
pub struct Subscription {
    pub client: u64,
    pub characteristic: BleUuid,
}

/// A notification owed to one subscriber after a live-value update.
#[derive(Debug, PartialEq, Eq)]
pub struct Notification {
    pub client: u64,
    pub characteristic: BleUuid,
    pub value: Vec<u8>,
}

/// No subscriber record occurs twice.
pub open spec fn distinct_subscriptions(s: Seq<Subscription>) -> bool {
    forall|i: int, j: int| 0 <= i < j < s.len() ==> s[i] != s[j]
}

/// The mutable state the router owns: the live values behind the dynamic
/// characteristics, and the subscriber records.
pub struct EngineState {
    pub current_report: Report,
    pub battery_level: u8,
    pub subscriptions: Vec<Subscription>,
}

impl EngineState {
    /// The state invariant: the live report fits the wire layout, the
    /// battery level is a percentage, and subscriber records are unique.
    pub open spec fn wf(self) -> bool {
        &&& report_wf(self.current_report)
        &&& self.battery_level <= 100
        &&& distinct_subscriptions(self.subscriptions@)
    }

    /// Whether `client` holds a subscription on the characteristic.
    pub open spec fn is_subscribed(self, client: u64, characteristic: BleUuid) -> bool {
        self.subscriptions@.contains(Subscription { client, characteristic })
    }
}

/// The state the peripheral starts in: a centered report with nothing
/// pressed, the initial battery level, and no subscribers.
pub fn initial_state() -> (st: EngineState)
    ensures
        st.wf(),
        st.current_report == (Report { buttons: 0, hat: None, x: 0, y: 0, z: 0, rz: 0 }),
        st.battery_level == INITIAL_BATTERY_LEVEL,
        st.subscriptions@ =~= Seq::<Subscription>::empty(),
{
    EngineState {
        current_report: Report { buttons: 0, hat: None, x: 0, y: 0, z: 0, rz: 0 },
        battery_level: INITIAL_BATTERY_LEVEL,
        subscriptions: Vec::new(),
    }
}

/// The bytes a read of `c` serves: its static blob, or the current live
/// value encoded on demand.
pub open spec fn spec_characteristic_value(c: Characteristic, st: EngineState) -> Seq<u8> {
    match c.source {
        ValueSource::Static(v) => v@,
        ValueSource::LiveReport => spec_encode(st.current_report),
        ValueSource::LiveBattery => seq![st.battery_level],
    }
}

/// The partial-read payload: the value from `offset` on, or empty when the
/// offset exceeds the value's length.
pub open spec fn spec_suffix_from(v: Seq<u8>, offset: u64) -> Seq<u8> {
    if offset <= v.len() {
        v.skip(offset as int)
    } else {
        Seq::empty()
    }
}

/// The reply a read of (service, characteristic) at `offset` is owed:
/// `RequestNotSupported` with an empty payload when the pair is not in the
/// catalog or the characteristic is not readable, else `Success` with the
/// value's suffix from `offset`.
pub open spec fn spec_read(
    cat: ServiceCatalog,
    st: EngineState,
    service: BleUuid,
    characteristic: BleUuid,
    offset: u64,
) -> (ReplyStatus, Seq<u8>) {
    match cat.spec_lookup(service, characteristic) {
        None => (ReplyStatus::RequestNotSupported, Seq::empty()),
        Some(c) => if !spec_has_property(c, CharacteristicProperty::Read) {
            (ReplyStatus::RequestNotSupported, Seq::empty())
        } else {
            (ReplyStatus::Success, spec_suffix_from(spec_characteristic_value(c, st), offset))
        },
    }
}

/// The reply a write is owed: none at all without response expected;
/// otherwise `Success` exactly when the characteristic exists and declares
/// `Write`, and `RequestNotSupported` in every other case.
pub open spec fn spec_write_reply(
    cat: ServiceCatalog,
    service: BleUuid,
    characteristic: BleUuid,
    with_response: bool,
) -> Option<ReplyStatus> {
    if !with_response {
        None
    } else {
        match cat.spec_lookup(service, characteristic) {
            None => Some(ReplyStatus::RequestNotSupported),
            Some(c) => if spec_has_property(c, CharacteristicProperty::Write) {
                Some(ReplyStatus::Success)
            } else {
                Some(ReplyStatus::RequestNotSupported)
            },
        }
    }
}

/// Whether a subscription update on the pair takes effect: the pair is in
/// the catalog and the characteristic can push updates.
pub open spec fn spec_subscribe_eligible(
    cat: ServiceCatalog,
    service: BleUuid,
    characteristic: BleUuid,
) -> bool {
    cat.spec_lookup(service, characteristic) matches Some(c) && spec_notify_capable(c)
}

/// The clients owed a notification for the characteristic, in subscription
/// order.
pub open spec fn spec_targets(subs: Seq<Subscription>, characteristic: BleUuid) -> Seq<u64>
    decreases subs.len(),
{
    if subs.len() == 0 {
        Seq::empty()
    } else {
        let prefix = spec_targets(subs.drop_last(), characteristic);
        if subs.last().characteristic == characteristic {
            prefix.push(subs.last().client)
        } else {
            prefix
        }
    }
}

/// Membership in a pushed sequence: the old members plus the new element.
proof fn lemma_contains_push<T>(s: Seq<T>, x: T, y: T)
    ensures
        s.push(x).contains(y) <==> s.contains(y) || y == x,
{
    if s.push(x).contains(y) {
        let i = choose|i: int| 0 <= i < s.push(x).len() && s.push(x)[i] == y;
        if i < s.len() {
            assert(s[i] == y);
        }
    }
    if s.contains(y) {
        let i = choose|i: int| 0 <= i < s.len() && s[i] == y;
        assert(s.push(x)[i] == y);
    }
    if y == x {
        assert(s.push(x)[s.len() as int] == y);
    }
}

/// An element-for-element copy of a byte vector.
fn copy_bytes(v: &Vec<u8>) -> (out: Vec<u8>)
    ensures
        out@ == v@,
{
    let n = v.len();
    let mut out: Vec<u8> = Vec::new();
    let mut i: usize = 0;
    while i < n
        invariant
            n == v@.len(),
            i <= n,
            out@ =~= v@.subrange(0, i as int),
        decreases n - i,
    {
        out.push(v[i]);
        i = i + 1;
    }
    proof {
        assert(out@ =~= v@);
    }
    out
}

/// Serve the current value of a characteristic.
fn read_value(c: &Characteristic, state: &EngineState) -> (v: Vec<u8>)
    requires
        state.wf(),
    ensures
        v@ == spec_characteristic_value(*c, *state),
{
    match &c.source {
        ValueSource::Static(bytes) => copy_bytes(bytes),
        ValueSource::LiveReport => match encode_report(&state.current_report) {
            Ok(bytes) => bytes,
            Err(_) => {
                proof {
                    assert(false);
                }
                Vec::new()
            },
        },
        ValueSource::LiveBattery => {
            let v: Vec<u8> = vec![state.battery_level];
            proof {
                assert(v@ =~= seq![state.battery_level]);
            }
            v
        },
    }
}

/// The suffix of `v` from `offset` on; empty when `offset` exceeds the
/// length (standard partial-read semantics, not an error).
fn suffix_from(v: &Vec<u8>, offset: u64) -> (out: Vec<u8>)
    ensures
        out@ == spec_suffix_from(v@, offset),
{
    let n = v.len();
    if offset >= n as u64 {
        proof {
            if offset <= v@.len() {
                assert(v@.skip(offset as int) =~= Seq::<u8>::empty());
            }
        }
        return Vec::new();
    }
    let start = offset as usize;
    let mut out: Vec<u8> = Vec::new();
    let mut i: usize = start;
    while i < n
        invariant
            n == v@.len(),
            start <= i <= n,
            out@ =~= v@.subrange(start as int, i as int),
        decreases n - i,
    {
        out.push(v[i]);
        i = i + 1;
    }
    proof {
        assert(out@ =~= v@.skip(start as int));
    }
    out
}

/// Answer a read request. Every read gets exactly one reply: the routed
/// value (from `offset` on) on success, or `RequestNotSupported` with an
/// empty payload when the pair is unknown or not readable.
pub fn handle_read(
    catalog: &ServiceCatalog,
    state: &EngineState,
    service: BleUuid,
    characteristic: BleUuid,
    offset: u64,
) -> (r: ReadReply)
    requires
        state.wf(),
    ensures
        r.status == spec_read(*catalog, *state, service, characteristic, offset).0,
        r.value@ == spec_read(*catalog, *state, service, characteristic, offset).1,
{
    match catalog.lookup(service, characteristic) {
        None => ReadReply { status: ReplyStatus::RequestNotSupported, value: Vec::new() },
        Some(c) => {
            if !has_property(c, CharacteristicProperty::Read) {
                ReadReply { status: ReplyStatus::RequestNotSupported, value: Vec::new() }
            } else {
                let full = read_value(c, state);
                let value = suffix_from(&full, offset);
                ReadReply { status: ReplyStatus::Success, value }
            }
        },
    }
}

/// Answer a write request. Content is accepted but, by documented policy,
/// carries no semantic effect: the HID Control Point and Protocol Mode
/// writes this peripheral can receive do not alter report encoding. Without
/// response expected nothing is replied (fire-and-forget); with response,
/// `Success` needs a characteristic that declares `Write`, and everything
/// else is `RequestNotSupported`.
pub fn handle_write(
    catalog: &ServiceCatalog,
    service: BleUuid,
    characteristic: BleUuid,
    _value: &Vec<u8>,
    with_response: bool,
) -> (out: Option<WriteReply>)
    ensures
        match out {
            Some(rep) => spec_write_reply(*catalog, service, characteristic, with_response)
                == Some(rep.status),
            None => spec_write_reply(*catalog, service, characteristic, with_response) is None,
        },
{
    if !with_response {
        return None;
    }
    match catalog.lookup(service, characteristic) {
        None => Some(WriteReply { status: ReplyStatus::RequestNotSupported }),
        Some(c) => {
            if has_property(c, CharacteristicProperty::Write) {
                Some(WriteReply { status: ReplyStatus::Success })
            } else {
                Some(WriteReply { status: ReplyStatus::RequestNotSupported })
            }
        },
    }
}

/// Record a subscription update. A subscribe takes effect exactly when the
/// pair is routed and the characteristic can push updates; an unsubscribe
/// always removes the record. No reply is sent either way: this is the
/// asynchronous notification path, not request/response.
pub fn handle_subscription(
    catalog: &ServiceCatalog,
    state: &mut EngineState,
    client: u64,
    service: BleUuid,
    characteristic: BleUuid,
    subscribed: bool,
)
    requires
        old(state).wf(),
    ensures
        final(state).wf(),
        final(state).current_report == old(state).current_report,
        final(state).battery_level == old(state).battery_level,
        subscribed ==> forall|q: Subscription|
            #[trigger] final(state).subscriptions@.contains(q) <==> (
            old(state).subscriptions@.contains(q) || (spec_subscribe_eligible(
                *catalog,
                service,
                characteristic,
            ) && q == Subscription { client, characteristic })),
        !subscribed ==> forall|q: Subscription|
            #[trigger] final(state).subscriptions@.contains(q) <==> (
            old(state).subscriptions@.contains(q) && q != Subscription { client, characteristic }),
{
    let target = Subscription { client, characteristic };
    if subscribed {
        let eligible = match catalog.lookup(service, characteristic) {
            Some(c) => notify_capable(c),
            None => false,
        };
        if !eligible {
            return;
        }
        let n = state.subscriptions.len();
        let mut i: usize = 0;
        while i < n
            invariant
                subscribed,
                *state == *old(state),
                old(state).wf(),
                spec_subscribe_eligible(*catalog, service, characteristic),
                target == (Subscription { client, characteristic }),
                n == state.subscriptions@.len(),
                i <= n,
                forall|j: int| 0 <= j < i ==> state.subscriptions@[j] != target,
            decreases n - i,
        {
            if state.subscriptions[i] == target {
                proof {
                    assert(state.subscriptions@.contains(target));
                }
                return;
            }
            i = i + 1;
        }
        proof {
            assert(!state.subscriptions@.contains(target)) by {
                if state.subscriptions@.contains(target) {
                    let j = choose|j: int|
                        0 <= j < state.subscriptions@.len() && state.subscriptions@[j] == target;
                    assert(state.subscriptions@[j] != target);
                }
            }
        }
        let ghost before = state.subscriptions@;
        state.subscriptions.push(target);
        proof {
            assert forall|q: Subscription| #[trigger]
                state.subscriptions@.contains(q) <==> (before.contains(q) || q == target) by {
                lemma_contains_push(before, target, q);
            }
            assert(distinct_subscriptions(state.subscriptions@)) by {
                let s = state.subscriptions@;
                assert forall|a: int, b: int| 0 <= a < b < s.len() implies s[a] != s[b] by {
                    if b == s.len() - 1 {
                        assert(s[a] == before[a]);
                    } else {
                        assert(s[a] == before[a]);
                        assert(s[b] == before[b]);
                    }
                }
            }
        }
    } else {
        let n = state.subscriptions.len();
        let mut kept: Vec<Subscription> = Vec::new();
        let mut i: usize = 0;
        proof {
            assert(state.subscriptions@.take(0) =~= Seq::<Subscription>::empty());
        }
        while i < n
            invariant
                *state == *old(state),
                old(state).wf(),
                target == (Subscription { client, characteristic }),
                n == state.subscriptions@.len(),
                i <= n,
                distinct_subscriptions(state.subscriptions@),
                forall|q: Subscription| #[trigger]
                    kept@.contains(q) <==> (state.subscriptions@.take(i as int).contains(q) && q
                        != target),
                distinct_subscriptions(kept@),
            decreases n - i,
        {
            let ghost taken = state.subscriptions@.take(i as int);
            let ghost taken_next = state.subscriptions@.take(i as int + 1);
            let q = state.subscriptions[i];
            proof {
                assert(taken_next =~= taken.push(state.subscriptions@[i as int]));
            }
            if !(q == target) {
                let ghost kept_before = kept@;
                proof {
                    assert(!kept_before.contains(q)) by {
                        if kept_before.contains(q) {
                            assert(taken.contains(q));
                            let j = choose|j: int| 0 <= j < taken.len() && taken[j] == q;
                            assert(state.subscriptions@[j] == q);
                            assert(state.subscriptions@[j] != state.subscriptions@[i as int]);
                        }
                    }
                }
                kept.push(q);
                proof {
                    assert forall|p: Subscription| #[trigger]
                        kept@.contains(p) <==> (kept_before.contains(p) || p == q) by {
                        lemma_contains_push(kept_before, q, p);
                    }
                    assert forall|p: Subscription| #[trigger]
                        taken_next.contains(p) <==> (taken.contains(p) || p == q) by {
                        lemma_contains_push(taken, state.subscriptions@[i as int], p);
                    }
                    assert(distinct_subscriptions(kept@)) by {
                        let s = kept@;
                        assert forall|a: int, b: int| 0 <= a < b < s.len() implies s[a] != s[b] by {
                            if b == s.len() - 1 {
                                assert(s[a] == kept_before[a]);
                                assert(kept_before.contains(s[a]));
                            } else {
                                assert(s[a] == kept_before[a]);
                                assert(s[b] == kept_before[b]);
                            }
                        }
                    }
                }
            } else {
                proof {
                    assert forall|p: Subscription| #[trigger]
                        taken_next.contains(p) <==> (taken.contains(p) || p == q) by {
                        lemma_contains_push(taken, state.subscriptions@[i as int], p);
                    }
                }
            }
            i = i + 1;
        }
        proof {
            assert(state.subscriptions@.take(n as int) =~= state.subscriptions@);
        }
        state.subscriptions = kept;
    }
}

/// Remove every subscriber record of a disconnected client.
pub fn remove_client(state: &mut EngineState, client: u64)
    requires
        old(state).wf(),
    ensures
        final(state).wf(),
        final(state).current_report == old(state).current_report,
        final(state).battery_level == old(state).battery_level,
        forall|q: Subscription| #[trigger]
            final(state).subscriptions@.contains(q) <==> (old(state).subscriptions@.contains(q)
                && q.client != client),
{
    let n = state.subscriptions.len();
    let mut kept: Vec<Subscription> = Vec::new();
    let mut i: usize = 0;
    proof {
        assert(state.subscriptions@.take(0) =~= Seq::<Subscription>::empty());
    }
    while i < n
        invariant
            *state == *old(state),
            old(state).wf(),
            n == state.subscriptions@.len(),
            i <= n,
            distinct_subscriptions(state.subscriptions@),
            forall|q: Subscription| #[trigger]
                kept@.contains(q) <==> (state.subscriptions@.take(i as int).contains(q)
                    && q.client != client),
            distinct_subscriptions(kept@),
        decreases n - i,
    {
        let ghost taken = state.subscriptions@.take(i as int);
        let ghost taken_next = state.subscriptions@.take(i as int + 1);
        let q = state.subscriptions[i];
        proof {
            assert(taken_next =~= taken.push(state.subscriptions@[i as int]));
            assert forall|p: Subscription| #[trigger]
                taken_next.contains(p) <==> (taken.contains(p) || p == q) by {
                lemma_contains_push(taken, state.subscriptions@[i as int], p);
            }
        }
        if q.client != client {
            let ghost kept_before = kept@;
            proof {
                assert(!kept_before.contains(q)) by {
                    if kept_before.contains(q) {
                        assert(taken.contains(q));
                        let j = choose|j: int| 0 <= j < taken.len() && taken[j] == q;
                        assert(state.subscriptions@[j] == q);
                        assert(state.subscriptions@[j] != state.subscriptions@[i as int]);
                    }
                }
            }
            kept.push(q);
            proof {
                assert forall|p: Subscription| #[trigger]
                    kept@.contains(p) <==> (kept_before.contains(p) || p == q) by {
                    lemma_contains_push(kept_before, q, p);
                }
                assert(distinct_subscriptions(kept@)) by {
                    let s = kept@;
                    assert forall|a: int, b: int| 0 <= a < b < s.len() implies s[a] != s[b] by {
                        if b == s.len() - 1 {
                            assert(s[a] == kept_before[a]);
                            assert(kept_before.contains(s[a]));
                        } else {
                            assert(s[a] == kept_before[a]);
                            assert(s[b] == kept_before[b]);
                        }
                    }
                }
            }
        }
        i = i + 1;
    }
    proof {
        assert(state.subscriptions@.take(n as int) =~= state.subscriptions@);
    }
    state.subscriptions = kept;
}

/// The notifications owed to the characteristic's subscribers, each carrying
/// `bytes`, in subscription order.
fn notifications_for(state: &EngineState, characteristic: BleUuid, bytes: &Vec<u8>) -> (out: Vec<
    Notification,
>)
    ensures
        out@.len() == spec_targets(state.subscriptions@, characteristic).len(),
        forall|j: int|
            0 <= j < out@.len() ==> {
                &&& (#[trigger] out@[j]).client == spec_targets(
                    state.subscriptions@,
                    characteristic,
                )[j]
                &&& out@[j].characteristic == characteristic
                &&& out@[j].value@ == bytes@
            },
{
    let n = state.subscriptions.len();
    let mut out: Vec<Notification> = Vec::new();
    let mut i: usize = 0;
    proof {
        assert(state.subscriptions@.take(0) =~= Seq::<Subscription>::empty());
    }
    while i < n
        invariant
            n == state.subscriptions@.len(),
            i <= n,
            out@.len() == spec_targets(state.subscriptions@.take(i as int), characteristic).len(),
            forall|j: int|
                0 <= j < out@.len() ==> {
                    &&& (#[trigger] out@[j]).client == spec_targets(
                        state.subscriptions@.take(i as int),
                        characteristic,
                    )[j]
                    &&& out@[j].characteristic == characteristic
                    &&& out@[j].value@ == bytes@
                },
        decreases n - i,
    {
        let ghost taken = state.subscriptions@.take(i as int);
        let ghost taken_next = state.subscriptions@.take(i as int + 1);
        proof {
            assert(taken_next.drop_last() =~= taken);
            assert(taken_next.last() == state.subscriptions@[i as int]);
        }
        let q = state.subscriptions[i];
        if q.characteristic == characteristic {
            out.push(Notification { client: q.client, characteristic, value: copy_bytes(bytes) });
        }
        i = i + 1;
    }
    proof {
        assert(state.subscriptions@.take(n as int) =~= state.subscriptions@);
    }
    out
}

/// Install a new input report and collect the notifications owed to the
/// Report characteristic's subscribers. A malformed report is rejected and
/// the state is left unchanged.
pub fn update_report(state: &mut EngineState, report: &Report) -> (out: Result<
    Vec<Notification>,
    CodecError,
>)
    requires
        old(state).wf(),
    ensures
        final(state).wf(),
        out is Ok <==> report_wf(*report),
        out matches Err(e) ==> e == CodecError::MalformedReport && *final(state) == *old(state),
        out matches Ok(ns) ==> {
            &&& final(state).current_report == *report
            &&& final(state).battery_level == old(state).battery_level
            &&& final(state).subscriptions@ == old(state).subscriptions@
            &&& ns@.len() == spec_targets(old(state).subscriptions@, report_uuid()).len()
            &&& forall|j: int|
                0 <= j < ns@.len() ==> {
                    &&& (#[trigger] ns@[j]).client == spec_targets(
                        old(state).subscriptions@,
                        report_uuid(),
                    )[j]
                    &&& ns@[j].characteristic == report_uuid()
                    &&& ns@[j].value@ == spec_encode(*report)
                }
        },
{
    let bytes = match encode_report(report) {
        Ok(bytes) => bytes,
        Err(e) => {
            return Err(e);
        },
    };
    state.current_report = *report;
    let out = notifications_for(state, expand_u16(SHORT_CHAR_REPORT), &bytes);
    Ok(out)
}

/// Install a new battery level and collect the notifications owed to the
/// Battery Level characteristic's subscribers.
pub fn update_battery(state: &mut EngineState, level: u8) -> (out: Vec<Notification>)
    requires
        old(state).wf(),
        level <= 100,
    ensures
        final(state).wf(),
        final(state).battery_level == level,
        final(state).current_report == old(state).current_report,
        final(state).subscriptions@ == old(state).subscriptions@,
        out@.len() == spec_targets(old(state).subscriptions@, battery_level_uuid()).len(),
        forall|j: int|
            0 <= j < out@.len() ==> {
                &&& (#[trigger] out@[j]).client == spec_targets(
                    old(state).subscriptions@,
                    battery_level_uuid(),
                )[j]
                &&& out@[j].characteristic == battery_level_uuid()
                &&& out@[j].value@ == seq![level]
            },
{
    state.battery_level = level;
    let bytes: Vec<u8> = vec![level];
    proof {
        assert(bytes@ =~= seq![level]);
    }
    notifications_for(state, expand_u16(SHORT_CHAR_BATTERY_LEVEL), &bytes)
}

/// Law: a read of any (service, characteristic) pair the catalog does not
/// hold is answered `RequestNotSupported` with an empty payload.
pub proof fn lemma_unknown_read_rejected(
    cat: ServiceCatalog,
    st: EngineState,
    service: BleUuid,
    characteristic: BleUuid,
    offset: u64,
)
    requires
        cat.spec_lookup(service, characteristic) is None,
    ensures
        spec_read(cat, st, service, characteristic, offset).0 == ReplyStatus::RequestNotSupported,
        spec_read(cat, st, service, characteristic, offset).1 == Seq::<u8>::empty(),
{
}

/// One inbound event from the BLE stack collaborator, reduced to plain
/// values: the embedding assigns each connected client a numeric handle.
#[derive(Debug, PartialEq, Eq)]
pub enum GattEvent {
    Read { client: u64, service: BleUuid, characteristic: BleUuid, offset: u64 },
    Write {
        client: u64,
        service: BleUuid,
        characteristic: BleUuid,
        offset: u64,
        value: Vec<u8>,
        with_response: bool,
    },
    SubscriptionUpdate { client: u64, service: BleUuid, characteristic: BleUuid, subscribed: bool },
}

/// What the embedding owes the stack after one event: exactly one read
/// reply for a read, a write reply exactly when one is expected, and
/// nothing for the asynchronous paths.
#[derive(Debug, PartialEq, Eq)]
pub enum Outcome {
    ReadResponse(ReadReply),
    WriteResponse(WriteReply),
    NoResponse,
}

/// Route one inbound event. A read is always answered with exactly one
/// reply; a write is answered exactly when a response is expected; a
/// subscription update only changes subscriber state. No event changes the
/// live values, and no single request can fail the loop around this.
pub fn handle_event(catalog: &ServiceCatalog, state: &mut EngineState, event: &GattEvent) -> (out:
    Outcome)
    requires
        old(state).wf(),
    ensures
        final(state).wf(),
        *event matches GattEvent::Read { service, characteristic, offset, .. } ==> {
            &&& *final(state) == *old(state)
            &&& (out matches Outcome::ReadResponse(r) && r.status == spec_read(
                *catalog,
                *old(state),
                service,
                characteristic,
                offset,
            ).0 && r.value@ == spec_read(*catalog, *old(state), service, characteristic, offset).1)
        },
        *event matches GattEvent::Write { service, characteristic, with_response, .. } ==> {
            &&& *final(state) == *old(state)
            &&& (match spec_write_reply(*catalog, service, characteristic, with_response) {
                Some(status) => out == Outcome::WriteResponse(WriteReply { status }),
                None => out == Outcome::NoResponse,
            })
        },
        *event matches GattEvent::SubscriptionUpdate {
            client,
            service,
            characteristic,
            subscribed,
        } ==> {
            &&& out == Outcome::NoResponse
            &&& final(state).current_report == old(state).current_report
            &&& final(state).battery_level == old(state).battery_level
            &&& (subscribed ==> forall|q: Subscription|
                #[trigger] final(state).subscriptions@.contains(q) <==> (
                old(state).subscriptions@.contains(q) || (spec_subscribe_eligible(
                    *catalog,
                    service,
                    characteristic,
                ) && q == Subscription { client, characteristic })))
            &&& (!subscribed ==> forall|q: Subscription|
                #[trigger] final(state).subscriptions@.contains(q) <==> (
                old(state).subscriptions@.contains(q) && q != Subscription {
                    client,
                    characteristic,
                }))
        },
{
    match event {
        GattEvent::Read { service, characteristic, offset, .. } => {
            let reply = handle_read(catalog, state, *service, *characteristic, *offset);
            Outcome::ReadResponse(reply)
        },
        GattEvent::Write { service, characteristic, value, with_response, .. } => {
            match handle_write(catalog, *service, *characteristic, value, *with_response) {
                Some(rep) => Outcome::WriteResponse(rep),
                None => Outcome::NoResponse,
            }
        },
        GattEvent::SubscriptionUpdate { client, service, characteristic, subscribed } => {
            handle_subscription(catalog, state, *client, *service, *characteristic, *subscribed);
            Outcome::NoResponse
        },
    }
}

/// Law: a write that expects no response is never replied to; in
/// particular, a write to the HID Control Point (which only supports
/// WriteWithoutResponse) never triggers a response send, while a
/// write-with-response attempt on it is answered `RequestNotSupported`.
pub proof fn lemma_control_point_write(cat: ServiceCatalog)
    requires
        is_default_catalog(cat),
    ensures
        spec_write_reply(cat, hid_service_uuid(), hid_control_point_uuid(), false) is None,
        spec_write_reply(cat, hid_service_uuid(), hid_control_point_uuid(), true) == Some(
            ReplyStatus::RequestNotSupported,
        ),
{
    lemma_default_catalog_lookup(cat);
    let c = cat.services@[0].characteristics@[2];
    assert(!spec_has_property(c, CharacteristicProperty::Write)) by {
        assert(c.properties@.len() == 1);
        assert(c.properties@[0] == CharacteristicProperty::WriteWithoutResponse);
    }
}

} // verus!
