//! The service catalog: the declarative tree of services, characteristics,
//! properties and value sources that the router uses as its routing table.
//! It is built once at startup and read-only afterwards; only the live
//! values behind `ValueSource::LiveReport` and `ValueSource::LiveBattery`
//! change over the peripheral's lifetime.

use vstd::prelude::*;

use crate::hid::spec_report_map;
use crate::hid::descriptor;
use crate::uuids::BleUuid;
use crate::uuids::battery_level_uuid;
use crate::uuids::battery_service_uuid;
use crate::uuids::expand_u16;
use crate::uuids::lemma_expand_injective;
use crate::uuids::spec_expand;
use crate::uuids::hid_control_point_uuid;
use crate::uuids::hid_information_uuid;
use crate::uuids::hid_service_uuid;
use crate::uuids::protocol_mode_uuid;
use crate::uuids::report_map_uuid;
use crate::uuids::report_uuid;
use crate::uuids::SHORT_CHAR_BATTERY_LEVEL;
use crate::uuids::SHORT_CHAR_HID_CONTROL_POINT;
use crate::uuids::SHORT_CHAR_HID_INFORMATION;
use crate::uuids::SHORT_CHAR_PROTOCOL_MODE;
use crate::uuids::SHORT_CHAR_REPORT;
use crate::uuids::SHORT_CHAR_REPORT_MAP;
use crate::uuids::SHORT_SERVICE_BATTERY;
use crate::uuids::SHORT_SERVICE_HID;

verus! {

/// A capability flag of a characteristic. An operation whose flag is absent
/// from a characteristic's property set must be rejected by the router
/// before any handler runs.
#[derive(Clone, Copy, Debug, PartialEq, Eq, Structural)]
pub enum CharacteristicProperty {
    Read,
    Write,
    WriteWithoutResponse,
    Notify,
    NotifyEncryptionRequired,
    Indicate,
}

/// Where a characteristic's value comes from on a read: a fixed byte blob
/// set at construction, the current input report (encoded on demand), or
/// the current battery level.
#[derive(Debug, PartialEq, Eq)]
pub enum ValueSource {
    Static(Vec<u8>),
    LiveReport,
    LiveBattery,
}

/// One characteristic: identity, capability set, and value source. Identity
/// and properties are immutable after construction.
#[derive(Debug, PartialEq, Eq)]
pub struct Characteristic {
    pub uuid: BleUuid,
    pub properties: Vec<CharacteristicProperty>,
    pub source: ValueSource,
}

/// One service: identity, primary flag, and its characteristics in
/// registration order. The order is preserved for registration with the
/// stack but carries no meaning for lookup.
#[derive(Debug, PartialEq, Eq)]
pub struct Service {
    pub uuid: BleUuid,
    pub primary: bool,
    pub characteristics: Vec<Characteristic>,
}

/// Errors of catalog construction.
#[derive(Clone, Copy, Debug, PartialEq, Eq, Structural)]
pub enum CatalogError {
    /// A service with the same UUID is already registered.
    DuplicateService,
    /// The stack collaborator rejected a service's characteristics at
    /// registration time.
    InvalidCharacteristic,
}

/// Whether `c` declares the property `p`.
pub open spec fn spec_has_property(c: Characteristic, p: CharacteristicProperty) -> bool {
    exists|i: int| 0 <= i < c.properties@.len() && c.properties@[i] == p
}

/// Whether `c` can push updates to subscribers.
pub open spec fn spec_notify_capable(c: Characteristic) -> bool {
    ||| spec_has_property(c, CharacteristicProperty::Notify)
    ||| spec_has_property(c, CharacteristicProperty::NotifyEncryptionRequired)
    ||| spec_has_property(c, CharacteristicProperty::Indicate)
}

/// Whether `c` declares the property `p`.
pub fn has_property(c: &Characteristic, p: CharacteristicProperty) -> (b: bool)
    ensures
        b == spec_has_property(*c, p),
{
    let mut i: usize = 0;
    while i < c.properties.len()
        invariant
            i <= c.properties@.len(),
            forall|j: int| 0 <= j < i ==> c.properties@[j] != p,
        decreases c.properties@.len() - i,
    {
        if c.properties[i] == p {
            return true;
        }
        i = i + 1;
    }
    false
}

/// Whether `c` can push updates to subscribers.
pub fn notify_capable(c: &Characteristic) -> (b: bool)
    ensures
        b == spec_notify_capable(*c),
{
    has_property(c, CharacteristicProperty::Notify)
        || has_property(c, CharacteristicProperty::NotifyEncryptionRequired)
        || has_property(c, CharacteristicProperty::Indicate)
}

/// The first characteristic with UUID `u`, in declaration order.
pub open spec fn find_characteristic(cs: Seq<Characteristic>, u: BleUuid) -> Option<Characteristic>
    decreases cs.len(),
{
    if cs.len() == 0 {
        None
    } else if cs[0].uuid == u {
        Some(cs[0])
    } else {
        find_characteristic(cs.drop_first(), u)
    }
}

/// The first service with UUID `u`, in registration order.
pub open spec fn find_service(ss: Seq<Service>, u: BleUuid) -> Option<Service>
    decreases ss.len(),
{
    if ss.len() == 0 {
        None
    } else if ss[0].uuid == u {
        Some(ss[0])
    } else {
        find_service(ss.drop_first(), u)
    }
}

/// No two services share a UUID: with this, lookup does not depend on
/// registration order.
pub open spec fn distinct_service_uuids(ss: Seq<Service>) -> bool {
    forall|i: int, j: int| 0 <= i < j < ss.len() ==> ss[i].uuid != ss[j].uuid
}

/// The routing table: a mapping from service UUID to service, built once at
/// startup. Lookup on it is the single source of truth for the router.
pub struct ServiceCatalog {
    pub services: Vec<Service>,
}

impl ServiceCatalog {
    /// Every registered service UUID is unique, so lookup is independent of
    /// registration order.
    pub open spec fn wf(self) -> bool {
        distinct_service_uuids(self.services@)
    }

    /// The characteristic the catalog routes (service, characteristic) to.
    pub open spec fn spec_lookup(self, service: BleUuid, characteristic: BleUuid) -> Option<
        Characteristic,
    > {
        match find_service(self.services@, service) {
            Some(s) => find_characteristic(s.characteristics@, characteristic),
            None => None,
        }
    }

    /// An empty catalog.
    pub fn new() -> (c: ServiceCatalog)
        ensures
            c.services@ =~= Seq::<Service>::empty(),
            c.wf(),
    {
        ServiceCatalog { services: Vec::new() }
    }

    /// Register a service. Fails with `DuplicateService`, and leaves the
    /// catalog unchanged, exactly when a service with the same UUID is
    /// already present; otherwise appends the service, preserving
    /// registration order.
    pub fn register(&mut self, service: Service) -> (out: Result<(), CatalogError>)
        ensures
            out is Ok <==> find_service(old(self).services@, service.uuid) is None,
            out is Ok ==> final(self).services@ == old(self).services@.push(service),
            out matches Err(e) ==> final(self).services@ == old(self).services@ && e
                == CatalogError::DuplicateService,
            old(self).wf() ==> final(self).wf(),
    {
        proof {
            assert(self.services@.skip(0) =~= self.services@);
        }
        let n = self.services.len();
        let mut i: usize = 0;
        while i < n
            invariant
                n == self.services@.len(),
                i <= n,
                find_service(self.services@.skip(i as int), service.uuid) == find_service(
                    self.services@,
                    service.uuid,
                ),
                forall|j: int| 0 <= j < i ==> self.services@[j].uuid != service.uuid,
            decreases n - i,
        {
            proof {
                assert(self.services@.skip(i as int)[0] == self.services@[i as int]);
                assert(self.services@.skip(i as int).drop_first() =~= self.services@.skip(
                    i as int + 1,
                ));
            }
            if self.services[i].uuid == service.uuid {
                return Err(CatalogError::DuplicateService);
            }
            i = i + 1;
        }
        proof {
            assert(self.services@.skip(n as int) =~= Seq::<Service>::empty());
        }
        self.services.push(service);
        proof {
            if old(self).wf() {
                let ss = self.services@;
                assert forall|a: int, b: int| 0 <= a < b < ss.len() implies ss[a].uuid
                    != ss[b].uuid by {
                    if b == ss.len() - 1 {
                        assert(ss[a] == old(self).services@[a]);
                    } else {
                        assert(ss[a] == old(self).services@[a]);
                        assert(ss[b] == old(self).services@[b]);
                    }
                }
                assert(self.wf());
            }
        }
        Ok(())
    }

    /// Look a (service UUID, characteristic UUID) pair up. Returns the
    /// routed characteristic exactly when the catalog holds the pair.
    pub fn lookup(&self, service: BleUuid, characteristic: BleUuid) -> (r: Option<&Characteristic>)
        ensures
            match r {
                Some(c) => self.spec_lookup(service, characteristic) == Some(*c),
                None => self.spec_lookup(service, characteristic) is None,
            },
    {
        proof {
            assert(self.services@.skip(0) =~= self.services@);
        }
        let n = self.services.len();
        let mut i: usize = 0;
        while i < n
            invariant
                n == self.services@.len(),
                i <= n,
                find_service(self.services@.skip(i as int), service) == find_service(
                    self.services@,
                    service,
                ),
            decreases n - i,
        {
            proof {
                assert(self.services@.skip(i as int)[0] == self.services@[i as int]);
                assert(self.services@.skip(i as int).drop_first() =~= self.services@.skip(
                    i as int + 1,
                ));
            }
            if self.services[i].uuid == service {
                let cs = &self.services[i].characteristics;
                proof {
                    assert(cs@.skip(0) =~= cs@);
                }
                let m = cs.len();
                proof {
                    assert(find_service(self.services@, service) == Some(
                        self.services@[i as int],
                    ));
                }
                let mut k: usize = 0;
                while k < m
                    invariant
                        0 <= i < self.services@.len(),
                        cs == &self.services@[i as int].characteristics,
                        find_service(self.services@, service) == Some(self.services@[i as int]),
                        m == cs@.len(),
                        k <= m,
                        find_characteristic(cs@.skip(k as int), characteristic)
                            == find_characteristic(cs@, characteristic),
                    decreases m - k,
                {
                    proof {
                        assert(cs@.skip(k as int)[0] == cs@[k as int]);
                        assert(cs@.skip(k as int).drop_first() =~= cs@.skip(k as int + 1));
                    }
                    if cs[k].uuid == characteristic {
                        proof {
                            assert(find_characteristic(cs@, characteristic) == Some(
                                cs@[k as int],
                            ));
                        }
                        return Some(&cs[k]);
                    }
                    k = k + 1;
                }
                proof {
                    assert(cs@.skip(m as int) =~= Seq::<Characteristic>::empty());
                }
                return None;
            }
            i = i + 1;
        }
        proof {
            assert(self.services@.skip(n as int) =~= Seq::<Service>::empty());
        }
        None
    }
}

/// The value of the HID Information characteristic: HID version 1.11, no
/// country code, flags for a normally connectable remote-wake device.
pub open spec fn spec_hid_information_value() -> Seq<u8> {
    seq![0x11u8, 0x01, 0x00, 0x03]
}

/// The value of the Protocol Mode characteristic: report mode.
pub open spec fn spec_protocol_mode_value() -> Seq<u8> {
    seq![0x01u8]
}

/// The battery level the peripheral starts with, before any update.
pub const INITIAL_BATTERY_LEVEL: u8 = 90;

/// The fixed service tree this peripheral exposes: the HID service with its
/// five characteristics, then the Battery service with Battery Level, both
/// primary, with exactly the properties and value sources stated here.
pub open spec fn is_default_catalog(c: ServiceCatalog) -> bool {
    &&& c.services@.len() == 2
    &&& c.services@[0].uuid == hid_service_uuid()
    &&& c.services@[0].primary
    &&& {
        let cs = c.services@[0].characteristics@;
        &&& cs.len() == 5
        &&& cs[0].uuid == hid_information_uuid()
        &&& cs[0].properties@ =~= seq![CharacteristicProperty::Read]
        &&& (cs[0].source matches ValueSource::Static(v) && v@ =~= spec_hid_information_value())
        &&& cs[1].uuid == report_map_uuid()
        &&& cs[1].properties@ =~= seq![CharacteristicProperty::Read]
        &&& (cs[1].source matches ValueSource::Static(v) && v@ == spec_report_map())
        &&& cs[2].uuid == hid_control_point_uuid()
        &&& cs[2].properties@ =~= seq![CharacteristicProperty::WriteWithoutResponse]
        &&& (cs[2].source matches ValueSource::Static(v) && v@ =~= Seq::<u8>::empty())
        &&& cs[3].uuid == protocol_mode_uuid()
        &&& cs[3].properties@ =~= seq![
            CharacteristicProperty::Read,
            CharacteristicProperty::WriteWithoutResponse,
        ]
        &&& (cs[3].source matches ValueSource::Static(v) && v@ =~= spec_protocol_mode_value())
        &&& cs[4].uuid == report_uuid()
        &&& cs[4].properties@ =~= seq![
            CharacteristicProperty::Read,
            CharacteristicProperty::NotifyEncryptionRequired,
        ]
        &&& cs[4].source is LiveReport
    }
    &&& c.services@[1].uuid == battery_service_uuid()
    &&& c.services@[1].primary
    &&& {
        let cs = c.services@[1].characteristics@;
        &&& cs.len() == 1
        &&& cs[0].uuid == battery_level_uuid()
        &&& cs[0].properties@ =~= seq![
            CharacteristicProperty::Read,
            CharacteristicProperty::Notify,
        ]
        &&& cs[0].source is LiveBattery
    }
}

/// Build the peripheral's fixed service tree. Writes to the HID Control
/// Point and Protocol Mode characteristics are accepted by property but,
/// by documented policy, carry no semantic effect: the peripheral always
/// stays in report mode.
pub fn default_catalog() -> (c: ServiceCatalog)
    ensures
        is_default_catalog(c),
        c.wf(),
{
    let hid_info = Characteristic {
        uuid: expand_u16(SHORT_CHAR_HID_INFORMATION),
        properties: vec![CharacteristicProperty::Read],
        source: ValueSource::Static(vec![0x11u8, 0x01, 0x00, 0x03]),
    };
    let report_map = Characteristic {
        uuid: expand_u16(SHORT_CHAR_REPORT_MAP),
        properties: vec![CharacteristicProperty::Read],
        source: ValueSource::Static(descriptor()),
    };
    let control_point = Characteristic {
        uuid: expand_u16(SHORT_CHAR_HID_CONTROL_POINT),
        properties: vec![CharacteristicProperty::WriteWithoutResponse],
        source: ValueSource::Static(Vec::new()),
    };
    let protocol_mode = Characteristic {
        uuid: expand_u16(SHORT_CHAR_PROTOCOL_MODE),
        properties: vec![
            CharacteristicProperty::Read,
            CharacteristicProperty::WriteWithoutResponse,
        ],
        source: ValueSource::Static(vec![0x01u8]),
    };
    let report = Characteristic {
        uuid: expand_u16(SHORT_CHAR_REPORT),
        properties: vec![
            CharacteristicProperty::Read,
            CharacteristicProperty::NotifyEncryptionRequired,
        ],
        source: ValueSource::LiveReport,
    };
    let battery_level = Characteristic {
        uuid: expand_u16(SHORT_CHAR_BATTERY_LEVEL),
        properties: vec![CharacteristicProperty::Read, CharacteristicProperty::Notify],
        source: ValueSource::LiveBattery,
    };
    let hid_service = Service {
        uuid: expand_u16(SHORT_SERVICE_HID),
        primary: true,
        characteristics: vec![hid_info, report_map, control_point, protocol_mode, report],
    };
    let battery_service = Service {
        uuid: expand_u16(SHORT_SERVICE_BATTERY),
        primary: true,
        characteristics: vec![battery_level],
    };
    let services: Vec<Service> = vec![hid_service, battery_service];
    proof {
        assert(services@.len() == 2);
        assert(services@[0] == hid_service);
        assert(services@[1] == battery_service);
        assert(hid_service.characteristics@.len() == 5);
        assert(hid_service.characteristics@[0] == hid_info);
    }
    ServiceCatalog { services }
}

/// The first match in a characteristic list is the one at `k` when no
/// earlier entry shares its UUID.
pub proof fn lemma_find_characteristic_at(cs: Seq<Characteristic>, k: int)
    requires
        0 <= k < cs.len(),
        forall|j: int| 0 <= j < k ==> cs[j].uuid != cs[k].uuid,
    ensures
        find_characteristic(cs, cs[k].uuid) == Some(cs[k]),
    decreases k,
{
    if k > 0 {
        assert(cs.drop_first()[k - 1] == cs[k]);
        assert forall|j: int| 0 <= j < k - 1 implies (#[trigger] cs.drop_first()[j]).uuid
            != cs.drop_first()[k - 1].uuid by {
            assert(cs.drop_first()[j] == cs[j + 1]);
        }
        lemma_find_characteristic_at(cs.drop_first(), k - 1);
    }
}

/// Where the default catalog routes each of its (service, characteristic)
/// pairs: to the characteristic declared at that position of the tree.
pub proof fn lemma_default_catalog_lookup(c: ServiceCatalog)
    requires
        is_default_catalog(c),
    ensures
        c.spec_lookup(hid_service_uuid(), hid_information_uuid()) == Some(
            c.services@[0].characteristics@[0],
        ),
        c.spec_lookup(hid_service_uuid(), report_map_uuid()) == Some(
            c.services@[0].characteristics@[1],
        ),
        c.spec_lookup(hid_service_uuid(), hid_control_point_uuid()) == Some(
            c.services@[0].characteristics@[2],
        ),
        c.spec_lookup(hid_service_uuid(), protocol_mode_uuid()) == Some(
            c.services@[0].characteristics@[3],
        ),
        c.spec_lookup(hid_service_uuid(), report_uuid()) == Some(
            c.services@[0].characteristics@[4],
        ),
        c.spec_lookup(battery_service_uuid(), battery_level_uuid()) == Some(
            c.services@[1].characteristics@[0],
        ),
{
    let ss = c.services@;
    let cs = ss[0].characteristics@;
    let bs = ss[1].characteristics@;
    assert(find_service(ss, hid_service_uuid()) == Some(ss[0]));
    assert(ss.drop_first()[0] == ss[1]);
    assert(spec_expand(SHORT_SERVICE_HID as u32) != spec_expand(SHORT_SERVICE_BATTERY as u32))
        by {
        lemma_expand_injective(SHORT_SERVICE_HID as u32, SHORT_SERVICE_BATTERY as u32);
    }
    assert(find_service(ss, battery_service_uuid()) == find_service(
        ss.drop_first(),
        battery_service_uuid(),
    ));
    assert(find_service(ss, battery_service_uuid()) == Some(ss[1]));
    assert forall|a: u32, b: u32| a != b implies spec_expand(a) != spec_expand(b) by {
        lemma_expand_injective(a, b);
    }
    lemma_find_characteristic_at(cs, 0);
    lemma_find_characteristic_at(cs, 1);
    lemma_find_characteristic_at(cs, 2);
    lemma_find_characteristic_at(cs, 3);
    lemma_find_characteristic_at(cs, 4);
    lemma_find_characteristic_at(bs, 0);
}

} // verus!
