//! Tests of the catalog, the request router, and the session controller.

use repeatapad::catalog::CatalogError;
use repeatapad::catalog::Characteristic;
use repeatapad::catalog::CharacteristicProperty;
use repeatapad::catalog::Service;
use repeatapad::catalog::ServiceCatalog;
use repeatapad::catalog::ValueSource;
use repeatapad::catalog::default_catalog;
use repeatapad::hid::Report;
use repeatapad::hid::CodecError;
use repeatapad::hid::descriptor;
use repeatapad::router::GattEvent;
use repeatapad::router::Outcome;
use repeatapad::router::ReplyStatus;
use repeatapad::router::handle_event;
use repeatapad::router::handle_read;
use repeatapad::router::handle_subscription;
use repeatapad::router::handle_write;
use repeatapad::router::initial_state;
use repeatapad::router::remove_client;
use repeatapad::router::update_battery;
use repeatapad::router::update_report;
use repeatapad::session::SessionAction;
use repeatapad::session::SessionInput;
use repeatapad::session::SessionPhase;
use repeatapad::session::StartupError;
use repeatapad::session::advertised_services;
use repeatapad::session::device_name;
use repeatapad::session::new_session;
use repeatapad::session::step;
use repeatapad::uuids::BleUuid;
use repeatapad::uuids::expand_u16;

const SERVICE_HID: u16 = 0x1812;
const SERVICE_BATTERY: u16 = 0x180F;
const SERVICE_DEVICE_INFO: u16 = 0x180A;
const CHAR_HID_INFORMATION: u16 = 0x2A4A;
const CHAR_REPORT_MAP: u16 = 0x2A4B;
const CHAR_CONTROL_POINT: u16 = 0x2A4C;
const CHAR_REPORT: u16 = 0x2A4D;
const CHAR_PROTOCOL_MODE: u16 = 0x2A4E;
const CHAR_BATTERY_LEVEL: u16 = 0x2A19;
const CHAR_PNP_ID: u16 = 0x2A50;

fn uuid(short: u16) -> BleUuid {
    expand_u16(short)
}

fn zero_report() -> Report {
    Report { buttons: 0, hat: None, x: 0, y: 0, z: 0, rz: 0 }
}

#[test]
fn register_rejects_duplicate_service() {
    let mut cat = ServiceCatalog::new();
    let svc = Service { uuid: uuid(SERVICE_BATTERY), primary: true, characteristics: Vec::new() };
    let again = Service { uuid: uuid(SERVICE_BATTERY), primary: false, characteristics: Vec::new() };
    assert_eq!(cat.register(svc), Ok(()));
    assert_eq!(cat.register(again), Err(CatalogError::DuplicateService));
    assert_eq!(cat.services.len(), 1);
}

#[test]
fn register_preserves_order() {
    let mut cat = ServiceCatalog::new();
    let a = Service { uuid: uuid(SERVICE_HID), primary: true, characteristics: Vec::new() };
    let b = Service { uuid: uuid(SERVICE_BATTERY), primary: true, characteristics: Vec::new() };
    assert_eq!(cat.register(a), Ok(()));
    assert_eq!(cat.register(b), Ok(()));
    assert_eq!(cat.services[0].uuid, uuid(SERVICE_HID));
    assert_eq!(cat.services[1].uuid, uuid(SERVICE_BATTERY));
}

#[test]
fn lookup_routes_known_pairs_only() {
    let cat = default_catalog();
    let c = cat.lookup(uuid(SERVICE_HID), uuid(CHAR_REPORT)).unwrap();
    assert_eq!(c.uuid, uuid(CHAR_REPORT));
    assert!(c.properties.contains(&CharacteristicProperty::NotifyEncryptionRequired));
    let b = cat.lookup(uuid(SERVICE_BATTERY), uuid(CHAR_BATTERY_LEVEL)).unwrap();
    assert_eq!(b.uuid, uuid(CHAR_BATTERY_LEVEL));
    assert!(cat.lookup(uuid(SERVICE_DEVICE_INFO), uuid(CHAR_PNP_ID)).is_none());
    assert!(cat.lookup(uuid(SERVICE_HID), uuid(CHAR_BATTERY_LEVEL)).is_none());
}

#[test]
fn default_catalog_shape() {
    let cat = default_catalog();
    assert_eq!(cat.services.len(), 2);
    assert_eq!(cat.services[0].uuid, uuid(SERVICE_HID));
    assert!(cat.services[0].primary);
    assert_eq!(cat.services[0].characteristics.len(), 5);
    assert_eq!(cat.services[1].uuid, uuid(SERVICE_BATTERY));
    assert_eq!(cat.services[1].characteristics.len(), 1);
    let report_map: &Characteristic = &cat.services[0].characteristics[1];
    assert_eq!(report_map.source, ValueSource::Static(descriptor()));
}

#[test]
fn read_battery_level_before_any_update() {
    let cat = default_catalog();
    let st = initial_state();
    let r = handle_read(&cat, &st, uuid(SERVICE_BATTERY), uuid(CHAR_BATTERY_LEVEL), 0);
    assert_eq!(r.status, ReplyStatus::Success);
    assert_eq!(r.value, vec![90]);
}

#[test]
fn read_protocol_mode_is_report_mode() {
    let cat = default_catalog();
    let st = initial_state();
    let r = handle_read(&cat, &st, uuid(SERVICE_HID), uuid(CHAR_PROTOCOL_MODE), 0);
    assert_eq!(r.status, ReplyStatus::Success);
    assert_eq!(r.value, vec![0x01]);
}

#[test]
fn read_unregistered_device_info_not_supported() {
    let cat = default_catalog();
    let st = initial_state();
    let r = handle_read(&cat, &st, uuid(SERVICE_DEVICE_INFO), uuid(CHAR_PNP_ID), 0);
    assert_eq!(r.status, ReplyStatus::RequestNotSupported);
    assert!(r.value.is_empty());
}

#[test]
fn read_unknown_characteristic_not_supported() {
    let cat = default_catalog();
    let st = initial_state();
    let r = handle_read(&cat, &st, uuid(SERVICE_HID), uuid(CHAR_BATTERY_LEVEL), 0);
    assert_eq!(r.status, ReplyStatus::RequestNotSupported);
    assert!(r.value.is_empty());
}

#[test]
fn read_write_only_control_point_not_supported() {
    let cat = default_catalog();
    let st = initial_state();
    let r = handle_read(&cat, &st, uuid(SERVICE_HID), uuid(CHAR_CONTROL_POINT), 0);
    assert_eq!(r.status, ReplyStatus::RequestNotSupported);
    assert!(r.value.is_empty());
}

#[test]
fn read_hid_information() {
    let cat = default_catalog();
    let st = initial_state();
    let r = handle_read(&cat, &st, uuid(SERVICE_HID), uuid(CHAR_HID_INFORMATION), 0);
    assert_eq!(r.status, ReplyStatus::Success);
    assert_eq!(r.value, vec![0x11, 0x01, 0x00, 0x03]);
}

#[test]
fn read_report_map_serves_descriptor() {
    let cat = default_catalog();
    let st = initial_state();
    let r = handle_read(&cat, &st, uuid(SERVICE_HID), uuid(CHAR_REPORT_MAP), 0);
    assert_eq!(r.status, ReplyStatus::Success);
    assert_eq!(r.value, descriptor());
}

#[test]
fn read_respects_offset() {
    let cat = default_catalog();
    let st = initial_state();
    let r = handle_read(&cat, &st, uuid(SERVICE_HID), uuid(CHAR_REPORT_MAP), 60);
    assert_eq!(r.status, ReplyStatus::Success);
    assert_eq!(r.value, descriptor()[60..].to_vec());
    let beyond = handle_read(&cat, &st, uuid(SERVICE_HID), uuid(CHAR_REPORT_MAP), 66);
    assert_eq!(beyond.status, ReplyStatus::Success);
    assert!(beyond.value.is_empty());
}

#[test]
fn read_live_report_serves_current_encoding() {
    let cat = default_catalog();
    let mut st = initial_state();
    let r0 = handle_read(&cat, &st, uuid(SERVICE_HID), uuid(CHAR_REPORT), 0);
    assert_eq!(r0.status, ReplyStatus::Success);
    assert_eq!(r0.value, vec![0x01, 0x00, 0x00, 0x08, 0x00, 0x00, 0x00, 0x00]);
    let pushed = Report { buttons: 0x0003, hat: Some(2), x: 0, y: 0, z: 0, rz: 0 };
    update_report(&mut st, &pushed).unwrap();
    let r1 = handle_read(&cat, &st, uuid(SERVICE_HID), uuid(CHAR_REPORT), 0);
    assert_eq!(r1.value, vec![0x01, 0x03, 0x00, 0x02, 0x00, 0x00, 0x00, 0x00]);
}

#[test]
fn write_without_response_to_control_point_sends_nothing() {
    let cat = default_catalog();
    let out = handle_write(&cat, uuid(SERVICE_HID), uuid(CHAR_CONTROL_POINT), &vec![0x00], false);
    assert!(out.is_none());
}

#[test]
fn write_with_response_to_control_point_not_supported() {
    let cat = default_catalog();
    let out = handle_write(&cat, uuid(SERVICE_HID), uuid(CHAR_CONTROL_POINT), &vec![0x00], true);
    assert_eq!(out.unwrap().status, ReplyStatus::RequestNotSupported);
}

#[test]
fn write_with_response_to_protocol_mode_not_supported() {
    // Protocol Mode only supports WriteWithoutResponse.
    let cat = default_catalog();
    let out = handle_write(&cat, uuid(SERVICE_HID), uuid(CHAR_PROTOCOL_MODE), &vec![0x00], true);
    assert_eq!(out.unwrap().status, ReplyStatus::RequestNotSupported);
}

#[test]
fn write_to_unknown_pair() {
    let cat = default_catalog();
    let with_response =
        handle_write(&cat, uuid(SERVICE_DEVICE_INFO), uuid(CHAR_PNP_ID), &vec![], true);
    assert_eq!(with_response.unwrap().status, ReplyStatus::RequestNotSupported);
    let fire_and_forget =
        handle_write(&cat, uuid(SERVICE_DEVICE_INFO), uuid(CHAR_PNP_ID), &vec![], false);
    assert!(fire_and_forget.is_none());
}

#[test]
fn subscribe_then_push_report_notifies() {
    let cat = default_catalog();
    let mut st = initial_state();
    handle_subscription(&cat, &mut st, 7, uuid(SERVICE_HID), uuid(CHAR_REPORT), true);
    let pushed = Report { buttons: 0x0003, hat: Some(2), x: 0, y: 0, z: 0, rz: 0 };
    let notifications = update_report(&mut st, &pushed).unwrap();
    assert_eq!(notifications.len(), 1);
    assert_eq!(notifications[0].client, 7);
    assert_eq!(notifications[0].characteristic, uuid(CHAR_REPORT));
    assert_eq!(notifications[0].value, vec![0x01, 0x03, 0x00, 0x02, 0x00, 0x00, 0x00, 0x00]);
}

#[test]
fn unsubscribe_stops_notifications() {
    let cat = default_catalog();
    let mut st = initial_state();
    handle_subscription(&cat, &mut st, 7, uuid(SERVICE_HID), uuid(CHAR_REPORT), true);
    handle_subscription(&cat, &mut st, 7, uuid(SERVICE_HID), uuid(CHAR_REPORT), false);
    let notifications = update_report(&mut st, &zero_report()).unwrap();
    assert!(notifications.is_empty());
}

#[test]
fn subscribe_is_idempotent() {
    let cat = default_catalog();
    let mut st = initial_state();
    handle_subscription(&cat, &mut st, 7, uuid(SERVICE_HID), uuid(CHAR_REPORT), true);
    handle_subscription(&cat, &mut st, 7, uuid(SERVICE_HID), uuid(CHAR_REPORT), true);
    let notifications = update_report(&mut st, &zero_report()).unwrap();
    assert_eq!(notifications.len(), 1);
}

#[test]
fn subscribe_to_non_notifying_characteristic_is_ignored() {
    let cat = default_catalog();
    let mut st = initial_state();
    handle_subscription(&cat, &mut st, 7, uuid(SERVICE_HID), uuid(CHAR_HID_INFORMATION), true);
    assert!(st.subscriptions.is_empty());
}

#[test]
fn disconnect_tears_down_client_subscriptions() {
    let cat = default_catalog();
    let mut st = initial_state();
    handle_subscription(&cat, &mut st, 7, uuid(SERVICE_HID), uuid(CHAR_REPORT), true);
    handle_subscription(&cat, &mut st, 9, uuid(SERVICE_HID), uuid(CHAR_REPORT), true);
    remove_client(&mut st, 7);
    let notifications = update_report(&mut st, &zero_report()).unwrap();
    assert_eq!(notifications.len(), 1);
    assert_eq!(notifications[0].client, 9);
}

#[test]
fn battery_update_notifies_battery_subscribers() {
    let cat = default_catalog();
    let mut st = initial_state();
    handle_subscription(&cat, &mut st, 4, uuid(SERVICE_BATTERY), uuid(CHAR_BATTERY_LEVEL), true);
    handle_subscription(&cat, &mut st, 5, uuid(SERVICE_HID), uuid(CHAR_REPORT), true);
    let notifications = update_battery(&mut st, 55);
    assert_eq!(notifications.len(), 1);
    assert_eq!(notifications[0].client, 4);
    assert_eq!(notifications[0].value, vec![55]);
    let r = handle_read(&cat, &st, uuid(SERVICE_BATTERY), uuid(CHAR_BATTERY_LEVEL), 0);
    assert_eq!(r.value, vec![55]);
}

#[test]
fn malformed_report_update_leaves_state_unchanged() {
    let cat = default_catalog();
    let mut st = initial_state();
    let bad = Report { buttons: 0, hat: Some(9), x: 0, y: 0, z: 0, rz: 0 };
    assert_eq!(update_report(&mut st, &bad), Err(CodecError::MalformedReport));
    let r = handle_read(&cat, &st, uuid(SERVICE_HID), uuid(CHAR_REPORT), 0);
    assert_eq!(r.value, vec![0x01, 0x00, 0x00, 0x08, 0x00, 0x00, 0x00, 0x00]);
}

#[test]
fn event_routing_read_and_write() {
    let cat = default_catalog();
    let mut st = initial_state();
    let read = GattEvent::Read {
        client: 1,
        service: uuid(SERVICE_BATTERY),
        characteristic: uuid(CHAR_BATTERY_LEVEL),
        offset: 0,
    };
    match handle_event(&cat, &mut st, &read) {
        Outcome::ReadResponse(r) => {
            assert_eq!(r.status, ReplyStatus::Success);
            assert_eq!(r.value, vec![90]);
        },
        other => panic!("expected a read response, got {:?}", other),
    }
    let write = GattEvent::Write {
        client: 1,
        service: uuid(SERVICE_HID),
        characteristic: uuid(CHAR_CONTROL_POINT),
        offset: 0,
        value: vec![0x01],
        with_response: false,
    };
    assert_eq!(handle_event(&cat, &mut st, &write), Outcome::NoResponse);
}

#[test]
fn session_startup_and_shutdown() {
    let cat = default_catalog();
    let mut s = new_session();
    assert_eq!(s.phase, SessionPhase::WaitingForPower);
    assert_eq!(step(&cat, &mut s, &SessionInput::PowerState(false)), SessionAction::QueryPower);
    assert_eq!(
        step(&cat, &mut s, &SessionInput::PowerState(true)),
        SessionAction::RegisterService(0)
    );
    assert_eq!(
        step(&cat, &mut s, &SessionInput::ServiceRegistered(true)),
        SessionAction::RegisterService(1)
    );
    assert_eq!(
        step(&cat, &mut s, &SessionInput::ServiceRegistered(true)),
        SessionAction::StartAdvertising
    );
    assert_eq!(
        step(&cat, &mut s, &SessionInput::AdvertisingStarted(true)),
        SessionAction::NoAction
    );
    assert_eq!(s.phase, SessionPhase::Running);
    let read = GattEvent::Read {
        client: 1,
        service: uuid(SERVICE_HID),
        characteristic: uuid(CHAR_PROTOCOL_MODE),
        offset: 0,
    };
    match step(&cat, &mut s, &SessionInput::Gatt(read)) {
        SessionAction::Respond(Outcome::ReadResponse(r)) => {
            assert_eq!(r.status, ReplyStatus::Success);
            assert_eq!(r.value, vec![0x01]);
        },
        other => panic!("expected a read response, got {:?}", other),
    }
    assert_eq!(step(&cat, &mut s, &SessionInput::ChannelClosed), SessionAction::NoAction);
    assert_eq!(s.phase, SessionPhase::Stopped);
    assert_eq!(step(&cat, &mut s, &SessionInput::PowerState(true)), SessionAction::NoAction);
}

#[test]
fn session_registration_failure_is_fatal() {
    let cat = default_catalog();
    let mut s = new_session();
    step(&cat, &mut s, &SessionInput::PowerState(true));
    let action = step(&cat, &mut s, &SessionInput::ServiceRegistered(false));
    let expected = StartupError::Registration(CatalogError::InvalidCharacteristic);
    assert_eq!(action, SessionAction::Fail(expected));
    assert_eq!(s.phase, SessionPhase::Failed(expected));
    assert_eq!(step(&cat, &mut s, &SessionInput::ServiceRegistered(true)), SessionAction::NoAction);
}

#[test]
fn session_advertising_failure_is_fatal() {
    let cat = default_catalog();
    let mut s = new_session();
    step(&cat, &mut s, &SessionInput::PowerState(true));
    step(&cat, &mut s, &SessionInput::ServiceRegistered(true));
    step(&cat, &mut s, &SessionInput::ServiceRegistered(true));
    let action = step(&cat, &mut s, &SessionInput::AdvertisingStarted(false));
    assert_eq!(action, SessionAction::Fail(StartupError::AdvertisingRejected));
    assert_eq!(s.phase, SessionPhase::Failed(StartupError::AdvertisingRejected));
}

#[test]
fn session_ignores_input_outside_its_phase() {
    let cat = default_catalog();
    let mut s = new_session();
    assert_eq!(
        step(&cat, &mut s, &SessionInput::ChannelClosed),
        SessionAction::NoAction
    );
    assert_eq!(s.phase, SessionPhase::WaitingForPower);
}

#[test]
fn advertising_announces_primary_services() {
    let cat = default_catalog();
    assert_eq!(device_name(), "Repeatapad");
    let primaries = advertised_services(&cat);
    assert_eq!(primaries, vec![uuid(SERVICE_HID), uuid(SERVICE_BATTERY)]);
}
