//! Canonical UUID identities for every service and characteristic the
//! peripheral exposes, with expansion of Bluetooth-assigned short UUIDs to
//! their full 128-bit form.

use vstd::prelude::*;

verus! {

/// The Bluetooth base UUID 00000000-0000-1000-8000-00805F9B34FB as a
/// big-endian 128-bit value. A short UUID occupies bits 96..128 of the
/// expanded form.
pub const BLUETOOTH_BASE_UUID: u128 = 0x00000000_00001000_80000080_5F9B34FB;

/// 2^96: the factor that places a short UUID into bits 96..128.
pub const SHORT_UUID_FACTOR: u128 = 0x1_00000000_00000000_00000000;

/// A full 128-bit Bluetooth UUID in canonical (expanded) form. Equality and
/// hashing are on the full value only, so two identifiers that denote the
/// same assigned number always compare equal.
#[derive(Clone, Copy, Debug, PartialEq, Eq, Structural, Hash)]
pub struct BleUuid {
    pub value: u128,
}

/// The canonical expansion of a short UUID: the 32-bit value placed in the
/// top 32 bits of the Bluetooth base UUID.
pub open spec fn spec_expand(short: u32) -> u128 {
    (BLUETOOTH_BASE_UUID + (short as u128) * SHORT_UUID_FACTOR) as u128
}

/// Expand a 16-bit Bluetooth-assigned short UUID to its full 128-bit form.
pub fn expand_u16(short: u16) -> (r: BleUuid)
    ensures
        r.value == spec_expand(short as u32),
{
    BleUuid { value: BLUETOOTH_BASE_UUID + (short as u128) * SHORT_UUID_FACTOR }
}

/// Expand a 32-bit Bluetooth-assigned short UUID to its full 128-bit form.
pub fn expand_u32(short: u32) -> (r: BleUuid)
    ensures
        r.value == spec_expand(short),
{
    BleUuid { value: BLUETOOTH_BASE_UUID + (short as u128) * SHORT_UUID_FACTOR }
}

/// Expansion never identifies two distinct short UUIDs.
pub proof fn lemma_expand_injective(a: u32, b: u32)
    ensures
        spec_expand(a) == spec_expand(b) ==> a == b,
{
}

/// Short UUID of the HID (HID-over-GATT) service.
pub const SHORT_SERVICE_HID: u16 = 0x1812;

/// Short UUID of the HID Information characteristic.
pub const SHORT_CHAR_HID_INFORMATION: u16 = 0x2A4A;

/// Short UUID of the Report Map characteristic.
pub const SHORT_CHAR_REPORT_MAP: u16 = 0x2A4B;

/// Short UUID of the HID Control Point characteristic.
pub const SHORT_CHAR_HID_CONTROL_POINT: u16 = 0x2A4C;

/// Short UUID of the Report characteristic.
pub const SHORT_CHAR_REPORT: u16 = 0x2A4D;

/// Short UUID of the Protocol Mode characteristic.
pub const SHORT_CHAR_PROTOCOL_MODE: u16 = 0x2A4E;

/// Short UUID of the Battery service.
pub const SHORT_SERVICE_BATTERY: u16 = 0x180F;

/// Short UUID of the Battery Level characteristic.
pub const SHORT_CHAR_BATTERY_LEVEL: u16 = 0x2A19;

/// Short UUID of the Device Information service (not registered here).
pub const SHORT_SERVICE_DEVICE_INFO: u16 = 0x180A;

/// The full UUID of the HID service.
pub open spec fn hid_service_uuid() -> BleUuid {
    BleUuid { value: spec_expand(SHORT_SERVICE_HID as u32) }
}

/// The full UUID of the HID Information characteristic.
pub open spec fn hid_information_uuid() -> BleUuid {
    BleUuid { value: spec_expand(SHORT_CHAR_HID_INFORMATION as u32) }
}

/// The full UUID of the Report Map characteristic.
pub open spec fn report_map_uuid() -> BleUuid {
    BleUuid { value: spec_expand(SHORT_CHAR_REPORT_MAP as u32) }
}

/// The full UUID of the HID Control Point characteristic.
pub open spec fn hid_control_point_uuid() -> BleUuid {
    BleUuid { value: spec_expand(SHORT_CHAR_HID_CONTROL_POINT as u32) }
}

/// The full UUID of the Report characteristic.
pub open spec fn report_uuid() -> BleUuid {
    BleUuid { value: spec_expand(SHORT_CHAR_REPORT as u32) }
}

/// The full UUID of the Protocol Mode characteristic.
pub open spec fn protocol_mode_uuid() -> BleUuid {
    BleUuid { value: spec_expand(SHORT_CHAR_PROTOCOL_MODE as u32) }
}

/// The full UUID of the Battery service.
pub open spec fn battery_service_uuid() -> BleUuid {
    BleUuid { value: spec_expand(SHORT_SERVICE_BATTERY as u32) }
}

/// The full UUID of the Battery Level characteristic.
pub open spec fn battery_level_uuid() -> BleUuid {
    BleUuid { value: spec_expand(SHORT_CHAR_BATTERY_LEVEL as u32) }
}

} // verus!
