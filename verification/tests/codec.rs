//! Tests of the UUID registry and the HID report codec.

use repeatapad::hid::CodecError;
use repeatapad::hid::HAT_NULL_NIBBLE;
use repeatapad::hid::Report;
use repeatapad::hid::decode_report;
use repeatapad::hid::descriptor;
use repeatapad::hid::encode_report;
use repeatapad::uuids::BLUETOOTH_BASE_UUID;
use repeatapad::uuids::expand_u16;
use repeatapad::uuids::expand_u32;

fn report(buttons: u16, hat: Option<u8>, axes: [i8; 4]) -> Report {
    Report { buttons, hat, x: axes[0], y: axes[1], z: axes[2], rz: axes[3] }
}

#[test]
fn expansion_matches_base_uuid_template() {
    // 0x180F -> 0000180F-0000-1000-8000-00805F9B34FB
    assert_eq!(
        expand_u16(0x180F).value,
        0x0000180F_00001000_80000080_5F9B34FBu128
    );
    assert_eq!(expand_u16(0x1812).value, 0x00001812_00001000_80000080_5F9B34FBu128);
    assert_eq!(expand_u32(0).value, BLUETOOTH_BASE_UUID);
}

#[test]
fn equivalent_representations_compare_equal() {
    assert_eq!(expand_u16(0x2A4D), expand_u32(0x2A4D));
    assert_ne!(expand_u16(0x2A4D), expand_u16(0x2A4E));
}

#[test]
fn descriptor_is_byte_identical_on_every_call() {
    let a = descriptor();
    let b = descriptor();
    assert_eq!(a, b);
}

#[test]
fn descriptor_exact_bytes() {
    let d = descriptor();
    let expected: Vec<u8> = vec![
        0x05, 0x01, 0x09, 0x05, 0xA1, 0x01, 0x85, 0x01, 0x05, 0x09, 0x19, 0x01, 0x29, 0x10, 0x15,
        0x00, 0x25, 0x01, 0x95, 0x10, 0x75, 0x01, 0x81, 0x02, 0x05, 0x01, 0x09, 0x39, 0x15, 0x00,
        0x25, 0x07, 0x75, 0x04, 0x95, 0x01, 0x81, 0x42, 0x75, 0x04, 0x95, 0x01, 0x81, 0x03, 0x05,
        0x01, 0x09, 0x30, 0x09, 0x31, 0x09, 0x32, 0x09, 0x35, 0x15, 0x81, 0x25, 0x7F, 0x75, 0x08,
        0x95, 0x04, 0x81, 0x02, 0xC0,
    ];
    assert_eq!(d, expected);
    assert_eq!(d.len(), 65);
}

#[test]
fn encode_exact_bytes() {
    let r = report(0x0003, Some(2), [0, 0, 0, 0]);
    let bytes = encode_report(&r).unwrap();
    assert_eq!(bytes, vec![0x01, 0x03, 0x00, 0x02, 0x00, 0x00, 0x00, 0x00]);
}

#[test]
fn encode_null_hat_uses_null_nibble() {
    let r = report(0, None, [0, 0, 0, 0]);
    let bytes = encode_report(&r).unwrap();
    assert_eq!(bytes, vec![0x01, 0x00, 0x00, HAT_NULL_NIBBLE, 0x00, 0x00, 0x00, 0x00]);
}

#[test]
fn encode_negative_axes_twos_complement() {
    let r = report(0xFFFF, Some(7), [-127, 127, -1, 1]);
    let bytes = encode_report(&r).unwrap();
    assert_eq!(bytes, vec![0x01, 0xFF, 0xFF, 0x07, 0x81, 0x7F, 0xFF, 0x01]);
}

#[test]
fn round_trip_all_hats_and_extremes() {
    let mut hats: Vec<Option<u8>> = vec![None];
    for h in 0..=7u8 {
        hats.push(Some(h));
    }
    let axes_cases: [[i8; 4]; 4] =
        [[0, 0, 0, 0], [-127, -127, -127, -127], [127, 127, 127, 127], [-5, 9, -64, 33]];
    for buttons in [0u16, 1, 0x0003, 0x8000, 0xFFFF] {
        for hat in &hats {
            for axes in &axes_cases {
                let r = report(buttons, *hat, *axes);
                let bytes = encode_report(&r).unwrap();
                assert_eq!(bytes.len(), 8);
                let back = decode_report(&bytes).unwrap();
                assert_eq!(back, r);
            }
        }
    }
}

#[test]
fn encode_rejects_axis_magnitude_above_127() {
    // Policy: out-of-range fields are rejected, not clamped.
    for bad in [
        report(0, None, [-128, 0, 0, 0]),
        report(0, None, [0, -128, 0, 0]),
        report(0, None, [0, 0, -128, 0]),
        report(0, None, [0, 0, 0, -128]),
    ] {
        assert_eq!(encode_report(&bad), Err(CodecError::MalformedReport));
    }
}

#[test]
fn encode_rejects_hat_above_seven() {
    assert_eq!(
        encode_report(&report(0, Some(8), [0, 0, 0, 0])),
        Err(CodecError::MalformedReport)
    );
    assert_eq!(
        encode_report(&report(0, Some(255), [0, 0, 0, 0])),
        Err(CodecError::MalformedReport)
    );
}

#[test]
fn decode_rejects_wrong_length() {
    assert_eq!(decode_report(&vec![]), Err(CodecError::MalformedReport));
    assert_eq!(
        decode_report(&vec![0x01, 0x00, 0x00, 0x00, 0x00, 0x00, 0x00]),
        Err(CodecError::MalformedReport)
    );
    assert_eq!(
        decode_report(&vec![0x01, 0x00, 0x00, 0x00, 0x00, 0x00, 0x00, 0x00, 0x00]),
        Err(CodecError::MalformedReport)
    );
}

#[test]
fn decode_rejects_out_of_range_bytes() {
    // wrong report ID
    assert_eq!(
        decode_report(&vec![0x02, 0x00, 0x00, 0x00, 0x00, 0x00, 0x00, 0x00]),
        Err(CodecError::MalformedReport)
    );
    // hat nibble above the null state, and nonzero padding bits
    assert_eq!(
        decode_report(&vec![0x01, 0x00, 0x00, 0x09, 0x00, 0x00, 0x00, 0x00]),
        Err(CodecError::MalformedReport)
    );
    assert_eq!(
        decode_report(&vec![0x01, 0x00, 0x00, 0x12, 0x00, 0x00, 0x00, 0x00]),
        Err(CodecError::MalformedReport)
    );
    // an axis byte standing for -128
    assert_eq!(
        decode_report(&vec![0x01, 0x00, 0x00, 0x00, 0x80, 0x00, 0x00, 0x00]),
        Err(CodecError::MalformedReport)
    );
}

#[test]
fn decode_null_hat() {
    let r = decode_report(&vec![0x01, 0x00, 0x00, 0x08, 0x00, 0x00, 0x00, 0x00]).unwrap();
    assert_eq!(r.hat, None);
    let r2 = decode_report(&vec![0x01, 0x00, 0x00, 0x05, 0x00, 0x00, 0x00, 0x00]).unwrap();
    assert_eq!(r2.hat, Some(5));
}
