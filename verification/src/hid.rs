//! The HID report codec: the fixed report-map descriptor that tells a central
//! device the shape of the gamepad's input reports, and the encoder/decoder
//! for live reports in exactly that shape.
//!
//! The wire layout of a report is: one report-ID byte (always 1), a 16-bit
//! little-endian button mask, one byte holding the hat-switch nibble (0..=7,
//! or 8 for "no direction") in its low half and zero padding in its high
//! half, then four signed 8-bit axes (X, Y, Z, Rz), each in [-127, 127].
//! The descriptor and the encoder must never drift apart: both are pinned to
//! the same specification functions here.

use vstd::prelude::*;

verus! {

/// The nibble that encodes "no hat direction": the descriptor declares the
/// hat as a 4-bit field with a null state, so the one value outside the
/// logical range 0..=7 signals that no direction is pressed.
pub const HAT_NULL_NIBBLE: u8 = 0x08;

/// A decoded gamepad input report: 16 buttons, an optional hat-switch
/// direction (0..=7, clockwise from north), and four signed axes.
#[derive(Clone, Copy, Debug, PartialEq, Eq)]
pub struct Report {
    pub buttons: u16,
    pub hat: Option<u8>,
    pub x: i8,
    pub y: i8,
    pub z: i8,
    pub rz: i8,
}

/// Errors of the codec.
#[derive(Clone, Copy, Debug, PartialEq, Eq, Structural)]
pub enum CodecError {
    /// A report (or its byte form) is outside the wire layout: wrong length,
    /// wrong report ID, a hat value above 7, or an axis of magnitude above
    /// 127.
    MalformedReport,
}

/// A report that the wire layout can carry: the hat, if present, is one of
/// the eight directions, and every axis magnitude is at most 127 (the i8
/// value -128 lies outside the descriptor's logical range).
pub open spec fn report_wf(r: Report) -> bool {
    &&& (r.hat matches Some(h) ==> h <= 7)
    &&& r.x >= -127
    &&& r.y >= -127
    &&& r.z >= -127
    &&& r.rz >= -127
}

/// The nibble a hat value encodes to: the direction itself, or the null
/// state for "no direction".
pub open spec fn spec_hat_nibble(hat: Option<u8>) -> u8 {
    match hat {
        Some(h) => h,
        None => HAT_NULL_NIBBLE,
    }
}

/// The byte a signed axis value encodes to (two's complement).
pub open spec fn spec_axis_byte(a: i8) -> u8 {
    if a >= 0 {
        a as u8
    } else {
        (a + 256) as u8
    }
}

/// The signed axis value a byte decodes to (two's complement).
pub open spec fn spec_byte_axis(b: u8) -> i8 {
    if b < 128 {
        b as i8
    } else {
        (b - 256) as i8
    }
}

/// The exact 8-byte wire form of a report.
pub open spec fn spec_encode(r: Report) -> Seq<u8> {
    seq![
        1u8,
        (r.buttons % 256) as u8,
        (r.buttons / 256) as u8,
        spec_hat_nibble(r.hat),
        spec_axis_byte(r.x),
        spec_axis_byte(r.y),
        spec_axis_byte(r.z),
        spec_axis_byte(r.rz),
    ]
}

/// Whether a byte sequence is the wire form of some well-formed report:
/// exactly 8 bytes, report ID 1, a hat nibble of 0..=8 with zero padding in
/// the high half, and no axis byte standing for -128.
pub open spec fn valid_report_bytes(s: Seq<u8>) -> bool {
    &&& s.len() == 8
    &&& s[0] == 1
    &&& s[3] <= 8
    &&& s[4] != 128
    &&& s[5] != 128
    &&& s[6] != 128
    &&& s[7] != 128
}

/// The report a valid byte sequence decodes to.
pub open spec fn spec_decode(s: Seq<u8>) -> Report {
    Report {
        buttons: (s[1] + s[2] * 256) as u16,
        hat: if s[3] == HAT_NULL_NIBBLE {
            None
        } else {
            Some(s[3])
        },
        x: spec_byte_axis(s[4]),
        y: spec_byte_axis(s[5]),
        z: spec_byte_axis(s[6]),
        rz: spec_byte_axis(s[7]),
    }
}

/// The exact byte sequence of the HID report-map descriptor. It frames one
/// application collection (Generic Desktop / Game Pad) carrying report ID 1,
/// a 16-button array, a 4-bit hat switch with a null state plus 4 bits of
/// constant padding, and four signed 8-bit axes (X, Y, Z, Rz) with logical
/// range [-127, 127]. This sequence is the wire contract that a central
/// device parses to learn the report shape, and `spec_encode` packs reports
/// in exactly the layout it declares.
pub open spec fn spec_report_map() -> Seq<u8> {
    seq![
        // Usage Page (Generic Desktop), Usage (Game Pad)
        0x05u8, 0x01, 0x09, 0x05,
        // Collection (Application), Report ID (1)
        0xA1, 0x01, 0x85, 0x01,
        // Usage Page (Button), Usage Minimum (1), Usage Maximum (16)
        0x05, 0x09, 0x19, 0x01, 0x29, 0x10,
        // Logical Minimum (0), Logical Maximum (1)
        0x15, 0x00, 0x25, 0x01,
        // Report Count (16), Report Size (1), Input (Data,Var,Abs)
        0x95, 0x10, 0x75, 0x01, 0x81, 0x02,
        // Usage Page (Generic Desktop), Usage (Hat switch)
        0x05, 0x01, 0x09, 0x39,
        // Logical Minimum (0), Logical Maximum (7)
        0x15, 0x00, 0x25, 0x07,
        // Report Size (4), Report Count (1), Input (Data,Var,Abs,Null)
        0x75, 0x04, 0x95, 0x01, 0x81, 0x42,
        // Report Size (4), Report Count (1), Input (Const,Var,Abs) padding
        0x75, 0x04, 0x95, 0x01, 0x81, 0x03,
        // Usage Page (Generic Desktop), Usages (X, Y, Z, Rz)
        0x05, 0x01, 0x09, 0x30, 0x09, 0x31, 0x09, 0x32, 0x09, 0x35,
        // Logical Minimum (-127), Logical Maximum (127)
        0x15, 0x81, 0x25, 0x7F,
        // Report Size (8), Report Count (4), Input (Data,Var,Abs)
        0x75, 0x08, 0x95, 0x04, 0x81, 0x02,
        // End Collection
        0xC0,
    ]
}

/// The HID report-map descriptor, the value of the Report Map
/// characteristic. Pure: every call returns the one byte sequence that
/// `spec_report_map` fixes.
pub fn descriptor() -> (r: Vec<u8>)
    ensures
        r@ == spec_report_map(),
{
    let v: Vec<u8> = vec![
        0x05u8, 0x01, 0x09, 0x05,
        0xA1, 0x01, 0x85, 0x01,
        0x05, 0x09, 0x19, 0x01, 0x29, 0x10,
        0x15, 0x00, 0x25, 0x01,
        0x95, 0x10, 0x75, 0x01, 0x81, 0x02,
        0x05, 0x01, 0x09, 0x39,
        0x15, 0x00, 0x25, 0x07,
        0x75, 0x04, 0x95, 0x01, 0x81, 0x42,
        0x75, 0x04, 0x95, 0x01, 0x81, 0x03,
        0x05, 0x01, 0x09, 0x30, 0x09, 0x31, 0x09, 0x32, 0x09, 0x35,
        0x15, 0x81, 0x25, 0x7F,
        0x75, 0x08, 0x95, 0x04, 0x81, 0x02,
        0xC0,
    ];
    proof {
        assert(v@ =~= spec_report_map());
    }
    v
}

/// Determinism of the descriptor: any two values that meet `descriptor`'s
/// contract are byte-identical.
pub proof fn lemma_descriptor_deterministic(a: Seq<u8>, b: Seq<u8>)
    requires
        a == spec_report_map(),
        b == spec_report_map(),
    ensures
        a == b,
{
}

/// Encode one signed axis value as its two's-complement byte.
fn axis_byte(a: i8) -> (b: u8)
    requires
        a >= -127,
    ensures
        b == spec_axis_byte(a),
{
    if a >= 0 {
        a as u8
    } else {
        ((a as i16) + 256) as u8
    }
}

/// Decode one two's-complement byte back to a signed axis value.
fn byte_axis(b: u8) -> (a: i8)
    requires
        b != 128,
    ensures
        a == spec_byte_axis(b),
        a >= -127,
{
    if b < 128 {
        b as i8
    } else {
        ((b as i16) - 256) as i8
    }
}

/// Encode a report into its 8-byte wire form.
///
/// Policy for out-of-range fields: they are rejected, never clamped or
/// wrapped. A hat direction above 7 or an axis of -128 yields
/// `MalformedReport` and no bytes.
pub fn encode_report(r: &Report) -> (out: Result<Vec<u8>, CodecError>)
    ensures
        out is Ok <==> report_wf(*r),
        out matches Ok(v) ==> v@ == spec_encode(*r),
        out matches Err(e) ==> e == CodecError::MalformedReport,
{
    match r.hat {
        Some(h) => {
            if h > 7 {
                return Err(CodecError::MalformedReport);
            }
        },
        None => {},
    }
    if r.x == -128 || r.y == -128 || r.z == -128 || r.rz == -128 {
        return Err(CodecError::MalformedReport);
    }
    let hat_nibble: u8 = match r.hat {
        Some(h) => h,
        None => HAT_NULL_NIBBLE,
    };
    let mut v: Vec<u8> = Vec::new();
    v.push(1u8);
    v.push((r.buttons % 256) as u8);
    v.push((r.buttons / 256) as u8);
    v.push(hat_nibble);
    v.push(axis_byte(r.x));
    v.push(axis_byte(r.y));
    v.push(axis_byte(r.z));
    v.push(axis_byte(r.rz));
    proof {
        assert(v@ =~= spec_encode(*r));
    }
    Ok(v)
}

/// Decode an 8-byte wire form back into a report.
///
/// Rejects, with `MalformedReport`, any byte sequence that the encoder could
/// not have produced: wrong length, a report ID other than 1, a hat byte
/// above 8 (which covers nonzero padding bits), or an axis byte of 0x80.
pub fn decode_report(bytes: &Vec<u8>) -> (out: Result<Report, CodecError>)
    ensures
        out is Ok <==> valid_report_bytes(bytes@),
        out matches Ok(r) ==> r == spec_decode(bytes@) && report_wf(r),
        out matches Err(e) ==> e == CodecError::MalformedReport,
{
    if bytes.len() != 8 {
        return Err(CodecError::MalformedReport);
    }
    if bytes[0] != 1 {
        return Err(CodecError::MalformedReport);
    }
    let hat_byte: u8 = bytes[3];
    if hat_byte > 8 {
        return Err(CodecError::MalformedReport);
    }
    let b4: u8 = bytes[4];
    let b5: u8 = bytes[5];
    let b6: u8 = bytes[6];
    let b7: u8 = bytes[7];
    if b4 == 128 || b5 == 128 || b6 == 128 || b7 == 128 {
        return Err(CodecError::MalformedReport);
    }
    let lo: u16 = bytes[1] as u16;
    let hi: u16 = bytes[2] as u16;
    Ok(Report {
        buttons: lo + hi * 256,
        hat: if hat_byte == HAT_NULL_NIBBLE {
            None
        } else {
            Some(hat_byte)
        },
        x: byte_axis(b4),
        y: byte_axis(b5),
        z: byte_axis(b6),
        rz: byte_axis(b7),
    })
}

/// Round trip: decoding the wire form of any well-formed report gives back
/// exactly that report.
pub proof fn lemma_report_round_trip(r: Report)
    requires
        report_wf(r),
    ensures
        valid_report_bytes(spec_encode(r)),
        spec_decode(spec_encode(r)) == r,
{
    let s = spec_encode(r);
    assert(s[1] + s[2] * 256 == r.buttons % 256 + (r.buttons / 256) * 256);
    assert(r.buttons % 256 + (r.buttons / 256) * 256 == r.buttons) by {
        vstd::arithmetic::div_mod::lemma_fundamental_div_mod(
            r.buttons as int,
            256,
        );
    }
}

/// Round trip in the other direction: re-encoding a decoded valid byte
/// sequence gives back exactly those bytes.
pub proof fn lemma_bytes_round_trip(s: Seq<u8>)
    requires
        valid_report_bytes(s),
    ensures
        report_wf(spec_decode(s)),
        spec_encode(spec_decode(s)) =~= s,
{
    let r = spec_decode(s);
    assert(r.buttons == s[1] + s[2] * 256);
    assert((s[1] + s[2] * 256) % 256 == s[1] && (s[1] + s[2] * 256) / 256 == s[2]) by {
        vstd::arithmetic::div_mod::lemma_fundamental_div_mod_converse(
            s[1] + s[2] * 256,
            256,
            s[2] as int,
            s[1] as int,
        );
    }
}

} // verus!

