//! A verified GATT peripheral engine for a virtual HID-over-GATT gamepad.
//!
//! The library models the peripheral's service/characteristic tree, the HID
//! report codec (report map descriptor plus input-report encoding), and the
//! request router that turns inbound central-device operations into
//! protocol-correct responses. The BLE radio stack and the physical input
//! source are outside collaborators: an embedding runs the event loop,
//! performs the I/O, and feeds plain events into the verified logic.

pub mod catalog;
pub mod hid;
pub mod router;
pub mod session;
pub mod uuids;
