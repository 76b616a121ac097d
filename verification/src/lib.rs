//! Host-independent logic of a USB HID gamepad: stick scaling, d-pad hat
//! table, report packing and the WS2812 rainbow, with their contracts.

pub mod gamepad;
pub mod usb;
pub mod ws2812;
