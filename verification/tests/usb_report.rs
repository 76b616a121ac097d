use gamepad_rs::usb::{hid_report_desc, pack_report, usb_settings, GamepadReport, PID, VID};

#[test]
fn neutral_report() {
    let n = GamepadReport::neutral();
    assert_eq!(n, GamepadReport { x: 128, y: 128, rx: 128, ry: 128, z: 128, buttons: 0, hat: 0 });
    assert_eq!(pack_report(n), [128, 128, 128, 128, 128, 0, 0, 0, 0]);
}

#[test]
fn pack_report_layout() {
    let r = GamepadReport { x: 1, y: 2, rx: 3, ry: 4, z: 5, buttons: 0x0006, hat: 0x20 };
    assert_eq!(pack_report(r), [2, 1, 3, 4, 5, 6, 0x20, 0, 0]);
}

#[test]
fn pack_report_keeps_low_button_byte() {
    let r = GamepadReport { x: 0, y: 0, rx: 0, ry: 0, z: 0, buttons: 0x03AB, hat: 0 };
    assert_eq!(pack_report(r)[5], 0xAB);
}

/// Bits of the input report declared by a descriptor's short items.
fn input_bits(d: &[u8]) -> u32 {
    let (mut size, mut count, mut bits) = (0u32, 0u32, 0u32);
    let mut i = 0;
    while i < d.len() {
        let prefix = d[i];
        let len = match prefix & 3 {
            3 => 4,
            n => n as usize,
        };
        let mut data = 0u32;
        for k in 0..len {
            data |= (d[i + 1 + k] as u32) << (8 * k);
        }
        match prefix >> 2 {
            0x1d => size = data,
            0x25 => count = data,
            0x20 => bits += size * count,
            _ => {}
        }
        i += 1 + len;
    }
    bits
}

#[test]
fn descriptor_declares_the_packed_length() {
    let d = hid_report_desc();
    assert_eq!(d.len(), 120);
    assert_eq!(&d[..4], &[0x05, 0x01, 0x09, 0x05]);
    assert_eq!(d[119], 0xC0);
    let packed = pack_report(GamepadReport::neutral());
    assert_eq!(input_bits(&d), 8 * packed.len() as u32);
    assert_eq!(input_bits(&d), 72);
}

#[test]
fn settings() {
    let s = usb_settings();
    assert_eq!((s.vid, s.pid), (VID, PID));
    assert_eq!((VID, PID), (0x1234, 0xABCD));
    assert_eq!(s.manufacturer, "LDSCITECHE");
    assert_eq!(s.product, "MINIGPA103 Gamepad (rust)");
    assert_eq!(s.serial_number, "rust-001");
    assert_eq!(s.max_power, 50);
    assert_eq!(s.max_packet_size_0, 8);
    assert_eq!(s.poll_ms, 5);
    assert_eq!(s.hid_max_packet_size, 64);
}
