use vstd::prelude::*;

verus! {

/// USB vendor id of the device.
pub const VID: u16 = 0x1234;

/// USB product id of the device.
pub const PID: u16 = 0xABCD;

/// One gamepad input report, before it is packed into its 9 bytes.
#[derive(Clone, Copy, Debug, PartialEq, Eq, Structural)]
pub struct GamepadReport {
    pub x: u8,
    pub y: u8,
    pub rx: u8,
    pub ry: u8,
    pub z: u8,
    /// Button bits; only the low byte travels in the packed report.
    pub buttons: u16,
    /// Hat code: 0 when released, else the direction shifted left by two.
    pub hat: u8,
}

impl GamepadReport {
    /// The report of a gamepad at rest: every axis centred, nothing pressed.
    pub open spec fn spec_neutral() -> GamepadReport {
        GamepadReport { x: 128, y: 128, rx: 128, ry: 128, z: 128, buttons: 0, hat: 0 }
    }

    /// The report of a gamepad at rest: every axis centred, nothing pressed.
    pub fn neutral() -> (r: GamepadReport)
        ensures
            r == GamepadReport::spec_neutral(),
    {
        GamepadReport { x: 128, y: 128, rx: 128, ry: 128, z: 128, buttons: 0, hat: 0 }
    }
}

/// The 9 bytes that carry a report on the interrupt endpoint.
pub open spec fn spec_pack_report(r: GamepadReport) -> Seq<u8> {
    seq![r.y, r.x, r.rx, r.ry, r.z, (r.buttons % 256) as u8, r.hat, 0u8, 0u8]
}

/// Packs a report into its wire layout: Y, X, Rx, Ry, Z, the low byte of the
/// buttons, the hat byte, and two zero bytes.
pub fn pack_report(r: GamepadReport) -> (b: [u8; 9])
    ensures
        b@ == spec_pack_report(r),
{
    let low: u8 = (r.buttons % 256) as u8;
    [r.y, r.x, r.rx, r.ry, r.z, low, r.hat, 0, 0]
}

/// The HID report descriptor: a gamepad collection of X/Y, Rx/Ry and Z
/// bytes, ten buttons, a hat switch and padding.
pub open spec fn spec_hid_report_desc() -> Seq<u8> {
    seq![
        0x05u8, 0x01u8,
        0x09u8, 0x05u8,
        0xa1u8, 0x01u8,
        0xa1u8, 0x00u8,
        0x09u8, 0x30u8, 0x09u8, 0x31u8,
        0x15u8, 0x00u8, 0x26u8, 0xffu8, 0x00u8, 0x35u8, 0x00u8, 0x46u8, 0xffu8, 0x00u8,
        0x95u8, 0x02u8, 0x75u8, 0x08u8, 0x81u8, 0x02u8, 0xc0u8,
        0xa1u8, 0x00u8,
        0x09u8, 0x33u8, 0x09u8, 0x34u8,
        0x15u8, 0x00u8, 0x26u8, 0xffu8, 0x00u8, 0x35u8, 0x00u8, 0x46u8, 0xffu8, 0x00u8,
        0x95u8, 0x02u8, 0x75u8, 0x08u8, 0x81u8, 0x02u8, 0xc0u8,
        0xa1u8, 0x00u8,
        0x09u8, 0x32u8,
        0x15u8, 0x00u8, 0x26u8, 0xffu8, 0x00u8, 0x35u8, 0x00u8, 0x46u8, 0xffu8, 0x00u8,
        0x95u8, 0x01u8, 0x75u8, 0x08u8, 0x81u8, 0x02u8, 0xc0u8,
        0x05u8, 0x09u8,
        0x19u8, 0x01u8, 0x29u8, 0x0au8, 0x95u8, 0x0au8, 0x75u8, 0x01u8, 0x81u8, 0x02u8,
        0x05u8, 0x01u8,
        0x09u8, 0x39u8,
        0x15u8, 0x01u8, 0x25u8, 0x08u8, 0x35u8, 0x00u8, 0x46u8, 0x3bu8, 0x10u8, 0x66u8, 0x0eu8, 0x00u8,
        0x75u8, 0x04u8, 0x95u8, 0x01u8, 0x81u8, 0x42u8,
        0x75u8, 0x02u8, 0x95u8, 0x01u8, 0x81u8, 0x03u8,
        0x75u8, 0x08u8, 0x95u8, 0x02u8, 0x81u8, 0x03u8, 0xc0u8,
    ]
}

/// The HID report descriptor that the device presents.
pub fn hid_report_desc() -> (d: [u8; 120])
    ensures
        d@ == spec_hid_report_desc(),
{
    let d: [u8; 120] = [
        0x05, 0x01,
        0x09, 0x05,
        0xa1, 0x01,
        0xa1, 0x00,
        0x09, 0x30, 0x09, 0x31,
        0x15, 0x00, 0x26, 0xff, 0x00, 0x35, 0x00, 0x46, 0xff, 0x00,
        0x95, 0x02, 0x75, 0x08, 0x81, 0x02, 0xc0,
        0xa1, 0x00,
        0x09, 0x33, 0x09, 0x34,
        0x15, 0x00, 0x26, 0xff, 0x00, 0x35, 0x00, 0x46, 0xff, 0x00,
        0x95, 0x02, 0x75, 0x08, 0x81, 0x02, 0xc0,
        0xa1, 0x00,
        0x09, 0x32,
        0x15, 0x00, 0x26, 0xff, 0x00, 0x35, 0x00, 0x46, 0xff, 0x00,
        0x95, 0x01, 0x75, 0x08, 0x81, 0x02, 0xc0,
        0x05, 0x09,
        0x19, 0x01, 0x29, 0x0a, 0x95, 0x0a, 0x75, 0x01, 0x81, 0x02,
        0x05, 0x01,
        0x09, 0x39,
        0x15, 0x01, 0x25, 0x08, 0x35, 0x00, 0x46, 0x3b, 0x10, 0x66, 0x0e, 0x00,
        0x75, 0x04, 0x95, 0x01, 0x81, 0x42,
        0x75, 0x02, 0x95, 0x01, 0x81, 0x03,
        0x75, 0x08, 0x95, 0x02, 0x81, 0x03, 0xc0,
    ];
    proof {
        assert(d@ =~= spec_hid_report_desc());
    }
    d
}

/// Number of data bytes that follow an item's prefix byte.
pub open spec fn item_data_len(prefix: u8) -> int {
    if prefix % 4 == 3 {
        4
    } else if prefix % 4 == 2 {
        2
    } else if prefix % 4 == 1 {
        1
    } else {
        0
    }
}

/// Little-endian value of the `len` data bytes at `at`.
pub open spec fn item_data(d: Seq<u8>, at: int, len: int) -> int {
    if len == 0 {
        0
    } else if len == 1 {
        d[at] as int
    } else if len == 2 {
        d[at] + 256 * d[at + 1]
    } else {
        d[at] + 256 * d[at + 1] + 65536 * d[at + 2] + 16777216 * d[at + 3]
    }
}

/// Bits of the input report that the short items of `d` from index `i` on
/// declare, with `size` and `count` the Report Size and Report Count in
/// force. An item's tag and type are the upper six bits of its prefix:
/// `0x1d` is Report Size, `0x25` Report Count, `0x20` Input, which adds
/// `size * count` bits.
pub open spec fn input_bits(d: Seq<u8>, i: int, size: int, count: int) -> int
    decreases d.len() - i,
{
    if i < 0 || i >= d.len() {
        0
    } else {
        let prefix = d[i];
        let len = item_data_len(prefix);
        let next = if i + 1 + len <= d.len() { i + 1 + len } else { d.len() as int };
        let tag = prefix / 4;
        let size2 = if tag == 0x1d { item_data(d, i + 1, len) } else { size };
        let count2 = if tag == 0x25 { item_data(d, i + 1, len) } else { count };
        let here = if tag == 0x20 { size * count } else { 0 };
        here + input_bits(d, next, size2, count2)
    }
}

/// The input report that the descriptor declares is exactly as long as the
/// packed report: 72 bits, 9 bytes.
pub proof fn lemma_desc_declares_packed_len(r: GamepadReport)
    ensures
        input_bits(spec_hid_report_desc(), 0, 0, 0) == 8 * spec_pack_report(r).len(),
{
    let d = spec_hid_report_desc();
    assert(input_bits(d, 120, 8, 2) == 0);
    assert(input_bits(d, 119, 8, 2) == 0);
    assert(input_bits(d, 117, 8, 2) == 16);
    assert(input_bits(d, 115, 8, 1) == 16);
    assert(input_bits(d, 113, 2, 1) == 16);
    assert(input_bits(d, 111, 2, 1) == 18);
    assert(input_bits(d, 109, 2, 1) == 18);
    assert(input_bits(d, 107, 4, 1) == 18);
    assert(input_bits(d, 105, 4, 1) == 22);
    assert(input_bits(d, 103, 4, 10) == 22);
    assert(input_bits(d, 101, 1, 10) == 22);
    assert(input_bits(d, 98, 1, 10) == 22);
    assert(input_bits(d, 95, 1, 10) == 22);
    assert(input_bits(d, 93, 1, 10) == 22);
    assert(input_bits(d, 91, 1, 10) == 22);
    assert(input_bits(d, 89, 1, 10) == 22);
    assert(input_bits(d, 87, 1, 10) == 22);
    assert(input_bits(d, 85, 1, 10) == 22);
    assert(input_bits(d, 83, 1, 10) == 32);
    assert(input_bits(d, 81, 8, 10) == 32);
    assert(input_bits(d, 79, 8, 1) == 32);
    assert(input_bits(d, 77, 8, 1) == 32);
    assert(input_bits(d, 75, 8, 1) == 32);
    assert(input_bits(d, 73, 8, 1) == 32);
    assert(input_bits(d, 72, 8, 1) == 32);
    assert(input_bits(d, 70, 8, 1) == 40);
    assert(input_bits(d, 68, 8, 1) == 40);
    assert(input_bits(d, 66, 8, 2) == 40);
    assert(input_bits(d, 63, 8, 2) == 40);
    assert(input_bits(d, 61, 8, 2) == 40);
    assert(input_bits(d, 58, 8, 2) == 40);
    assert(input_bits(d, 56, 8, 2) == 40);
    assert(input_bits(d, 54, 8, 2) == 40);
    assert(input_bits(d, 52, 8, 2) == 40);
    assert(input_bits(d, 51, 8, 2) == 40);
    assert(input_bits(d, 49, 8, 2) == 56);
    assert(input_bits(d, 47, 8, 2) == 56);
    assert(input_bits(d, 45, 8, 2) == 56);
    assert(input_bits(d, 42, 8, 2) == 56);
    assert(input_bits(d, 40, 8, 2) == 56);
    assert(input_bits(d, 37, 8, 2) == 56);
    assert(input_bits(d, 35, 8, 2) == 56);
    assert(input_bits(d, 33, 8, 2) == 56);
    assert(input_bits(d, 31, 8, 2) == 56);
    assert(input_bits(d, 29, 8, 2) == 56);
    assert(input_bits(d, 28, 8, 2) == 56);
    assert(input_bits(d, 26, 8, 2) == 72);
    assert(input_bits(d, 24, 0, 2) == 72);
    assert(input_bits(d, 22, 0, 0) == 72);
    assert(input_bits(d, 19, 0, 0) == 72);
    assert(input_bits(d, 17, 0, 0) == 72);
    assert(input_bits(d, 14, 0, 0) == 72);
    assert(input_bits(d, 12, 0, 0) == 72);
    assert(input_bits(d, 10, 0, 0) == 72);
    assert(input_bits(d, 8, 0, 0) == 72);
    assert(input_bits(d, 6, 0, 0) == 72);
    assert(input_bits(d, 4, 0, 0) == 72);
    assert(input_bits(d, 2, 0, 0) == 72);
    assert(input_bits(d, 0, 0, 0) == 72);
}

/// What the USB device and its HID interface are configured with.
#[derive(Clone, Copy, Debug)]
pub struct UsbSettings {
    pub vid: u16,
    pub pid: u16,
    pub manufacturer: &'static str,
    pub product: &'static str,
    pub serial_number: &'static str,
    /// Bus current the device asks for, in mA as embassy-usb counts it.
    pub max_power: u16,
    /// Packet size of the control endpoint.
    pub max_packet_size_0: u8,
    /// Interval at which the host polls the interrupt endpoint, in ms.
    pub poll_ms: u8,
    /// Packet size of the HID interrupt endpoint.
    pub hid_max_packet_size: u16,
}

/// The device's USB identity and endpoint settings.
pub fn usb_settings() -> (s: UsbSettings)
    ensures
        s.vid == VID,
        s.pid == PID,
        s.manufacturer@ == "LDSCITECHE"@,
        s.product@ == "MINIGPA103 Gamepad (rust)"@,
        s.serial_number@ == "rust-001"@,
        s.max_power == 50,
        s.max_packet_size_0 == 8,
        s.poll_ms == 5,
        s.hid_max_packet_size == 64,
{
    UsbSettings {
        vid: VID,
        pid: PID,
        manufacturer: "LDSCITECHE",
        product: "MINIGPA103 Gamepad (rust)",
        serial_number: "rust-001",
        max_power: 50,
        max_packet_size_0: 8,
        poll_ms: 5,
        hid_max_packet_size: 64,
    }
}

} // verus!
