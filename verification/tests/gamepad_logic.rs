use gamepad_rs::gamepad::{
    build_report, hat_lookup, pack_buttons, sample_mean, scale_axis, GamepadInputs, GamepadPoller,
    AD_XMAX, AD_XMIN, HAT_1, HAT_2, HAT_3, HAT_4, HAT_5, HAT_6, HAT_7, HAT_8, HAT_N,
};
use gamepad_rs::usb::GamepadReport;

fn inputs(x: u16, y: u16) -> GamepadInputs {
    GamepadInputs {
        x_samples: [x; 10],
        y_samples: [y; 10],
        up: false,
        dn: false,
        lf: false,
        rg: false,
        bk: false,
        md: false,
        st: false,
        tb: false,
    }
}

#[test]
fn map_exact_values() {
    assert_eq!(gamepad_rs::gamepad::map(10, 10, 4023, 0, 255), 0);
    assert_eq!(gamepad_rs::gamepad::map(4023, 10, 4023, 0, 255), 255);
    assert_eq!(gamepad_rs::gamepad::map(2016, 10, 4023, 0, 255), 127);
    assert_eq!(gamepad_rs::gamepad::map(2025, 10, 4023, 0, 255), 128);
}

#[test]
fn map_rounds_toward_zero() {
    // (-7 - 0) * (1 - 0) / (2 - 0) = -3.5, which Rust rounds to -3.
    assert_eq!(gamepad_rs::gamepad::map(-7, 0, 2, 0, 1), -3);
    assert_eq!(gamepad_rs::gamepad::map(7, 0, -2, 0, 1), -3);
    assert_eq!(gamepad_rs::gamepad::map(5, 0, 10, 100, 0), 50);
}

#[test]
fn scale_axis_edges_and_middle() {
    assert_eq!(scale_axis(0, AD_XMIN, AD_XMAX), 0);
    assert_eq!(scale_axis(10, AD_XMIN, AD_XMAX), 0);
    assert_eq!(scale_axis(-1000, AD_XMIN, AD_XMAX), 0);
    assert_eq!(scale_axis(4023, AD_XMIN, AD_XMAX), 255);
    assert_eq!(scale_axis(4095, AD_XMIN, AD_XMAX), 255);
    assert_eq!(scale_axis(65535, AD_XMIN, AD_XMAX), 255);
    assert_eq!(scale_axis(2016, AD_XMIN, AD_XMAX), 127);
    assert_eq!(scale_axis(2025, AD_XMIN, AD_XMAX), 128);
}

#[test]
fn scale_axis_keeps_order() {
    let mut prev = 0u8;
    for m in -20..4200 {
        let v = scale_axis(m, AD_XMIN, AD_XMAX);
        assert!(v >= prev);
        prev = v;
    }
    assert_eq!(prev, 255);
}

#[test]
fn sample_mean_rounds_down() {
    assert_eq!(sample_mean(&[100, 100, 100, 100, 100, 100, 100, 100, 100, 109]), 100);
    assert_eq!(sample_mean(&[1, 2, 3, 4, 5, 6, 7, 8, 9, 10]), 5);
    assert_eq!(sample_mean(&[0; 10]), 0);
    assert_eq!(sample_mean(&[u16::MAX; 10]), 65535);
}

#[test]
fn hat_table() {
    // (up, dn, lf, rg) -> hat: an irregular mapping, where Up alone is
    // direction 2 and Right alone reads as released.
    let cases = [
        ((true, true, true, false), HAT_7),
        ((true, true, false, true), HAT_3),
        ((true, false, true, false), HAT_1),
        ((true, false, true, true), HAT_8),
        ((true, false, false, false), HAT_2),
        ((true, false, false, true), HAT_1),
        ((false, true, true, false), HAT_5),
        ((false, true, true, true), HAT_6),
        ((false, true, false, false), HAT_4),
        ((false, true, false, true), HAT_5),
        ((false, false, true, true), HAT_7),
        ((false, false, true, false), HAT_3),
        ((false, false, false, false), HAT_N),
        ((true, true, true, true), HAT_N),
        ((true, true, false, false), HAT_N),
        ((false, false, false, true), HAT_N),
    ];
    for ((u, d, l, r), h) in cases {
        assert_eq!(hat_lookup(u, d, l, r), h);
    }
}

#[test]
fn hat_codes_stay_in_hat_field() {
    for k in 0..16u8 {
        let h = hat_lookup(k & 1 != 0, k & 2 != 0, k & 4 != 0, k & 8 != 0);
        assert_eq!(h % 4, 0);
        assert!(h / 4 <= 8);
    }
}

#[test]
fn button_bits() {
    assert_eq!(pack_buttons(false, false, false, false), 0);
    assert_eq!(pack_buttons(true, false, false, false), 1);
    assert_eq!(pack_buttons(false, true, false, false), 2);
    assert_eq!(pack_buttons(false, false, true, false), 4);
    assert_eq!(pack_buttons(false, false, false, true), 8);
    assert_eq!(pack_buttons(true, false, true, false), 5);
    assert_eq!(pack_buttons(true, true, true, true), 15);
}

#[test]
fn build_report_of_a_scan() {
    let mut i = inputs(2016, 4095);
    i.up = true;
    i.lf = true;
    i.st = true;
    i.tb = true;
    let r = build_report(&i);
    assert_eq!(
        r,
        GamepadReport { x: 127, y: 255, rx: 128, ry: 128, z: 128, buttons: 9, hat: HAT_1 }
    );
}

#[test]
fn centred_scan_gives_neutral_report() {
    assert_eq!(build_report(&inputs(2025, 2025)), GamepadReport::neutral());
}

#[test]
fn poll_reports_only_changes() {
    let mut p = GamepadPoller::new();
    let rest = inputs(2025, 2025);
    // The resting scan equals the neutral report the poller starts from.
    assert_eq!(p.poll(&rest), None);
    let mut pressed = rest;
    pressed.bk = true;
    let sent = p.poll(&pressed);
    assert_eq!(sent, Some(GamepadReport { buttons: 4, ..GamepadReport::neutral() }));
    // Same scan again: nothing new to send.
    assert_eq!(p.poll(&pressed), None);
    // Releasing sends the neutral report again.
    assert_eq!(p.poll(&rest), Some(GamepadReport::neutral()));
    assert_eq!(p.poll(&rest), None);
}

#[test]
fn poll_sends_stick_moves() {
    let mut p = GamepadPoller::new();
    assert_eq!(p.poll(&inputs(0, 2025)), Some(GamepadReport { x: 0, ..GamepadReport::neutral() }));
    assert_eq!(p.poll(&inputs(0, 2025)), None);
    assert_eq!(
        p.poll(&inputs(0, 4095)),
        Some(GamepadReport { x: 0, y: 255, ..GamepadReport::neutral() })
    );
}

#[test]
fn unused_does_nothing() {
    gamepad_rs::gamepad::_unused();
}
