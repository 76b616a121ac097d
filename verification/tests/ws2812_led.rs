use gamepad_rs::ws2812::{pixel_duties, rainbow_step, wheel, Rgb8, WS_HIGH, WS_LOW};

#[test]
fn wheel_values() {
    assert_eq!(wheel(0), Rgb8::new(255, 0, 0));
    assert_eq!(wheel(255), Rgb8::new(255, 0, 0));
    assert_eq!(wheel(85), Rgb8::new(0, 255, 0));
    assert_eq!(wheel(170), Rgb8::new(0, 0, 255));
    assert_eq!(wheel(100), Rgb8::new(0, 210, 45));
    assert_eq!(wheel(200), Rgb8::new(90, 0, 165));
    assert_eq!(wheel(171), Rgb8::new(3, 0, 252));
}

#[test]
fn wheel_full_brightness_one_channel_dark() {
    for p in 0..=255u8 {
        let c = wheel(p);
        assert_eq!(c.r as u32 + c.g as u32 + c.b as u32, 255);
        assert!(c.r == 0 || c.g == 0 || c.b == 0);
    }
}

#[test]
fn wheel_is_smooth() {
    for p in 0..=255u8 {
        let a = wheel(p);
        let b = wheel(p.wrapping_add(1));
        assert!((a.r as i32 - b.r as i32).abs() <= 3);
        assert!((a.g as i32 - b.g as i32).abs() <= 3);
        assert!((a.b as i32 - b.b as i32).abs() <= 3);
    }
}

#[test]
fn rainbow_ticks_wrap() {
    assert_eq!(rainbow_step(0), (wheel(0), 1));
    assert_eq!(rainbow_step(254), (wheel(254), 255));
    assert_eq!(rainbow_step(255), (wheel(255), 0));
    let mut j = 7u8;
    for _ in 0..256 {
        j = rainbow_step(j).1;
    }
    assert_eq!(j, 7);
}

fn read_frame(f: &[u16]) -> Rgb8 {
    let byte = |start: usize| {
        let mut v = 0u8;
        for k in 0..8 {
            if f[start + k] == WS_HIGH {
                v |= 1 << (7 - k);
            }
        }
        v
    };
    Rgb8::new(byte(8), byte(0), byte(16))
}

#[test]
fn pixel_frame_layout() {
    let d = pixel_duties(Rgb8::new(0x01, 0x80, 0xFF));
    assert_eq!(d.len(), 25);
    // Green first, most significant bit first.
    assert_eq!(d[0], WS_HIGH);
    assert!(d[1..8].iter().all(|&x| x == WS_LOW));
    // Red: 0x01.
    assert!(d[8..15].iter().all(|&x| x == WS_LOW));
    assert_eq!(d[15], WS_HIGH);
    // Blue: 0xFF.
    assert!(d[16..24].iter().all(|&x| x == WS_HIGH));
    assert_eq!(d[24], 0);
}

#[test]
fn pixel_frame_round_trip() {
    for c in [Rgb8::new(0, 0, 0), Rgb8::new(255, 255, 255), Rgb8::new(0x12, 0x34, 0x56), wheel(42)] {
        let d = pixel_duties(c);
        assert_eq!(read_frame(&d), c);
        assert_eq!(*d.last().unwrap(), 0);
    }
}
