# gamepad_rs

Logic of a USB HID gamepad board (analog stick, eight keys, one WS2812B LED),
written in Verus and proved against its contracts.

- `src/gamepad.rs`: stick averaging and scaling, the d-pad hat table, button
  bits, and the report-on-change poller of the scan loop.
- `src/usb.rs`: the gamepad report, its 9-byte wire layout, the HID report
  descriptor and the USB device settings.
- `src/ws2812.rs`: the colour wheel of the rainbow and the PWM compare values
  that send one pixel.
- `app/`: the firmware around the library: clocks, ADC, GPIO, PWM, the USB
  stack and the async tasks.
- `tests/`: tests of the library on concrete values.
