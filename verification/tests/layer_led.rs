use ergohaven::battery::{BatteryStatus, BleState, BleStatus, ChargeState, ConnectionStatus};
use ergohaven::layer_led::{
    blink_color, color_for_battery, color_for_bt_profile, color_for_layer, color_frame, color_off,
    connected_pulse_color, scale, scale_color, LayerLed, LedSettings, Overlay, Rgb, PWM_T0H, PWM_T1H,
};

fn settings(timeout_sec: u32) -> LedSettings {
    LedSettings {
        brightness: 255,
        timeout_sec,
        layer_colors: vec![Rgb { r: 10, g: 20, b: 30 }, Rgb { r: 200, g: 0, b: 100 }],
        profile_colors: vec![Rgb { r: 1, g: 1, b: 1 }, Rgb { r: 2, g: 2, b: 2 }, Rgb { r: 3, g: 3, b: 3 }],
    }
}

fn status(profile: u8, state: BleState) -> ConnectionStatus {
    ConnectionStatus { ble: BleStatus { profile, state } }
}

#[test]
fn scaling_keeps_full_brightness_and_darkens_at_zero() {
    assert_eq!(scale(200, 255), 200);
    assert_eq!(scale(255, 128), 128);
    assert_eq!(scale(100, 0), 0);
    assert_eq!(scale(3, 100), 1);
    assert_eq!(scale_color(Rgb { r: 255, g: 255, b: 255 }, 51), Rgb { r: 51, g: 51, b: 51 });
}

#[test]
fn colours_beyond_the_tables_are_off() {
    let s = settings(0);
    assert_eq!(color_for_layer(1, &s), Rgb { r: 200, g: 0, b: 100 });
    assert_eq!(color_for_layer(5, &s), color_off());
    assert_eq!(color_for_bt_profile(2, &s), Rgb { r: 3, g: 3, b: 3 });
    assert_eq!(color_for_bt_profile(3, &s), color_off());
}

#[test]
fn battery_colours_by_level() {
    assert_eq!(color_for_battery(20, 255), Rgb { r: 255, g: 0, b: 0 });
    assert_eq!(color_for_battery(21, 255), Rgb { r: 255, g: 80, b: 0 });
    assert_eq!(color_for_battery(74, 255), Rgb { r: 255, g: 220, b: 0 });
    assert_eq!(color_for_battery(75, 255), Rgb { r: 0, g: 255, b: 0 });
}

#[test]
fn blinks_and_pulses() {
    let c = Rgb { r: 9, g: 9, b: 9 };
    assert_eq!(blink_color(c, 1_200, 1_000, 500), c);
    assert_eq!(blink_color(c, 1_700, 1_000, 500), color_off());
    assert_eq!(blink_color(c, 2_200, 1_000, 500), blink_color(c, 1_200, 1_000, 500));
    assert_eq!(connected_pulse_color(c, 100), c);
    assert_eq!(connected_pulse_color(c, 150), color_off());
    assert_eq!(connected_pulse_color(c, 280), c);
    assert_eq!(connected_pulse_color(c, 281), color_off());
}

#[test]
fn frame_sends_green_red_blue_msb_first() {
    let words = color_frame(Rgb { r: 0xFF, g: 0x00, b: 0x81 });
    assert!(words[0..8].iter().all(|w| *w == PWM_T0H));
    assert!(words[8..16].iter().all(|w| *w == PWM_T1H));
    assert_eq!(words[16], PWM_T1H);
    assert!(words[17..23].iter().all(|w| *w == PWM_T0H));
    assert_eq!(words[23], PWM_T1H);
    assert!(words[24..].iter().all(|w| *w == 0));
}

#[test]
fn layer_change_shows_the_layer_colour_and_rendering_twice_sends_once() {
    let s = settings(0);
    let mut led = LayerLed::new_at(false, 0);
    assert_eq!(led.render(0, &s), Some(Rgb { r: 10, g: 20, b: 30 }));
    assert_eq!(led.render(0, &s), None);
    assert_eq!(led.on_layer_change_event(1, 5, &s), Some(Rgb { r: 200, g: 0, b: 100 }));
    assert_eq!(led.overlay, None);
    assert_eq!(led.on_layer_change_event(1, 6, &s), None);
}

#[test]
fn layer_colour_times_out() {
    let s = settings(5);
    let mut led = LayerLed::new_at(false, 0);
    assert_eq!(led.on_layer_change_event(1, 0, &s), Some(Rgb { r: 200, g: 0, b: 100 }));
    assert_eq!(led.poll_at(false, 4_999, &s), None);
    assert_eq!(led.poll_at(false, 5_000, &s), Some(color_off()));
}

#[test]
fn layer_change_drops_an_overlay() {
    let s = settings(0);
    let mut led = LayerLed::new_at(false, 0);
    led.render(0, &s);
    led.on_split_connected_event(false, 10, &s);
    assert!(matches!(led.overlay, Some(o) if o.kind == Overlay::SplitMissing));
    assert_eq!(led.on_layer_change_event(0, 20, &s), Some(Rgb { r: 10, g: 20, b: 30 }));
    assert_eq!(led.overlay, None);
}

#[test]
fn profile_flash_defers_the_bluetooth_state() {
    let s = settings(0);
    let mut led = LayerLed::new_at(false, 0);
    led.render(0, &s);
    led.on_connection_status_change_event(status(1, BleState::Inactive), 0, &s);
    assert_eq!(led.overlay, None);
    // Switching profile flashes the new profile's colour.
    assert_eq!(led.on_connection_status_change_event(status(2, BleState::Advertising), 100, &s), Some(Rgb { r: 3, g: 3, b: 3 }));
    // The state change during the flash waits for it to end.
    led.on_connection_status_change_event(status(2, BleState::Connected), 200, &s);
    assert_eq!(led.deferred_ble_state, Some(BleState::Connected));
    assert!(matches!(led.overlay, Some(o) if o.kind == Overlay::Profile(2)));
    // The flash ends at 1100: the connected pulse (green) follows.
    assert_eq!(led.poll_at(false, 1_100, &s), Some(Rgb { r: 0, g: 255, b: 0 }));
    assert!(matches!(led.overlay, Some(o) if o.kind == Overlay::HostConnected));
    assert_eq!(led.deferred_ble_state, None);
}

#[test]
fn pending_battery_refresh_shows_the_first_level() {
    let s = settings(0);
    let mut led = LayerLed::new_at(false, 0);
    led.render(0, &s);
    assert_eq!(led.on_peripheral_battery_refresh_event(10, &s), None);
    assert!(led.pending_battery_display);
    let sent = led.on_battery_status_event(
        BatteryStatus::Available { charge_state: ChargeState::Discharging, level: Some(50) },
        20,
        &s,
    );
    assert_eq!(sent, Some(Rgb { r: 255, g: 220, b: 0 }));
    assert!(!led.pending_battery_display);
}

#[test]
fn usb_power_starts_a_charging_pulse_and_low_battery_pulses() {
    let s = settings(0);
    let mut led = LayerLed::new_at(false, 0);
    led.render(0, &s);
    assert_eq!(led.poll_at(true, 10, &s), Some(Rgb { r: 0, g: 255, b: 0 }));
    assert_eq!(led.poll_at(true, 130, &s), Some(Rgb { r: 10, g: 20, b: 30 }));

    let mut led = LayerLed::new_at(false, 0);
    led.render(0, &s);
    led.on_battery_status_event(BatteryStatus::Available { charge_state: ChargeState::Discharging, level: Some(15) }, 0, &s);
    assert_eq!(led.poll_at(false, 1_999, &s), None);
    assert_eq!(led.poll_at(false, 2_000, &s), Some(Rgb { r: 255, g: 0, b: 0 }));
}
