//! The single RGB indicator LED of a K:04 half: the active layer's colour,
//! with short overlays for Bluetooth, split link and battery events.

use vstd::prelude::*;

use crate::battery::{BatteryStatus, BleState, ChargeState, ConnectionStatus};
use crate::clock::{after, elapsed_ms, later_by, now_millis, since};

verus! {

pub const LOW_BATTERY_MAX: u8 = 20;
pub const CHARGED_BATTERY_MIN: u8 = 100;
pub const BATTERY_PULSE_INTERVAL_MS: u64 = 2_000;
pub const BATTERY_PULSE_ON_MS: u64 = 120;
pub const CONNECTED_PULSE_MS: u64 = 520;
pub const INDICATOR_DURATION_MS: u64 = 1_000;
pub const PWM_POLARITY_INVERTED: u16 = 0x8000;
/// PWM compare value of a 0 bit (polarity inverted, short high time).
pub const PWM_T0H: u16 = 0x8006;
/// PWM compare value of a 1 bit (polarity inverted, long high time).
pub const PWM_T1H: u16 = 0x800D;
pub const RESET_SLOTS: usize = 80;
/// One LED's 24 colour bits followed by the reset gap.
pub const FRAME_WORDS: usize = 104;

/// An LED colour.
#[derive(Clone, Copy, Debug, PartialEq, Eq, Structural)]
pub struct Rgb {
    pub r: u8,
    pub g: u8,
    pub b: u8,
}

/// What the LED is showing on top of the layer colour.
#[derive(Clone, Copy, Debug, PartialEq, Eq, Structural)]
pub enum Overlay {
    Profile(u8),
    Advertising,
    HostConnected,
    SplitMissing,
    SplitConnected,
    Battery(u8),
    Charging,
    LowBattery,
}

/// An overlay and the interval (milliseconds) it is shown in.
#[derive(Clone, Copy, Debug, PartialEq, Eq, Structural)]
pub struct TimedOverlay {
    pub kind: Overlay,
    pub started: u64,
    pub ends: u64,
}

/// The module settings the LED follows.
#[derive(Clone, Debug)]
pub struct LedSettings {
    /// Scales every colour: 255 is full brightness.
    pub brightness: u8,
    /// Seconds after which the layer colour goes dark; 0 keeps it lit.
    pub timeout_sec: u32,
    /// Colour of each layer; a layer beyond the table is dark.
    pub layer_colors: Vec<Rgb>,
    /// Colour of each Bluetooth profile; a profile beyond the table is dark.
    pub profile_colors: Vec<Rgb>,
}

pub open spec fn spec_color_off() -> Rgb {
    Rgb { r: 0, g: 0, b: 0 }
}

pub open spec fn spec_scale(value: u8, brightness: u8) -> u8 {
    ((value * brightness) / 255) as u8
}

pub open spec fn spec_scale_color(color: Rgb, brightness: u8) -> Rgb {
    Rgb { r: spec_scale(color.r, brightness), g: spec_scale(color.g, brightness), b: spec_scale(color.b, brightness) }
}

pub open spec fn table_color(table: Seq<Rgb>, index: u8) -> Rgb {
    if (index as int) < table.len() {
        table[index as int]
    } else {
        spec_color_off()
    }
}

pub open spec fn spec_color_for_layer(layer: u8, settings: LedSettings) -> Rgb {
    spec_scale_color(table_color(settings.layer_colors@, layer), settings.brightness)
}

pub open spec fn spec_color_for_bt_profile(profile: u8, settings: LedSettings) -> Rgb {
    spec_scale_color(table_color(settings.profile_colors@, profile), settings.brightness)
}

/// Battery level colour: red to 20 %, orange to 40 %, yellow to 74 %, green above.
pub open spec fn battery_base_color(level: u8) -> Rgb {
    if level <= 20 {
        Rgb { r: 255, g: 0, b: 0 }
    } else if level <= 40 {
        Rgb { r: 255, g: 80, b: 0 }
    } else if level <= 74 {
        Rgb { r: 255, g: 220, b: 0 }
    } else {
        Rgb { r: 0, g: 255, b: 0 }
    }
}

pub open spec fn spec_blue(b: u8) -> Rgb {
    spec_scale_color(Rgb { r: 0, g: 0, b: 255 }, b)
}

pub open spec fn spec_green(b: u8) -> Rgb {
    spec_scale_color(Rgb { r: 0, g: 255, b: 0 }, b)
}

pub open spec fn spec_red(b: u8) -> Rgb {
    spec_scale_color(Rgb { r: 255, g: 0, b: 0 }, b)
}

pub open spec fn spec_yellow(b: u8) -> Rgb {
    spec_scale_color(Rgb { r: 255, g: 180, b: 0 }, b)
}

/// Two short flashes: on for 0..=100 ms and 180..=280 ms.
pub open spec fn spec_connected_pulse_color(color: Rgb, elapsed_ms: u64) -> Rgb {
    if elapsed_ms <= 100 || (180 <= elapsed_ms && elapsed_ms <= 280) {
        color
    } else {
        spec_color_off()
    }
}

/// On for the first `on_ms` of every `period_ms`.
pub open spec fn spec_blink_color(color: Rgb, elapsed_ms: u64, period_ms: u64, on_ms: u64) -> Rgb {
    if elapsed_ms % period_ms < on_ms {
        color
    } else {
        spec_color_off()
    }
}

pub open spec fn spec_overlay_color(overlay: TimedOverlay, now: u64, settings: LedSettings) -> Rgb {
    let elapsed = since(now, overlay.started);
    let b = settings.brightness;
    match overlay.kind {
        Overlay::Profile(profile) => spec_color_for_bt_profile(profile, settings),
        Overlay::Advertising => spec_blink_color(spec_blue(b), elapsed, 1_000, 500),
        Overlay::HostConnected => spec_connected_pulse_color(spec_green(b), elapsed),
        Overlay::SplitMissing => spec_blink_color(spec_yellow(b), elapsed, 1_500, 150),
        Overlay::SplitConnected => spec_connected_pulse_color(spec_yellow(b), elapsed),
        Overlay::Battery(level) => spec_scale_color(battery_base_color(level), b),
        Overlay::Charging => spec_green(b),
        Overlay::LowBattery => spec_red(b),
    }
}

pub fn color_off() -> (c: Rgb)
    ensures
        c == spec_color_off(),
{
    Rgb { r: 0, g: 0, b: 0 }
}

/// `value` dimmed by `brightness` (255 keeps it).
pub fn scale(value: u8, brightness: u8) -> (s: u8)
    ensures
        s == spec_scale(value, brightness),
{
    assert((value as u16) * (brightness as u16) <= 255 * 255) by (nonlinear_arith);
    assert(((value as u16) * (brightness as u16)) / 255 <= 255) by (nonlinear_arith)
        requires (value as u16) * (brightness as u16) <= 255 * 255;
    let scaled = ((value as u16) * (brightness as u16)) / 255;
    if scaled < 255 {
        scaled as u8
    } else {
        255
    }
}

pub fn scale_color(color: Rgb, brightness: u8) -> (c: Rgb)
    ensures
        c == spec_scale_color(color, brightness),
{
    Rgb { r: scale(color.r, brightness), g: scale(color.g, brightness), b: scale(color.b, brightness) }
}

fn table_lookup(table: &Vec<Rgb>, index: u8) -> (c: Rgb)
    ensures
        c == table_color(table@, index),
{
    if (index as usize) < table.len() {
        table[index as usize]
    } else {
        color_off()
    }
}

pub fn color_for_layer(layer: u8, settings: &LedSettings) -> (c: Rgb)
    ensures
        c == spec_color_for_layer(layer, *settings),
{
    scale_color(table_lookup(&settings.layer_colors, layer), settings.brightness)
}

pub fn color_for_bt_profile(profile: u8, settings: &LedSettings) -> (c: Rgb)
    ensures
        c == spec_color_for_bt_profile(profile, *settings),
{
    scale_color(table_lookup(&settings.profile_colors, profile), settings.brightness)
}

pub fn color_for_battery(level: u8, brightness: u8) -> (c: Rgb)
    ensures
        c == spec_scale_color(battery_base_color(level), brightness),
{
    let color = if level <= 20 {
        Rgb { r: 255, g: 0, b: 0 }
    } else if level <= 40 {
        Rgb { r: 255, g: 80, b: 0 }
    } else if level <= 74 {
        Rgb { r: 255, g: 220, b: 0 }
    } else {
        Rgb { r: 0, g: 255, b: 0 }
    };
    scale_color(color, brightness)
}

pub fn color_blue(brightness: u8) -> (c: Rgb)
    ensures
        c == spec_blue(brightness),
{
    scale_color(Rgb { r: 0, g: 0, b: 255 }, brightness)
}

pub fn color_green(brightness: u8) -> (c: Rgb)
    ensures
        c == spec_green(brightness),
{
    scale_color(Rgb { r: 0, g: 255, b: 0 }, brightness)
}

pub fn color_red(brightness: u8) -> (c: Rgb)
    ensures
        c == spec_red(brightness),
{
    scale_color(Rgb { r: 255, g: 0, b: 0 }, brightness)
}

pub fn color_yellow(brightness: u8) -> (c: Rgb)
    ensures
        c == spec_yellow(brightness),
{
    scale_color(Rgb { r: 255, g: 180, b: 0 }, brightness)
}

pub fn connected_pulse_color(color: Rgb, elapsed_ms: u64) -> (c: Rgb)
    ensures
        c == spec_connected_pulse_color(color, elapsed_ms),
{
    if elapsed_ms <= 100 || (180 <= elapsed_ms && elapsed_ms <= 280) {
        color
    } else {
        color_off()
    }
}

pub fn blink_color(color: Rgb, elapsed_ms: u64, period_ms: u64, on_ms: u64) -> (c: Rgb)
    requires
        period_ms > 0,
    ensures
        c == spec_blink_color(color, elapsed_ms, period_ms, on_ms),
{
    if elapsed_ms % period_ms < on_ms {
        color
    } else {
        color_off()
    }
}

pub fn overlay_color(overlay: TimedOverlay, now: u64, settings: &LedSettings) -> (c: Rgb)
    ensures
        c == spec_overlay_color(overlay, now, *settings),
{
    let elapsed = elapsed_ms(now, overlay.started);
    let b = settings.brightness;
    match overlay.kind {
        Overlay::Profile(profile) => color_for_bt_profile(profile, settings),
        Overlay::Advertising => blink_color(color_blue(b), elapsed, 1_000, 500),
        Overlay::HostConnected => connected_pulse_color(color_green(b), elapsed),
        Overlay::SplitMissing => blink_color(color_yellow(b), elapsed, 1_500, 150),
        Overlay::SplitConnected => connected_pulse_color(color_yellow(b), elapsed),
        Overlay::Battery(level) => color_for_battery(level, b),
        Overlay::Charging => color_green(b),
        Overlay::LowBattery => color_red(b),
    }
}

/// The frame word of colour bit `bit` (7 is the most significant) of `byte`.
pub open spec fn bit_word(byte: u8, bit: u32) -> u16 {
    if byte & (1u8 << bit) != 0 {
        PWM_T1H
    } else {
        PWM_T0H
    }
}

/// The PWM frame that sends `color` to a WS2812 LED: green, red, blue, most
/// significant bit first, then the reset gap of zero words.
pub open spec fn spec_color_frame(color: Rgb) -> Seq<u16> {
    Seq::new(
        FRAME_WORDS as nat,
        |i: int|
            if i < 8 {
                bit_word(color.g, (7 - i) as u32)
            } else if i < 16 {
                bit_word(color.r, (7 - (i - 8)) as u32)
            } else if i < 24 {
                bit_word(color.b, (7 - (i - 16)) as u32)
            } else {
                0u16
            },
    )
}

/// The PWM frame for `color`.
pub fn color_frame(color: Rgb) -> (words: [u16; 104])
    ensures
        words@ == spec_color_frame(color),
{
    let mut words = [0u16; 104];
    let bytes = [color.g, color.r, color.b];
    let mut i: usize = 0;
    let mut k: usize = 0;
    while k < 3
        invariant
            k <= 3,
            i == 8 * k,
            bytes@ == seq![color.g, color.r, color.b],
            forall|j: int| 0 <= j < i ==> words@[j] == spec_color_frame(color)[j],
            forall|j: int| i <= j < 104 ==> words@[j] == 0u16,
        decreases 3 - k,
    {
        let byte = bytes[k];
        let mut bit: u32 = 8;
        while bit > 0
            invariant
                bit <= 8,
                k < 3,
                i == 8 * k + (8 - bit),
                byte == bytes@[k as int],
                bytes@ == seq![color.g, color.r, color.b],
                forall|j: int| 0 <= j < i ==> words@[j] == spec_color_frame(color)[j],
                forall|j: int| i <= j < 104 ==> words@[j] == 0u16,
            decreases bit,
        {
            bit = bit - 1;
            words[i] = if (byte & (1u8 << bit)) != 0 {
                PWM_T1H
            } else {
                PWM_T0H
            };
            i = i + 1;
        }
        k = k + 1;
    }
    assert(words@ =~= spec_color_frame(color));
    words
}


/// State of the indicator LED.
#[derive(Clone, Copy, Debug)]
pub struct LayerLed {
    pub current_layer: Option<u8>,
    /// When (milliseconds) the layer colour goes dark.
    pub layer_deadline: Option<u64>,
    /// The colour last sent to the LED.
    pub current_color: Option<Rgb>,
    pub connection_status: Option<ConnectionStatus>,
    pub ble_profile: u8,
    pub ble_state: BleState,
    /// A Bluetooth state change seen while a profile overlay was showing.
    pub deferred_ble_state: Option<BleState>,
    pub split_connected: bool,
    pub overlay: Option<TimedOverlay>,
    pub latest_battery: Option<u8>,
    pub battery_charging: bool,
    /// A battery refresh was asked for before any level was known.
    pub pending_battery_display: bool,
    pub usb_powered: bool,
    pub last_charging_pulse: u64,
    pub last_low_battery_pulse: u64,
}

pub open spec fn spec_new_led(usb_powered: bool, now: u64) -> LayerLed {
    LayerLed {
        current_layer: Some(0),
        layer_deadline: None,
        current_color: None,
        connection_status: None,
        ble_profile: 0,
        ble_state: BleState::Inactive,
        deferred_ble_state: None,
        split_connected: true,
        overlay: None,
        latest_battery: None,
        battery_charging: false,
        pending_battery_display: false,
        usb_powered,
        last_charging_pulse: now,
        last_low_battery_pulse: now,
    }
}

/// The layer colour goes dark `timeout_sec` seconds after `now` (never for 0).
pub open spec fn spec_arm(s: LayerLed, now: u64, timeout_sec: u32) -> LayerLed {
    LayerLed {
        layer_deadline: if timeout_sec != 0 {
            Some(after(now, (timeout_sec * 1000) as u64))
        } else {
            None
        },
        ..s
    }
}

/// Shows `kind` from `now` for `duration_ms`.
pub open spec fn spec_start(s: LayerLed, kind: Overlay, now: u64, duration_ms: u64) -> LayerLed {
    LayerLed { overlay: Some(TimedOverlay { kind, started: now, ends: after(now, duration_ms) }), ..s }
}

pub open spec fn spec_layer_color(s: LayerLed, now: u64, settings: LedSettings) -> Rgb {
    if s.layer_deadline is Some && now >= s.layer_deadline->Some_0 {
        spec_color_off()
    } else {
        match s.current_layer {
            Some(layer) => spec_color_for_layer(layer, settings),
            None => spec_color_off(),
        }
    }
}

/// The colour the LED should show at `now`: the overlay's, else the layer's.
pub open spec fn spec_shown_color(s: LayerLed, now: u64, settings: LedSettings) -> Rgb {
    match s.overlay {
        Some(overlay) => spec_overlay_color(overlay, now, settings),
        None => spec_layer_color(s, now, settings),
    }
}

/// Brings the LED to the colour it should show; the colour is sent only when
/// it differs from the last one sent.
pub open spec fn spec_render(s: LayerLed, now: u64, settings: LedSettings) -> (LayerLed, Option<Rgb>) {
    let color = spec_shown_color(s, now, settings);
    if s.current_color == Some(color) {
        (s, None)
    } else {
        (LayerLed { current_color: Some(color), ..s }, Some(color))
    }
}

pub open spec fn spec_is_charging(s: LayerLed) -> bool {
    s.battery_charging || (s.usb_powered && !(s.latest_battery is Some && s.latest_battery->Some_0
        >= CHARGED_BATTERY_MIN))
}

pub open spec fn spec_start_ble_overlay(s: LayerLed, state: BleState, now: u64, timeout_sec: u32) -> LayerLed {
    match state {
        BleState::Advertising => spec_start(s, Overlay::Advertising, now, INDICATOR_DURATION_MS),
        BleState::Connected => spec_start(s, Overlay::HostConnected, now, CONNECTED_PULSE_MS),
        BleState::Inactive => if s.overlay matches Some(o) && (o.kind == Overlay::Advertising || o.kind
            == Overlay::HostConnected) {
            spec_arm(LayerLed { overlay: None, ..s }, now, timeout_sec)
        } else {
            s
        },
    }
}

pub open spec fn spec_set_split_connected(s: LayerLed, connected: bool, now: u64) -> LayerLed {
    if s.split_connected == connected {
        s
    } else if connected {
        spec_start(LayerLed { split_connected: connected, ..s }, Overlay::SplitConnected, now, CONNECTED_PULSE_MS)
    } else {
        spec_start(LayerLed { split_connected: connected, ..s }, Overlay::SplitMissing, now, INDICATOR_DURATION_MS)
    }
}

pub open spec fn spec_on_layer_change(s: LayerLed, layer: u8, now: u64, settings: LedSettings) -> (LayerLed, Option<Rgb>) {
    spec_render(
        spec_arm(
            LayerLed { current_layer: Some(layer), overlay: None, deferred_ble_state: None, ..s },
            now,
            settings.timeout_sec,
        ),
        now,
        settings,
    )
}

pub open spec fn spec_on_connection_status(s: LayerLed, status: ConnectionStatus, now: u64, settings: LedSettings) -> (
    LayerLed,
    Option<Rgb>,
) {
    let previous = s.connection_status;
    let repeated = previous == Some(status);
    let profile_changed = previous is Some && previous->Some_0.ble.profile != status.ble.profile;
    let state_changed = previous is None || previous->Some_0.ble.state != status.ble.state;
    let s1 = LayerLed {
        connection_status: Some(status),
        ble_profile: status.ble.profile,
        ble_state: status.ble.state,
        ..s
    };
    let s2 = if profile_changed || repeated {
        spec_start(
            LayerLed { deferred_ble_state: None, ..s1 },
            Overlay::Profile(status.ble.profile),
            now,
            INDICATOR_DURATION_MS,
        )
    } else if state_changed {
        if s1.overlay matches Some(o) && o.kind is Profile {
            LayerLed { deferred_ble_state: Some(status.ble.state), ..s1 }
        } else {
            spec_start_ble_overlay(s1, status.ble.state, now, settings.timeout_sec)
        }
    } else {
        s1
    };
    spec_render(s2, now, settings)
}

pub open spec fn spec_on_battery_status(s: LayerLed, status: BatteryStatus, now: u64, settings: LedSettings) -> (
    LayerLed,
    Option<Rgb>,
) {
    let s1 = match status {
        BatteryStatus::Available { charge_state, level } => {
            let t = LayerLed {
                latest_battery: level,
                battery_charging: charge_state == ChargeState::Charging,
                ..s
            };
            if t.pending_battery_display && level is Some {
                spec_start(
                    LayerLed { pending_battery_display: false, ..t },
                    Overlay::Battery(level->Some_0),
                    now,
                    INDICATOR_DURATION_MS,
                )
            } else {
                t
            }
        },
        BatteryStatus::Unavailable => s,
    };
    spec_render(s1, now, settings)
}

pub open spec fn spec_on_battery_refresh(s: LayerLed, now: u64, settings: LedSettings) -> (LayerLed, Option<Rgb>) {
    match s.latest_battery {
        Some(level) => spec_render(
            spec_start(
                LayerLed { pending_battery_display: false, ..s },
                Overlay::Battery(level),
                now,
                INDICATOR_DURATION_MS,
            ),
            now,
            settings,
        ),
        None => (LayerLed { pending_battery_display: true, ..s }, None),
    }
}

/// One 20 ms tick: USB power changes, overlay expiry, periodic charging and
/// low battery pulses, then render.
pub open spec fn spec_poll(s: LayerLed, usb_powered: bool, now: u64, settings: LedSettings) -> (LayerLed, Option<Rgb>) {
    let t = settings.timeout_sec;
    let s1 = if usb_powered != s.usb_powered {
        let u = LayerLed { usb_powered, ..s };
        if usb_powered {
            spec_start(LayerLed { last_charging_pulse: now, ..u }, Overlay::Charging, now, BATTERY_PULSE_ON_MS)
        } else if u.overlay matches Some(o) && o.kind == Overlay::Charging {
            spec_arm(LayerLed { overlay: None, ..u }, now, t)
        } else {
            u
        }
    } else {
        s
    };
    let s2 = if s1.overlay matches Some(o) && now >= o.ends {
        let cleared = LayerLed { overlay: None, ..s1 };
        if s1.overlay->Some_0.kind is Profile {
            match cleared.deferred_ble_state {
                Some(state) => spec_start_ble_overlay(
                    LayerLed { deferred_ble_state: None, ..cleared },
                    state,
                    now,
                    t,
                ),
                None => spec_arm(cleared, now, t),
            }
        } else {
            spec_arm(cleared, now, t)
        }
    } else {
        s1
    };
    let s3 = if s2.overlay is None {
        if spec_is_charging(s2) && since(now, s2.last_charging_pulse) >= BATTERY_PULSE_INTERVAL_MS {
            spec_start(LayerLed { last_charging_pulse: now, ..s2 }, Overlay::Charging, now, BATTERY_PULSE_ON_MS)
        } else if !spec_is_charging(s2) && s2.latest_battery is Some && s2.latest_battery->Some_0 <= LOW_BATTERY_MAX
            && since(now, s2.last_low_battery_pulse) >= BATTERY_PULSE_INTERVAL_MS {
            spec_start(
                LayerLed { last_low_battery_pulse: now, ..s2 },
                Overlay::LowBattery,
                now,
                BATTERY_PULSE_ON_MS,
            )
        } else {
            s2
        }
    } else {
        s2
    };
    spec_render(s3, now, settings)
}

impl LayerLed {
    /// A LED showing layer 0, with `usb_powered` as read from the USB supply, at `now`.
    pub fn new_at(usb_powered: bool, now: u64) -> (led: LayerLed)
        ensures
            led == spec_new_led(usb_powered, now),
    {
        LayerLed {
            current_layer: Some(0),
            layer_deadline: None,
            current_color: None,
            connection_status: None,
            ble_profile: 0,
            ble_state: BleState::Inactive,
            deferred_ble_state: None,
            split_connected: true,
            overlay: None,
            latest_battery: None,
            battery_charging: false,
            pending_battery_display: false,
            usb_powered,
            last_charging_pulse: now,
            last_low_battery_pulse: now,
        }
    }

    /// A LED showing layer 0, created now.
    pub fn new(usb_powered: bool) -> (led: LayerLed)
        ensures
            exists|now: u64| led == #[trigger] spec_new_led(usb_powered, now),
    {
        let now = now_millis();
        Self::new_at(usb_powered, now)
    }

    fn arm_layer_timeout(&mut self, now: u64, timeout_sec: u32)
        ensures
            *final(self) == spec_arm(*old(self), now, timeout_sec),
    {
        self.layer_deadline = if timeout_sec != 0 {
            Some(later_by(now, (timeout_sec as u64) * 1000))
        } else {
            None
        };
    }

    fn start_overlay(&mut self, kind: Overlay, now: u64, duration_ms: u64)
        ensures
            *final(self) == spec_start(*old(self), kind, now, duration_ms),
    {
        self.overlay = Some(TimedOverlay { kind, started: now, ends: later_by(now, duration_ms) });
    }

    fn is_charging(&self) -> (charging: bool)
        ensures
            charging == spec_is_charging(*self),
    {
        self.battery_charging || (self.usb_powered && !(match self.latest_battery {
            Some(level) => level >= CHARGED_BATTERY_MIN,
            None => false,
        }))
    }

    fn layer_color(&self, now: u64, settings: &LedSettings) -> (c: Rgb)
        ensures
            c == spec_layer_color(*self, now, *settings),
    {
        if let Some(deadline) = self.layer_deadline {
            if now >= deadline {
                return color_off();
            }
        }
        match self.current_layer {
            Some(layer) => color_for_layer(layer, settings),
            None => color_off(),
        }
    }

    /// Brings the LED to the colour it should show; returns the colour to
    /// send, or `None` when it is already showing.
    pub fn render(&mut self, now: u64, settings: &LedSettings) -> (sent: Option<Rgb>)
        ensures
            (*final(self), sent) == spec_render(*old(self), now, *settings),
    {
        let color = match self.overlay {
            Some(overlay) => overlay_color(overlay, now, settings),
            None => self.layer_color(now, settings),
        };
        if self.current_color == Some(color) {
            return None;
        }
        self.current_color = Some(color);
        Some(color)
    }

    fn start_ble_overlay(&mut self, state: BleState, now: u64, timeout_sec: u32)
        ensures
            *final(self) == spec_start_ble_overlay(*old(self), state, now, timeout_sec),
    {
        match state {
            BleState::Advertising => self.start_overlay(Overlay::Advertising, now, INDICATOR_DURATION_MS),
            BleState::Connected => self.start_overlay(Overlay::HostConnected, now, CONNECTED_PULSE_MS),
            BleState::Inactive => {
                let showing_ble = match self.overlay {
                    Some(o) => o.kind == Overlay::Advertising || o.kind == Overlay::HostConnected,
                    None => false,
                };
                if showing_ble {
                    self.overlay = None;
                    self.arm_layer_timeout(now, timeout_sec);
                }
            },
        }
    }

    fn set_split_connected(&mut self, connected: bool, now: u64)
        ensures
            *final(self) == spec_set_split_connected(*old(self), connected, now),
    {
        if self.split_connected == connected {
            return;
        }
        self.split_connected = connected;
        if connected {
            self.start_overlay(Overlay::SplitConnected, now, CONNECTED_PULSE_MS);
        } else {
            self.start_overlay(Overlay::SplitMissing, now, INDICATOR_DURATION_MS);
        }
    }

    /// The active layer changed: show its colour at once, dropping any overlay.
    pub fn on_layer_change_event(&mut self, layer: u8, now: u64, settings: &LedSettings) -> (sent: Option<Rgb>)
        ensures
            (*final(self), sent) == spec_on_layer_change(*old(self), layer, now, *settings),
    {
        self.current_layer = Some(layer);
        // A layer change is direct user feedback and must not remain hidden
        // behind a stale Bluetooth/split/battery indicator.
        self.overlay = None;
        self.deferred_ble_state = None;
        self.arm_layer_timeout(now, settings.timeout_sec);
        self.render(now, settings)
    }

    /// The connection status changed: flash the profile colour on a profile
    /// change (or a repeated status), else show the new Bluetooth state,
    /// deferring it while a profile flash lasts.
    pub fn on_connection_status_change_event(
        &mut self,
        status: ConnectionStatus,
        now: u64,
        settings: &LedSettings,
    ) -> (sent: Option<Rgb>)
        ensures
            (*final(self), sent) == spec_on_connection_status(*old(self), status, now, *settings),
    {
        let previous = self.connection_status;
        let repeated = previous == Some(status);
        let profile_changed = match previous {
            Some(p) => p.ble.profile != status.ble.profile,
            None => false,
        };
        let state_changed = match previous {
            Some(p) => p.ble.state != status.ble.state,
            None => true,
        };
        self.connection_status = Some(status);
        self.ble_profile = status.ble.profile;
        self.ble_state = status.ble.state;
        if profile_changed || repeated {
            self.deferred_ble_state = None;
            self.start_overlay(Overlay::Profile(self.ble_profile), now, INDICATOR_DURATION_MS);
        } else if state_changed {
            let showing_profile = match self.overlay {
                Some(o) => match o.kind {
                    Overlay::Profile(_) => true,
                    _ => false,
                },
                None => false,
            };
            if showing_profile {
                self.deferred_ble_state = Some(self.ble_state);
            } else {
                self.start_ble_overlay(self.ble_state, now, settings.timeout_sec);
            }
        }
        self.render(now, settings)
    }

    /// The split link (to the peripheral or the central) came up or went down.
    pub fn on_split_connected_event(&mut self, connected: bool, now: u64, settings: &LedSettings) -> (sent: Option<Rgb>)
        ensures
            (*final(self), sent) == spec_render(
                spec_set_split_connected(*old(self), connected, now),
                now,
                *settings,
            ),
    {
        self.set_split_connected(connected, now);
        self.render(now, settings)
    }

    /// The module settings changed (already applied to `settings`): repaint.
    pub fn on_peripheral_settings_event(&mut self, now: u64, settings: &LedSettings) -> (sent: Option<Rgb>)
        ensures
            (*final(self), sent) == spec_render(
                spec_arm(LayerLed { current_color: None, ..*old(self) }, now, settings.timeout_sec),
                now,
                *settings,
            ),
    {
        self.current_color = None;
        self.arm_layer_timeout(now, settings.timeout_sec);
        self.render(now, settings)
    }

    /// A battery reading arrived.
    pub fn on_battery_status_event(&mut self, status: BatteryStatus, now: u64, settings: &LedSettings) -> (sent: Option<Rgb>)
        ensures
            (*final(self), sent) == spec_on_battery_status(*old(self), status, now, *settings),
    {
        if let BatteryStatus::Available { charge_state, level } = status {
            self.latest_battery = level;
            self.battery_charging = charge_state == ChargeState::Charging;
            if self.pending_battery_display {
                if let Some(level) = level {
                    self.pending_battery_display = false;
                    self.start_overlay(Overlay::Battery(level), now, INDICATOR_DURATION_MS);
                }
            }
        }
        self.render(now, settings)
    }

    /// The host asked for the battery levels: show ours now, or as soon as it is known.
    pub fn on_peripheral_battery_refresh_event(&mut self, now: u64, settings: &LedSettings) -> (sent: Option<Rgb>)
        ensures
            (*final(self), sent) == spec_on_battery_refresh(*old(self), now, *settings),
    {
        self.pending_battery_display = true;
        if let Some(level) = self.latest_battery {
            self.pending_battery_display = false;
            self.start_overlay(Overlay::Battery(level), now, INDICATOR_DURATION_MS);
            return self.render(now, settings);
        }
        None
    }

    /// The periodic tick, with the USB supply state read at `now`.
    pub fn poll_at(&mut self, usb_powered: bool, now: u64, settings: &LedSettings) -> (sent: Option<Rgb>)
        ensures
            (*final(self), sent) == spec_poll(*old(self), usb_powered, now, *settings),
    {
        let t = settings.timeout_sec;
        if usb_powered != self.usb_powered {
            self.usb_powered = usb_powered;
            if usb_powered {
                self.last_charging_pulse = now;
                self.start_overlay(Overlay::Charging, now, BATTERY_PULSE_ON_MS);
            } else {
                let charging_shown = match self.overlay {
                    Some(o) => o.kind == Overlay::Charging,
                    None => false,
                };
                if charging_shown {
                    self.overlay = None;
                    self.arm_layer_timeout(now, t);
                }
            }
        }
        if let Some(o) = self.overlay {
            if now >= o.ends {
                self.overlay = None;
                let was_profile = match o.kind {
                    Overlay::Profile(_) => true,
                    _ => false,
                };
                if was_profile {
                    match self.deferred_ble_state {
                        Some(state) => {
                            self.deferred_ble_state = None;
                            self.start_ble_overlay(state, now, t);
                        },
                        None => self.arm_layer_timeout(now, t),
                    }
                } else {
                    self.arm_layer_timeout(now, t);
                }
            }
        }
        if self.overlay.is_none() {
            let charging = self.is_charging();
            let low = match self.latest_battery {
                Some(level) => level <= LOW_BATTERY_MAX,
                None => false,
            };
            if charging && elapsed_ms(now, self.last_charging_pulse) >= BATTERY_PULSE_INTERVAL_MS {
                self.last_charging_pulse = now;
                self.start_overlay(Overlay::Charging, now, BATTERY_PULSE_ON_MS);
            } else if !charging && low && elapsed_ms(now, self.last_low_battery_pulse) >= BATTERY_PULSE_INTERVAL_MS {
                self.last_low_battery_pulse = now;
                self.start_overlay(Overlay::LowBattery, now, BATTERY_PULSE_ON_MS);
            }
        }
        self.render(now, settings)
    }

    /// The periodic tick, reading the clock.
    pub fn poll(&mut self, usb_powered: bool, settings: &LedSettings) -> (sent: Option<Rgb>)
        ensures
            exists|now: u64| (*final(self), sent) == #[trigger] spec_poll(*old(self), usb_powered, now, *settings),
    {
        let now = now_millis();
        self.poll_at(usb_powered, now, settings)
    }
}

/// A layer change always shows the new layer's colour at once: any overlay is
/// dropped, and the colour is sent unless the LED already shows it. (At the
/// last millisecond the clock can hold, an armed timeout has already run out.)
pub proof fn lemma_layer_change_shows_layer(s: LayerLed, layer: u8, now: u64, settings: LedSettings)
    requires
        now < u64::MAX,
    ensures
        ({
            let (next, sent) = spec_on_layer_change(s, layer, now, settings);
            let color = spec_color_for_layer(layer, settings);
            &&& next.overlay is None
            &&& next.current_layer == Some(layer)
            &&& next.current_color == Some(color)
            &&& sent == (if s.current_color == Some(color) { None } else { Some(color) })
        }),
{
}

/// What each overlay shows, `elapsed` milliseconds after it started (none
/// before), at brightness `b`: advertising blinks blue (on for the first
/// 500 ms of every second); a host connection pulses green twice (0..=100 and
/// 180..=280 ms); a missing split half blinks yellow (150 ms every 1.5 s) and
/// a split connection pulses yellow; charging is green, low battery red; a
/// battery level is red to 20 %, orange to 40 %, yellow to 74 % and green
/// above; a profile shows its colour from the table (dark beyond it). Every
/// channel is scaled by `b / 255`.
pub proof fn lemma_overlay_colors(overlay: TimedOverlay, now: u64, settings: LedSettings)
    ensures
        ({
            let e: int = if now >= overlay.started { now - overlay.started } else { 0 };
            let b = settings.brightness;
            let off = Rgb { r: 0, g: 0, b: 0 };
            let yellow = Rgb { r: b, g: ((180 * b) / 255) as u8, b: 0 };
            let c = spec_overlay_color(overlay, now, settings);
            &&& overlay.kind == Overlay::Advertising ==> c == (if e % 1000 < 500 {
                Rgb { r: 0, g: 0, b }
            } else {
                off
            })
            &&& overlay.kind == Overlay::HostConnected ==> c == (if e <= 100 || (180 <= e && e <= 280) {
                Rgb { r: 0, g: b, b: 0 }
            } else {
                off
            })
            &&& overlay.kind == Overlay::SplitMissing ==> c == (if e % 1500 < 150 {
                yellow
            } else {
                off
            })
            &&& overlay.kind == Overlay::SplitConnected ==> c == (if e <= 100 || (180 <= e && e <= 280) {
                yellow
            } else {
                off
            })
            &&& overlay.kind == Overlay::Charging ==> c == (Rgb { r: 0, g: b, b: 0 })
            &&& overlay.kind == Overlay::LowBattery ==> c == (Rgb { r: b, g: 0, b: 0 })
            &&& overlay.kind matches Overlay::Battery(level) ==> c == (if level <= 20 {
                Rgb { r: b, g: 0, b: 0 }
            } else if level <= 40 {
                Rgb { r: b, g: ((80 * b) / 255) as u8, b: 0 }
            } else if level <= 74 {
                Rgb { r: b, g: ((220 * b) / 255) as u8, b: 0 }
            } else {
                Rgb { r: 0, g: b, b: 0 }
            })
            &&& overlay.kind matches Overlay::Profile(p) ==> c == (if (p as int) < settings.profile_colors@.len() {
                let t = settings.profile_colors@[p as int];
                Rgb {
                    r: ((t.r * b) / 255) as u8,
                    g: ((t.g * b) / 255) as u8,
                    b: ((t.b * b) / 255) as u8,
                }
            } else {
                off
            })
        }),
{
    let b = settings.brightness;
    assert((255 * b) / 255 == b) by (nonlinear_arith);
    assert((0 * b) / 255 == 0) by (nonlinear_arith);
    assert((b * 255) / 255 == b) by (nonlinear_arith);
    assert((180 * b) / 255 == (b * 180) / 255) by (nonlinear_arith);
}

/// The value eight frame words starting at `at` send, most significant bit
/// first: a long high pulse is a 1.
pub open spec fn frame_byte(words: Seq<u16>, at: int) -> int {
    (if words[at] == PWM_T1H { 128int } else { 0int }) + (if words[at + 1] == PWM_T1H { 64int } else { 0int }) + (
    if words[at + 2] == PWM_T1H { 32int } else { 0int }) + (if words[at + 3] == PWM_T1H { 16int } else { 0int }) + (
    if words[at + 4] == PWM_T1H { 8int } else { 0int }) + (if words[at + 5] == PWM_T1H { 4int } else { 0int }) + (
    if words[at + 6] == PWM_T1H { 2int } else { 0int }) + (if words[at + 7] == PWM_T1H { 1int } else { 0int })
}

proof fn lemma_bit_words_decode(x: u8)
    ensures
        frame_byte(Seq::new(8, |k: int| bit_word(x, (7 - k) as u32)), 0) == x,
{
    let w = Seq::new(8, |k: int| bit_word(x, (7 - k) as u32));
    assert(w[0] == bit_word(x, 7) && w[1] == bit_word(x, 6) && w[2] == bit_word(x, 5) && w[3] == bit_word(x, 4));
    assert(w[4] == bit_word(x, 3) && w[5] == bit_word(x, 2) && w[6] == bit_word(x, 1) && w[7] == bit_word(x, 0));
    assert((if x & (1u8 << 7u32) != 0 { 128u32 } else { 0u32 }) + (if x & (1u8 << 6u32) != 0 { 64u32 } else { 0u32 })
        + (if x & (1u8 << 5u32) != 0 { 32u32 } else { 0u32 }) + (if x & (1u8 << 4u32) != 0 { 16u32 } else { 0u32 })
        + (if x & (1u8 << 3u32) != 0 { 8u32 } else { 0u32 }) + (if x & (1u8 << 2u32) != 0 { 4u32 } else { 0u32 })
        + (if x & (1u8 << 1u32) != 0 { 2u32 } else { 0u32 }) + (if x & (1u8 << 0u32) != 0 { 1u32 } else { 0u32 })
        == x as u32) by (bit_vector);
}

/// The frame for a colour sends green, then red, then blue, one pulse a bit,
/// most significant bit first, so that a WS2812 reads exactly that colour
/// back; every colour bit is a short or a long pulse, and the rest of the
/// frame is the all-zero reset gap.
pub proof fn lemma_frame_sends_color(color: Rgb)
    ensures
        ({
            let f = spec_color_frame(color);
            &&& f.len() == 104
            &&& frame_byte(f, 0) == color.g
            &&& frame_byte(f, 8) == color.r
            &&& frame_byte(f, 16) == color.b
            &&& forall|i: int| 0 <= i < 24 ==> #[trigger] f[i] == PWM_T0H || f[i] == PWM_T1H
            &&& forall|i: int| 24 <= i < 104 ==> #[trigger] f[i] == 0
        }),
{
    let f = spec_color_frame(color);
    lemma_bit_words_decode(color.g);
    lemma_bit_words_decode(color.r);
    lemma_bit_words_decode(color.b);
    let g = Seq::new(8, |k: int| bit_word(color.g, (7 - k) as u32));
    let r = Seq::new(8, |k: int| bit_word(color.r, (7 - k) as u32));
    let b = Seq::new(8, |k: int| bit_word(color.b, (7 - k) as u32));
    assert(forall|k: int| 0 <= k < 8 ==> f[k] == g[k]);
    assert(forall|k: int| 0 <= k < 8 ==> f[8 + k] == r[k]);
    assert(forall|k: int| 0 <= k < 8 ==> f[16 + k] == b[k]);
    assert(frame_byte(f, 0) == frame_byte(g, 0));
    assert(frame_byte(f, 8) == frame_byte(r, 0));
    assert(frame_byte(f, 16) == frame_byte(b, 0));
}

/// After a layer change with a timeout of `timeout_sec` seconds (and no
/// overlay showing since), the LED shows the layer's colour from the table,
/// scaled by the brightness, until the timeout has run out, and is dark from
/// then on; with no timeout it stays lit.
pub proof fn lemma_layer_color_times_out(s: LayerLed, layer: u8, now: u64, settings: LedSettings, later: u64)
    requires
        now <= later,
        now + settings.timeout_sec * 1000 <= u64::MAX,
    ensures
        ({
            let (n, _) = spec_on_layer_change(s, layer, now, settings);
            let b = settings.brightness;
            let lit = if (layer as int) < settings.layer_colors@.len() {
                let t = settings.layer_colors@[layer as int];
                Rgb { r: ((t.r * b) / 255) as u8, g: ((t.g * b) / 255) as u8, b: ((t.b * b) / 255) as u8 }
            } else {
                Rgb { r: 0, g: 0, b: 0 }
            };
            let shown = spec_shown_color(n, later, settings);
            &&& (settings.timeout_sec == 0 || later < now + settings.timeout_sec * 1000) ==> shown == lit
            &&& (settings.timeout_sec != 0 && later >= now + settings.timeout_sec * 1000) ==> shown == (Rgb {
                r: 0,
                g: 0,
                b: 0,
            })
        }),
{
}

/// Rendering twice at the same moment sends nothing the second time.
pub proof fn lemma_render_idempotent(s: LayerLed, now: u64, settings: LedSettings)
    ensures
        ({
            let (once, _) = spec_render(s, now, settings);
            spec_render(once, now, settings) == (once, None::<Rgb>)
        }),
{
}

/// Full brightness keeps a channel, zero brightness turns it off, and dimming
/// never brightens.
pub proof fn lemma_scale_bounds(value: u8, brightness: u8)
    ensures
        spec_scale(value, 255) == value,
        spec_scale(value, 0) == 0,
        spec_scale(value, brightness) <= value,
{
    assert((value * 255) / 255 == value) by (nonlinear_arith);
    assert((value * brightness) / 255 <= value) by (nonlinear_arith)
        requires
            brightness <= 255,
    ;
}

/// A blink repeats every period.
pub proof fn lemma_blink_periodic(color: Rgb, elapsed: u64, period: u64, on: u64)
    requires
        period > 0,
        elapsed + period <= u64::MAX,
    ensures
        spec_blink_color(color, (elapsed + period) as u64, period, on) == spec_blink_color(color, elapsed, period, on),
{
    vstd::arithmetic::div_mod::lemma_mod_add_multiples_vanish(elapsed as int, period as int);
}

/// When the host asks for the battery level before one is known, the first
/// level that arrives is shown.
pub proof fn lemma_pending_refresh_shows_first_level(
    s: LayerLed,
    asked: u64,
    arrived: u64,
    settings: LedSettings,
    charge_state: ChargeState,
    level: u8,
)
    requires
        s.latest_battery is None,
    ensures
        ({
            let (s1, sent1) = spec_on_battery_refresh(s, asked, settings);
            let (s2, _) = spec_on_battery_status(
                s1,
                BatteryStatus::Available { charge_state, level: Some(level) },
                arrived,
                settings,
            );
            &&& sent1 is None
            &&& s2.overlay == Some(
                TimedOverlay {
                    kind: Overlay::Battery(level),
                    started: arrived,
                    ends: after(arrived, INDICATOR_DURATION_MS),
                },
            )
            &&& !s2.pending_battery_display
        }),
{
}

/// A Bluetooth state change held back behind a profile flash is shown as soon
/// as the flash ends.
pub proof fn lemma_deferred_ble_state_follows_profile(
    s: LayerLed,
    now: u64,
    settings: LedSettings,
    state: BleState,
)
    requires
        s.overlay matches Some(o) && o.kind is Profile && now >= o.ends,
        s.deferred_ble_state == Some(state),
        state != BleState::Inactive,
    ensures
        ({
            let (next, _) = spec_poll(s, s.usb_powered, now, settings);
            &&& next.deferred_ble_state is None
            &&& next.overlay == Some(
                if state == BleState::Advertising {
                    TimedOverlay {
                        kind: Overlay::Advertising,
                        started: now,
                        ends: after(now, INDICATOR_DURATION_MS),
                    }
                } else {
                    TimedOverlay { kind: Overlay::HostConnected, started: now, ends: after(now, CONNECTED_PULSE_MS) }
                },
            )
        }),
{
}

} // verus!
