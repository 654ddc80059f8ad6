use ergohaven::battery::{BatteryStatus, BleState, BleStatus, ChargeState};
use ergohaven::display::{
    agent_cells, battery_reading, halves_drawable, body_dirty_region, decimal_text, draw_bat_column, header_dirty_region,
    lcd_after_init, lcd_needs_init, present_bands, push_host_time, BatReading, DirtyRegion,
    DongleScreen, LcdPhase, QubeStatusRenderer, Rect, RenderContext, StripeBuffer, Tone, UiEvent, BAR_Y, STRIPE_BYTES,
};
use ergohaven::host_data::{empty_host_data, AgentSummary};

fn ctx() -> RenderContext {
    RenderContext {
        layer: 0,
        wpm: 0,
        key_pressed: false,
        key_press_latch: false,
        sleeping: false,
        battery: BatteryStatus::Unavailable,
        ble_status: BleStatus { profile: 0, state: BleState::Inactive },
        peripherals_connected: vec![false, false],
        peripheral_batteries: vec![BatteryStatus::Unavailable, BatteryStatus::Unavailable],
        central_connected: false,
    }
}

fn available(level: u8) -> BatteryStatus {
    BatteryStatus::Available { charge_state: ChargeState::Unknown, level: Some(level) }
}

#[test]
fn dirty_regions_merge() {
    let header = header_dirty_region();
    let body = body_dirty_region();
    assert_eq!(header, DirtyRegion::range(12, 44));
    assert_eq!(header.union(body), DirtyRegion::range(12, 234));
    assert_eq!(body.union(header), DirtyRegion::range(12, 234));
    assert_eq!(header.union(DirtyRegion::Full), DirtyRegion::Full);
    assert_eq!(header.union(header), header);
}

#[test]
fn presents_go_in_stripes_of_48_rows() {
    assert_eq!(present_bands(DirtyRegion::Full), vec![(0, 48), (48, 48), (96, 48), (144, 48), (192, 48)]);
    assert_eq!(present_bands(body_dirty_region()), vec![(48, 48), (96, 48), (144, 48), (192, 42)]);
    assert_eq!(present_bands(header_dirty_region()), vec![(12, 32)]);
    assert_eq!(present_bands(DirtyRegion::range(230, 500)), vec![(230, 10)]);
    assert_eq!(present_bands(DirtyRegion::range(300, 400)), vec![]);
    assert_eq!(present_bands(DirtyRegion::range(40, 40)), vec![]);
}

#[test]
fn stripe_pixels_land_in_the_active_band_only() {
    let mut stripe = StripeBuffer::new();
    stripe.set_band(48, 100);
    stripe.put_pixel(10, 50, 0xABCD);
    let bytes = stripe.as_slice();
    assert_eq!(bytes.len(), STRIPE_BYTES);
    let off = ((50 - 48) * 280 + 15) * 2;
    assert_eq!(&bytes[off..off + 2], &[0xAB, 0xCD]);
    assert_eq!(bytes.iter().filter(|b| **b != 0).count(), 2);

    stripe.put_pixel(275, 50, 0xFFFF);
    stripe.put_pixel(0, 47, 0xFFFF);
    stripe.put_pixel(0, 96, 0xFFFF);
    stripe.put_pixel(-6, 60, 0xFFFF);
    assert_eq!(stripe.as_slice().iter().filter(|b| **b != 0).count(), 2);

    stripe.put_pixel(-5, 95, 0x0102);
    let off = (47 * 280) * 2;
    assert_eq!(&stripe.as_slice()[off..off + 2], &[0x01, 0x02]);

    stripe.clear_stripe(0x1234);
    assert!(stripe.as_slice().chunks(2).all(|p| p == [0x12, 0x34]));
}

#[test]
fn decimal_and_clock_text() {
    assert_eq!(decimal_text(0), b"0".to_vec());
    assert_eq!(decimal_text(42), b"42".to_vec());
    assert_eq!(decimal_text(100), b"100".to_vec());
    assert_eq!(decimal_text(255), b"255".to_vec());
    assert_eq!(push_host_time(Some(9), Some(5)), b"09:05".to_vec());
    assert_eq!(push_host_time(Some(23), Some(59)), b"23:59".to_vec());
    assert_eq!(push_host_time(None, Some(5)), b"--:--".to_vec());
}

#[test]
fn battery_gauges() {
    assert_eq!(battery_reading(Some(available(55))), BatReading::Pct(55));
    assert_eq!(
        battery_reading(Some(BatteryStatus::Available { charge_state: ChargeState::Charging, level: None })),
        BatReading::Pending
    );
    assert_eq!(battery_reading(Some(BatteryStatus::Unavailable)), BatReading::Unknown);
    assert_eq!(battery_reading(None), BatReading::Unknown);

    let col = draw_bat_column(BatReading::Pct(55), true);
    assert_eq!(col.label, b"55%".to_vec());
    assert_eq!(col.label_tone, Tone::Fg);
    assert_eq!(col.fill, Some((BAR_Y + 2 + 63, 77, Tone::BarFg)));

    let col = draw_bat_column(BatReading::Pct(5), true);
    assert_eq!(col.label_tone, Tone::Red);
    assert_eq!(col.fill, Some((BAR_Y + 2 + 133, 7, Tone::Red)));

    let col = draw_bat_column(BatReading::Pct(1), true);
    assert_eq!(col.fill, Some((BAR_Y + 2 + 138, 2, Tone::Red)));

    let col = draw_bat_column(BatReading::Pct(20), true);
    assert_eq!(col.label_tone, Tone::Yellow);

    let col = draw_bat_column(BatReading::Pct(0), true);
    assert_eq!(col.label, b"0%".to_vec());
    assert_eq!(col.fill, None);

    let col = draw_bat_column(BatReading::Pending, true);
    assert_eq!((col.label, col.label_tone, col.fill), (b"??".to_vec(), Tone::Dim, None));

    let col = draw_bat_column(BatReading::Pct(90), false);
    assert_eq!((col.label, col.label_tone, col.fill), (b"--".to_vec(), Tone::Dim, None));
}

#[test]
fn agent_grid_dims_empty_states() {
    let cells = agent_cells(AgentSummary { working: 2, idle: 0, blocked: 1, done: 0, unknown: 9 });
    assert_eq!((cells[0].count, cells[0].label_tone, cells[0].show_count), (2, Tone::Accent, true));
    assert_eq!((cells[1].count, cells[1].label_tone), (1, Tone::Yellow));
    assert_eq!((cells[2].count, cells[2].label_tone, cells[2].show_count), (0, Tone::Dim, false));
    assert_eq!(cells[3].label_tone, Tone::Dim);
    assert_eq!((cells[0].x, cells[0].y), (52, 50));
    assert_eq!((cells[1].x, cells[1].y), (140, 50));
    assert_eq!((cells[2].x, cells[2].y), (52, 141));
    assert_eq!((cells[3].x, cells[3].y), (140, 141));
}

#[test]
fn screen_redraws_at_most_every_80_ms() {
    let mut screen = DongleScreen::new(empty_host_data(), 0, ctx());
    assert_eq!(screen.redraw_begin(10, empty_host_data(), 0), None);
    assert!(screen.pending);
    assert_eq!(screen.redraw_wait(10), 70);
    assert_eq!(screen.redraw_begin(80, empty_host_data(), 0), Some(DirtyRegion::Full));
    screen.redraw_done(80);
    assert!(!screen.pending);
    assert_eq!(screen.redraw_wait(100), 60);
    assert_eq!(screen.redraw_wait(500), 0);
}

#[test]
fn events_repaint_their_band() {
    let mut screen = DongleScreen::new(empty_host_data(), 0, ctx());
    screen.redraw_done(0);
    assert_eq!(screen.apply(UiEvent::Layer(2)), None);
    assert_eq!(screen.ctx.layer, 2);
    assert!(screen.pending);
    assert_eq!(screen.dirty, header_dirty_region());
    screen.apply(UiEvent::Battery(available(40)));
    assert_eq!(screen.dirty, DirtyRegion::range(12, 234));
    screen.redraw_done(100);
    assert_eq!(screen.apply(UiEvent::Key { pressed: true }), Some(true));
    assert!(screen.ctx.key_press_latch);
    assert!(!screen.pending);
    assert_eq!(screen.apply(UiEvent::Sleep(true)), Some(false));
    assert_eq!(screen.apply(UiEvent::Sleep(false)), Some(true));
    assert_eq!(screen.dirty, DirtyRegion::Full);
    screen.redraw_done(200);
    screen.apply(UiEvent::PeripheralBattery { id: 1, state: available(70) });
    assert_eq!(screen.ctx.peripheral_batteries[1], available(70));
    assert_eq!(screen.dirty, body_dirty_region());
    screen.apply(UiEvent::PeripheralConnected { id: 7, connected: true });
    assert_eq!(screen.ctx.peripherals_connected, vec![false, false]);
    assert_eq!(screen.dirty, DirtyRegion::Full);
}

#[test]
fn host_data_changes_repaint_what_they_show() {
    let mut screen = DongleScreen::new(empty_host_data(), 0, ctx());
    screen.redraw_done(0);
    screen.sync_host_data(empty_host_data());
    assert!(!screen.pending);

    let mut host = empty_host_data();
    host.agents = Some(AgentSummary::default());
    screen.sync_host_data(host);
    assert_eq!(screen.dirty, body_dirty_region());
    screen.redraw_done(100);

    let mut host = empty_host_data();
    host.agents = Some(AgentSummary::default());
    host.hour = Some(1);
    screen.sync_host_data(host);
    assert_eq!(screen.dirty, header_dirty_region());
    screen.redraw_done(200);

    screen.sync_layer_names(3);
    assert_eq!(screen.dirty, header_dirty_region());
    assert_eq!(screen.last_layer_names_version, 3);
}

#[test]
fn status_view_shows_each_half_on_its_side() {
    let mut c = ctx();
    c.layer = 4;
    c.peripherals_connected = vec![true, false];
    c.peripheral_batteries = vec![available(55), available(90)];
    let mut host = empty_host_data();
    host.hour = Some(9);
    host.minute = Some(5);
    host.agents = Some(AgentSummary { working: 1, idle: 0, blocked: 0, done: 3, unknown: 0 });
    let view = QubeStatusRenderer { host_data: host }.status_view(&c);
    assert_eq!(view.clock, b"09:05".to_vec());
    assert_eq!(view.layer, 4);
    assert_eq!(view.left.label, b"55%".to_vec());
    assert_eq!(view.right.label, b"--".to_vec());
    let cells = view.agents.expect("agent feed is live");
    assert_eq!(cells[3].count, 3);

    let view = QubeStatusRenderer { host_data: empty_host_data() }.status_view(&ctx());
    assert_eq!(view.clock, b"--:--".to_vec());
    assert!(view.agents.is_none());
}

fn pixel(stripe: &StripeBuffer, col: usize, row: usize) -> [u8; 2] {
    let off = (row * 280 + col) * 2;
    [stripe.as_slice()[off], stripe.as_slice()[off + 1]]
}

#[test]
fn fill_paints_the_part_of_a_rectangle_in_the_stripe() {
    let mut stripe = StripeBuffer::new();
    stripe.set_band(48, 48);
    // Rows 40..52 of columns 10..13: only rows 48..52 are in the stripe.
    stripe.fill_solid(Rect { x: 10, y: 40, w: 3, h: 12 }, 0xF800);
    let painted = stripe.as_slice().chunks(2).filter(|p| *p == [0xF8, 0x00]).count();
    assert_eq!(painted, 3 * 4);
    assert_eq!(pixel(&stripe, 15, 0), [0xF8, 0x00]);
    assert_eq!(pixel(&stripe, 17, 3), [0xF8, 0x00]);
    assert_eq!(pixel(&stripe, 18, 3), [0, 0]);
    assert_eq!(pixel(&stripe, 15, 4), [0, 0]);

    // A rectangle beside the stripe paints nothing.
    stripe.fill_solid(Rect { x: 0, y: 0, w: 280, h: 48 }, 0xFFFF);
    assert_eq!(stripe.as_slice().chunks(2).filter(|p| *p == [0xFF, 0xFF]).count(), 0);

    // Columns pushed past the right edge by the UI offset are dropped.
    stripe.fill_solid(Rect { x: 270, y: 48, w: 10, h: 1 }, 0x0001);
    assert_eq!(stripe.as_slice().chunks(2).filter(|p| *p == [0x00, 0x01]).count(), 5);
    assert_eq!(pixel(&stripe, 279, 0), [0x00, 0x01]);

    // Covering the whole stripe fills the whole buffer.
    stripe.fill_solid(Rect { x: -20, y: 0, w: 400, h: 240 }, 0x1234);
    assert!(stripe.as_slice().chunks(2).all(|p| p == [0x12, 0x34]));
}

#[test]
fn only_the_stripe_rows_are_sent() {
    let mut stripe = StripeBuffer::new();
    stripe.set_band(192, 48);
    assert_eq!(stripe.band_bytes().len(), STRIPE_BYTES);
    stripe.set_band(192, 42);
    assert_eq!(stripe.band_bytes().len(), 42 * 280 * 2);
    stripe.set_band(0, 200);
    assert_eq!(stripe.band_bytes().len(), STRIPE_BYTES);
}

#[test]
fn the_panel_is_brought_up_once() {
    assert!(lcd_needs_init(LcdPhase::Pending));
    assert!(!lcd_needs_init(LcdPhase::Failed));
    assert_eq!(lcd_after_init(LcdPhase::Pending, true), LcdPhase::Active);
    assert_eq!(lcd_after_init(LcdPhase::Pending, false), LcdPhase::Failed);
    assert_eq!(lcd_after_init(LcdPhase::Failed, true), LcdPhase::Failed);
    assert_eq!(lcd_after_init(LcdPhase::Active, false), LcdPhase::Active);
}

#[test]
fn the_screen_shows_what_it_last_took_in() {
    let mut c = ctx();
    c.peripherals_connected = vec![false, true];
    c.peripheral_batteries = vec![BatteryStatus::Unavailable, available(8)];
    let mut host = empty_host_data();
    host.hour = Some(14);
    host.minute = Some(30);
    let mut screen = DongleScreen::new(empty_host_data(), 0, c);
    screen.sync_host_data(host);
    let view = screen.status_view();
    assert_eq!(view.clock, b"14:30".to_vec());
    assert_eq!(view.left.label, b"--".to_vec());
    assert_eq!((view.right.label, view.right.label_tone), (b"8%".to_vec(), Tone::Red));
    assert!(view.agents.is_none());
}

#[test]
fn the_loop_waits_until_a_pending_redraw_is_due() {
    let mut screen = DongleScreen::new(empty_host_data(), 0, ctx());
    assert_eq!(screen.next_wait(30), Some(50));
    assert_eq!(screen.redraw_begin(30, empty_host_data(), 0), None);
    assert_eq!(screen.redraw_begin(80, empty_host_data(), 0), Some(DirtyRegion::Full));
    screen.redraw_done(90);
    assert_eq!(screen.next_wait(100), None);
    screen.apply(UiEvent::Layer(1));
    assert_eq!(screen.next_wait(100), Some(70));
    assert_eq!(screen.next_wait(400), Some(0));
}

#[test]
fn a_pass_waits_for_the_due_redraw_or_one_host_tick() {
    let mut screen = DongleScreen::new(empty_host_data(), 0, ctx());
    // Pending: wait until due, and the wait's end is no host tick.
    assert_eq!(screen.pass_wait(30), (50, false));
    assert_eq!(screen.pass_wait(500), (0, false));
    screen.redraw_done(500);
    // Nothing pending: one host tick.
    assert_eq!(screen.pass_wait(510), (250, true));
    screen.apply(UiEvent::Layer(2));
    assert_eq!(screen.pass_wait(510), (70, false));
}

#[test]
fn a_pass_takes_in_the_awaited_and_queued_events_in_order() {
    let mut screen = DongleScreen::new(empty_host_data(), 0, ctx());
    screen.redraw_done(100);
    let queued = vec![
        UiEvent::Sleep(true),
        UiEvent::Battery(available(40)),
        UiEvent::Key { pressed: true },
        UiEvent::Wpm(55),
    ];
    let levels = screen.take_events(Some(UiEvent::Layer(3)), queued);
    // Sleeping turns the backlight off, the key press turns it on again.
    assert_eq!(levels, vec![false, true]);
    assert_eq!((screen.ctx.layer, screen.ctx.wpm, screen.ctx.sleeping), (3, 55, true));
    assert!(screen.ctx.key_press_latch);
    // The header (layer) and body (battery) bands merge into one redraw.
    assert!(screen.pending);
    assert_eq!(screen.dirty, DirtyRegion::Range { y0: 12, y1: 234 });
    assert_eq!(screen.last_render, 100);

    let levels = screen.take_events(None, Vec::new());
    assert!(levels.is_empty());
    assert!(screen.pending);
}

#[test]
fn the_first_redraw_repaints_the_whole_screen() {
    let mut screen = DongleScreen::new(empty_host_data(), 0, ctx());
    assert_eq!(screen.startup(20, empty_host_data(), 0), None);
    assert!(screen.pending);
    let mut host = empty_host_data();
    host.hour = Some(9);
    assert_eq!(screen.startup(80, host, 1), Some(DirtyRegion::Full));
    assert_eq!(screen.last_host_data.hour, Some(9));
    assert_eq!(screen.last_layer_names_version, 1);
}

#[test]
fn gauges_are_drawable_only_with_levels_they_can_show() {
    let mut c = ctx();
    assert!(halves_drawable(&c));
    c.peripherals_connected = vec![true, false];
    c.peripheral_batteries = vec![available(100), available(250)];
    // The right half is not connected, so its level is never drawn.
    assert!(halves_drawable(&c));
    c.peripherals_connected = vec![true, true];
    assert!(!halves_drawable(&c));
}
