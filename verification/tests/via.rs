use ergohaven::battery::{BatteryStatus, ChargeState};
use ergohaven::host_data::{snapshot_at, AgentSummary, HostDataStore};
use ergohaven::via::{
    answers_need, request_overruns, battery_halves_for_split, battery_level_byte, host_data_text, native_key_action_capabilities,
    native_key_position_valid, process_host_data_packet, process_host_data_packet_at, KeymapDims, ScanEntry, SplitBatteryLayout, VialService,
    ViaAnswer, ViaCommand, ViaEffect, ViaKeyboardInfo, ViaNeed, ViaReport, ViaSettings,
    ERGOHAVEN_BATTERY_HALVES_VERSION, ERGOHAVEN_CUSTOM_BATTERY_HALVES, ERGOHAVEN_CUSTOM_NAMESPACE,
    ERGOHAVEN_CUSTOM_NATIVE_KEY_ACTION, ERGOHAVEN_CUSTOM_NATIVE_KEY_ACTION_CAPS,
    ERGOHAVEN_CUSTOM_NEXT_NATIVE_KEY_ACTION, ERGOHAVEN_NATIVE_KEY_ACTION_VERSION, NATIVE_KEY_ACTION_GET_PAYLOAD_OFFSET,
    NATIVE_KEY_ACTION_NEXT_PAYLOAD_OFFSET, NATIVE_KEY_ACTION_SET_PAYLOAD_OFFSET, NATIVE_KEY_ACTION_STATUS_END,
    NATIVE_KEY_ACTION_STATUS_INVALID_PAYLOAD, NATIVE_KEY_ACTION_STATUS_INVALID_POSITION, NATIVE_KEY_ACTION_STATUS_OK,
    NATIVE_KEY_ACTION_STATUS_UNSUPPORTED_VERSION, VIA_PROTOCOL_VERSION,
};

/// A keymap of one key that stores whatever the service tells it to, standing
/// in for the keyboard the service runs in.
struct TestKeyboard {
    dims: KeymapDims,
    encoded: Option<Vec<u8>>,
    via_keycode: u16,
    is_no_action: bool,
    macro_memory: Vec<u8>,
    layout_options: u32,
    batteries: (BatteryStatus, BatteryStatus, BatteryStatus),
}

impl TestKeyboard {
    fn new() -> Self {
        TestKeyboard {
            dims: KeymapDims { rows: 1, cols: 1, layers: 1 },
            encoded: None,
            via_keycode: 0,
            is_no_action: true,
            macro_memory: vec![0; 64],
            layout_options: 0,
            batteries: (BatteryStatus::Unavailable, BatteryStatus::Unavailable, BatteryStatus::Unavailable),
        }
    }

    fn answer(&self, need: ViaNeed) -> ViaAnswer {
        match need {
            ViaNeed::Nothing => ViaAnswer::Nothing,
            ViaNeed::LayoutOptions => ViaAnswer::LayoutOptions(self.layout_options),
            ViaNeed::Keycode { .. } => ViaAnswer::Keycode(self.via_keycode),
            ViaNeed::MacroBuffer { offset, size } => {
                ViaAnswer::MacroBuffer((offset..offset + size).map(|i| self.macro_memory[i % 64]).collect())
            }
            ViaNeed::Keycodes { count, .. } => ViaAnswer::Keycodes(vec![self.via_keycode; count]),
            ViaNeed::NativeAction { .. } => ViaAnswer::NativeAction(self.encoded.clone()),
            ViaNeed::NativeScan { start, end } => {
                let count = if start < end { end - start } else { 0 };
                ViaAnswer::NativeScan(
                    (0..count)
                        .map(|_| ScanEntry {
                            is_no_action: self.is_no_action,
                            via_keycode: self.via_keycode,
                            encoded: self.encoded.clone(),
                        })
                        .collect(),
                )
            }
            ViaNeed::NativePayload { payload, .. } => ViaAnswer::PayloadDecodes(decode(&payload).is_some()),
            ViaNeed::Batteries => ViaAnswer::Batteries {
                central: self.batteries.0,
                peripheral_0: self.batteries.1,
                peripheral_1: self.batteries.2,
            },
        }
    }

    fn apply(&mut self, effect: &ViaEffect) {
        match effect {
            ViaEffect::SetNativeAction { payload, .. } => {
                let action = decode(payload).expect("the service only stores payloads that decode");
                self.encoded = Some(encode(&action));
                self.via_keycode = 0;
                self.is_no_action = false;
            }
            ViaEffect::SetKeycode { keycode, .. } => {
                self.via_keycode = *keycode;
                self.is_no_action = *keycode == 0;
            }
            ViaEffect::WriteMacroBuffer { offset, data, .. } => {
                for (i, b) in data.iter().enumerate() {
                    self.macro_memory[(offset + i) % 64] = *b;
                }
            }
            ViaEffect::SetLayoutOptions(v) => self.layout_options = *v,
            _ => {}
        }
    }
}

fn settings() -> ViaSettings {
    ViaSettings { firmware_version: 0, macro_space_size: 0, universal_symbols: false, split_batteries: None }
}

/// Runs one request through the service the way the keyboard's VIA task does:
/// the reply starts as a copy of the request.
fn serve(service: &VialService, keyboard: &mut TestKeyboard, output_data: [u8; 32]) -> (ViaReport, ViaEffect) {
    let mut report = ViaReport { input_data: output_data, output_data };
    let need = service.via_need(&report, keyboard.dims);
    let answer = keyboard.answer(need);
    let effect = service.process_via_packet(&mut report, keyboard.dims, &answer);
    keyboard.apply(&effect);
    (report, effect)
}

fn macro_set_buffer_report(size: u8) -> [u8; 32] {
    let mut output_data = [0u8; 32];
    output_data[0] = ViaCommand::DynamicKeymapMacroSetBuffer.id();
    output_data[3] = size;
    output_data
}

fn custom_report(command: ViaCommand, subcommand: u8) -> [u8; 32] {
    let mut output_data = [0u8; 32];
    output_data[0] = command.id();
    output_data[1] = ERGOHAVEN_CUSTOM_NAMESPACE;
    output_data[2] = subcommand;
    output_data
}

/// A tap-hold key action as the keyboard stores it: variant, tap (kind,
/// keycode, modifiers), hold (kind, modifiers), behaviour.
type Action = (u8, (u8, u16, u8), (u8, u8), u8);

const RICH_ACTION: Action = (3, (2, 0x0027, 0x02), (1, 0x01), 0);

fn encode(action: &Action) -> Vec<u8> {
    let mut buf = [0u8; 24];
    postcard::to_slice(action, &mut buf).expect("fits 24 bytes").to_vec()
}

fn decode(bytes: &[u8]) -> Option<Action> {
    postcard::from_bytes::<Action>(bytes).ok()
}

fn set_native_action_report(payload: &[u8]) -> [u8; 32] {
    let mut out = custom_report(ViaCommand::CustomSetValue, ERGOHAVEN_CUSTOM_NATIVE_KEY_ACTION);
    out[3] = ERGOHAVEN_NATIVE_KEY_ACTION_VERSION;
    out[7] = payload.len() as u8;
    out[NATIVE_KEY_ACTION_SET_PAYLOAD_OFFSET..NATIVE_KEY_ACTION_SET_PAYLOAD_OFFSET + payload.len()]
        .copy_from_slice(payload);
    out
}

fn battery(level: u8) -> BatteryStatus {
    BatteryStatus::Available { charge_state: ChargeState::Unknown, level: Some(level) }
}

#[test]
fn reports_the_configured_runtime_firmware_version() {
    let service = VialService::new(ViaSettings { firmware_version: 0x0000_0103, ..settings() });
    let mut keyboard = TestKeyboard::new();
    let mut output_data = [0u8; 32];
    output_data[0] = ViaCommand::GetKeyboardValue.id();
    output_data[1] = ViaKeyboardInfo::FirmwareVersion.id();
    let (report, _) = serve(&service, &mut keyboard, output_data);
    assert_eq!(&report.input_data[2..6], &[0x00, 0x00, 0x01, 0x03]);
}

#[test]
fn macro_set_buffer_max_size_ok() {
    let service = VialService::new(settings());
    let mut keyboard = TestKeyboard::new();
    let mut out = macro_set_buffer_report(28);
    for (i, b) in out[4..32].iter_mut().enumerate() {
        *b = i as u8 + 1;
    }
    let (report, effect) = serve(&service, &mut keyboard, out);
    assert_eq!(report.input_data, out);
    match effect {
        ViaEffect::WriteMacroBuffer { offset, reset_first, data } => {
            assert_eq!(offset, 0);
            assert!(reset_first);
            assert_eq!(data, out[4..32].to_vec());
        }
        other => panic!("unexpected effect {:?}", other),
    }
}

#[test]
fn macro_set_buffer_oversize_rejected() {
    let service = VialService::new(settings());
    let mut keyboard = TestKeyboard::new();
    let (report, effect) = serve(&service, &mut keyboard, macro_set_buffer_report(29));
    assert_eq!(report.input_data[0], 0xFF);
    assert!(matches!(effect, ViaEffect::Nothing));
}

#[test]
fn native_key_action_capability_is_versioned() {
    let service = VialService::new(settings());
    let mut keyboard = TestKeyboard::new();
    let out = custom_report(ViaCommand::CustomGetValue, ERGOHAVEN_CUSTOM_NATIVE_KEY_ACTION_CAPS);
    let (report, _) = serve(&service, &mut keyboard, out);
    assert_eq!(report.input_data[3], ERGOHAVEN_NATIVE_KEY_ACTION_VERSION);
    assert_eq!(u16::from_le_bytes([report.input_data[4], report.input_data[5]]), native_key_action_capabilities(false));
}

#[test]
fn native_key_action_set_and_get_round_trip() {
    let service = VialService::new(settings());
    let mut keyboard = TestKeyboard::new();
    let (set_report, _) = serve(&service, &mut keyboard, set_native_action_report(&encode(&RICH_ACTION)));
    assert_eq!(set_report.input_data[4], NATIVE_KEY_ACTION_STATUS_OK);

    let mut get = custom_report(ViaCommand::CustomGetValue, ERGOHAVEN_CUSTOM_NATIVE_KEY_ACTION);
    get[3] = ERGOHAVEN_NATIVE_KEY_ACTION_VERSION;
    let (get_report, _) = serve(&service, &mut keyboard, get);
    assert_eq!(get_report.input_data[4], NATIVE_KEY_ACTION_STATUS_OK);
    let len = get_report.input_data[5] as usize;
    let decoded =
        decode(&get_report.input_data[NATIVE_KEY_ACTION_GET_PAYLOAD_OFFSET..NATIVE_KEY_ACTION_GET_PAYLOAD_OFFSET + len]);
    assert_eq!(decoded, Some(RICH_ACTION));
}

#[test]
fn native_key_action_scan_returns_only_vial_lossy_actions() {
    let service = VialService::new(settings());
    let mut keyboard = TestKeyboard::new();
    serve(&service, &mut keyboard, set_native_action_report(&encode(&RICH_ACTION)));

    let mut scan = custom_report(ViaCommand::CustomGetValue, ERGOHAVEN_CUSTOM_NEXT_NATIVE_KEY_ACTION);
    scan[3] = ERGOHAVEN_NATIVE_KEY_ACTION_VERSION;
    let (scan_report, _) = serve(&service, &mut keyboard, scan);
    assert_eq!(scan_report.input_data[4], NATIVE_KEY_ACTION_STATUS_OK);
    assert_eq!(u16::from_le_bytes([scan_report.input_data[5], scan_report.input_data[6]]), 0);
    let len = scan_report.input_data[7] as usize;
    let decoded = decode(
        &scan_report.input_data[NATIVE_KEY_ACTION_NEXT_PAYLOAD_OFFSET..NATIVE_KEY_ACTION_NEXT_PAYLOAD_OFFSET + len],
    );
    assert_eq!(decoded, Some(RICH_ACTION));

    scan[4..6].copy_from_slice(&1u16.to_le_bytes());
    let (scan_report, _) = serve(&service, &mut keyboard, scan);
    assert_eq!(scan_report.input_data[4], NATIVE_KEY_ACTION_STATUS_END);
}

#[test]
fn no_qube_split_uses_central_and_first_peripheral_batteries() {
    assert_eq!(
        battery_halves_for_split(battery(80), battery(55), BatteryStatus::Unavailable, 1, true),
        (battery(80), battery(55))
    );
}

#[test]
fn right_central_split_reports_physical_battery_order() {
    assert_eq!(
        battery_halves_for_split(battery(80), battery(55), BatteryStatus::Unavailable, 1, false),
        (battery(55), battery(80))
    );
}

#[test]
fn qube_split_uses_both_peripheral_batteries() {
    assert_eq!(battery_halves_for_split(battery(100), battery(80), battery(55), 2, true), (battery(80), battery(55)));
}

#[test]
fn scan_skips_keys_that_via_can_express() {
    let service = VialService::new(settings());
    let mut keyboard = TestKeyboard::new();
    keyboard.is_no_action = false;
    keyboard.via_keycode = 0x0004;
    keyboard.encoded = Some(vec![1, 2]);
    let mut scan = custom_report(ViaCommand::CustomGetValue, ERGOHAVEN_CUSTOM_NEXT_NATIVE_KEY_ACTION);
    scan[3] = ERGOHAVEN_NATIVE_KEY_ACTION_VERSION;
    let (report, _) = serve(&service, &mut keyboard, scan);
    assert_eq!(report.input_data[4], NATIVE_KEY_ACTION_STATUS_END);
    assert_eq!(u16::from_le_bytes([report.input_data[5], report.input_data[6]]), 0xFFFF);
}

#[test]
fn native_key_action_errors() {
    let service = VialService::new(settings());
    let mut keyboard = TestKeyboard::new();

    let mut bad_version = set_native_action_report(&encode(&RICH_ACTION));
    bad_version[3] = 2;
    let (report, effect) = serve(&service, &mut keyboard, bad_version);
    assert_eq!(report.input_data[4], NATIVE_KEY_ACTION_STATUS_UNSUPPORTED_VERSION);
    assert!(matches!(effect, ViaEffect::Nothing));

    let mut bad_position = set_native_action_report(&encode(&RICH_ACTION));
    bad_position[5] = 1;
    let (report, _) = serve(&service, &mut keyboard, bad_position);
    assert_eq!(report.input_data[4], NATIVE_KEY_ACTION_STATUS_INVALID_POSITION);

    let empty = set_native_action_report(&[]);
    let (report, effect) = serve(&service, &mut keyboard, empty);
    assert_eq!(report.input_data[4], NATIVE_KEY_ACTION_STATUS_INVALID_PAYLOAD);
    assert!(matches!(effect, ViaEffect::Nothing));

    let mut too_long = set_native_action_report(&encode(&RICH_ACTION));
    too_long[7] = 25;
    let (report, _) = serve(&service, &mut keyboard, too_long);
    assert_eq!(report.input_data[4], NATIVE_KEY_ACTION_STATUS_INVALID_PAYLOAD);

    let mut get = custom_report(ViaCommand::CustomGetValue, ERGOHAVEN_CUSTOM_NATIVE_KEY_ACTION);
    get[3] = ERGOHAVEN_NATIVE_KEY_ACTION_VERSION;
    let (report, _) = serve(&service, &mut keyboard, get);
    assert_eq!(report.input_data[4], NATIVE_KEY_ACTION_STATUS_INVALID_PAYLOAD);

    // An encoding longer than 24 bytes is not sent, though it would fit.
    keyboard.encoded = Some(vec![7; 25]);
    let (report, _) = serve(&service, &mut keyboard, get);
    assert_eq!(report.input_data[4], NATIVE_KEY_ACTION_STATUS_INVALID_PAYLOAD);
    assert_eq!(report.input_data[5], 0);
    keyboard.encoded = Some(vec![7; 24]);
    let (report, _) = serve(&service, &mut keyboard, get);
    assert_eq!(report.input_data[4], NATIVE_KEY_ACTION_STATUS_OK);
    assert_eq!(report.input_data[5], 24);
}

#[test]
fn unknown_command_is_answered_with_ff() {
    let service = VialService::new(settings());
    let mut keyboard = TestKeyboard::new();
    let mut out = [0u8; 32];
    out[0] = 0x42;
    out[1] = 7;
    let (report, effect) = serve(&service, &mut keyboard, out);
    assert_eq!(report.input_data[0], 0xFF);
    assert_eq!(&report.input_data[1..], &out[1..]);
    assert!(matches!(effect, ViaEffect::Nothing));
}

#[test]
fn protocol_version_is_big_endian() {
    let service = VialService::new(settings());
    let mut keyboard = TestKeyboard::new();
    let mut out = [0u8; 32];
    out[0] = ViaCommand::GetProtocolVersion.id();
    let (report, _) = serve(&service, &mut keyboard, out);
    assert_eq!(u16::from_be_bytes([report.input_data[1], report.input_data[2]]), VIA_PROTOCOL_VERSION);
}

#[test]
fn macro_counts_and_sizes() {
    let service = VialService::new(ViaSettings { macro_space_size: 0x0123, ..settings() });
    let mut keyboard = TestKeyboard::new();
    let mut out = [0u8; 32];
    out[0] = ViaCommand::DynamicKeymapMacroGetCount.id();
    let (report, _) = serve(&service, &mut keyboard, out);
    assert_eq!(report.input_data[1], 32);
    out[0] = ViaCommand::DynamicKeymapMacroGetBufferSize.id();
    let (report, _) = serve(&service, &mut keyboard, out);
    assert_eq!(&report.input_data[1..3], &[0x01, 0x23]);
}

#[test]
fn macro_buffer_write_then_read() {
    let service = VialService::new(settings());
    let mut keyboard = TestKeyboard::new();
    let mut set = macro_set_buffer_report(3);
    set[1] = 0;
    set[2] = 5;
    set[4..7].copy_from_slice(&[9, 8, 7]);
    let (_, effect) = serve(&service, &mut keyboard, set);
    assert!(matches!(effect, ViaEffect::WriteMacroBuffer { offset: 5, reset_first: false, .. }));
    let mut get = [0u8; 32];
    get[0] = ViaCommand::DynamicKeymapMacroGetBuffer.id();
    get[2] = 5;
    get[3] = 3;
    let (report, _) = serve(&service, &mut keyboard, get);
    assert_eq!(&report.input_data[4..7], &[9, 8, 7]);
    get[3] = 29;
    let (report, _) = serve(&service, &mut keyboard, get);
    assert_eq!(report.input_data[0], 0xFF);
}

#[test]
fn keycodes_are_read_big_endian_and_written_little_endian() {
    let service = VialService::new(settings());
    let mut keyboard = TestKeyboard::new();
    keyboard.via_keycode = 0x1234;
    let mut get = [0u8; 32];
    get[0] = ViaCommand::DynamicKeymapGetKeyCode.id();
    let (report, _) = serve(&service, &mut keyboard, get);
    assert_eq!(&report.input_data[4..6], &[0x12, 0x34]);

    let mut set = [0u8; 32];
    set[0] = ViaCommand::DynamicKeymapSetBuffer.id();
    set[1] = 0;
    set[2] = 2;
    set[3] = 4;
    set[4..8].copy_from_slice(&[0x04, 0x00, 0x05, 0x00]);
    let (_, effect) = serve(&service, &mut keyboard, set);
    match effect {
        ViaEffect::SetKeycodes { offset, keycodes, rows, cols } => {
            // Offset and size count bytes: byte 2 is keycode 1, 4 bytes are 2 keycodes.
            assert_eq!(offset, 1);
            assert_eq!(keycodes, vec![0x0004, 0x0005]);
            assert_eq!((rows, cols), (1, 1));
        }
        other => panic!("unexpected effect {:?}", other),
    }

    let mut buf = [0u8; 32];
    buf[0] = ViaCommand::DynamicKeymapGetBuffer.id();
    buf[3] = 4;
    let (report, _) = serve(&service, &mut keyboard, buf);
    assert_eq!(&report.input_data[4..8], &[0x12, 0x34, 0x12, 0x34]);
}

#[test]
fn layout_options_round_trip() {
    let service = VialService::new(settings());
    let mut keyboard = TestKeyboard::new();
    let mut set = [0u8; 32];
    set[0] = ViaCommand::SetKeyboardValue.id();
    set[1] = ViaKeyboardInfo::LayoutOptions.id();
    set[2..6].copy_from_slice(&0xDEAD_BEEFu32.to_be_bytes());
    serve(&service, &mut keyboard, set);
    assert_eq!(keyboard.layout_options, 0xDEAD_BEEF);
    let mut get = [0u8; 32];
    get[0] = ViaCommand::GetKeyboardValue.id();
    get[1] = ViaKeyboardInfo::LayoutOptions.id();
    let (report, _) = serve(&service, &mut keyboard, get);
    assert_eq!(&report.input_data[2..6], &0xDEAD_BEEFu32.to_be_bytes());
}

#[test]
fn battery_halves_report_per_half() {
    let service = VialService::new(ViaSettings {
        split_batteries: Some(SplitBatteryLayout { peripheral_count: 1, central_is_left: false }),
        ..settings()
    });
    let mut keyboard = TestKeyboard::new();
    keyboard.batteries = (battery(80), BatteryStatus::Available { charge_state: ChargeState::Charging, level: None }, battery(10));
    let out = custom_report(ViaCommand::CustomGetValue, ERGOHAVEN_CUSTOM_BATTERY_HALVES);
    let (report, _) = serve(&service, &mut keyboard, out);
    assert_eq!(report.input_data[3], ERGOHAVEN_BATTERY_HALVES_VERSION);
    assert_eq!(report.input_data[4], 2);
    assert_eq!(report.input_data[5], 0xFF);
    assert_eq!(report.input_data[6], 80);
}

#[test]
fn battery_level_byte_rejects_implausible_levels() {
    assert_eq!(battery_level_byte(battery(100)), Some(100));
    assert_eq!(battery_level_byte(battery(101)), None);
    assert_eq!(battery_level_byte(BatteryStatus::Unavailable), None);
}

#[test]
fn key_positions_are_checked_against_the_keymap() {
    let dims = KeymapDims { rows: 4, cols: 6, layers: 2 };
    assert!(native_key_position_valid(dims, 1, 3, 5));
    assert!(!native_key_position_valid(dims, 2, 0, 0));
    assert!(!native_key_position_valid(dims, 0, 4, 0));
    assert!(!native_key_position_valid(dims, 0, 0, 6));
}

#[test]
fn capabilities_with_universal_symbols() {
    assert_eq!(native_key_action_capabilities(true), 0x0007);
    assert_eq!(native_key_action_capabilities(false), 0x0001);
}

#[test]
fn host_media_text_is_cut_at_invalid_utf8() {
    let mut data = [0u8; 32];
    data[0] = 0xAE;
    data[1] = 4;
    data[2..6].copy_from_slice(&[b'a', b'b', 0xD0, b'c']);
    assert_eq!(host_data_text(&data), "ab");

    data[1] = 3;
    data[2..5].copy_from_slice(&[b'a', 0xD0, 0xB5]);
    assert_eq!(host_data_text(&data), "a\u{435}");
    data[1] = 2;
    assert_eq!(host_data_text(&data), "a");

    data[1] = 200;
    for b in data[2..32].iter_mut() {
        *b = b'x';
    }
    assert_eq!(host_data_text(&data).len(), 30);
}

#[test]
fn host_data_packets_update_the_store() {
    let mut store = HostDataStore::new();
    let mut data = [0u8; 32];
    data[0] = 0xAA;
    data[1] = 21;
    data[2] = 45;
    assert!(process_host_data_packet(&mut store, &data));
    data[0] = 0xAC;
    data[1] = 2;
    assert!(process_host_data_packet(&mut store, &data));
    data[0] = 0xAD;
    data[1] = 5;
    data[2..7].copy_from_slice(b"Queen");
    assert!(process_host_data_packet(&mut store, &data));
    data[0] = 0xAE;
    data[1] = 9;
    data[2..11].copy_from_slice(b"Bohemian ");
    assert!(process_host_data_packet(&mut store, &data));
    data[0] = 0xAB;
    assert!(process_host_data_packet(&mut store, &data));
    data[0] = 0x01;
    assert!(!process_host_data_packet(&mut store, &data));

    let shown = snapshot_at(&store, 0);
    assert_eq!((shown.hour, shown.minute, shown.layout), (Some(21), Some(45), Some(2)));
    assert_eq!(shown.media_artist.as_str(), "Queen");
    assert_eq!(shown.media_title.as_str(), "Bohemian ");

    data[0] = 0xAA;
    data[1] = 24;
    data[2] = 0;
    process_host_data_packet(&mut store, &data);
    let shown = snapshot_at(&store, 0);
    assert_eq!((shown.hour, shown.minute), (None, None));
}

#[test]
fn agent_packets_feed_the_agent_panel() {
    let mut store = HostDataStore::new();
    let mut data = [0u8; 32];
    data[0] = 0xB0;
    data[1..6].copy_from_slice(&[2, 5, 1, 7, 0]);
    assert!(process_host_data_packet_at(&mut store, &data, 1_000));
    let expected = AgentSummary { working: 2, idle: 5, blocked: 1, done: 7, unknown: 0 };
    assert_eq!(snapshot_at(&store, 30_999).agents, Some(expected));
    assert_eq!(snapshot_at(&store, 31_000).agents, None);
    let shown = snapshot_at(&store, 2_000);
    assert_eq!((shown.hour, shown.layout), (None, None));

    data[1] = 9;
    assert!(process_host_data_packet(&mut store, &data));
}

#[test]
fn keymap_buffer_writes_apply_what_the_report_holds() {
    let service = VialService::new(settings());
    let mut keyboard = TestKeyboard::new();
    let mut set = [0u8; 32];
    set[0] = ViaCommand::DynamicKeymapSetBuffer.id();
    set[3] = 28;
    for (i, b) in set[4..32].iter_mut().enumerate() {
        *b = i as u8;
    }
    let (report, effect) = serve(&service, &mut keyboard, set);
    assert_eq!(report.input_data, set);
    match effect {
        ViaEffect::SetKeycodes { offset, keycodes, .. } => {
            assert_eq!(offset, 0);
            assert_eq!(keycodes.len(), 14);
            assert_eq!(keycodes[0], 0x0100);
            assert_eq!(keycodes[13], 0x1B1A);
        }
        other => panic!("unexpected effect {:?}", other),
    }
}

#[test]
fn answers_must_match_what_was_asked() {
    assert!(answers_need(&ViaNeed::Nothing, &ViaAnswer::Nothing));
    assert!(!answers_need(&ViaNeed::Nothing, &ViaAnswer::Keycode(4)));
    assert!(answers_need(&ViaNeed::Keycodes { start: 3, count: 2 }, &ViaAnswer::Keycodes(vec![1, 2])));
    assert!(!answers_need(&ViaNeed::Keycodes { start: 3, count: 2 }, &ViaAnswer::Keycodes(vec![1])));
    assert!(answers_need(&ViaNeed::MacroBuffer { offset: 0, size: 3 }, &ViaAnswer::MacroBuffer(vec![0; 3])));
    assert!(!answers_need(&ViaNeed::MacroBuffer { offset: 0, size: 3 }, &ViaAnswer::MacroBuffer(vec![0; 4])));
    assert!(answers_need(&ViaNeed::NativeScan { start: 5, end: 7 }, &ViaAnswer::NativeScan(Vec::new())) == false);
    assert!(answers_need(&ViaNeed::NativeScan { start: 7, end: 5 }, &ViaAnswer::NativeScan(Vec::new())));
    assert!(!answers_need(&ViaNeed::Batteries, &ViaAnswer::LayoutOptions(0)));
}

#[test]
fn keymap_buffer_requests_past_the_report_are_refused() {
    let mut get = [0u8; 32];
    get[0] = ViaCommand::DynamicKeymapGetBuffer.id();
    get[3] = 29;
    assert!(!request_overruns(&get));
    get[3] = 30;
    assert!(request_overruns(&get));
    let mut set = [0u8; 32];
    set[0] = ViaCommand::DynamicKeymapSetBuffer.id();
    set[3] = 29;
    assert!(!request_overruns(&set));
    set[3] = 30;
    assert!(request_overruns(&set));
    let mut other = [0u8; 32];
    other[0] = ViaCommand::GetKeyboardValue.id();
    other[3] = 200;
    assert!(!request_overruns(&other));
}
