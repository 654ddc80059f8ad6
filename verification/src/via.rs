//! The VIA/Vial raw-HID protocol: host data packets, the Ergohaven custom
//! commands and the dispatch of every VIA command.

use vstd::prelude::*;
use vstd::utf8::*;
use vstd::string::StringSliceAdditionalSpecFns;

use crate::battery::BatteryStatus;
use crate::bytes::{
    get_u16_be, get_u16_le, get_u32_be, put_u16_be, put_u16_le, put_u32_be, read_u16_be, read_u16_le, read_u32_be,
    write_u16_be, write_u16_le, write_u32_be,
};
use crate::clock::now_millis;
use crate::host_data::{
    AgentSummary, HostDataStore, HostDataStoreView, HOST_FEED_TTL_MS, spec_snapshot, update_agents_at, update_layout,
    update_media_artist, update_media_title, update_time, with_agents, with_time,
};
use crate::text::{fitting_prefix, str_from_utf8, utf8_valid_prefix_len, valid_prefix_len};

verus! {

broadcast use vstd::utf8::encode_utf8_decode_utf8;

pub const HOST_DATA_TIME: u8 = 0xAA;
pub const HOST_DATA_VOLUME: u8 = 0xAB;
pub const HOST_DATA_LAYOUT: u8 = 0xAC;
pub const HOST_DATA_MEDIA_ARTIST: u8 = 0xAD;
pub const HOST_DATA_MEDIA_TITLE: u8 = 0xAE;
/// The coding-agent summary: `data[1..6]` hold the numbers of agents working,
/// idle, blocked, done and in an unknown state, one byte each.
pub const HOST_DATA_AGENTS: u8 = 0xB0;

/// Longest text a media packet carries, in bytes.
pub const HOST_DATA_TEXT_MAX: u8 = 30;

/// Whether `kind` is the first byte of a host data packet.
pub open spec fn is_host_data_kind(kind: u8) -> bool {
    kind == HOST_DATA_TIME || kind == HOST_DATA_VOLUME || kind == HOST_DATA_LAYOUT || kind
        == HOST_DATA_MEDIA_ARTIST || kind == HOST_DATA_MEDIA_TITLE || kind == HOST_DATA_AGENTS
}

/// The agent summary an agent packet carries.
pub open spec fn spec_agent_packet_summary(data: Seq<u8>) -> AgentSummary {
    AgentSummary { working: data[1], idle: data[2], blocked: data[3], done: data[4], unknown: data[5] }
}

/// The text bytes of a media packet: `data[1]` of them (at most 30) from `data[2]` on.
pub open spec fn host_text_payload(data: Seq<u8>) -> Seq<u8> {
    let len = if data[1] < HOST_DATA_TEXT_MAX { data[1] as int } else { HOST_DATA_TEXT_MAX as int };
    data.subrange(2, 2 + len)
}

/// The text a media packet carries: the longest valid UTF-8 prefix of its
/// payload, so a character cut at the end (or any invalid byte) ends it.
pub open spec fn spec_host_data_text(data: Seq<u8>) -> Seq<char> {
    let payload = host_text_payload(data);
    decode_utf8(payload.take(valid_prefix_len(payload) as int))
}

/// The host data store after the packet `data`, received at `now`.
pub open spec fn spec_host_data_packet(v: HostDataStoreView, data: Seq<u8>, now: u64) -> HostDataStoreView {
    if data[0] == HOST_DATA_TIME {
        with_time(v, data[1], data[2])
    } else if data[0] == HOST_DATA_LAYOUT {
        HostDataStoreView { layout: data[1], ..v }
    } else if data[0] == HOST_DATA_MEDIA_ARTIST {
        HostDataStoreView { media_artist: fitting_prefix(spec_host_data_text(data), 32), ..v }
    } else if data[0] == HOST_DATA_MEDIA_TITLE {
        HostDataStoreView { media_title: fitting_prefix(spec_host_data_text(data), 32), ..v }
    } else if data[0] == HOST_DATA_AGENTS {
        with_agents(v, spec_agent_packet_summary(data), now)
    } else {
        v
    }
}

/// The text carried by a media packet.
pub fn host_data_text(data: &[u8; 32]) -> (text: &str)
    ensures
        text@ == spec_host_data_text(data@),
{
    let len: usize = if data[1] < HOST_DATA_TEXT_MAX {
        data[1] as usize
    } else {
        HOST_DATA_TEXT_MAX as usize
    };
    let bytes: &[u8] = &data.as_slice()[2..2 + len];
    assert(bytes@ == host_text_payload(data@));
    let n = utf8_valid_prefix_len(bytes);
    let valid: &[u8] = &bytes[0..n];
    assert(valid@ == bytes@.take(n as int));
    match str_from_utf8(valid) {
        Some(text) => {
            assert(text@ == decode_utf8(encode_utf8(text@)));
            text
        },
        None => "",
    }
}

/// Applies a host data packet received at `now` (milliseconds) to the store.
/// Returns whether `data` was one: such packets get no reply.
pub fn process_host_data_packet_at(store: &mut HostDataStore, data: &[u8; 32], now: u64) -> (consumed: bool)
    ensures
        consumed == is_host_data_kind(data@[0]),
        final(store)@ == spec_host_data_packet(old(store)@, data@, now),
{
    let kind = data[0];
    if kind == HOST_DATA_TIME {
        update_time(store, data[1], data[2]);
        true
    } else if kind == HOST_DATA_LAYOUT {
        update_layout(store, data[1]);
        true
    } else if kind == HOST_DATA_MEDIA_ARTIST {
        update_media_artist(store, host_data_text(data));
        true
    } else if kind == HOST_DATA_MEDIA_TITLE {
        update_media_title(store, host_data_text(data));
        true
    } else if kind == HOST_DATA_AGENTS {
        let summary = AgentSummary { working: data[1], idle: data[2], blocked: data[3], done: data[4], unknown: data[5] };
        update_agents_at(store, summary, now);
        true
    } else {
        kind == HOST_DATA_VOLUME
    }
}

/// Applies a host data packet to the store, stamping an agent summary with
/// the current time. Returns whether `data` was one: such packets get no reply.
pub fn process_host_data_packet(store: &mut HostDataStore, data: &[u8; 32]) -> (consumed: bool)
    ensures
        consumed == is_host_data_kind(data@[0]),
        exists|now: u64| final(store)@ == #[trigger] spec_host_data_packet(old(store)@, data@, now),
{
    let now = now_millis();
    process_host_data_packet_at(store, data, now)
}


pub const ERGOHAVEN_CUSTOM_NAMESPACE: u8 = 0xE8;
pub const ERGOHAVEN_CUSTOM_BATTERY_HALVES: u8 = 0x01;
pub const ERGOHAVEN_BATTERY_HALVES_VERSION: u8 = 0x01;
pub const ERGOHAVEN_CUSTOM_NATIVE_KEY_ACTION_CAPS: u8 = 0x02;
pub const ERGOHAVEN_CUSTOM_NATIVE_KEY_ACTION: u8 = 0x03;
pub const ERGOHAVEN_CUSTOM_NEXT_NATIVE_KEY_ACTION: u8 = 0x04;
pub const ERGOHAVEN_NATIVE_KEY_ACTION_VERSION: u8 = 0x01;
pub const ERGOHAVEN_NATIVE_KEY_ACTION_CAP_GET_SET: u16 = 0x0001;
pub const ERGOHAVEN_NATIVE_KEY_ACTION_CAP_UNIVERSAL_SYMBOLS: u16 = 0x0002;
pub const ERGOHAVEN_NATIVE_KEY_ACTION_CAP_RUSSIAN_LETTERS: u16 = 0x0004;
pub const NATIVE_KEY_ACTION_STATUS_OK: u8 = 0x00;
pub const NATIVE_KEY_ACTION_STATUS_END: u8 = 0x01;
pub const NATIVE_KEY_ACTION_STATUS_UNSUPPORTED_VERSION: u8 = 0x02;
pub const NATIVE_KEY_ACTION_STATUS_INVALID_POSITION: u8 = 0x03;
pub const NATIVE_KEY_ACTION_STATUS_INVALID_PAYLOAD: u8 = 0x04;
pub const NATIVE_KEY_ACTION_GET_PAYLOAD_OFFSET: usize = 6;
pub const NATIVE_KEY_ACTION_SET_PAYLOAD_OFFSET: usize = 8;
pub const NATIVE_KEY_ACTION_NEXT_PAYLOAD_OFFSET: usize = 8;
/// Largest encoded key action a report carries: the bytes after the set header.
pub const NATIVE_KEY_ACTION_MAX_PAYLOAD: usize = 24;

/// A raw-HID exchange: what the host sent and the reply being built.
#[derive(Clone, Copy, Debug)]
pub struct ViaReport {
    pub input_data: [u8; 32],
    pub output_data: [u8; 32],
}

/// Level in percent of a battery whose reading is known and plausible.
pub open spec fn spec_battery_level_byte(status: BatteryStatus) -> Option<u8> {
    match status {
        BatteryStatus::Available { level: Some(level), .. } => if level <= 100 {
            Some(level)
        } else {
            None
        },
        _ => None,
    }
}

/// Level in percent of a battery whose reading is known and at most 100.
pub fn battery_level_byte(status: BatteryStatus) -> (level: Option<u8>)
    ensures
        level == spec_battery_level_byte(status),
{
    match status {
        BatteryStatus::Available { level: Some(level), .. } => if level <= 100 {
            Some(level)
        } else {
            None
        },
        _ => None,
    }
}

/// The (left, right) batteries of a split keyboard. With one peripheral the
/// central is one half, on the side it is configured for; with two (a Qube
/// dongle as central) the peripherals are the halves, in order.
pub open spec fn spec_battery_halves(
    central: BatteryStatus,
    peripheral_0: BatteryStatus,
    peripheral_1: BatteryStatus,
    peripheral_count: usize,
    central_is_left: bool,
) -> (BatteryStatus, BatteryStatus) {
    if peripheral_count == 1 {
        if central_is_left {
            (central, peripheral_0)
        } else {
            (peripheral_0, central)
        }
    } else {
        (peripheral_0, peripheral_1)
    }
}

/// The (left, right) batteries of a split keyboard.
pub fn battery_halves_for_split(
    central: BatteryStatus,
    peripheral_0: BatteryStatus,
    peripheral_1: BatteryStatus,
    peripheral_count: usize,
    central_is_left: bool,
) -> (halves: (BatteryStatus, BatteryStatus))
    ensures
        halves == spec_battery_halves(central, peripheral_0, peripheral_1, peripheral_count, central_is_left),
{
    if peripheral_count == 1 {
        if central_is_left {
            (central, peripheral_0)
        } else {
            (peripheral_0, central)
        }
    } else {
        (peripheral_0, peripheral_1)
    }
}

/// The reply header of an Ergohaven native key action command: all zero but
/// the echoed command byte, the namespace, the subcommand and the version.
pub open spec fn native_response_header(command: u8, subcommand: u8) -> Seq<u8> {
    Seq::new(32, |i: int| 0u8).update(0, command).update(1, ERGOHAVEN_CUSTOM_NAMESPACE).update(
        2,
        subcommand,
    ).update(3, ERGOHAVEN_NATIVE_KEY_ACTION_VERSION)
}

/// Starts a native key action reply; the status byte (`input_data[4]`) reads OK.
pub fn init_native_key_action_response(report: &mut ViaReport, subcommand: u8)
    ensures
        final(report).input_data@ == native_response_header(old(report).output_data@[0], subcommand),
        final(report).output_data == old(report).output_data,
{
    let command = report.output_data[0];
    let mut i: usize = 0;
    while i < 32
        invariant
            i <= 32,
            report.output_data == old(report).output_data,
            forall|j: int| 0 <= j < i ==> report.input_data@[j] == 0u8,
        decreases 32 - i,
    {
        report.input_data[i] = 0;
        i = i + 1;
    }
    report.input_data[0] = command;
    report.input_data[1] = ERGOHAVEN_CUSTOM_NAMESPACE;
    report.input_data[2] = subcommand;
    report.input_data[3] = ERGOHAVEN_NATIVE_KEY_ACTION_VERSION;
    assert(report.input_data@ =~= native_response_header(command, subcommand));
}

/// Size of the keymap: rows, columns and layers.
#[derive(Clone, Copy, Debug, PartialEq, Eq, Structural)]
pub struct KeymapDims {
    pub rows: usize,
    pub cols: usize,
    pub layers: usize,
}

pub open spec fn spec_native_key_position_valid(dims: KeymapDims, layer: u8, row: u8, col: u8) -> bool {
    (layer as usize) < dims.layers && (row as usize) < dims.rows && (col as usize) < dims.cols
}

/// Whether (layer, row, col) names a key of the keymap.
pub fn native_key_position_valid(dims: KeymapDims, layer: u8, row: u8, col: u8) -> (valid: bool)
    ensures
        valid == spec_native_key_position_valid(dims, layer, row, col),
{
    (layer as usize) < dims.layers && (row as usize) < dims.rows && (col as usize) < dims.cols
}

pub open spec fn spec_native_key_action_capabilities(universal_symbols: bool) -> u16 {
    if universal_symbols {
        ERGOHAVEN_NATIVE_KEY_ACTION_CAP_GET_SET | ERGOHAVEN_NATIVE_KEY_ACTION_CAP_UNIVERSAL_SYMBOLS
            | ERGOHAVEN_NATIVE_KEY_ACTION_CAP_RUSSIAN_LETTERS
    } else {
        ERGOHAVEN_NATIVE_KEY_ACTION_CAP_GET_SET
    }
}

/// The native key action features this firmware offers: get/set always, and
/// the universal symbols and Russian letters when built with them.
pub fn native_key_action_capabilities(universal_symbols: bool) -> (caps: u16)
    ensures
        caps == spec_native_key_action_capabilities(universal_symbols),
        caps == (if universal_symbols { 7u16 } else { 1u16 }),
{
    let capabilities = ERGOHAVEN_NATIVE_KEY_ACTION_CAP_GET_SET;
    if universal_symbols {
        let caps = capabilities | ERGOHAVEN_NATIVE_KEY_ACTION_CAP_UNIVERSAL_SYMBOLS
            | ERGOHAVEN_NATIVE_KEY_ACTION_CAP_RUSSIAN_LETTERS;
        assert(caps == 7u16) by (bit_vector)
            requires caps == 1u16 | 2u16 | 4u16;
        caps
    } else {
        capabilities
    }
}

/// `buf` carrying `payload` at `offset`, its length in the byte before.
pub open spec fn put_payload(buf: Seq<u8>, offset: int, payload: Seq<u8>) -> Seq<u8> {
    buf.take(offset).update(offset - 1, payload.len() as u8) + payload + buf.skip(offset + payload.len())
}

/// Places an encoded key action in the reply at `payload_offset`, preceded by
/// its length. Fails, leaving the reply as it was, when there is no encoding,
/// it is longer than 24 bytes, or it does not fit.
pub fn encode_native_key_action(report: &mut ViaReport, payload_offset: usize, encoded: &Option<Vec<u8>>) -> (ok: bool)
    requires
        1 <= payload_offset <= 32,
    ensures
        ok == (encoded matches Some(bytes) && bytes@.len() <= NATIVE_KEY_ACTION_MAX_PAYLOAD && payload_offset
            + bytes@.len() <= 32),
        ok ==> final(report).input_data@ == put_payload(
            old(report).input_data@,
            payload_offset as int,
            encoded->Some_0@,
        ),
        !ok ==> final(report).input_data == old(report).input_data,
        final(report).output_data == old(report).output_data,
{
    match encoded {
        None => false,
        Some(bytes) => {
            let len = bytes.len();
            if len > NATIVE_KEY_ACTION_MAX_PAYLOAD || len > 32 - payload_offset {
                return false;
            }
            let ghost before = report.input_data@;
            report.input_data[payload_offset - 1] = len as u8;
            let mut i: usize = 0;
            while i < len
                invariant
                    i <= len,
                    len == bytes@.len(),
                    payload_offset + len <= 32,
                    1 <= payload_offset,
                    report.output_data == old(report).output_data,
                    forall|j: int| 0 <= j < payload_offset - 1 ==> report.input_data@[j] == before[j],
                    report.input_data@[payload_offset - 1] == len as u8,
                    forall|j: int| 0 <= j < i ==> report.input_data@[payload_offset + j] == bytes@[j],
                    forall|j: int| payload_offset + i <= j < 32 ==> report.input_data@[j] == before[j],
                decreases len - i,
            {
                report.input_data[payload_offset + i] = bytes[i];
                i = i + 1;
            }
            assert(report.input_data@ =~= put_payload(before, payload_offset as int, bytes@));
            true
        },
    }
}


/// VIA protocol version reported to the host.
pub const VIA_PROTOCOL_VERSION: u16 = 0x000C;
/// Number of macros reported to the host.
pub const MACRO_COUNT: u8 = 32;
/// Largest macro chunk a report carries (its bytes 4..32).
pub const MACRO_CHUNK_MAX: u8 = 28;
/// Reply byte 0 for a command the firmware does not know or refuses.
pub const VIA_UNHANDLED: u8 = 0xFF;

/// VIA commands, by their first report byte.
#[derive(Clone, Copy, Debug, PartialEq, Eq, Structural)]
pub enum ViaCommand {
    GetProtocolVersion,
    GetKeyboardValue,
    SetKeyboardValue,
    DynamicKeymapGetKeyCode,
    DynamicKeymapSetKeyCode,
    DynamicKeymapReset,
    CustomSetValue,
    CustomGetValue,
    CustomSave,
    EepromReset,
    BootloaderJump,
    DynamicKeymapMacroGetCount,
    DynamicKeymapMacroGetBufferSize,
    DynamicKeymapMacroGetBuffer,
    DynamicKeymapMacroSetBuffer,
    DynamicKeymapMacroReset,
    DynamicKeymapGetLayerCount,
    DynamicKeymapGetBuffer,
    DynamicKeymapSetBuffer,
    DynamicKeymapGetEncoder,
    DynamicKeymapSetEncoder,
    Vial,
    Unhandled,
}

/// The command a report byte selects.
pub open spec fn spec_via_command(id: u8) -> ViaCommand {
    if id == 0x01 {
        ViaCommand::GetProtocolVersion
    } else if id == 0x02 {
        ViaCommand::GetKeyboardValue
    } else if id == 0x03 {
        ViaCommand::SetKeyboardValue
    } else if id == 0x04 {
        ViaCommand::DynamicKeymapGetKeyCode
    } else if id == 0x05 {
        ViaCommand::DynamicKeymapSetKeyCode
    } else if id == 0x06 {
        ViaCommand::DynamicKeymapReset
    } else if id == 0x07 {
        ViaCommand::CustomSetValue
    } else if id == 0x08 {
        ViaCommand::CustomGetValue
    } else if id == 0x09 {
        ViaCommand::CustomSave
    } else if id == 0x0A {
        ViaCommand::EepromReset
    } else if id == 0x0B {
        ViaCommand::BootloaderJump
    } else if id == 0x0C {
        ViaCommand::DynamicKeymapMacroGetCount
    } else if id == 0x0D {
        ViaCommand::DynamicKeymapMacroGetBufferSize
    } else if id == 0x0E {
        ViaCommand::DynamicKeymapMacroGetBuffer
    } else if id == 0x0F {
        ViaCommand::DynamicKeymapMacroSetBuffer
    } else if id == 0x10 {
        ViaCommand::DynamicKeymapMacroReset
    } else if id == 0x11 {
        ViaCommand::DynamicKeymapGetLayerCount
    } else if id == 0x12 {
        ViaCommand::DynamicKeymapGetBuffer
    } else if id == 0x13 {
        ViaCommand::DynamicKeymapSetBuffer
    } else if id == 0x14 {
        ViaCommand::DynamicKeymapGetEncoder
    } else if id == 0x15 {
        ViaCommand::DynamicKeymapSetEncoder
    } else if id == 0xFE {
        ViaCommand::Vial
    } else {
        ViaCommand::Unhandled
    }
}

impl ViaCommand {
    /// The command a report byte selects.
    pub fn from_id(id: u8) -> (command: ViaCommand)
        ensures
            command == spec_via_command(id),
    {
        match id {
            0x01 => ViaCommand::GetProtocolVersion,
            0x02 => ViaCommand::GetKeyboardValue,
            0x03 => ViaCommand::SetKeyboardValue,
            0x04 => ViaCommand::DynamicKeymapGetKeyCode,
            0x05 => ViaCommand::DynamicKeymapSetKeyCode,
            0x06 => ViaCommand::DynamicKeymapReset,
            0x07 => ViaCommand::CustomSetValue,
            0x08 => ViaCommand::CustomGetValue,
            0x09 => ViaCommand::CustomSave,
            0x0A => ViaCommand::EepromReset,
            0x0B => ViaCommand::BootloaderJump,
            0x0C => ViaCommand::DynamicKeymapMacroGetCount,
            0x0D => ViaCommand::DynamicKeymapMacroGetBufferSize,
            0x0E => ViaCommand::DynamicKeymapMacroGetBuffer,
            0x0F => ViaCommand::DynamicKeymapMacroSetBuffer,
            0x10 => ViaCommand::DynamicKeymapMacroReset,
            0x11 => ViaCommand::DynamicKeymapGetLayerCount,
            0x12 => ViaCommand::DynamicKeymapGetBuffer,
            0x13 => ViaCommand::DynamicKeymapSetBuffer,
            0x14 => ViaCommand::DynamicKeymapGetEncoder,
            0x15 => ViaCommand::DynamicKeymapSetEncoder,
            0xFE => ViaCommand::Vial,
            _ => ViaCommand::Unhandled,
        }
    }

    /// The report byte of a command (`0xFF` for [`ViaCommand::Unhandled`]).
    pub fn id(self) -> (id: u8)
        ensures
            spec_via_command(id) == self,
    {
        match self {
            ViaCommand::GetProtocolVersion => 0x01,
            ViaCommand::GetKeyboardValue => 0x02,
            ViaCommand::SetKeyboardValue => 0x03,
            ViaCommand::DynamicKeymapGetKeyCode => 0x04,
            ViaCommand::DynamicKeymapSetKeyCode => 0x05,
            ViaCommand::DynamicKeymapReset => 0x06,
            ViaCommand::CustomSetValue => 0x07,
            ViaCommand::CustomGetValue => 0x08,
            ViaCommand::CustomSave => 0x09,
            ViaCommand::EepromReset => 0x0A,
            ViaCommand::BootloaderJump => 0x0B,
            ViaCommand::DynamicKeymapMacroGetCount => 0x0C,
            ViaCommand::DynamicKeymapMacroGetBufferSize => 0x0D,
            ViaCommand::DynamicKeymapMacroGetBuffer => 0x0E,
            ViaCommand::DynamicKeymapMacroSetBuffer => 0x0F,
            ViaCommand::DynamicKeymapMacroReset => 0x10,
            ViaCommand::DynamicKeymapGetLayerCount => 0x11,
            ViaCommand::DynamicKeymapGetBuffer => 0x12,
            ViaCommand::DynamicKeymapSetBuffer => 0x13,
            ViaCommand::DynamicKeymapGetEncoder => 0x14,
            ViaCommand::DynamicKeymapSetEncoder => 0x15,
            ViaCommand::Vial => 0xFE,
            ViaCommand::Unhandled => 0xFF,
        }
    }
}

/// Keyboard values the host can read or set.
#[derive(Clone, Copy, Debug, PartialEq, Eq, Structural)]
pub enum ViaKeyboardInfo {
    Uptime,
    LayoutOptions,
    SwitchMatrixState,
    FirmwareVersion,
    DeviceIndication,
}

/// The keyboard value a report byte names, if any.
pub open spec fn spec_keyboard_info(id: u8) -> Option<ViaKeyboardInfo> {
    if id == 0x01 {
        Some(ViaKeyboardInfo::Uptime)
    } else if id == 0x02 {
        Some(ViaKeyboardInfo::LayoutOptions)
    } else if id == 0x03 {
        Some(ViaKeyboardInfo::SwitchMatrixState)
    } else if id == 0x04 {
        Some(ViaKeyboardInfo::FirmwareVersion)
    } else if id == 0x05 {
        Some(ViaKeyboardInfo::DeviceIndication)
    } else {
        None
    }
}

impl ViaKeyboardInfo {
    /// The keyboard value a report byte names, if any.
    pub fn from_id(id: u8) -> (info: Option<ViaKeyboardInfo>)
        ensures
            info == spec_keyboard_info(id),
    {
        match id {
            0x01 => Some(ViaKeyboardInfo::Uptime),
            0x02 => Some(ViaKeyboardInfo::LayoutOptions),
            0x03 => Some(ViaKeyboardInfo::SwitchMatrixState),
            0x04 => Some(ViaKeyboardInfo::FirmwareVersion),
            0x05 => Some(ViaKeyboardInfo::DeviceIndication),
            _ => None,
        }
    }

    /// The report byte of a keyboard value.
    pub fn id(self) -> (id: u8)
        ensures
            spec_keyboard_info(id) == Some(self),
    {
        match self {
            ViaKeyboardInfo::Uptime => 0x01,
            ViaKeyboardInfo::LayoutOptions => 0x02,
            ViaKeyboardInfo::SwitchMatrixState => 0x03,
            ViaKeyboardInfo::FirmwareVersion => 0x04,
            ViaKeyboardInfo::DeviceIndication => 0x05,
        }
    }
}

/// How a split keyboard's batteries map to its halves.
#[derive(Clone, Copy, Debug, PartialEq, Eq, Structural)]
pub struct SplitBatteryLayout {
    /// Number of peripherals: one for a central half, two for a Qube dongle.
    pub peripheral_count: usize,
    /// Whether the central is the left half (with one peripheral).
    pub central_is_left: bool,
}

/// What the VIA service knows of the firmware it runs in.
#[derive(Clone, Copy, Debug, PartialEq, Eq, Structural)]
pub struct ViaSettings {
    /// Version reported as VIA `id_firmware_version`.
    pub firmware_version: u32,
    /// Bytes of macro storage.
    pub macro_space_size: usize,
    /// Built with universal symbols and Russian letters in native key actions.
    pub universal_symbols: bool,
    /// Present on a Bluetooth split keyboard: its batteries are reported per half.
    pub split_batteries: Option<SplitBatteryLayout>,
}

/// One key of the keymap as the native key action scan sees it.
#[derive(Debug)]
pub struct ScanEntry {
    /// The key does nothing.
    pub is_no_action: bool,
    /// Its VIA keycode; 0 when VIA cannot express the action.
    pub via_keycode: u16,
    /// Its postcard encoding, when it fits the 24 bytes a report carries.
    pub encoded: Option<Vec<u8>>,
}

/// What answering a request needs to read from the keyboard, besides the
/// request itself.
#[derive(Debug)]
pub enum ViaNeed {
    Nothing,
    /// The layout options.
    LayoutOptions,
    /// The VIA keycode of a key.
    Keycode { layer: u8, row: u8, col: u8 },
    /// `size` bytes of macro storage from `offset`.
    MacroBuffer { offset: usize, size: usize },
    /// The VIA keycodes of keys `start..start + count`, in flat order.
    Keycodes { start: usize, count: usize },
    /// The encoded action of a key.
    NativeAction { layer: u8, row: u8, col: u8 },
    /// A [`ScanEntry`] for each key of `start..end`, in flat order.
    NativeScan { start: usize, end: usize },
    /// Whether `payload` decodes to a key action (meant for this key).
    NativePayload { layer: u8, row: u8, col: u8, payload: Vec<u8> },
    /// After asking the peripherals to refresh them, the central's and both
    /// peripherals' battery statuses.
    Batteries,
}

/// The keyboard's answer to a [`ViaNeed`].
#[derive(Debug)]
pub enum ViaAnswer {
    Nothing,
    LayoutOptions(u32),
    Keycode(u16),
    MacroBuffer(Vec<u8>),
    Keycodes(Vec<u16>),
    NativeAction(Option<Vec<u8>>),
    NativeScan(Vec<ScanEntry>),
    PayloadDecodes(bool),
    Batteries { central: BatteryStatus, peripheral_0: BatteryStatus, peripheral_1: BatteryStatus },
}

/// What the keyboard must do after a request has been answered.
#[derive(Debug)]
pub enum ViaEffect {
    Nothing,
    /// Store new layout options.
    SetLayoutOptions(u32),
    /// Bind the key to the action of a VIA keycode.
    SetKeycode { layer: u8, row: u8, col: u8, keycode: u16 },
    /// Bind the key to the decoded action.
    SetNativeAction { layer: u8, row: u8, col: u8, payload: Vec<u8> },
    /// Write macro storage at `offset`, after clearing it when `reset_first`.
    WriteMacroBuffer { offset: usize, reset_first: bool, data: Vec<u8> },
    /// Bind keys `offset..` (flat order, skipping those outside the keymap) to
    /// the actions of the VIA keycodes.
    SetKeycodes { offset: usize, keycodes: Vec<u16>, rows: usize, cols: usize },
    /// Erase stored settings.
    ResetStorage,
    /// Reboot into the bootloader.
    JumpToBootloader,
    /// Hand the report to the Vial handler.
    Vial,
}

pub ghost enum ViaNeedView {
    Nothing,
    LayoutOptions,
    Keycode { layer: u8, row: u8, col: u8 },
    MacroBuffer { offset: usize, size: usize },
    Keycodes { start: usize, count: usize },
    NativeAction { layer: u8, row: u8, col: u8 },
    NativeScan { start: usize, end: usize },
    NativePayload { layer: u8, row: u8, col: u8, payload: Seq<u8> },
    Batteries,
}

impl View for ViaNeed {
    type V = ViaNeedView;

    open spec fn view(&self) -> ViaNeedView {
        match *self {
            ViaNeed::Nothing => ViaNeedView::Nothing,
            ViaNeed::LayoutOptions => ViaNeedView::LayoutOptions,
            ViaNeed::Keycode { layer, row, col } => ViaNeedView::Keycode { layer, row, col },
            ViaNeed::MacroBuffer { offset, size } => ViaNeedView::MacroBuffer { offset, size },
            ViaNeed::Keycodes { start, count } => ViaNeedView::Keycodes { start, count },
            ViaNeed::NativeAction { layer, row, col } => ViaNeedView::NativeAction { layer, row, col },
            ViaNeed::NativeScan { start, end } => ViaNeedView::NativeScan { start, end },
            ViaNeed::NativePayload { layer, row, col, payload } => ViaNeedView::NativePayload {
                layer,
                row,
                col,
                payload: payload@,
            },
            ViaNeed::Batteries => ViaNeedView::Batteries,
        }
    }
}

pub ghost enum ViaEffectView {
    Nothing,
    SetLayoutOptions(u32),
    SetKeycode { layer: u8, row: u8, col: u8, keycode: u16 },
    SetNativeAction { layer: u8, row: u8, col: u8, payload: Seq<u8> },
    WriteMacroBuffer { offset: usize, reset_first: bool, data: Seq<u8> },
    SetKeycodes { offset: usize, keycodes: Seq<u16>, rows: usize, cols: usize },
    ResetStorage,
    JumpToBootloader,
    Vial,
}

impl View for ViaEffect {
    type V = ViaEffectView;

    open spec fn view(&self) -> ViaEffectView {
        match *self {
            ViaEffect::Nothing => ViaEffectView::Nothing,
            ViaEffect::SetLayoutOptions(v) => ViaEffectView::SetLayoutOptions(v),
            ViaEffect::SetKeycode { layer, row, col, keycode } => ViaEffectView::SetKeycode { layer, row, col, keycode },
            ViaEffect::SetNativeAction { layer, row, col, payload } => ViaEffectView::SetNativeAction {
                layer,
                row,
                col,
                payload: payload@,
            },
            ViaEffect::WriteMacroBuffer { offset, reset_first, data } => ViaEffectView::WriteMacroBuffer {
                offset,
                reset_first,
                data: data@,
            },
            ViaEffect::SetKeycodes { offset, keycodes, rows, cols } => ViaEffectView::SetKeycodes {
                offset,
                keycodes: keycodes@,
                rows,
                cols,
            },
            ViaEffect::ResetStorage => ViaEffectView::ResetStorage,
            ViaEffect::JumpToBootloader => ViaEffectView::JumpToBootloader,
            ViaEffect::Vial => ViaEffectView::Vial,
        }
    }
}

pub open spec fn opt_bytes(o: Option<Vec<u8>>) -> Option<Seq<u8>> {
    match o {
        Some(b) => Some(b@),
        None => None,
    }
}

/// A key the scan reports: it does something, but not what VIA can express.
pub open spec fn is_lossy(e: ScanEntry) -> bool {
    !e.is_no_action && e.via_keycode == 0
}

/// Index of the first lossy entry at or after `i`.
pub open spec fn first_lossy_from(entries: Seq<ScanEntry>, i: int) -> Option<int>
    decreases entries.len() - i,
{
    if i < 0 || i >= entries.len() {
        None
    } else if is_lossy(entries[i]) {
        Some(i)
    } else {
        first_lossy_from(entries, i + 1)
    }
}

pub open spec fn sat_mul(a: usize, b: usize) -> usize {
    if a * b > usize::MAX {
        usize::MAX
    } else {
        (a * b) as usize
    }
}

/// First and one-past-last flat key index of a native key action scan: from
/// the little-endian start in `out[4..6]` up to the number of keys, capped at 65535.
pub open spec fn scan_bounds(out: Seq<u8>, dims: KeymapDims) -> (usize, usize) {
    let total = sat_mul(sat_mul(dims.rows, dims.cols), dims.layers);
    let end = if total < 65535 { total } else { 65535usize };
    (get_u16_le(out, 4) as usize, end)
}

pub open spec fn scan_len(out: Seq<u8>, dims: KeymapDims) -> int {
    let (start, end) = scan_bounds(out, dims);
    if start < end {
        end - start
    } else {
        0
    }
}

/// Reply to a native key action read, given the encoding of the key's action.
pub open spec fn native_get_reply(out: Seq<u8>, dims: KeymapDims, encoded: Option<Seq<u8>>) -> Seq<u8> {
    let h = native_response_header(out[0], ERGOHAVEN_CUSTOM_NATIVE_KEY_ACTION);
    if out[3] != ERGOHAVEN_NATIVE_KEY_ACTION_VERSION {
        h.update(4, NATIVE_KEY_ACTION_STATUS_UNSUPPORTED_VERSION)
    } else if !spec_native_key_position_valid(dims, out[4], out[5], out[6]) {
        h.update(4, NATIVE_KEY_ACTION_STATUS_INVALID_POSITION)
    } else {
        match encoded {
            Some(b) => if b.len() <= NATIVE_KEY_ACTION_MAX_PAYLOAD && NATIVE_KEY_ACTION_GET_PAYLOAD_OFFSET
                + b.len() <= 32 {
                put_payload(h, NATIVE_KEY_ACTION_GET_PAYLOAD_OFFSET as int, b)
            } else {
                h.update(4, NATIVE_KEY_ACTION_STATUS_INVALID_PAYLOAD)
            },
            None => h.update(4, NATIVE_KEY_ACTION_STATUS_INVALID_PAYLOAD),
        }
    }
}

/// A native key action write is well formed: known version, a key of the
/// keymap, and a payload of 1 to 24 bytes.
pub open spec fn native_set_well_formed(out: Seq<u8>, dims: KeymapDims) -> bool {
    &&& out[3] == ERGOHAVEN_NATIVE_KEY_ACTION_VERSION
    &&& spec_native_key_position_valid(dims, out[4], out[5], out[6])
    &&& out[7] != 0
    &&& out[7] <= NATIVE_KEY_ACTION_MAX_PAYLOAD
}

/// The payload of a native key action write.
pub open spec fn native_set_payload(out: Seq<u8>) -> Seq<u8> {
    out.subrange(NATIVE_KEY_ACTION_SET_PAYLOAD_OFFSET as int, NATIVE_KEY_ACTION_SET_PAYLOAD_OFFSET + out[7])
}

/// Reply to a native key action write, given whether its payload decodes.
pub open spec fn native_set_reply(out: Seq<u8>, dims: KeymapDims, decodes: bool) -> Seq<u8> {
    let h = native_response_header(out[0], ERGOHAVEN_CUSTOM_NATIVE_KEY_ACTION);
    if out[3] != ERGOHAVEN_NATIVE_KEY_ACTION_VERSION {
        h.update(4, NATIVE_KEY_ACTION_STATUS_UNSUPPORTED_VERSION)
    } else if !spec_native_key_position_valid(dims, out[4], out[5], out[6]) {
        h.update(4, NATIVE_KEY_ACTION_STATUS_INVALID_POSITION)
    } else if out[7] == 0 || out[7] > NATIVE_KEY_ACTION_MAX_PAYLOAD || !decodes {
        h.update(4, NATIVE_KEY_ACTION_STATUS_INVALID_PAYLOAD)
    } else {
        h
    }
}

/// Reply to a native key action scan, given the scanned keys.
pub open spec fn native_scan_reply(out: Seq<u8>, dims: KeymapDims, entries: Seq<ScanEntry>) -> Seq<u8> {
    let h = native_response_header(out[0], ERGOHAVEN_CUSTOM_NEXT_NATIVE_KEY_ACTION);
    if out[3] != ERGOHAVEN_NATIVE_KEY_ACTION_VERSION {
        h.update(4, NATIVE_KEY_ACTION_STATUS_UNSUPPORTED_VERSION)
    } else {
        match first_lossy_from(entries, 0) {
            Some(k) => {
                let w = put_u16_le(h, 5, (scan_bounds(out, dims).0 + k) as u16);
                match opt_bytes(entries[k].encoded) {
                    Some(b) => if b.len() <= NATIVE_KEY_ACTION_MAX_PAYLOAD
                        && NATIVE_KEY_ACTION_NEXT_PAYLOAD_OFFSET + b.len() <= 32 {
                        put_payload(w, NATIVE_KEY_ACTION_NEXT_PAYLOAD_OFFSET as int, b)
                    } else {
                        w.update(4, NATIVE_KEY_ACTION_STATUS_INVALID_PAYLOAD)
                    },
                    None => w.update(4, NATIVE_KEY_ACTION_STATUS_INVALID_PAYLOAD),
                }
            },
            None => put_u16_le(h.update(4, NATIVE_KEY_ACTION_STATUS_END), 5, 0xFFFF),
        }
    }
}

/// Reply to a battery halves read: version 1, then a bit per half whose level
/// is known (1 left, 2 right) and the two levels, `0xFF` where unknown.
pub open spec fn battery_halves_reply(
    input: Seq<u8>,
    settings: ViaSettings,
    batteries: (BatteryStatus, BatteryStatus, BatteryStatus),
) -> Seq<u8> {
    let base = input.update(3, ERGOHAVEN_BATTERY_HALVES_VERSION).update(4, 0).update(5, 0xFF).update(6, 0xFF);
    match settings.split_batteries {
        Some(layout) => {
            let (left, right) = spec_battery_halves(
                batteries.0,
                batteries.1,
                batteries.2,
                layout.peripheral_count,
                layout.central_is_left,
            );
            let l = spec_battery_level_byte(left);
            let r = spec_battery_level_byte(right);
            base.update(4, ((if l is Some { 1int } else { 0 }) + (if r is Some { 2int } else { 0 })) as u8)
                .update(5, if l is Some { l->Some_0 } else { 0xFF })
                .update(6, if r is Some { r->Some_0 } else { 0xFF })
        },
        None => base,
    }
}

/// `buf` with `bytes` copied to `at..`.
pub open spec fn put_bytes(buf: Seq<u8>, at: int, bytes: Seq<u8>) -> Seq<u8> {
    buf.take(at) + bytes + buf.skip(at + bytes.len())
}

/// `buf` with each keycode written big-endian from byte 4 on.
pub open spec fn put_keycodes(buf: Seq<u8>, keycodes: Seq<u16>) -> Seq<u8> {
    Seq::new(
        buf.len(),
        |j: int|
            if 4 <= j < 4 + 2 * keycodes.len() {
                if (j - 4) % 2 == 0 {
                    (keycodes[(j - 4) / 2] / 256) as u8
                } else {
                    (keycodes[(j - 4) / 2] % 256) as u8
                }
            } else {
                buf[j]
            },
    )
}

/// How many keycodes a keymap buffer write carries. As for a keymap buffer
/// read, its size byte `out[3]` counts bytes (at most 28, the bytes after the
/// header), so it carries `out[3] / 2` two-byte keycodes.
pub open spec fn set_buffer_count(out: Seq<u8>) -> nat {
    (out[3] / 2) as nat
}

/// The first key a keymap buffer write binds: as for a read, its offset
/// `out[1..3]` counts bytes, two to a key.
pub open spec fn set_buffer_start(out: Seq<u8>) -> usize {
    (get_u16_be(out, 1) / 2) as usize
}

/// The keycodes of a keymap buffer write: little-endian words from byte 4.
pub open spec fn set_buffer_keycodes(out: Seq<u8>) -> Seq<u16> {
    Seq::new(set_buffer_count(out), |i: int| get_u16_le(out, 4 + 2 * i))
}

/// Requests the firmware cannot serve without reading or writing past the
/// report: a keymap buffer read or write of more than 14 keycodes
/// (`out[3] >= 30`).
pub open spec fn request_overruns_report(out: Seq<u8>) -> bool {
    ||| spec_via_command(out[0]) == ViaCommand::DynamicKeymapGetBuffer && out[3] >= 30
    ||| spec_via_command(out[0]) == ViaCommand::DynamicKeymapSetBuffer && out[3] >= 30
}

/// What answering the request `out` needs to read from the keyboard.
pub open spec fn spec_via_need(settings: ViaSettings, dims: KeymapDims, out: Seq<u8>) -> ViaNeedView {
    let command = spec_via_command(out[0]);
    if command == ViaCommand::GetKeyboardValue && spec_keyboard_info(out[1]) == Some(
        ViaKeyboardInfo::LayoutOptions,
    ) {
        ViaNeedView::LayoutOptions
    } else if command == ViaCommand::DynamicKeymapGetKeyCode {
        ViaNeedView::Keycode { layer: out[1], row: out[2], col: out[3] }
    } else if command == ViaCommand::DynamicKeymapMacroGetBuffer && out[3] <= MACRO_CHUNK_MAX {
        ViaNeedView::MacroBuffer { offset: get_u16_be(out, 1) as usize, size: out[3] as usize }
    } else if command == ViaCommand::DynamicKeymapGetBuffer {
        ViaNeedView::Keycodes { start: (get_u16_be(out, 1) / 2) as usize, count: (out[3] / 2) as usize }
    } else if command == ViaCommand::CustomSetValue && out[1] == ERGOHAVEN_CUSTOM_NAMESPACE && out[2]
        == ERGOHAVEN_CUSTOM_NATIVE_KEY_ACTION && native_set_well_formed(out, dims) {
        ViaNeedView::NativePayload { layer: out[4], row: out[5], col: out[6], payload: native_set_payload(out) }
    } else if command == ViaCommand::CustomGetValue && out[1] == ERGOHAVEN_CUSTOM_NAMESPACE && out[2]
        == ERGOHAVEN_CUSTOM_BATTERY_HALVES && settings.split_batteries is Some {
        ViaNeedView::Batteries
    } else if command == ViaCommand::CustomGetValue && out[1] == ERGOHAVEN_CUSTOM_NAMESPACE && out[2]
        == ERGOHAVEN_CUSTOM_NATIVE_KEY_ACTION && out[3] == ERGOHAVEN_NATIVE_KEY_ACTION_VERSION
        && spec_native_key_position_valid(dims, out[4], out[5], out[6]) {
        ViaNeedView::NativeAction { layer: out[4], row: out[5], col: out[6] }
    } else if command == ViaCommand::CustomGetValue && out[1] == ERGOHAVEN_CUSTOM_NAMESPACE && out[2]
        == ERGOHAVEN_CUSTOM_NEXT_NATIVE_KEY_ACTION && out[3] == ERGOHAVEN_NATIVE_KEY_ACTION_VERSION {
        ViaNeedView::NativeScan { start: scan_bounds(out, dims).0, end: scan_bounds(out, dims).1 }
    } else {
        ViaNeedView::Nothing
    }
}

/// The answer is of the kind and size the need asks for.
pub open spec fn answer_fits(need: ViaNeedView, answer: ViaAnswer) -> bool {
    match need {
        ViaNeedView::Nothing => answer is Nothing,
        ViaNeedView::LayoutOptions => answer is LayoutOptions,
        ViaNeedView::Keycode { .. } => answer is Keycode,
        ViaNeedView::MacroBuffer { size, .. } => answer matches ViaAnswer::MacroBuffer(b) && b@.len() == size,
        ViaNeedView::Keycodes { count, .. } => answer matches ViaAnswer::Keycodes(k) && k@.len() == count,
        ViaNeedView::NativeAction { .. } => answer is NativeAction,
        ViaNeedView::NativeScan { start, end } => answer matches ViaAnswer::NativeScan(e) && e@.len() == (
        if start < end {
            end - start
        } else {
            0
        }),
        ViaNeedView::NativePayload { .. } => answer is PayloadDecodes,
        ViaNeedView::Batteries => answer is Batteries,
    }
}

/// Whether the keyboard's answer is of the kind and size `need` asks for.
pub fn answers_need(need: &ViaNeed, answer: &ViaAnswer) -> (fits: bool)
    ensures
        fits == answer_fits(need@, *answer),
{
    match need {
        ViaNeed::Nothing => match answer {
            ViaAnswer::Nothing => true,
            _ => false,
        },
        ViaNeed::LayoutOptions => match answer {
            ViaAnswer::LayoutOptions(_) => true,
            _ => false,
        },
        ViaNeed::Keycode { .. } => match answer {
            ViaAnswer::Keycode(_) => true,
            _ => false,
        },
        ViaNeed::MacroBuffer { size, .. } => match answer {
            ViaAnswer::MacroBuffer(bytes) => bytes.len() == *size,
            _ => false,
        },
        ViaNeed::Keycodes { count, .. } => match answer {
            ViaAnswer::Keycodes(keycodes) => keycodes.len() == *count,
            _ => false,
        },
        ViaNeed::NativeAction { .. } => match answer {
            ViaAnswer::NativeAction(_) => true,
            _ => false,
        },
        ViaNeed::NativeScan { start, end } => match answer {
            ViaAnswer::NativeScan(entries) => entries.len() == if *start < *end {
                *end - *start
            } else {
                0
            },
            _ => false,
        },
        ViaNeed::NativePayload { .. } => match answer {
            ViaAnswer::PayloadDecodes(_) => true,
            _ => false,
        },
        ViaNeed::Batteries => match answer {
            ViaAnswer::Batteries { .. } => true,
            _ => false,
        },
    }
}

/// Whether request `out` is one the firmware cannot serve (see
/// [`request_overruns_report`]).
pub fn request_overruns(out: &[u8; 32]) -> (overruns: bool)
    ensures
        overruns == request_overruns_report(out@),
{
    let command = ViaCommand::from_id(out[0]);
    match command {
        ViaCommand::DynamicKeymapGetBuffer => out[3] >= 30,
        ViaCommand::DynamicKeymapSetBuffer => out[3] >= 30,
        _ => false,
    }
}

/// The reply to request `out`, built on `input` (which the caller pre-fills
/// with a copy of the request), at uptime `now` (milliseconds).
pub open spec fn spec_via_reply(
    settings: ViaSettings,
    dims: KeymapDims,
    now: u64,
    out: Seq<u8>,
    input: Seq<u8>,
    answer: ViaAnswer,
) -> Seq<u8> {
    let command = spec_via_command(out[0]);
    if command == ViaCommand::GetProtocolVersion {
        put_u16_be(input, 1, VIA_PROTOCOL_VERSION)
    } else if command == ViaCommand::GetKeyboardValue {
        match spec_keyboard_info(out[1]) {
            Some(ViaKeyboardInfo::Uptime) => put_u32_be(input, 2, (now % 0x1_0000_0000) as u32),
            Some(ViaKeyboardInfo::LayoutOptions) => put_u32_be(input, 2, answer->LayoutOptions_0),
            Some(ViaKeyboardInfo::FirmwareVersion) => put_u32_be(input, 2, settings.firmware_version),
            _ => input,
        }
    } else if command == ViaCommand::DynamicKeymapGetKeyCode {
        put_u16_be(input, 4, answer->Keycode_0)
    } else if command == ViaCommand::CustomSetValue {
        if out[1] == ERGOHAVEN_CUSTOM_NAMESPACE && out[2] == ERGOHAVEN_CUSTOM_NATIVE_KEY_ACTION {
            native_set_reply(out, dims, answer matches ViaAnswer::PayloadDecodes(true))
        } else {
            input
        }
    } else if command == ViaCommand::CustomGetValue {
        if out[1] != ERGOHAVEN_CUSTOM_NAMESPACE {
            input
        } else if out[2] == ERGOHAVEN_CUSTOM_BATTERY_HALVES {
            battery_halves_reply(
                input,
                settings,
                (answer->Batteries_central, answer->Batteries_peripheral_0, answer->Batteries_peripheral_1),
            )
        } else if out[2] == ERGOHAVEN_CUSTOM_NATIVE_KEY_ACTION_CAPS {
            put_u16_le(
                native_response_header(out[0], ERGOHAVEN_CUSTOM_NATIVE_KEY_ACTION_CAPS),
                4,
                spec_native_key_action_capabilities(settings.universal_symbols),
            )
        } else if out[2] == ERGOHAVEN_CUSTOM_NATIVE_KEY_ACTION {
            native_get_reply(out, dims, opt_bytes(answer->NativeAction_0))
        } else if out[2] == ERGOHAVEN_CUSTOM_NEXT_NATIVE_KEY_ACTION {
            native_scan_reply(out, dims, answer->NativeScan_0@)
        } else {
            input
        }
    } else if command == ViaCommand::DynamicKeymapMacroGetCount {
        input.update(1, MACRO_COUNT)
    } else if command == ViaCommand::DynamicKeymapMacroGetBufferSize {
        input.update(1, ((settings.macro_space_size % 0x1_0000) / 256) as u8).update(
            2,
            (settings.macro_space_size % 256) as u8,
        )
    } else if command == ViaCommand::DynamicKeymapMacroGetBuffer {
        if out[3] <= MACRO_CHUNK_MAX {
            put_bytes(input, 4, answer->MacroBuffer_0@)
        } else {
            input.update(0, VIA_UNHANDLED)
        }
    } else if command == ViaCommand::DynamicKeymapMacroSetBuffer {
        if out[3] <= MACRO_CHUNK_MAX {
            input
        } else {
            input.update(0, VIA_UNHANDLED)
        }
    } else if command == ViaCommand::DynamicKeymapGetLayerCount {
        input.update(1, (dims.layers % 256) as u8)
    } else if command == ViaCommand::DynamicKeymapGetBuffer {
        put_keycodes(input, answer->Keycodes_0@)
    } else if command == ViaCommand::Unhandled {
        input.update(0, VIA_UNHANDLED)
    } else {
        input
    }
}

/// What the keyboard must do after request `out`.
pub open spec fn spec_via_effect(dims: KeymapDims, out: Seq<u8>, answer: ViaAnswer) -> ViaEffectView {
    let command = spec_via_command(out[0]);
    if command == ViaCommand::SetKeyboardValue && spec_keyboard_info(out[1]) == Some(
        ViaKeyboardInfo::LayoutOptions,
    ) {
        ViaEffectView::SetLayoutOptions(get_u32_be(out, 2))
    } else if command == ViaCommand::DynamicKeymapSetKeyCode {
        ViaEffectView::SetKeycode { layer: out[1], row: out[2], col: out[3], keycode: get_u16_be(out, 4) }
    } else if command == ViaCommand::CustomSetValue && out[1] == ERGOHAVEN_CUSTOM_NAMESPACE && out[2]
        == ERGOHAVEN_CUSTOM_NATIVE_KEY_ACTION && native_set_well_formed(out, dims) && answer matches ViaAnswer::PayloadDecodes(true) {
        ViaEffectView::SetNativeAction { layer: out[4], row: out[5], col: out[6], payload: native_set_payload(out) }
    } else if command == ViaCommand::EepromReset {
        ViaEffectView::ResetStorage
    } else if command == ViaCommand::BootloaderJump {
        ViaEffectView::JumpToBootloader
    } else if command == ViaCommand::DynamicKeymapMacroSetBuffer && out[3] <= MACRO_CHUNK_MAX {
        ViaEffectView::WriteMacroBuffer {
            offset: get_u16_be(out, 1) as usize,
            reset_first: get_u16_be(out, 1) == 0,
            data: out.subrange(4, 4 + out[3]),
        }
    } else if command == ViaCommand::DynamicKeymapSetBuffer {
        ViaEffectView::SetKeycodes {
            offset: set_buffer_start(out),
            keycodes: set_buffer_keycodes(out),
            rows: dims.rows,
            cols: dims.cols,
        }
    } else if command == ViaCommand::Vial {
        ViaEffectView::Vial
    } else {
        ViaEffectView::Nothing
    }
}


/// The bytes `buf[from..from + len]`.
fn copy_range(buf: &[u8; 32], from: usize, len: usize) -> (v: Vec<u8>)
    requires
        from + len <= 32,
    ensures
        v@ == buf@.subrange(from as int, from + len),
{
    let mut v: Vec<u8> = Vec::new();
    let mut i: usize = 0;
    while i < len
        invariant
            i <= len,
            from + len <= 32,
            v@ == buf@.subrange(from as int, from + i),
        decreases len - i,
    {
        v.push(buf[from + i]);
        i = i + 1;
        assert(v@ =~= buf@.subrange(from as int, from + i));
    }
    v
}

/// Answers a native key action read: status and, on success, the encoded
/// action of the key (`encoded`, the keyboard's encoding of it).
pub fn process_native_key_action_get(report: &mut ViaReport, dims: KeymapDims, encoded: &Option<Vec<u8>>)
    ensures
        final(report).input_data@ == native_get_reply(old(report).output_data@, dims, opt_bytes(*encoded)),
        final(report).output_data == old(report).output_data,
{
    init_native_key_action_response(report, ERGOHAVEN_CUSTOM_NATIVE_KEY_ACTION);
    if report.output_data[3] != ERGOHAVEN_NATIVE_KEY_ACTION_VERSION {
        report.input_data[4] = NATIVE_KEY_ACTION_STATUS_UNSUPPORTED_VERSION;
        return;
    }
    let layer = report.output_data[4];
    let row = report.output_data[5];
    let col = report.output_data[6];
    if !native_key_position_valid(dims, layer, row, col) {
        report.input_data[4] = NATIVE_KEY_ACTION_STATUS_INVALID_POSITION;
        return;
    }
    if !encode_native_key_action(report, NATIVE_KEY_ACTION_GET_PAYLOAD_OFFSET, encoded) {
        report.input_data[4] = NATIVE_KEY_ACTION_STATUS_INVALID_PAYLOAD;
    }
}

/// Answers a native key action write. `decodes` says whether the payload is a
/// key action; the result says whether the key is to be rebound to it.
pub fn process_native_key_action_set(report: &mut ViaReport, dims: KeymapDims, decodes: bool) -> (accepted: bool)
    ensures
        final(report).input_data@ == native_set_reply(old(report).output_data@, dims, decodes),
        final(report).output_data == old(report).output_data,
        accepted == (native_set_well_formed(old(report).output_data@, dims) && decodes),
{
    init_native_key_action_response(report, ERGOHAVEN_CUSTOM_NATIVE_KEY_ACTION);
    if report.output_data[3] != ERGOHAVEN_NATIVE_KEY_ACTION_VERSION {
        report.input_data[4] = NATIVE_KEY_ACTION_STATUS_UNSUPPORTED_VERSION;
        return false;
    }
    let layer = report.output_data[4];
    let row = report.output_data[5];
    let col = report.output_data[6];
    if !native_key_position_valid(dims, layer, row, col) {
        report.input_data[4] = NATIVE_KEY_ACTION_STATUS_INVALID_POSITION;
        return false;
    }
    let payload_len = report.output_data[7] as usize;
    if payload_len == 0 || payload_len > NATIVE_KEY_ACTION_MAX_PAYLOAD || !decodes {
        report.input_data[4] = NATIVE_KEY_ACTION_STATUS_INVALID_PAYLOAD;
        return false;
    }
    true
}

/// Total keys of the keymap, saturating.
fn keymap_total(dims: KeymapDims) -> (total: usize)
    ensures
        total == sat_mul(sat_mul(dims.rows, dims.cols), dims.layers),
{
    let rc = match dims.rows.checked_mul(dims.cols) {
        Some(v) => v,
        None => usize::MAX,
    };
    match rc.checked_mul(dims.layers) {
        Some(v) => v,
        None => usize::MAX,
    }
}

/// The flat key range a native key action scan covers.
pub fn native_scan_bounds(report: &ViaReport, dims: KeymapDims) -> (bounds: (usize, usize))
    ensures
        bounds == scan_bounds(report.output_data@, dims),
{
    let start = read_u16_le(&report.output_data, 4) as usize;
    let total = keymap_total(dims);
    let end = if total < 65535 {
        total
    } else {
        65535usize
    };
    (start, end)
}

/// Answers a native key action scan: the first key from the requested start
/// whose action VIA cannot express, with its index and encoding, or END.
pub fn process_next_native_key_action_get(report: &mut ViaReport, dims: KeymapDims, entries: &Vec<ScanEntry>)
    requires
        old(report).output_data@[3] == ERGOHAVEN_NATIVE_KEY_ACTION_VERSION ==> entries@.len() == scan_len(
            old(report).output_data@,
            dims,
        ),
    ensures
        final(report).input_data@ == native_scan_reply(old(report).output_data@, dims, entries@),
        final(report).output_data == old(report).output_data,
{
    let ghost out = report.output_data@;
    let (start, end) = native_scan_bounds(report, dims);
    init_native_key_action_response(report, ERGOHAVEN_CUSTOM_NEXT_NATIVE_KEY_ACTION);
    if report.output_data[3] != ERGOHAVEN_NATIVE_KEY_ACTION_VERSION {
        report.input_data[4] = NATIVE_KEY_ACTION_STATUS_UNSUPPORTED_VERSION;
        return;
    }
    let n = entries.len();
    let mut k: usize = 0;
    while k < n
        invariant
            k <= n,
            n == entries@.len(),
            n == scan_len(out, dims),
            (start, end) == scan_bounds(out, dims),
            report.output_data@ == out,
            report.output_data == old(report).output_data,
            out == old(report).output_data@,
            out[3] == ERGOHAVEN_NATIVE_KEY_ACTION_VERSION,
            report.input_data@ == native_response_header(out[0], ERGOHAVEN_CUSTOM_NEXT_NATIVE_KEY_ACTION),
            first_lossy_from(entries@, 0) == first_lossy_from(entries@, k as int),
        decreases n - k,
    {
        let e = &entries[k];
        if !e.is_no_action && e.via_keycode == 0 {
            assert(first_lossy_from(entries@, k as int) == Some(k as int));
            assert(start + k < end);
            let mut buf = report.input_data;
            write_u16_le(&mut buf, 5, (start + k) as u16);
            report.input_data = buf;
            let ghost w = report.input_data@;
            assert(w == put_u16_le(
                native_response_header(out[0], ERGOHAVEN_CUSTOM_NEXT_NATIVE_KEY_ACTION),
                5,
                (scan_bounds(out, dims).0 + k) as u16,
            ));
            if !encode_native_key_action(report, NATIVE_KEY_ACTION_NEXT_PAYLOAD_OFFSET, &e.encoded) {
                report.input_data[4] = NATIVE_KEY_ACTION_STATUS_INVALID_PAYLOAD;
                assert(report.input_data@ == w.update(4, NATIVE_KEY_ACTION_STATUS_INVALID_PAYLOAD));
            }
            assert(opt_bytes(entries@[k as int].encoded) == opt_bytes(e.encoded));
            assert(report.input_data@ == native_scan_reply(out, dims, entries@));
            return;
        }
        k = k + 1;
    }
    report.input_data[4] = NATIVE_KEY_ACTION_STATUS_END;
    let mut buf = report.input_data;
    write_u16_le(&mut buf, 5, 0xFFFF);
    report.input_data = buf;
}

/// Answers a battery halves read.
fn process_battery_halves(
    report: &mut ViaReport,
    settings: ViaSettings,
    batteries: (BatteryStatus, BatteryStatus, BatteryStatus),
)
    ensures
        final(report).input_data@ == battery_halves_reply(old(report).input_data@, settings, batteries),
        final(report).output_data == old(report).output_data,
{
    report.input_data[3] = ERGOHAVEN_BATTERY_HALVES_VERSION;
    report.input_data[4] = 0;
    report.input_data[5] = 0xFF;
    report.input_data[6] = 0xFF;
    if let Some(layout) = settings.split_batteries {
        let (left, right) = battery_halves_for_split(
            batteries.0,
            batteries.1,
            batteries.2,
            layout.peripheral_count,
            layout.central_is_left,
        );
        assert(0u8 | 0x01u8 == 1u8) by (bit_vector);
        if let Some(level) = battery_level_byte(left) {
            report.input_data[4] = report.input_data[4] | 0x01;
            report.input_data[5] = level;
        }
        if let Some(level) = battery_level_byte(right) {
            let b = report.input_data[4];
            assert(b == 0 || b == 1);
            assert(b == 0u8 ==> b | 0x02u8 == 2u8) by (bit_vector);
            assert(b == 1u8 ==> b | 0x02u8 == 3u8) by (bit_vector);
            report.input_data[4] = b | 0x02;
            report.input_data[6] = level;
        }
    }
    proof {
        let ghost want = battery_halves_reply(old(report).input_data@, settings, batteries);
        assert(report.input_data@ =~= want);
    }
}


/// Copies `bytes` into `buf` from `at` on.
fn copy_into(buf: &mut [u8; 32], at: usize, bytes: &Vec<u8>)
    requires
        at + bytes@.len() <= 32,
    ensures
        final(buf)@ == put_bytes(old(buf)@, at as int, bytes@),
{
    let n = bytes.len();
    let mut i: usize = 0;
    while i < n
        invariant
            i <= n,
            n == bytes@.len(),
            at + n <= 32,
            forall|j: int| 0 <= j < at ==> buf@[j] == old(buf)@[j],
            forall|j: int| 0 <= j < i ==> buf@[at + j] == bytes@[j],
            forall|j: int| at + i <= j < 32 ==> buf@[j] == old(buf)@[j],
        decreases n - i,
    {
        buf[at + i] = bytes[i];
        i = i + 1;
    }
    assert(buf@ =~= put_bytes(old(buf)@, at as int, bytes@));
}

/// Writes each keycode big-endian from byte 4 on.
fn write_keycodes(buf: &mut [u8; 32], keycodes: &Vec<u16>)
    requires
        4 + 2 * keycodes@.len() <= 32,
    ensures
        final(buf)@ == put_keycodes(old(buf)@, keycodes@),
{
    let n = keycodes.len();
    let mut i: usize = 0;
    let mut idx: usize = 4;
    while i < n
        invariant
            i <= n,
            n == keycodes@.len(),
            4 + 2 * n <= 32,
            idx == 4 + 2 * i,
            forall|j: int|
                0 <= j < 32 ==> #[trigger] buf@[j] == (if 4 <= j < 4 + 2 * i {
                    put_keycodes(old(buf)@, keycodes@)[j]
                } else {
                    old(buf)@[j]
                }),
        decreases n - i,
    {
        let kc = keycodes[i];
        write_u16_be(buf, idx, kc);
        i = i + 1;
        idx = idx + 2;
    }
    assert(buf@ =~= put_keycodes(old(buf)@, keycodes@));
}

/// The keycodes of a keymap buffer write.
fn read_set_buffer_keycodes(out: &[u8; 32]) -> (keycodes: Vec<u16>)
    requires
        out@[3] < 30,
    ensures
        keycodes@ == set_buffer_keycodes(out@),
{
    let size: usize = (out[3] / 2) as usize;
    let mut keycodes: Vec<u16> = Vec::new();
    let mut i: usize = 0;
    let mut idx: usize = 4;
    while i < size
        invariant
            i <= size,
            size == set_buffer_count(out@),
            size <= 14,
            idx == 4 + 2 * i,
            keycodes@ =~= set_buffer_keycodes(out@).take(i as int),
        decreases size - i,
    {
        keycodes.push(read_u16_le(out, idx));
        i = i + 1;
        idx = idx + 2;
    }
    assert(keycodes@ =~= set_buffer_keycodes(out@));
    keycodes
}

/// The VIA/Vial service of a keyboard.
pub struct VialService {
    settings: ViaSettings,
}

impl VialService {
    pub closed spec fn settings(&self) -> ViaSettings {
        self.settings
    }

    pub fn new(settings: ViaSettings) -> (service: VialService)
        ensures
            service.settings() == settings,
    {
        VialService { settings }
    }


    /// Builds the reply to `report` from the keyboard's `answer` to
    /// [`Self::via_need`], at uptime `now` (milliseconds), and says what the
    /// keyboard must then do.
    pub fn respond(&self, report: &mut ViaReport, dims: KeymapDims, now: u64, answer: &ViaAnswer) -> (effect: ViaEffect)
        requires
            answer_fits(spec_via_need(self.settings(), dims, old(report).output_data@), *answer),
            !request_overruns_report(old(report).output_data@),
        ensures
            final(report).input_data@ == spec_via_reply(
                self.settings(),
                dims,
                now,
                old(report).output_data@,
                old(report).input_data@,
                *answer,
            ),
            final(report).output_data == old(report).output_data,
            effect@ == spec_via_effect(dims, old(report).output_data@, *answer),
    {
        let command = ViaCommand::from_id(report.output_data[0]);
        match command {
            ViaCommand::GetProtocolVersion => {
                write_u16_be(&mut report.input_data, 1, VIA_PROTOCOL_VERSION);
                ViaEffect::Nothing
            },
            ViaCommand::GetKeyboardValue => {
                match ViaKeyboardInfo::from_id(report.output_data[1]) {
                    Some(ViaKeyboardInfo::Uptime) => {
                        write_u32_be(&mut report.input_data, 2, (now % 0x1_0000_0000) as u32);
                    },
                    Some(ViaKeyboardInfo::LayoutOptions) => {
                        if let ViaAnswer::LayoutOptions(layout_option) = answer {
                            write_u32_be(&mut report.input_data, 2, *layout_option);
                        }
                    },
                    Some(ViaKeyboardInfo::FirmwareVersion) => {
                        write_u32_be(&mut report.input_data, 2, self.settings.firmware_version);
                    },
                    _ => {},
                }
                ViaEffect::Nothing
            },
            ViaCommand::SetKeyboardValue => {
                match ViaKeyboardInfo::from_id(report.output_data[1]) {
                    Some(ViaKeyboardInfo::LayoutOptions) => {
                        ViaEffect::SetLayoutOptions(read_u32_be(&report.output_data, 2))
                    },
                    _ => ViaEffect::Nothing,
                }
            },
            ViaCommand::DynamicKeymapGetKeyCode => {
                if let ViaAnswer::Keycode(keycode) = answer {
                    write_u16_be(&mut report.input_data, 4, *keycode);
                }
                ViaEffect::Nothing
            },
            ViaCommand::DynamicKeymapSetKeyCode => {
                ViaEffect::SetKeycode {
                    layer: report.output_data[1],
                    row: report.output_data[2],
                    col: report.output_data[3],
                    keycode: read_u16_be(&report.output_data, 4),
                }
            },
            ViaCommand::CustomSetValue => {
                if report.output_data[1] == ERGOHAVEN_CUSTOM_NAMESPACE && report.output_data[2]
                    == ERGOHAVEN_CUSTOM_NATIVE_KEY_ACTION {
                    let decodes = match answer {
                        ViaAnswer::PayloadDecodes(d) => *d,
                        _ => false,
                    };
                    if process_native_key_action_set(report, dims, decodes) {
                        let payload = copy_range(
                            &report.output_data,
                            NATIVE_KEY_ACTION_SET_PAYLOAD_OFFSET,
                            report.output_data[7] as usize,
                        );
                        ViaEffect::SetNativeAction {
                            layer: report.output_data[4],
                            row: report.output_data[5],
                            col: report.output_data[6],
                            payload,
                        }
                    } else {
                        ViaEffect::Nothing
                    }
                } else {
                    ViaEffect::Nothing
                }
            },
            ViaCommand::CustomGetValue => {
                if report.output_data[1] != ERGOHAVEN_CUSTOM_NAMESPACE {
                } else if report.output_data[2] == ERGOHAVEN_CUSTOM_BATTERY_HALVES {
                    let batteries = match answer {
                        ViaAnswer::Batteries { central, peripheral_0, peripheral_1 } => (
                            *central,
                            *peripheral_0,
                            *peripheral_1,
                        ),
                        _ => (BatteryStatus::Unavailable, BatteryStatus::Unavailable, BatteryStatus::Unavailable),
                    };
                    process_battery_halves(report, self.settings, batteries);
                } else if report.output_data[2] == ERGOHAVEN_CUSTOM_NATIVE_KEY_ACTION_CAPS {
                    init_native_key_action_response(report, ERGOHAVEN_CUSTOM_NATIVE_KEY_ACTION_CAPS);
                    write_u16_le(
                        &mut report.input_data,
                        4,
                        native_key_action_capabilities(self.settings.universal_symbols),
                    );
                } else if report.output_data[2] == ERGOHAVEN_CUSTOM_NATIVE_KEY_ACTION {
                    let none: Option<Vec<u8>> = None;
                    let encoded = match answer {
                        ViaAnswer::NativeAction(e) => e,
                        _ => &none,
                    };
                    process_native_key_action_get(report, dims, encoded);
                } else if report.output_data[2] == ERGOHAVEN_CUSTOM_NEXT_NATIVE_KEY_ACTION {
                    let empty: Vec<ScanEntry> = Vec::new();
                    let entries = match answer {
                        ViaAnswer::NativeScan(e) => e,
                        _ => &empty,
                    };
                    process_next_native_key_action_get(report, dims, entries);
                }
                ViaEffect::Nothing
            },
            ViaCommand::EepromReset => ViaEffect::ResetStorage,
            ViaCommand::BootloaderJump => ViaEffect::JumpToBootloader,
            ViaCommand::DynamicKeymapMacroGetCount => {
                report.input_data[1] = MACRO_COUNT;
                ViaEffect::Nothing
            },
            ViaCommand::DynamicKeymapMacroGetBufferSize => {
                let size = self.settings.macro_space_size;
                report.input_data[1] = ((size % 0x1_0000) / 256) as u8;
                report.input_data[2] = (size % 256) as u8;
                ViaEffect::Nothing
            },
            ViaCommand::DynamicKeymapMacroGetBuffer => {
                if report.output_data[3] <= MACRO_CHUNK_MAX {
                    if let ViaAnswer::MacroBuffer(bytes) = answer {
                        copy_into(&mut report.input_data, 4, bytes);
                    }
                } else {
                    report.input_data[0] = VIA_UNHANDLED;
                }
                ViaEffect::Nothing
            },
            ViaCommand::DynamicKeymapMacroSetBuffer => {
                let offset = read_u16_be(&report.output_data, 1);
                let size = report.output_data[3];
                if size <= MACRO_CHUNK_MAX {
                    let data = copy_range(&report.output_data, 4, size as usize);
                    ViaEffect::WriteMacroBuffer { offset: offset as usize, reset_first: offset == 0, data }
                } else {
                    report.input_data[0] = VIA_UNHANDLED;
                    ViaEffect::Nothing
                }
            },
            ViaCommand::DynamicKeymapGetLayerCount => {
                report.input_data[1] = (dims.layers % 256) as u8;
                ViaEffect::Nothing
            },
            ViaCommand::DynamicKeymapGetBuffer => {
                if let ViaAnswer::Keycodes(keycodes) = answer {
                    write_keycodes(&mut report.input_data, keycodes);
                }
                ViaEffect::Nothing
            },
            ViaCommand::DynamicKeymapSetBuffer => {
                let offset = read_u16_be(&report.output_data, 1);
                let keycodes = read_set_buffer_keycodes(&report.output_data);
                ViaEffect::SetKeycodes { offset: (offset / 2) as usize, keycodes, rows: dims.rows, cols: dims.cols }
            },
            ViaCommand::Vial => ViaEffect::Vial,
            ViaCommand::Unhandled => {
                report.input_data[0] = VIA_UNHANDLED;
                ViaEffect::Nothing
            },
            _ => ViaEffect::Nothing,
        }
    }

    /// Handles one VIA request: builds the reply in `report.input_data` (which
    /// the caller pre-fills with a copy of the request) from the keyboard's
    /// `answer` to [`Self::via_need`], reading the uptime from the clock, and
    /// says what the keyboard must then do.
    pub fn process_via_packet(&self, report: &mut ViaReport, dims: KeymapDims, answer: &ViaAnswer) -> (effect: ViaEffect)
        requires
            answer_fits(spec_via_need(self.settings(), dims, old(report).output_data@), *answer),
            !request_overruns_report(old(report).output_data@),
        ensures
            exists|now: u64|
                final(report).input_data@ == #[trigger] spec_via_reply(
                    self.settings(),
                    dims,
                    now,
                    old(report).output_data@,
                    old(report).input_data@,
                    *answer,
                ),
            final(report).output_data == old(report).output_data,
            effect@ == spec_via_effect(dims, old(report).output_data@, *answer),
    {
        let now = now_millis();
        self.respond(report, dims, now, answer)
    }

    /// What answering `report` needs to read from the keyboard.
    pub fn via_need(&self, report: &ViaReport, dims: KeymapDims) -> (need: ViaNeed)
        ensures
            need@ == spec_via_need(self.settings(), dims, report.output_data@),
    {
        let out = &report.output_data;
        let command = ViaCommand::from_id(out[0]);
        match command {
            ViaCommand::GetKeyboardValue => {
                match ViaKeyboardInfo::from_id(out[1]) {
                    Some(ViaKeyboardInfo::LayoutOptions) => ViaNeed::LayoutOptions,
                    _ => ViaNeed::Nothing,
                }
            },
            ViaCommand::DynamicKeymapGetKeyCode => ViaNeed::Keycode { layer: out[1], row: out[2], col: out[3] },
            ViaCommand::DynamicKeymapMacroGetBuffer => {
                if out[3] <= MACRO_CHUNK_MAX {
                    ViaNeed::MacroBuffer { offset: read_u16_be(out, 1) as usize, size: out[3] as usize }
                } else {
                    ViaNeed::Nothing
                }
            },
            ViaCommand::DynamicKeymapGetBuffer => {
                ViaNeed::Keycodes { start: (read_u16_be(out, 1) / 2) as usize, count: (out[3] / 2) as usize }
            },
            ViaCommand::CustomSetValue => {
                if out[1] == ERGOHAVEN_CUSTOM_NAMESPACE && out[2] == ERGOHAVEN_CUSTOM_NATIVE_KEY_ACTION
                    && out[3] == ERGOHAVEN_NATIVE_KEY_ACTION_VERSION && native_key_position_valid(
                    dims,
                    out[4],
                    out[5],
                    out[6],
                ) && out[7] != 0 && out[7] as usize <= NATIVE_KEY_ACTION_MAX_PAYLOAD {
                    let payload = copy_range(out, NATIVE_KEY_ACTION_SET_PAYLOAD_OFFSET, out[7] as usize);
                    ViaNeed::NativePayload { layer: out[4], row: out[5], col: out[6], payload }
                } else {
                    ViaNeed::Nothing
                }
            },
            ViaCommand::CustomGetValue => {
                if out[1] != ERGOHAVEN_CUSTOM_NAMESPACE {
                    ViaNeed::Nothing
                } else if out[2] == ERGOHAVEN_CUSTOM_BATTERY_HALVES {
                    if self.settings.split_batteries.is_some() {
                        ViaNeed::Batteries
                    } else {
                        ViaNeed::Nothing
                    }
                } else if out[2] == ERGOHAVEN_CUSTOM_NATIVE_KEY_ACTION {
                    if out[3] == ERGOHAVEN_NATIVE_KEY_ACTION_VERSION && native_key_position_valid(
                        dims,
                        out[4],
                        out[5],
                        out[6],
                    ) {
                        ViaNeed::NativeAction { layer: out[4], row: out[5], col: out[6] }
                    } else {
                        ViaNeed::Nothing
                    }
                } else if out[2] == ERGOHAVEN_CUSTOM_NEXT_NATIVE_KEY_ACTION {
                    if out[3] == ERGOHAVEN_NATIVE_KEY_ACTION_VERSION {
                        let (start, end) = native_scan_bounds(report, dims);
                        ViaNeed::NativeScan { start, end }
                    } else {
                        ViaNeed::Nothing
                    }
                } else {
                    ViaNeed::Nothing
                }
            },
            _ => ViaNeed::Nothing,
        }
    }
}

/// A keycode write rebinds exactly the key the request addresses: layer
/// `out[1]`, row `out[2]`, column `out[3]`, to the big-endian keycode in
/// `out[4..6]`, whatever the keyboard answered.
pub proof fn lemma_set_keycode_rebinds_addressed_key(dims: KeymapDims, out: Seq<u8>, answer: ViaAnswer)
    requires
        out.len() == 32,
        out[0] == 0x05,
    ensures
        spec_via_effect(dims, out, answer) == (ViaEffectView::SetKeycode {
            layer: out[1],
            row: out[2],
            col: out[3],
            keycode: (out[4] * 256 + out[5]) as u16,
        }),
{
}

/// A keycode read answers, big-endian in bytes 4..6, the keycode the keyboard
/// gave, and leaves every other byte of the reply as it was.
pub proof fn lemma_get_keycode_reply(
    settings: ViaSettings,
    dims: KeymapDims,
    now: u64,
    out: Seq<u8>,
    input: Seq<u8>,
    keycode: u16,
)
    requires
        out.len() == 32,
        input.len() == 32,
        out[0] == 0x04,
    ensures
        ({
            let r = spec_via_reply(settings, dims, now, out, input, ViaAnswer::Keycode(keycode));
            &&& r.len() == 32
            &&& r[4] * 256 + r[5] == keycode
            &&& forall|j: int| 0 <= j < 32 && j != 4 && j != 5 ==> r[j] == input[j]
        }),
{
}

/// A keymap buffer read answers each keycode the keyboard gave, in order and
/// big-endian, from byte 4 on, two bytes apiece; the bytes before and after
/// are left as they were.
pub proof fn lemma_get_buffer_reply(
    settings: ViaSettings,
    dims: KeymapDims,
    now: u64,
    out: Seq<u8>,
    input: Seq<u8>,
    keycodes: Vec<u16>,
)
    requires
        out.len() == 32,
        input.len() == 32,
        out[0] == 0x12,
        keycodes@.len() <= 14,
    ensures
        ({
            let r = spec_via_reply(settings, dims, now, out, input, ViaAnswer::Keycodes(keycodes));
            let n = keycodes@.len() as int;
            &&& r.len() == 32
            &&& forall|i: int| 0 <= i < n ==> r[4 + 2 * i] * 256 + r[5 + 2 * i] == #[trigger] keycodes@[i]
            &&& forall|j: int| 0 <= j < 32 && !(4 <= j < 4 + 2 * n) ==> r[j] == input[j]
        }),
{
    let r = spec_via_reply(settings, dims, now, out, input, ViaAnswer::Keycodes(keycodes));
    assert forall|i: int| 0 <= i < keycodes@.len() implies r[4 + 2 * i] * 256 + r[5 + 2 * i]
        == #[trigger] keycodes@[i] by {
        assert((4 + 2 * i - 4) / 2 == i);
        assert((5 + 2 * i - 4) / 2 == i);
        assert((4 + 2 * i - 4) % 2 == 0);
        assert((5 + 2 * i - 4) % 2 == 1);
    }
}

/// A keymap buffer write binds, from key `offset / 2` (offset big-endian in
/// `out[1..3]`), the `out[3] / 2` keycodes stored little-endian from byte 4.
pub proof fn lemma_set_buffer_keycodes_from_bytes(dims: KeymapDims, out: Seq<u8>, answer: ViaAnswer)
    requires
        out.len() == 32,
        out[0] == 0x13,
        out[3] < 30,
    ensures
        spec_via_effect(dims, out, answer) matches ViaEffectView::SetKeycodes { offset, keycodes, rows, cols } && {
            &&& offset == (out[1] * 256 + out[2]) / 2
            &&& keycodes.len() == out[3] / 2
            &&& forall|i: int| 0 <= i < keycodes.len() ==> #[trigger] keycodes[i] == out[4 + 2 * i] + out[5 + 2 * i] * 256
            &&& rows == dims.rows
            &&& cols == dims.cols
        },
{
}

/// Layout options written by a keyboard value write are the big-endian word in
/// `out[2..6]`; reading them back puts the same four bytes at 2..6 of the
/// reply.
pub proof fn lemma_layout_options_round_trip(
    settings: ViaSettings,
    dims: KeymapDims,
    now: u64,
    set_out: Seq<u8>,
    get_out: Seq<u8>,
    input: Seq<u8>,
    answer: ViaAnswer,
)
    requires
        set_out.len() == 32,
        get_out.len() == 32,
        input.len() == 32,
        set_out[0] == 0x03,
        set_out[1] == 0x02,
        get_out[0] == 0x02,
        get_out[1] == 0x02,
    ensures
        ({
            let effect = spec_via_effect(dims, set_out, answer);
            let value = set_out[2] * 0x100_0000 + set_out[3] * 0x1_0000 + set_out[4] * 256 + set_out[5];
            let r = spec_via_reply(settings, dims, now, get_out, input, ViaAnswer::LayoutOptions(value as u32));
            &&& effect == ViaEffectView::SetLayoutOptions(value as u32)
            &&& r.subrange(2, 6) == set_out.subrange(2, 6)
        }),
{
    let value = (set_out[2] * 0x100_0000 + set_out[3] * 0x1_0000 + set_out[4] * 256 + set_out[5]) as u32;
    let r = put_u32_be(input, 2, value);
    let (a, b, c, d) = (set_out[2], set_out[3], set_out[4], set_out[5]);
    assert(value / 0x100_0000 == a && (value / 0x1_0000) % 256 == b && (value / 256) % 256 == c && value % 256 == d)
        by (nonlinear_arith)
        requires
            value == a * 0x100_0000 + b * 0x1_0000 + c * 256 + d,
            a < 256,
            b < 256,
            c < 256,
            d < 256,
    ;
    assert(r.subrange(2, 6) =~= set_out.subrange(2, 6));
}

/// A macro chunk write of at most 28 bytes stores `out[4..4 + out[3]]` at the
/// big-endian offset in `out[1..3]`, clearing macro storage first exactly when
/// that offset is 0.
pub proof fn lemma_macro_write_stores_chunk(dims: KeymapDims, out: Seq<u8>, answer: ViaAnswer)
    requires
        out.len() == 32,
        out[0] == 0x0F,
        out[3] <= 28,
    ensures
        spec_via_effect(dims, out, answer) == (ViaEffectView::WriteMacroBuffer {
            offset: (out[1] * 256 + out[2]) as usize,
            reset_first: out[1] == 0 && out[2] == 0,
            data: out.subrange(4, 4 + out[3]),
        }),
{
}

/// A macro chunk read of at most 28 bytes answers the bytes the keyboard read,
/// in order, from byte 4; the other bytes stay as they were.
pub proof fn lemma_macro_read_reply(
    settings: ViaSettings,
    dims: KeymapDims,
    now: u64,
    out: Seq<u8>,
    input: Seq<u8>,
    bytes: Vec<u8>,
)
    requires
        out.len() == 32,
        input.len() == 32,
        out[0] == 0x0E,
        out[3] <= 28,
        bytes@.len() == out[3],
    ensures
        ({
            let r = spec_via_reply(settings, dims, now, out, input, ViaAnswer::MacroBuffer(bytes));
            let n = bytes@.len() as int;
            &&& r.len() == 32
            &&& r.subrange(4, 4 + n) == bytes@
            &&& forall|j: int| 0 <= j < 32 && !(4 <= j < 4 + n) ==> r[j] == input[j]
        }),
{
    let r = spec_via_reply(settings, dims, now, out, input, ViaAnswer::MacroBuffer(bytes));
    assert(r.subrange(4, 4 + bytes@.len() as int) =~= bytes@);
}

proof fn lemma_first_lossy_is(entries: Seq<ScanEntry>, i: int, k: int)
    requires
        0 <= i <= k < entries.len(),
        is_lossy(entries[k]),
        forall|j: int| i <= j < k ==> !is_lossy(#[trigger] entries[j]),
    ensures
        first_lossy_from(entries, i) == Some(k),
    decreases k - i,
{
    if i < k {
        lemma_first_lossy_is(entries, i + 1, k);
    }
}

proof fn lemma_no_lossy_from(entries: Seq<ScanEntry>, i: int)
    requires
        0 <= i,
        forall|j: int| i <= j < entries.len() ==> !is_lossy(#[trigger] entries[j]),
    ensures
        first_lossy_from(entries, i) is None,
    decreases entries.len() - i,
{
    if i < entries.len() {
        lemma_no_lossy_from(entries, i + 1);
    }
}

/// A native key action scan answers with the first scanned key whose action
/// does something VIA cannot express: bytes 5..7 carry, little-endian, its
/// flat key index, which is the request's start (`out[4..6]`, little-endian)
/// plus its position among the scanned keys; when its encoding fits, the
/// status is OK and byte 7 and on carry the encoding's length and bytes.
pub proof fn lemma_scan_reports_first_lossy_key(out: Seq<u8>, dims: KeymapDims, entries: Seq<ScanEntry>, k: int)
    requires
        out.len() == 32,
        out[3] == ERGOHAVEN_NATIVE_KEY_ACTION_VERSION,
        entries.len() == scan_len(out, dims),
        0 <= k < entries.len(),
        !entries[k].is_no_action && entries[k].via_keycode == 0,
        forall|j: int| 0 <= j < k ==> (#[trigger] entries[j]).is_no_action || entries[j].via_keycode != 0,
    ensures
        ({
            let r = native_scan_reply(out, dims, entries);
            &&& r.len() == 32
            &&& r[5] + r[6] * 256 == out[4] + out[5] * 256 + k
            &&& r[4] == NATIVE_KEY_ACTION_STATUS_OK || r[4] == NATIVE_KEY_ACTION_STATUS_INVALID_PAYLOAD
            &&& (entries[k].encoded is Some && entries[k].encoded.unwrap()@.len() <= NATIVE_KEY_ACTION_MAX_PAYLOAD)
                ==> {
                let b = entries[k].encoded.unwrap()@;
                &&& r[4] == NATIVE_KEY_ACTION_STATUS_OK
                &&& r[7] == b.len()
                &&& r.subrange(8, 8 + b.len() as int) == b
            }
        }),
{
    assert forall|j: int| 0 <= j < k implies !is_lossy(#[trigger] entries[j]) by {
        assert(entries[j].is_no_action || entries[j].via_keycode != 0);
    }
    lemma_first_lossy_is(entries, 0, k);
    let start = scan_bounds(out, dims).0;
    let v = (start + k) as u16;
    assert(start + k < 65536);
    let h = native_response_header(out[0], ERGOHAVEN_CUSTOM_NEXT_NATIVE_KEY_ACTION);
    let w = put_u16_le(h, 5, v);
    assert(w[5] + w[6] * 256 == v) by (nonlinear_arith)
        requires
            w[5] == (v % 256) as u8,
            w[6] == (v / 256) as u8,
    ;
    let r = native_scan_reply(out, dims, entries);
    match opt_bytes(entries[k].encoded) {
        Some(b) => {
            if b.len() <= NATIVE_KEY_ACTION_MAX_PAYLOAD && NATIVE_KEY_ACTION_NEXT_PAYLOAD_OFFSET + b.len() <= 32 {
                let p = put_payload(w, 8, b);
                assert(p[5] == w[5] && p[6] == w[6] && p[4] == w[4]);
                assert(p.subrange(8, 8 + b.len() as int) =~= b);
            }
        },
        None => {},
    }
}

/// A native key action scan that finds no such key answers END with index
/// 0xFFFF.
pub proof fn lemma_scan_without_lossy_key_ends(out: Seq<u8>, dims: KeymapDims, entries: Seq<ScanEntry>)
    requires
        out.len() == 32,
        out[3] == ERGOHAVEN_NATIVE_KEY_ACTION_VERSION,
        forall|j: int| 0 <= j < entries.len() ==> (#[trigger] entries[j]).is_no_action || entries[j].via_keycode != 0,
    ensures
        ({
            let r = native_scan_reply(out, dims, entries);
            &&& r[4] == NATIVE_KEY_ACTION_STATUS_END
            &&& r[5] == 0xFF
            &&& r[6] == 0xFF
        }),
{
    assert forall|j: int| 0 <= j < entries.len() implies !is_lossy(#[trigger] entries[j]) by {
        assert(entries[j].is_no_action || entries[j].via_keycode != 0);
    }
    lemma_no_lossy_from(entries, 0);
}

/// A time packet's hour and minute are what the screen reads back when they
/// form a time of day; otherwise the clock reads back empty.
pub proof fn lemma_time_packet_read_back(v: HostDataStoreView, data: Seq<u8>, now: u64)
    requires
        data.len() == 32,
        data[0] == HOST_DATA_TIME,
    ensures
        ({
            let shown = spec_snapshot(spec_host_data_packet(v, data, now), now);
            let valid = data[1] < 24 && data[2] < 60;
            &&& shown.hour == (if valid { Some(data[1]) } else { None })
            &&& shown.minute == (if valid { Some(data[2]) } else { None })
        }),
{
}

/// A media packet whose text (at most 30 bytes) is valid UTF-8 is stored
/// whole; the artist packet fills the artist slot, the title packet the title
/// slot, and nothing else changes.
pub proof fn lemma_media_packet_text_kept_whole(v: HostDataStoreView, data: Seq<u8>, now: u64)
    requires
        data.len() == 32,
        data[0] == HOST_DATA_MEDIA_ARTIST || data[0] == HOST_DATA_MEDIA_TITLE,
        data[1] <= HOST_DATA_TEXT_MAX,
        valid_utf8(data.subrange(2, 2 + data[1])),
    ensures
        ({
            let text = decode_utf8(data.subrange(2, 2 + data[1]));
            spec_host_data_packet(v, data, now) == if data[0] == HOST_DATA_MEDIA_ARTIST {
                HostDataStoreView { media_artist: text, ..v }
            } else {
                HostDataStoreView { media_title: text, ..v }
            }
        }),
{
    let payload = host_text_payload(data);
    assert(payload =~= data.subrange(2, 2 + data[1]));
    crate::text::lemma_valid_prefix_is_valid(payload);
    if valid_prefix_len(payload) < payload.len() {
        crate::text::lemma_valid_prefix_is_longest(payload, payload.len() as int);
        assert(payload.take(payload.len() as int) =~= payload);
    }
    assert(payload.take(valid_prefix_len(payload) as int) =~= payload);
    let text = decode_utf8(payload);
    decode_utf8_encode_utf8(payload);
    crate::text::lemma_fitting_prefix_whole(text, 32);
}

/// An agent packet's five counts are what the screen reads back for 30
/// seconds from its arrival, and no data afterwards; nothing else changes.
pub proof fn lemma_agent_packet_read_back(v: HostDataStoreView, data: Seq<u8>, received: u64, now: u64)
    requires
        data.len() == 32,
        data[0] == HOST_DATA_AGENTS,
    ensures
        spec_host_data_packet(v, data, received) == (HostDataStoreView {
            agents: Some((spec_agent_packet_summary(data), received)),
            ..v
        }),
        spec_snapshot(spec_host_data_packet(v, data, received), now).agents == agent_feed_shown(data, received, now),
{
}

/// What the screen shows at `now` of an agent packet received at `received`.
pub open spec fn agent_feed_shown(data: Seq<u8>, received: u64, now: u64) -> Option<AgentSummary> {
    if crate::host_data::age(received, now) < HOST_FEED_TTL_MS {
        Some(AgentSummary { working: data[1], idle: data[2], blocked: data[3], done: data[4], unknown: data[5] })
    } else {
        None
    }
}

/// Only the six host data kinds are consumed, and a volume packet changes
/// nothing that is stored.
pub proof fn lemma_volume_packet_stores_nothing(v: HostDataStoreView, data: Seq<u8>, now: u64)
    requires
        data.len() == 32,
        data[0] == HOST_DATA_VOLUME || !is_host_data_kind(data[0]),
    ensures
        spec_host_data_packet(v, data, now) == v,
{
}

/// An unknown command is answered with `0xFF` in place of its command byte,
/// the rest of the report echoed, and nothing done.
pub proof fn lemma_unknown_command_refused(
    settings: ViaSettings,
    dims: KeymapDims,
    now: u64,
    out: Seq<u8>,
    input: Seq<u8>,
    answer: ViaAnswer,
)
    requires
        spec_via_command(out[0]) == ViaCommand::Unhandled,
    ensures
        spec_via_reply(settings, dims, now, out, input, answer) == input.update(0, VIA_UNHANDLED),
        spec_via_effect(dims, out, answer) == ViaEffectView::Nothing,
{
}

/// The protocol version and the configured firmware version read back from
/// their replies as they are.
pub proof fn lemma_versions_read_back(
    settings: ViaSettings,
    dims: KeymapDims,
    now: u64,
    out: Seq<u8>,
    input: Seq<u8>,
    answer: ViaAnswer,
)
    requires
        input.len() == 32,
    ensures
        spec_via_command(out[0]) == ViaCommand::GetProtocolVersion ==> get_u16_be(
            spec_via_reply(settings, dims, now, out, input, answer),
            1,
        ) == VIA_PROTOCOL_VERSION,
        spec_via_command(out[0]) == ViaCommand::GetKeyboardValue && spec_keyboard_info(out[1]) == Some(
            ViaKeyboardInfo::FirmwareVersion,
        ) ==> get_u32_be(spec_via_reply(settings, dims, now, out, input, answer), 2) == settings.firmware_version,
{
    crate::bytes::lemma_u16_be_round_trip(input, 1, VIA_PROTOCOL_VERSION);
    crate::bytes::lemma_u32_be_round_trip(input, 2, settings.firmware_version);
}

/// A macro chunk of at most 28 bytes is written to macro storage and answered
/// with the request's echo; a longer one is refused with `0xFF` and nothing is
/// written.
pub proof fn lemma_macro_chunk_limit(
    settings: ViaSettings,
    dims: KeymapDims,
    now: u64,
    out: Seq<u8>,
    input: Seq<u8>,
    answer: ViaAnswer,
)
    requires
        spec_via_command(out[0]) == ViaCommand::DynamicKeymapMacroSetBuffer,
    ensures
        (spec_via_effect(dims, out, answer) is WriteMacroBuffer) <==> out[3] <= MACRO_CHUNK_MAX,
        out[3] <= MACRO_CHUNK_MAX ==> spec_via_reply(settings, dims, now, out, input, answer) == input,
        out[3] > MACRO_CHUNK_MAX ==> spec_via_reply(settings, dims, now, out, input, answer) == input.update(
            0,
            VIA_UNHANDLED,
        ),
{
}

/// A keymap buffer write is echoed back unchanged and binds, from key
/// `offset / 2` on, the `out[3] / 2` keycodes in bytes 4.. (at most the 14 the
/// report holds).
pub proof fn lemma_set_buffer_applies_what_fits(
    settings: ViaSettings,
    dims: KeymapDims,
    now: u64,
    out: Seq<u8>,
    input: Seq<u8>,
    answer: ViaAnswer,
)
    requires
        spec_via_command(out[0]) == ViaCommand::DynamicKeymapSetBuffer,
    ensures
        spec_via_reply(settings, dims, now, out, input, answer) == input,
        spec_via_effect(dims, out, answer) == (ViaEffectView::SetKeycodes {
            offset: (get_u16_be(out, 1) / 2) as usize,
            keycodes: set_buffer_keycodes(out),
            rows: dims.rows,
            cols: dims.cols,
        }),
        set_buffer_keycodes(out).len() == out[3] / 2,
        !request_overruns_report(out) ==> set_buffer_keycodes(out).len() <= 14,
{
}

/// A well-formed native key action write whose payload decodes is accepted
/// (status OK) and binds the key to exactly that payload; a later read of the
/// same key, when the keyboard encodes its action as the same bytes, returns
/// them with status OK.
pub proof fn lemma_native_key_action_round_trip(dims: KeymapDims, set_out: Seq<u8>, get_out: Seq<u8>)
    requires
        set_out.len() == 32,
        get_out.len() == 32,
        spec_via_command(set_out[0]) == ViaCommand::CustomSetValue,
        set_out[1] == ERGOHAVEN_CUSTOM_NAMESPACE,
        set_out[2] == ERGOHAVEN_CUSTOM_NATIVE_KEY_ACTION,
        native_set_well_formed(set_out, dims),
        get_out[3] == ERGOHAVEN_NATIVE_KEY_ACTION_VERSION,
        get_out[4] == set_out[4],
        get_out[5] == set_out[5],
        get_out[6] == set_out[6],
    ensures
        ({
            let payload = native_set_payload(set_out);
            let get = native_get_reply(get_out, dims, Some(payload));
            &&& spec_via_effect(dims, set_out, ViaAnswer::PayloadDecodes(true)) == (ViaEffectView::SetNativeAction {
                layer: set_out[4],
                row: set_out[5],
                col: set_out[6],
                payload,
            })
            &&& native_set_reply(set_out, dims, true)[4] == NATIVE_KEY_ACTION_STATUS_OK
            &&& get[4] == NATIVE_KEY_ACTION_STATUS_OK
            &&& get[5] == payload.len()
            &&& get.subrange(6, 6 + payload.len() as int) == payload
        }),
{
    let payload = native_set_payload(set_out);
    let h = native_response_header(get_out[0], ERGOHAVEN_CUSTOM_NATIVE_KEY_ACTION);
    let get = put_payload(h, 6, payload);
    assert(payload.len() == set_out[7]);
    assert(get.subrange(6, 6 + payload.len() as int) =~= payload);
    assert(get[4] == h[4]);
}

/// In a battery halves reply each half's level byte is a percentage exactly
/// when its bit (1 left, 2 right) is set, and `0xFF` otherwise.
pub proof fn lemma_battery_halves_mask_matches_levels(
    input: Seq<u8>,
    settings: ViaSettings,
    batteries: (BatteryStatus, BatteryStatus, BatteryStatus),
)
    requires
        input.len() == 32,
    ensures
        ({
            let r = battery_halves_reply(input, settings, batteries);
            &&& r[3] == ERGOHAVEN_BATTERY_HALVES_VERSION
            &&& r[4] < 4
            &&& (r[4] % 2 == 1) <==> r[5] != 0xFF
            &&& (r[4] >= 2) <==> r[6] != 0xFF
            &&& r[5] <= 100 || r[5] == 0xFF
            &&& r[6] <= 100 || r[6] == 0xFF
        }),
{
}

} // verus!
