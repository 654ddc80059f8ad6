//! The split peripheral's side of finding, checking and remembering its
//! central: which central it accepts, how it advertises, how the product check
//! runs, and what the link's events lead to.

use vstd::prelude::*;

use trouble_host::advertise::AdStructure;

verus! {

/// Bluetooth company identifier carried in the split advertisement.
pub const SPLIT_COMPANY_ID: u16 = 0xe118;

/// AD flags of the undirected advertisement: LE general discoverable, BR/EDR
/// not supported.
pub const SPLIT_ADV_FLAGS: u8 = 0x06;

/// How long a directed reconnect to the saved central is tried.
pub const DIRECTED_ADVERTISE_MS: u64 = 10_000;

/// How long the first discoverable advertisement runs.
pub const DISCOVERABLE_ADVERTISE_MS: u64 = 10_000;

/// How long the second, last discoverable advertisement runs.
pub const DISCOVERABLE_RETRY_MS: u64 = 300_000;

/// Pause before advertising again after a refused central or a failure.
pub const REJECT_BACKOFF_MS: u64 = 500;

/// How long the central gets to send its product id.
pub const CENTRAL_CHECK_TIMEOUT_MS: u64 = 1_500;

/// Length of the undirected advertising data.
pub const SPLIT_ADV_DATA_LEN: usize = 28;

// ---------------------------------------------------------------------------
// Which central is accepted
// ---------------------------------------------------------------------------

/// A connecting central is accepted when no central is saved, when it is the
/// saved one, or when it came in through discoverable advertising, which is
/// how a new central is bound.
pub open spec fn address_allowed(saved: Option<[u8; 6]>, new: [u8; 6], allow_rebind: bool) -> bool {
    saved is None || saved.unwrap()@ == new@ || allow_rebind
}

fn same_address(a: &[u8; 6], b: &[u8; 6]) -> (same: bool)
    ensures
        same == (a@ == b@),
{
    let mut i: usize = 0;
    while i < 6
        invariant
            i <= 6,
            a@.len() == 6,
            b@.len() == 6,
            forall|j: int| 0 <= j < i ==> a@[j] == b@[j],
        decreases 6 - i,
    {
        if a[i] != b[i] {
            return false;
        }
        i = i + 1;
    }
    assert(a@ =~= b@);
    true
}

/// Whether a central that connected from `new_central_addr` is accepted.
pub fn split_central_address_allowed(
    saved_central_addr: Option<[u8; 6]>,
    new_central_addr: [u8; 6],
    allow_rebind: bool,
) -> (allowed: bool)
    ensures
        allowed == address_allowed(saved_central_addr, new_central_addr, allow_rebind),
{
    match saved_central_addr {
        None => true,
        Some(saved) => same_address(&saved, &new_central_addr) || allow_rebind,
    }
}

/// What storage held for the central.
#[derive(Clone, Copy, Debug)]
pub struct StoredPeer {
    pub is_valid: bool,
    pub address: [u8; 6],
}

/// What the peripheral remembers of its central.
#[derive(Clone, Copy, Debug)]
pub struct CentralBinding {
    /// The address is in storage.
    pub saved: bool,
    /// The central reconnects are directed to.
    pub addr: Option<[u8; 6]>,
}

pub open spec fn spec_binding_from_storage(stored: Option<StoredPeer>) -> CentralBinding {
    match stored {
        Some(peer) => if peer.is_valid {
            CentralBinding { saved: true, addr: Some(peer.address) }
        } else {
            CentralBinding { saved: false, addr: None }
        },
        None => CentralBinding { saved: false, addr: None },
    }
}

/// The address must be written when it is not in storage yet or differs from
/// the remembered one.
pub open spec fn spec_needs_save(binding: CentralBinding, new: [u8; 6]) -> bool {
    !binding.saved || !(binding.addr is Some && binding.addr.unwrap()@ == new@)
}

/// A successful write makes `new` the saved central; a failed one changes
/// nothing.
pub open spec fn spec_after_save(binding: CentralBinding, new: [u8; 6], write_ok: bool) -> CentralBinding {
    if write_ok {
        CentralBinding { saved: true, addr: Some(new) }
    } else {
        binding
    }
}

impl CentralBinding {
    /// The binding read back at start: only a valid stored entry counts.
    pub fn from_storage(stored: Option<StoredPeer>) -> (binding: CentralBinding)
        ensures
            binding == spec_binding_from_storage(stored),
    {
        match stored {
            Some(peer) => if peer.is_valid {
                CentralBinding { saved: true, addr: Some(peer.address) }
            } else {
                CentralBinding { saved: false, addr: None }
            },
            None => CentralBinding { saved: false, addr: None },
        }
    }

    /// Whether a central connecting from `new_addr` is accepted.
    pub fn accepts(&self, new_addr: [u8; 6], allow_rebind: bool) -> (ok: bool)
        ensures
            ok == address_allowed(self.addr, new_addr, allow_rebind),
    {
        split_central_address_allowed(self.addr, new_addr, allow_rebind)
    }

    /// Whether a validated central's address must be written to storage.
    pub fn needs_save(&self, new_addr: [u8; 6]) -> (save: bool)
        ensures
            save == spec_needs_save(*self, new_addr),
    {
        if !self.saved {
            return true;
        }
        match self.addr {
            Some(addr) => !same_address(&addr, &new_addr),
            None => true,
        }
    }

    /// Takes in the result of writing `new_addr` to storage.
    pub fn record_save(&mut self, new_addr: [u8; 6], write_ok: bool)
        ensures
            *final(self) == spec_after_save(*old(self), new_addr, write_ok),
    {
        if write_ok {
            self.saved = true;
            self.addr = Some(new_addr);
        }
    }
}

/// Once a central's address is saved, a directed reconnect from it is
/// accepted and its address is not written again.
pub proof fn lemma_saved_central_is_remembered(binding: CentralBinding, new: [u8; 6])
    ensures
        address_allowed(spec_after_save(binding, new, true).addr, new, false),
        !spec_needs_save(spec_after_save(binding, new, true), new),
{
}

/// During a directed reconnect, a saved central lets in exactly itself.
pub proof fn lemma_directed_reconnect_admits_only_saved(saved: [u8; 6], new: [u8; 6])
    ensures
        address_allowed(Some(saved), new, false) <==> saved@ == new@,
{
}

/// Through discoverable advertising, any central is let in.
pub proof fn lemma_discoverable_admits_any(saved: Option<[u8; 6]>, new: [u8; 6])
    ensures
        address_allowed(saved, new, true),
{
}

/// A failed write to storage leaves the binding as it was.
pub proof fn lemma_failed_save_changes_nothing(binding: CentralBinding, new: [u8; 6])
    ensures
        spec_after_save(binding, new, false) == binding,
{
}

// ---------------------------------------------------------------------------
// Advertising
// ---------------------------------------------------------------------------

/// The advertisements the peripheral runs, in order.
#[derive(Clone, Copy, Debug, PartialEq, Eq, Structural)]
pub enum AdvertisePhase {
    /// Directed at the saved central.
    Directed,
    /// Undirected, for any central.
    Discoverable,
    /// Undirected again, for longer; the last try.
    DiscoverableRetry,
}

/// How an advertisement ended.
#[derive(Clone, Copy, Debug, PartialEq, Eq, Structural)]
pub enum AdvertiseOutcome {
    /// A central connected.
    Connected,
    /// Nobody connected in time.
    TimedOut,
    /// The stack reported an error.
    Failed,
}

/// What follows an advertisement.
#[derive(Clone, Copy, Debug, PartialEq, Eq, Structural)]
pub enum AdvertiseStep {
    /// Run this advertisement next.
    Advertise(AdvertisePhase),
    /// A central connected; `allow_rebind` says it came in undirected.
    Connected { allow_rebind: bool },
    /// Give up until a key is pressed, then start over.
    WaitForKey,
    /// Start over after a short pause.
    Backoff(u64),
}

pub open spec fn spec_first_phase(central_addr: Option<[u8; 6]>) -> AdvertisePhase {
    if central_addr is Some {
        AdvertisePhase::Directed
    } else {
        AdvertisePhase::Discoverable
    }
}

pub open spec fn spec_phase_timeout(phase: AdvertisePhase) -> u64 {
    match phase {
        AdvertisePhase::Directed => DIRECTED_ADVERTISE_MS,
        AdvertisePhase::Discoverable => DISCOVERABLE_ADVERTISE_MS,
        AdvertisePhase::DiscoverableRetry => DISCOVERABLE_RETRY_MS,
    }
}

/// Directed first when a central is known; on a timeout, directed falls back
/// to discoverable and discoverable is tried once more before giving up.
pub open spec fn spec_advertise_step(phase: AdvertisePhase, outcome: AdvertiseOutcome) -> AdvertiseStep {
    match outcome {
        AdvertiseOutcome::Connected => AdvertiseStep::Connected {
            allow_rebind: phase != AdvertisePhase::Directed,
        },
        AdvertiseOutcome::TimedOut => match phase {
            AdvertisePhase::Directed => AdvertiseStep::Advertise(AdvertisePhase::Discoverable),
            AdvertisePhase::Discoverable => AdvertiseStep::Advertise(AdvertisePhase::DiscoverableRetry),
            AdvertisePhase::DiscoverableRetry => AdvertiseStep::WaitForKey,
        },
        AdvertiseOutcome::Failed => AdvertiseStep::Backoff(REJECT_BACKOFF_MS),
    }
}

/// The advertisement a round starts with.
pub fn first_advertise_phase(central_addr: Option<[u8; 6]>) -> (phase: AdvertisePhase)
    ensures
        phase == spec_first_phase(central_addr),
{
    match central_addr {
        Some(_) => AdvertisePhase::Directed,
        None => AdvertisePhase::Discoverable,
    }
}

/// How long an advertisement waits for a central.
pub fn advertise_timeout_ms(phase: AdvertisePhase) -> (ms: u64)
    ensures
        ms == spec_phase_timeout(phase),
{
    match phase {
        AdvertisePhase::Directed => DIRECTED_ADVERTISE_MS,
        AdvertisePhase::Discoverable => DISCOVERABLE_ADVERTISE_MS,
        AdvertisePhase::DiscoverableRetry => DISCOVERABLE_RETRY_MS,
    }
}

/// What follows an advertisement that ended with `outcome`.
pub fn advertise_step(phase: AdvertisePhase, outcome: AdvertiseOutcome) -> (step: AdvertiseStep)
    ensures
        step == spec_advertise_step(phase, outcome),
{
    match outcome {
        AdvertiseOutcome::Connected => AdvertiseStep::Connected {
            allow_rebind: match phase {
                AdvertisePhase::Directed => false,
                _ => true,
            },
        },
        AdvertiseOutcome::TimedOut => match phase {
            AdvertisePhase::Directed => AdvertiseStep::Advertise(AdvertisePhase::Discoverable),
            AdvertisePhase::Discoverable => AdvertiseStep::Advertise(AdvertisePhase::DiscoverableRetry),
            AdvertisePhase::DiscoverableRetry => AdvertiseStep::WaitForKey,
        },
        AdvertiseOutcome::Failed => AdvertiseStep::Backoff(REJECT_BACKOFF_MS),
    }
}

/// Nobody connecting never loops: from any advertisement, at most three
/// timeouts in a row lead to giving up.
pub proof fn lemma_timeouts_end_in_waiting(phase: AdvertisePhase)
    ensures
        ({
            let s1 = spec_advertise_step(phase, AdvertiseOutcome::TimedOut);
            ||| s1 == AdvertiseStep::WaitForKey
            ||| s1 matches AdvertiseStep::Advertise(p1) && ({
                let s2 = spec_advertise_step(p1, AdvertiseOutcome::TimedOut);
                ||| s2 == AdvertiseStep::WaitForKey
                ||| s2 matches AdvertiseStep::Advertise(p2)
                    && spec_advertise_step(p2, AdvertiseOutcome::TimedOut) == AdvertiseStep::WaitForKey
            })
        }),
{
}

/// Only a central that answered the directed advertisement comes in without
/// the right to rebind.
pub proof fn lemma_rebind_only_undirected(phase: AdvertisePhase)
    ensures
        spec_advertise_step(phase, AdvertiseOutcome::Connected) == (AdvertiseStep::Connected {
            allow_rebind: phase != AdvertisePhase::Directed,
        }),
{
}

// ---------------------------------------------------------------------------
// Advertising data
// ---------------------------------------------------------------------------

/// The split service's 128-bit UUID, least significant byte first.
pub open spec fn split_service_uuid() -> Seq<u8> {
    seq![70u8, 153u8, 101u8, 152u8, 54u8, 53u8, 10u8, 191u8, 7u8, 75u8, 229u8, 24u8, 170u8, 251u8, 213u8, 77u8]
}

/// Advertising data made of a flags structure, a complete list holding one
/// 128-bit service UUID, and manufacturer specific data: each structure is its
/// length, its type and its bytes, the company identifier little-endian.
pub open spec fn spec_ad_bytes(flags: u8, service: Seq<u8>, company: u16, payload: Seq<u8>) -> Seq<u8> {
    seq![2u8, 1u8, flags, 17u8, 7u8] + service + seq![
        (payload.len() + 3) as u8,
        0xffu8,
        (company % 256) as u8,
        (company / 256) as u8,
    ] + payload
}

/// The manufacturer payload: the split product id little-endian, then the
/// peripheral's id.
pub open spec fn spec_split_payload(product_id: u16, id: usize) -> Seq<u8> {
    seq![(product_id % 256) as u8, (product_id / 256) as u8, (id % 256) as u8]
}

pub open spec fn spec_split_adv_data(product_id: u16, id: usize) -> Seq<u8> {
    spec_ad_bytes(SPLIT_ADV_FLAGS, split_service_uuid(), SPLIT_COMPANY_ID, spec_split_payload(product_id, id))
}

#[verifier::external_type_specification]
#[verifier::external_body]
pub struct ExBleError(trouble_host::Error);

/// `trouble_host::advertise::AdStructure::encode_slice` on a flags structure,
/// a complete list of one 128-bit service UUID and manufacturer specific data.
/// It writes each structure as its length, its type and its bytes (the
/// company identifier little-endian) from the start of `dest`, and returns how
/// many bytes it wrote; it fails when they do not fit. What a failed call left
/// in `dest` is not stated.
#[verifier::external_body]
fn encode_ad_structures(
    flags: u8,
    service: &[u8; 16],
    company: u16,
    payload: &[u8],
    dest: &mut [u8; 31],
) -> (r: Result<usize, trouble_host::Error>)
    ensures
        (r is Ok) == (25 + payload@.len() <= 31),
        r matches Ok(n) ==> {
            &&& n == 25 + payload@.len()
            &&& final(dest)@.take(n as int) == spec_ad_bytes(flags, service@, company, payload@)
            &&& final(dest)@.skip(n as int) == old(dest)@.skip(n as int)
        },
{
    AdStructure::encode_slice(
        &[
            AdStructure::Flags(flags),
            AdStructure::CompleteServiceUuids128(core::slice::from_ref(service)),
            AdStructure::ManufacturerSpecificData { company_identifier: company, payload },
        ],
        dest,
    ).map_err(trouble_host::Error::from)
}

/// The undirected advertisement is 28 bytes: the flags structure (LE general
/// discoverable, no BR/EDR), the complete list of the split service's 128-bit
/// UUID, then manufacturer data under company 0xE118 (little-endian) holding
/// the split product id little-endian and the peripheral's id.
pub proof fn lemma_split_adv_data_bytes(product_id: u16, id: usize)
    ensures
        ({
            let d = spec_split_adv_data(product_id, id);
            &&& d.len() == 28
            &&& d.subrange(0, 5) == seq![2u8, 1u8, 0x06u8, 17u8, 7u8]
            &&& d.subrange(5, 21) == seq![70u8, 153u8, 101u8, 152u8, 54u8, 53u8, 10u8, 191u8, 7u8, 75u8, 229u8, 24u8, 170u8, 251u8, 213u8, 77u8]
            &&& d.subrange(21, 25) == seq![6u8, 0xffu8, 0x18u8, 0xe1u8]
            &&& d[25] as int + d[26] as int * 256 == product_id as int
            &&& d[27] == id % 256
        }),
{
    let d = spec_split_adv_data(product_id, id);
    assert(d.subrange(0, 5) =~= seq![2u8, 1u8, 0x06u8, 17u8, 7u8]);
    assert(d.subrange(5, 21) =~= split_service_uuid());
    assert(d.subrange(21, 25) =~= seq![6u8, 0xffu8, 0x18u8, 0xe1u8]);
}

/// Writes the undirected advertisement's data for peripheral `id` into the
/// front of `data` and returns its length.
pub fn split_advertising_data(product_id: u16, id: usize, data: &mut [u8; 31]) -> (len: usize)
    ensures
        len == SPLIT_ADV_DATA_LEN,
        final(data)@.take(len as int) == spec_split_adv_data(product_id, id),
        final(data)@.skip(len as int) == old(data)@.skip(len as int),
{
    let service: [u8; 16] = [70, 153, 101, 152, 54, 53, 10, 191, 7, 75, 229, 24, 170, 251, 213, 77];
    let payload: [u8; 3] = [(product_id & 0xff) as u8, (product_id >> 8) as u8, (id % 256) as u8];
    proof {
        assert((product_id & 0xff) == product_id % 256) by (bit_vector);
        assert((product_id >> 8) == product_id / 256) by (bit_vector);
        assert(service@ =~= split_service_uuid());
        assert(payload@ =~= spec_split_payload(product_id, id));
    }
    match encode_ad_structures(SPLIT_ADV_FLAGS, &service, SPLIT_COMPANY_ID, payload.as_slice(), data) {
        Ok(n) => n,
        Err(_) => {
            assert(false);
            SPLIT_ADV_DATA_LEN
        },
    }
}

// ---------------------------------------------------------------------------
// Product check
// ---------------------------------------------------------------------------

/// What the read of the central's first message gave.
#[derive(Clone, Copy, Debug, PartialEq, Eq, Structural)]
pub enum CentralRead {
    /// A product id message.
    ProductId(u16),
    /// Some other split message.
    OtherMessage,
    /// The read failed.
    ReadFailed,
    /// Nothing came within the check's time.
    TimedOut,
}

/// Where the product check stands.
#[derive(Clone, Copy, Debug, PartialEq, Eq, Structural)]
pub enum CentralCheck {
    AwaitProductId,
    /// The product id matched; our own is being sent back.
    ReplyPending,
    Accepted,
    Rejected,
}

/// What the check is told.
#[derive(Clone, Copy, Debug, PartialEq, Eq, Structural)]
pub enum CentralCheckEvent {
    Read(CentralRead),
    /// Whether writing our product id back succeeded.
    ReplyWritten(bool),
}

/// What the caller does next.
#[derive(Clone, Copy, Debug, PartialEq, Eq, Structural)]
pub enum CentralCheckAction {
    /// Nothing; the event did not fit the check's state.
    Wait,
    /// Send this product id to the central.
    SendProductId(u16),
    /// The check is over: the central is accepted or not.
    Done(bool),
}

/// The central must first send the expected product id; it is accepted once
/// the same id has been written back to it. Anything else rejects it.
pub open spec fn spec_central_check_step(state: CentralCheck, event: CentralCheckEvent, expected: u16) -> (
    CentralCheck,
    CentralCheckAction,
) {
    match (state, event) {
        (CentralCheck::AwaitProductId, CentralCheckEvent::Read(read)) => match read {
            CentralRead::ProductId(id) => if id == expected {
                (CentralCheck::ReplyPending, CentralCheckAction::SendProductId(expected))
            } else {
                (CentralCheck::Rejected, CentralCheckAction::Done(false))
            },
            _ => (CentralCheck::Rejected, CentralCheckAction::Done(false)),
        },
        (CentralCheck::ReplyPending, CentralCheckEvent::ReplyWritten(ok)) => (
            if ok {
                CentralCheck::Accepted
            } else {
                CentralCheck::Rejected
            },
            CentralCheckAction::Done(ok),
        ),
        _ => (state, CentralCheckAction::Wait),
    }
}

/// One step of the product check.
pub fn central_check_step(state: CentralCheck, event: CentralCheckEvent, expected: u16) -> (next: (
    CentralCheck,
    CentralCheckAction,
))
    ensures
        next == spec_central_check_step(state, event, expected),
{
    match (state, event) {
        (CentralCheck::AwaitProductId, CentralCheckEvent::Read(read)) => match read {
            CentralRead::ProductId(id) => if id == expected {
                (CentralCheck::ReplyPending, CentralCheckAction::SendProductId(expected))
            } else {
                (CentralCheck::Rejected, CentralCheckAction::Done(false))
            },
            _ => (CentralCheck::Rejected, CentralCheckAction::Done(false)),
        },
        (CentralCheck::ReplyPending, CentralCheckEvent::ReplyWritten(ok)) => (
            if ok {
                CentralCheck::Accepted
            } else {
                CentralCheck::Rejected
            },
            CentralCheckAction::Done(ok),
        ),
        _ => (state, CentralCheckAction::Wait),
    }
}

/// A central is accepted only from a pending reply that was written, and a
/// reply is only pending after the expected product id was read.
pub proof fn lemma_acceptance_needs_matching_product(state: CentralCheck, event: CentralCheckEvent, expected: u16)
    ensures
        ({
            let (next, _) = spec_central_check_step(state, event, expected);
            &&& (next == CentralCheck::Accepted && state != CentralCheck::Accepted) ==> (state
                == CentralCheck::ReplyPending && event == CentralCheckEvent::ReplyWritten(true))
            &&& (next == CentralCheck::ReplyPending && state != CentralCheck::ReplyPending) ==> event
                == CentralCheckEvent::Read(CentralRead::ProductId(expected))
        }),
{
}

/// A finished check stays finished.
pub proof fn lemma_check_outcome_is_final(state: CentralCheck, event: CentralCheckEvent, expected: u16)
    requires
        state == CentralCheck::Accepted || state == CentralCheck::Rejected,
    ensures
        spec_central_check_step(state, event, expected) == (state, CentralCheckAction::Wait),
{
}

// ---------------------------------------------------------------------------
// The connection loop
// ---------------------------------------------------------------------------

/// Where the peripheral's connection loop stands.
#[derive(Clone, Copy, Debug, PartialEq, Eq)]
pub enum LinkState {
    /// Advertising in this phase.
    Advertising(AdvertisePhase),
    /// Connected to `addr`, which came in through discoverable advertising
    /// when `allow_rebind`; the product check runs.
    Checking { addr: [u8; 6], check: CentralCheck, allow_rebind: bool },
    /// `addr` passed the check; its address is being written to storage.
    Saving { addr: [u8; 6] },
    /// Exchanging split messages with the central.
    Running,
    /// Gave up advertising until a key is pressed.
    Idle,
    /// Pausing before advertising again.
    Paused,
}

/// What the loop is told.
#[derive(Clone, Copy, Debug, PartialEq, Eq)]
pub enum LinkEvent {
    /// An advertisement ended; `peer` is the connected central's address.
    AdvertiseEnded { outcome: AdvertiseOutcome, peer: [u8; 6] },
    /// A step of the product check.
    Check(CentralCheckEvent),
    /// Whether writing the central's address to storage succeeded.
    Saved(bool),
    /// The central went away.
    Disconnected,
    KeyPressed,
    PauseOver,
}

/// What the caller does next.
#[derive(Clone, Copy, Debug, PartialEq, Eq)]
pub enum LinkAction {
    /// Advertise, directed at `directed_to` when there is one, for
    /// `timeout_ms`. A `new_round` first resets the connection status and
    /// reports the central as disconnected.
    Advertise { phase: AdvertisePhase, directed_to: Option<[u8; 6]>, timeout_ms: u64, new_round: bool },
    /// Drop the connection, then pause for `pause_ms`.
    Reject { pause_ms: u64 },
    /// Read the central's first message within `timeout_ms`.
    ReadProductId { timeout_ms: u64 },
    /// Send our product id to the central.
    SendProductId(u16),
    /// Report the central as connected and write `addr` to storage.
    Save { addr: [u8; 6] },
    /// Run the split link; `announce` first reports the central as connected
    /// (it is already reported when its address was saved).
    Run { announce: bool },
    /// Wait for a key press.
    WaitForKey,
    /// Pause for `ms`.
    Pause { ms: u64 },
    /// Nothing: the event does not fit the state.
    Nothing,
}

/// The peripheral's side of the connection to its central.
#[derive(Clone, Copy, Debug)]
pub struct PeripheralLink {
    pub binding: CentralBinding,
    pub state: LinkState,
    /// The split product id both sides must share.
    pub product_id: u16,
}

/// A new round: advertise, first directed at the saved central if any.
pub open spec fn spec_new_round(link: PeripheralLink) -> (PeripheralLink, LinkAction) {
    let phase = spec_first_phase(link.binding.addr);
    (
        PeripheralLink { state: LinkState::Advertising(phase), ..link },
        LinkAction::Advertise {
            phase,
            directed_to: link.binding.addr,
            timeout_ms: spec_phase_timeout(phase),
            new_round: true,
        },
    )
}

pub open spec fn spec_after_check(link: PeripheralLink, addr: [u8; 6], accepted: bool) -> (PeripheralLink, LinkAction) {
    if !accepted {
        (PeripheralLink { state: LinkState::Paused, ..link }, LinkAction::Reject { pause_ms: REJECT_BACKOFF_MS })
    } else if spec_needs_save(link.binding, addr) {
        (PeripheralLink { state: LinkState::Saving { addr }, ..link }, LinkAction::Save { addr })
    } else {
        (PeripheralLink { state: LinkState::Running, ..link }, LinkAction::Run { announce: true })
    }
}

/// One step of the connection loop. A connecting central must be one the
/// binding admits and must pass the product check; its address is saved when
/// new; a disconnection, a key press after giving up, or the end of a pause
/// starts a new round.
pub open spec fn spec_link_step(link: PeripheralLink, event: LinkEvent) -> (PeripheralLink, LinkAction) {
    match (link.state, event) {
        (LinkState::Advertising(phase), LinkEvent::AdvertiseEnded { outcome, peer }) => {
            match spec_advertise_step(phase, outcome) {
                AdvertiseStep::Advertise(next) => (
                    PeripheralLink { state: LinkState::Advertising(next), ..link },
                    LinkAction::Advertise {
                        phase: next,
                        directed_to: None,
                        timeout_ms: spec_phase_timeout(next),
                        new_round: false,
                    },
                ),
                AdvertiseStep::Connected { allow_rebind } => if address_allowed(link.binding.addr, peer, allow_rebind) {
                    (
                        PeripheralLink {
                            state: LinkState::Checking {
                                addr: peer,
                                check: CentralCheck::AwaitProductId,
                                allow_rebind,
                            },
                            ..link
                        },
                        LinkAction::ReadProductId { timeout_ms: CENTRAL_CHECK_TIMEOUT_MS },
                    )
                } else {
                    (PeripheralLink { state: LinkState::Paused, ..link }, LinkAction::Reject { pause_ms: REJECT_BACKOFF_MS })
                },
                AdvertiseStep::WaitForKey => (PeripheralLink { state: LinkState::Idle, ..link }, LinkAction::WaitForKey),
                AdvertiseStep::Backoff(ms) => (PeripheralLink { state: LinkState::Paused, ..link }, LinkAction::Pause { ms }),
            }
        },
        (LinkState::Checking { addr, check, allow_rebind }, LinkEvent::Check(ev)) => {
            let (next, action) = spec_central_check_step(check, ev, link.product_id);
            match action {
                CentralCheckAction::SendProductId(id) => (
                    PeripheralLink { state: LinkState::Checking { addr, check: next, allow_rebind }, ..link },
                    LinkAction::SendProductId(id),
                ),
                CentralCheckAction::Done(ok) => spec_after_check(link, addr, ok),
                CentralCheckAction::Wait => (link, LinkAction::Nothing),
            }
        },
        (LinkState::Saving { addr }, LinkEvent::Saved(ok)) => (
            PeripheralLink { binding: spec_after_save(link.binding, addr, ok), state: LinkState::Running, ..link },
            LinkAction::Run { announce: false },
        ),
        (LinkState::Running, LinkEvent::Disconnected) => spec_new_round(link),
        (LinkState::Idle, LinkEvent::KeyPressed) => spec_new_round(link),
        (LinkState::Paused, LinkEvent::PauseOver) => spec_new_round(link),
        _ => (link, LinkAction::Nothing),
    }
}

impl PeripheralLink {
    /// A link that has not started, remembering what storage held.
    pub fn new(stored: Option<StoredPeer>, product_id: u16) -> (link: PeripheralLink)
        ensures
            link.binding == spec_binding_from_storage(stored),
            link.state == LinkState::Paused,
            link.product_id == product_id,
    {
        PeripheralLink { binding: CentralBinding::from_storage(stored), state: LinkState::Paused, product_id }
    }

    /// Starts a round of advertising.
    pub fn start(&mut self) -> (action: LinkAction)
        ensures
            (*final(self), action) == spec_new_round(*old(self)),
    {
        let phase = first_advertise_phase(self.binding.addr);
        self.state = LinkState::Advertising(phase);
        LinkAction::Advertise {
            phase,
            directed_to: self.binding.addr,
            timeout_ms: advertise_timeout_ms(phase),
            new_round: true,
        }
    }

    fn after_check(&mut self, addr: [u8; 6], accepted: bool) -> (action: LinkAction)
        ensures
            (*final(self), action) == spec_after_check(*old(self), addr, accepted),
    {
        if !accepted {
            self.state = LinkState::Paused;
            LinkAction::Reject { pause_ms: REJECT_BACKOFF_MS }
        } else if self.binding.needs_save(addr) {
            self.state = LinkState::Saving { addr };
            LinkAction::Save { addr }
        } else {
            self.state = LinkState::Running;
            LinkAction::Run { announce: true }
        }
    }

    /// Takes in an event and says what to do next.
    pub fn step(&mut self, event: LinkEvent) -> (action: LinkAction)
        ensures
            (*final(self), action) == spec_link_step(*old(self), event),
    {
        match (self.state, event) {
            (LinkState::Advertising(phase), LinkEvent::AdvertiseEnded { outcome, peer }) => {
                match advertise_step(phase, outcome) {
                    AdvertiseStep::Advertise(next) => {
                        self.state = LinkState::Advertising(next);
                        LinkAction::Advertise {
                            phase: next,
                            directed_to: None,
                            timeout_ms: advertise_timeout_ms(next),
                            new_round: false,
                        }
                    },
                    AdvertiseStep::Connected { allow_rebind } => if self.binding.accepts(peer, allow_rebind) {
                        self.state = LinkState::Checking {
                            addr: peer,
                            check: CentralCheck::AwaitProductId,
                            allow_rebind,
                        };
                        LinkAction::ReadProductId { timeout_ms: CENTRAL_CHECK_TIMEOUT_MS }
                    } else {
                        self.state = LinkState::Paused;
                        LinkAction::Reject { pause_ms: REJECT_BACKOFF_MS }
                    },
                    AdvertiseStep::WaitForKey => {
                        self.state = LinkState::Idle;
                        LinkAction::WaitForKey
                    },
                    AdvertiseStep::Backoff(ms) => {
                        self.state = LinkState::Paused;
                        LinkAction::Pause { ms }
                    },
                }
            },
            (LinkState::Checking { addr, check, allow_rebind }, LinkEvent::Check(ev)) => {
                let (next, action) = central_check_step(check, ev, self.product_id);
                match action {
                    CentralCheckAction::SendProductId(id) => {
                        self.state = LinkState::Checking { addr, check: next, allow_rebind };
                        LinkAction::SendProductId(id)
                    },
                    CentralCheckAction::Done(ok) => self.after_check(addr, ok),
                    CentralCheckAction::Wait => LinkAction::Nothing,
                }
            },
            (LinkState::Saving { addr }, LinkEvent::Saved(ok)) => {
                self.binding.record_save(addr, ok);
                self.state = LinkState::Running;
                LinkAction::Run { announce: false }
            },
            (LinkState::Running, LinkEvent::Disconnected) => self.start(),
            (LinkState::Idle, LinkEvent::KeyPressed) => self.start(),
            (LinkState::Paused, LinkEvent::PauseOver) => self.start(),
            _ => LinkAction::Nothing,
        }
    }
}

/// The split link only runs with a central that passed the product check:
/// entering `Running` is the end of an accepted check or of the address save
/// that follows one.
pub proof fn lemma_running_needs_accepted_central(link: PeripheralLink, event: LinkEvent)
    ensures
        ({
            let (next, _) = spec_link_step(link, event);
            next.state == LinkState::Running && link.state != LinkState::Running ==> {
                ||| link.state is Saving
                ||| link.state is Checking && link.state->Checking_check == CentralCheck::ReplyPending && event
                    == LinkEvent::Check(CentralCheckEvent::ReplyWritten(true))
            }
        }),
{
}

/// A check can only start for a central the binding admits; during a
/// directed reconnect that is the saved central alone.
pub proof fn lemma_checks_only_admitted_centrals(link: PeripheralLink, event: LinkEvent)
    ensures
        ({
            let (next, _) = spec_link_step(link, event);
            let addr = next.state->Checking_addr;
            next.state is Checking && !(link.state is Checking) ==> {
                &&& link.state is Advertising
                &&& address_allowed(link.binding.addr, addr, link.state->Advertising_0 != AdvertisePhase::Directed)
                &&& link.state == LinkState::Advertising(AdvertisePhase::Directed) && link.binding.addr is Some
                    ==> link.binding.addr.unwrap()@ == addr@
            }
        }),
{
}

/// The remembered central changes only through a successful write of the
/// address of a central that passed the check.
pub proof fn lemma_binding_changes_only_by_save(link: PeripheralLink, event: LinkEvent)
    ensures
        ({
            let (next, _) = spec_link_step(link, event);
            next.binding != link.binding ==> {
                &&& link.state is Saving
                &&& event == LinkEvent::Saved(true)
                &&& next.binding == (CentralBinding { saved: true, addr: Some(link.state->Saving_addr) })
            }
        }),
{
}

// ---------------------------------------------------------------------------
// Whole runs of the connection loop
// ---------------------------------------------------------------------------

/// The link after taking in `events` in order.
pub open spec fn link_after(link: PeripheralLink, events: Seq<LinkEvent>) -> PeripheralLink
    decreases events.len(),
{
    if events.len() == 0 {
        link
    } else {
        spec_link_step(link_after(link, events.drop_last()), events.last()).0
    }
}

/// The link just before event `i` of a run.
pub open spec fn link_at(link: PeripheralLink, events: Seq<LinkEvent>, i: int) -> PeripheralLink {
    link_after(link, events.take(i))
}

/// What the loop does on event `i` of a run.
pub open spec fn action_at(link: PeripheralLink, events: Seq<LinkEvent>, i: int) -> LinkAction {
    spec_link_step(link_at(link, events, i), events[i]).1
}

/// Event `i` of a run is where the central is reported as connected: the
/// product check ends with the address saved next or the link run at once.
pub open spec fn reports_connected(link: PeripheralLink, events: Seq<LinkEvent>, i: int) -> bool {
    action_at(link, events, i) is Save || action_at(link, events, i) == (LinkAction::Run { announce: true })
}

/// A run starts outside a connection (as [`PeripheralLink::new`] leaves it).
pub open spec fn link_at_rest(link: PeripheralLink) -> bool {
    !(link.state is Checking) && !(link.state is Saving)
}

/// At event `j` of a run, a central at `addr` connected and the binding let it
/// in, with `allow_rebind` as the advertisement gave it.
pub open spec fn admitted_at(link: PeripheralLink, events: Seq<LinkEvent>, j: int, addr: [u8; 6], allow_rebind: bool) -> bool {
    let at = link_at(link, events, j);
    &&& at.state is Advertising
    &&& allow_rebind == (at.state->Advertising_0 != AdvertisePhase::Directed)
    &&& events[j] == (LinkEvent::AdvertiseEnded { outcome: AdvertiseOutcome::Connected, peer: addr })
    &&& address_allowed(at.binding.addr, addr, allow_rebind)
}

proof fn lemma_link_at_next(link: PeripheralLink, events: Seq<LinkEvent>, i: int)
    requires
        0 <= i < events.len(),
    ensures
        link_at(link, events, i + 1) == spec_link_step(link_at(link, events, i), events[i]).0,
{
    assert(events.take(i + 1).drop_last() =~= events.take(i));
    assert(events.take(i + 1).last() == events[i]);
}

/// The product id never changes along a run.
proof fn lemma_product_id_kept(link: PeripheralLink, events: Seq<LinkEvent>, i: int)
    requires
        0 <= i <= events.len(),
    ensures
        link_at(link, events, i).product_id == link.product_id,
    decreases i,
{
    if i == 0 {
        assert(events.take(0) =~= Seq::<LinkEvent>::empty());
    } else {
        lemma_product_id_kept(link, events, i - 1);
        lemma_link_at_next(link, events, i - 1);
    }
}

/// A product check under way is for a central that was let in earlier.
proof fn lemma_checking_was_admitted(link: PeripheralLink, events: Seq<LinkEvent>, i: int)
    requires
        0 <= i <= events.len(),
        link_at_rest(link),
    ensures
        link_at(link, events, i).state is Checking ==> exists|j: int|
            0 <= j < i && #[trigger] admitted_at(
                link,
                events,
                j,
                link_at(link, events, i).state->Checking_addr,
                link_at(link, events, i).state->Checking_allow_rebind,
            ),
    decreases i,
{
    if i == 0 {
        assert(events.take(0) =~= Seq::<LinkEvent>::empty());
    } else {
        lemma_checking_was_admitted(link, events, i - 1);
        lemma_link_at_next(link, events, i - 1);
        let prev = link_at(link, events, i - 1);
        let next = link_at(link, events, i);
        if next.state is Checking {
            if prev.state is Checking {
                assert(next.state->Checking_addr == prev.state->Checking_addr);
                assert(next.state->Checking_allow_rebind == prev.state->Checking_allow_rebind);
                let j = choose|j: int|
                    0 <= j < i - 1 && #[trigger] admitted_at(
                        link,
                        events,
                        j,
                        prev.state->Checking_addr,
                        prev.state->Checking_allow_rebind,
                    );
                assert(admitted_at(link, events, j, next.state->Checking_addr, next.state->Checking_allow_rebind));
            } else {
                assert(admitted_at(link, events, i - 1, next.state->Checking_addr, next.state->Checking_allow_rebind));
            }
        }
    }
}

/// A pending reply follows a read of the expected product id from the same
/// central.
proof fn lemma_reply_follows_matching_read(link: PeripheralLink, events: Seq<LinkEvent>, i: int)
    requires
        0 <= i <= events.len(),
        link_at_rest(link),
    ensures
        ({
            let at = link_at(link, events, i);
            at.state is Checking && at.state->Checking_check == CentralCheck::ReplyPending ==> exists|k: int|
                0 <= k < i && #[trigger] link_at(link, events, k).state == (LinkState::Checking {
                    addr: at.state->Checking_addr,
                    check: CentralCheck::AwaitProductId,
                    allow_rebind: at.state->Checking_allow_rebind,
                }) && events[k] == LinkEvent::Check(CentralCheckEvent::Read(CentralRead::ProductId(link.product_id)))
        }),
    decreases i,
{
    if i == 0 {
        assert(events.take(0) =~= Seq::<LinkEvent>::empty());
    } else {
        lemma_reply_follows_matching_read(link, events, i - 1);
        lemma_link_at_next(link, events, i - 1);
        lemma_product_id_kept(link, events, i - 1);
    }
}

/// The link runs with a central only once it was let in by the binding and
/// passed the product check: wherever a run reports the central as connected,
/// that central connected earlier and was admitted (during a directed
/// reconnect, only the saved central is), then sent the expected product id,
/// and now took our reply.
pub proof fn lemma_connected_only_after_both_checks(link: PeripheralLink, events: Seq<LinkEvent>, i: int)
    requires
        link_at_rest(link),
        0 <= i < events.len(),
        reports_connected(link, events, i),
    ensures
        ({
            let at = link_at(link, events, i);
            let addr = at.state->Checking_addr;
            let rebind = at.state->Checking_allow_rebind;
            &&& at.state == (LinkState::Checking { addr, check: CentralCheck::ReplyPending, allow_rebind: rebind })
            &&& events[i] == LinkEvent::Check(CentralCheckEvent::ReplyWritten(true))
            &&& exists|k: int|
                0 <= k < i && #[trigger] link_at(link, events, k).state == (LinkState::Checking {
                    addr,
                    check: CentralCheck::AwaitProductId,
                    allow_rebind: rebind,
                }) && events[k] == LinkEvent::Check(CentralCheckEvent::Read(CentralRead::ProductId(link.product_id)))
            &&& exists|j: int| 0 <= j < i && #[trigger] admitted_at(link, events, j, addr, rebind)
        }),
{
    lemma_checking_was_admitted(link, events, i);
    lemma_reply_follows_matching_read(link, events, i);
}

/// Saving is under way only after the loop asked for that very address to be
/// written.
proof fn lemma_saving_follows_save(link: PeripheralLink, events: Seq<LinkEvent>, i: int)
    requires
        0 <= i <= events.len(),
        link_at_rest(link),
    ensures
        link_at(link, events, i).state is Saving ==> exists|j: int|
            0 <= j < i && #[trigger] action_at(link, events, j) == (LinkAction::Save {
                addr: link_at(link, events, i).state->Saving_addr,
            }),
    decreases i,
{
    if i == 0 {
        assert(events.take(0) =~= Seq::<LinkEvent>::empty());
    } else {
        lemma_saving_follows_save(link, events, i - 1);
        lemma_link_at_next(link, events, i - 1);
        let prev = link_at(link, events, i - 1);
        let next = link_at(link, events, i);
        if next.state is Saving && !(prev.state is Saving) {
            assert(action_at(link, events, i - 1) == (LinkAction::Save { addr: next.state->Saving_addr }));
        }
    }
}

/// The central's address is written to storage only for a central reported
/// as connected (so admitted and product-checked, see
/// [`lemma_connected_only_after_both_checks`]) and only when it is not the
/// remembered one; the remembered central changes only when that write
/// succeeds, and then becomes that address.
pub proof fn lemma_address_saved_only_after_checks(link: PeripheralLink, events: Seq<LinkEvent>, i: int)
    requires
        link_at_rest(link),
        0 <= i < events.len(),
    ensures
        action_at(link, events, i) is Save ==> {
            &&& reports_connected(link, events, i)
            &&& spec_needs_save(link_at(link, events, i).binding, action_at(link, events, i)->Save_addr)
        },
        link_at(link, events, i + 1).binding != link_at(link, events, i).binding ==> {
            let addr = link_at(link, events, i).state->Saving_addr;
            &&& link_at(link, events, i).state is Saving
            &&& events[i] == LinkEvent::Saved(true)
            &&& link_at(link, events, i + 1).binding == (CentralBinding { saved: true, addr: Some(addr) })
            &&& exists|j: int| 0 <= j < i && #[trigger] action_at(link, events, j) == (LinkAction::Save { addr })
        },
{
    lemma_link_at_next(link, events, i);
    lemma_saving_follows_save(link, events, i);
}

/// Every advertisement that starts a round reports the central as
/// disconnected first, and only those do: an `Advertise` action is a new round
/// exactly when the link was not advertising already, and the link only
/// starts advertising through one.
pub proof fn lemma_new_round_reports_disconnected(link: PeripheralLink, event: LinkEvent)
    ensures
        spec_new_round(link).1 is Advertise && spec_new_round(link).1->new_round,
        ({
            let (next, action) = spec_link_step(link, event);
            &&& action is Advertise ==> (action->new_round <==> !(link.state is Advertising))
            &&& next.state is Advertising && !(link.state is Advertising) ==> action is Advertise
                && action->new_round
        }),
{
}

/// The connection status an action reports before it is carried out, if
/// any: a new round reports the central disconnected; saving a checked
/// central's address, or running with one whose address is already saved,
/// reports it connected.
pub open spec fn spec_status_report(action: LinkAction) -> Option<bool> {
    match action {
        LinkAction::Advertise { new_round, .. } => if new_round {
            Some(false)
        } else {
            None
        },
        LinkAction::Save { .. } => Some(true),
        LinkAction::Run { announce } => if announce {
            Some(true)
        } else {
            None
        },
        _ => None,
    }
}

/// The connection status to report before carrying out `action`, if any.
pub fn status_report(action: LinkAction) -> (report: Option<bool>)
    ensures
        report == spec_status_report(action),
{
    match action {
        LinkAction::Advertise { new_round, .. } => if new_round {
            Some(false)
        } else {
            None
        },
        LinkAction::Save { .. } => Some(true),
        LinkAction::Run { announce } => if announce {
            Some(true)
        } else {
            None
        },
        _ => None,
    }
}

/// An action reports the central connected exactly where a run's
/// [`reports_connected`] says so.
pub proof fn lemma_status_report_connected(link: PeripheralLink, events: Seq<LinkEvent>, i: int)
    ensures
        spec_status_report(action_at(link, events, i)) == Some(true) <==> reports_connected(link, events, i),
{
}

/// A run starts with the link not connected to a central (as
/// [`PeripheralLink::new`] leaves it) and the central reported disconnected.
pub open spec fn link_disconnected(link: PeripheralLink) -> bool {
    !(link.state is Checking) && !(link.state is Saving) && !(link.state is Running)
}

/// The connection status a run has reported before event `i`: a run starts
/// having reported the central disconnected; a new round reports it
/// disconnected, a central that passed its checks connected.
pub open spec fn shown_connected(link: PeripheralLink, events: Seq<LinkEvent>, i: int) -> bool
    decreases i,
{
    if i <= 0 {
        false
    } else {
        match spec_status_report(action_at(link, events, i - 1)) {
            Some(connected) => connected,
            None => shown_connected(link, events, i - 1),
        }
    }
}

/// Along a run, the reported connection status is exactly whether the link is
/// with a central that passed its checks (its address being saved, or the
/// split link running); in particular the central is reported disconnected
/// whenever the peripheral advertises.
pub proof fn lemma_reported_status_matches_link(link: PeripheralLink, events: Seq<LinkEvent>, i: int)
    requires
        link_disconnected(link),
        0 <= i <= events.len(),
    ensures
        shown_connected(link, events, i) == (link_at(link, events, i).state is Saving || link_at(
            link,
            events,
            i,
        ).state is Running),
        link_at(link, events, i).state is Advertising ==> !shown_connected(link, events, i),
    decreases i,
{
    if i == 0 {
        assert(events.take(0) =~= Seq::<LinkEvent>::empty());
    } else {
        lemma_reported_status_matches_link(link, events, i - 1);
        lemma_link_at_next(link, events, i - 1);
    }
}

/// The split link runs only with a central reported connected: a `Run`
/// action is that report itself, or follows the save of that same central's
/// address, which was one.
pub proof fn lemma_run_only_after_connected_report(link: PeripheralLink, events: Seq<LinkEvent>, i: int)
    requires
        link_at_rest(link),
        0 <= i < events.len(),
    ensures
        action_at(link, events, i) is Run ==> {
            ||| reports_connected(link, events, i)
            ||| {
                let addr = link_at(link, events, i).state->Saving_addr;
                &&& link_at(link, events, i).state is Saving
                &&& exists|j: int|
                    0 <= j < i && #[trigger] action_at(link, events, j) == (LinkAction::Save { addr })
                        && reports_connected(link, events, j)
            }
        },
{
    lemma_saving_follows_save(link, events, i);
}

// ---------------------------------------------------------------------------
// The link to the central
// ---------------------------------------------------------------------------

/// An event of the connection to the central.
#[derive(Clone, Copy, Debug, PartialEq, Eq, Structural)]
pub enum SplitLinkEvent {
    Disconnected,
    /// The central read an attribute.
    GattRead,
    /// The central wrote attribute `handle`; `parsed` says the bytes decoded
    /// as a split message.
    GattWrite { handle: u16, parsed: bool },
    /// Another attribute protocol event.
    GattOther,
    /// Anything else (parameter or PHY updates).
    Other,
}

/// What the reader does with a link event.
#[derive(Clone, Copy, Debug, PartialEq, Eq, Structural)]
pub enum SplitLinkAction {
    /// Reset the connection status and report the disconnection.
    Disconnect,
    /// Hand the decoded message to the caller.
    Deliver,
    /// Accept the attribute event, send its response, read on.
    Respond,
    /// Read on.
    Ignore,
}

pub open spec fn spec_split_link_action(event: SplitLinkEvent, peripheral_handle: u16) -> SplitLinkAction {
    match event {
        SplitLinkEvent::Disconnected => SplitLinkAction::Disconnect,
        SplitLinkEvent::GattWrite { handle, parsed } => if handle == peripheral_handle && parsed {
            SplitLinkAction::Deliver
        } else {
            SplitLinkAction::Respond
        },
        SplitLinkEvent::GattRead | SplitLinkEvent::GattOther => SplitLinkAction::Respond,
        SplitLinkEvent::Other => SplitLinkAction::Ignore,
    }
}

/// A message is delivered only when written to the peripheral's own
/// characteristic and decoded; other attribute events are answered.
pub fn split_link_action(event: SplitLinkEvent, peripheral_handle: u16) -> (action: SplitLinkAction)
    ensures
        action == spec_split_link_action(event, peripheral_handle),
{
    match event {
        SplitLinkEvent::Disconnected => SplitLinkAction::Disconnect,
        SplitLinkEvent::GattWrite { handle, parsed } => if handle == peripheral_handle && parsed {
            SplitLinkAction::Deliver
        } else {
            SplitLinkAction::Respond
        },
        SplitLinkEvent::GattRead | SplitLinkEvent::GattOther => SplitLinkAction::Respond,
        SplitLinkEvent::Other => SplitLinkAction::Ignore,
    }
}

} // verus!
