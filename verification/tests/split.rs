use ergohaven::split::{
    advertise_step, advertise_timeout_ms, central_check_step, first_advertise_phase, split_advertising_data,
    split_central_address_allowed, split_link_action, status_report, AdvertiseOutcome, AdvertisePhase, AdvertiseStep, CentralBinding,
    CentralCheck, CentralCheckAction, CentralCheckEvent, CentralRead, LinkAction, LinkEvent, LinkState,
    PeripheralLink, SplitLinkAction, SplitLinkEvent, StoredPeer, SPLIT_ADV_DATA_LEN,
};

const OLD_QUBE: [u8; 6] = [1, 2, 3, 4, 5, 6];
const NEW_QUBE: [u8; 6] = [7, 8, 9, 10, 11, 12];

#[test]
fn saved_qube_is_accepted_during_directed_reconnect() {
    assert!(split_central_address_allowed(Some(OLD_QUBE), OLD_QUBE, false));
}

#[test]
fn different_qube_is_rejected_during_directed_reconnect() {
    assert!(!split_central_address_allowed(Some(OLD_QUBE), NEW_QUBE, false));
}

#[test]
fn validated_discoverable_connection_can_rebind_qube() {
    assert!(split_central_address_allowed(Some(OLD_QUBE), NEW_QUBE, true));
}

#[test]
fn any_central_is_accepted_before_one_is_saved() {
    assert!(split_central_address_allowed(None, NEW_QUBE, false));
}

#[test]
fn binding_is_read_from_valid_storage_only() {
    let b = CentralBinding::from_storage(Some(StoredPeer { is_valid: true, address: OLD_QUBE }));
    assert!(b.saved);
    assert_eq!(b.addr, Some(OLD_QUBE));
    let b = CentralBinding::from_storage(Some(StoredPeer { is_valid: false, address: OLD_QUBE }));
    assert!(!b.saved);
    assert_eq!(b.addr, None);
    let b = CentralBinding::from_storage(None);
    assert!(!b.saved);
}

#[test]
fn a_saved_central_is_remembered() {
    let mut b = CentralBinding::from_storage(Some(StoredPeer { is_valid: true, address: OLD_QUBE }));
    assert!(!b.needs_save(OLD_QUBE));
    assert!(b.needs_save(NEW_QUBE));
    assert!(!b.accepts(NEW_QUBE, false));
    b.record_save(NEW_QUBE, false);
    assert_eq!(b.addr, Some(OLD_QUBE));
    b.record_save(NEW_QUBE, true);
    assert_eq!(b.addr, Some(NEW_QUBE));
    assert!(b.accepts(NEW_QUBE, false));
    assert!(!b.accepts(OLD_QUBE, false));
    assert!(!b.needs_save(NEW_QUBE));
}

#[test]
fn advertising_falls_back_from_directed_to_discoverable() {
    assert_eq!(first_advertise_phase(Some(OLD_QUBE)), AdvertisePhase::Directed);
    assert_eq!(first_advertise_phase(None), AdvertisePhase::Discoverable);
    assert_eq!(advertise_timeout_ms(AdvertisePhase::Directed), 10_000);
    assert_eq!(advertise_timeout_ms(AdvertisePhase::Discoverable), 10_000);
    assert_eq!(advertise_timeout_ms(AdvertisePhase::DiscoverableRetry), 300_000);
    assert_eq!(
        advertise_step(AdvertisePhase::Directed, AdvertiseOutcome::TimedOut),
        AdvertiseStep::Advertise(AdvertisePhase::Discoverable)
    );
    assert_eq!(
        advertise_step(AdvertisePhase::Discoverable, AdvertiseOutcome::TimedOut),
        AdvertiseStep::Advertise(AdvertisePhase::DiscoverableRetry)
    );
    assert_eq!(advertise_step(AdvertisePhase::DiscoverableRetry, AdvertiseOutcome::TimedOut), AdvertiseStep::WaitForKey);
    assert_eq!(
        advertise_step(AdvertisePhase::Directed, AdvertiseOutcome::Connected),
        AdvertiseStep::Connected { allow_rebind: false }
    );
    assert_eq!(
        advertise_step(AdvertisePhase::DiscoverableRetry, AdvertiseOutcome::Connected),
        AdvertiseStep::Connected { allow_rebind: true }
    );
    assert_eq!(advertise_step(AdvertisePhase::Discoverable, AdvertiseOutcome::Failed), AdvertiseStep::Backoff(500));
}

#[test]
fn advertising_data_carries_product_and_peripheral_id() {
    let mut data = [0xEEu8; 31];
    let len = split_advertising_data(0xABCD, 2, &mut data);
    assert_eq!(len, SPLIT_ADV_DATA_LEN);
    let expected: [u8; 28] = [
        2, 0x01, 0x06, 17, 0x07, 70, 153, 101, 152, 54, 53, 10, 191, 7, 75, 229, 24, 170, 251, 213, 77, 6, 0xFF, 0x18,
        0xE1, 0xCD, 0xAB, 2,
    ];
    assert_eq!(&data[..28], &expected);
    assert_eq!(&data[28..], &[0xEE, 0xEE, 0xEE]);

    // The id goes out as its low byte.
    split_advertising_data(0x0001, 258, &mut data);
    assert_eq!(&data[25..28], &[0x01, 0x00, 0x02]);
}

#[test]
fn product_check_accepts_only_the_expected_product() {
    let expected = 0x4E48;
    let (s, a) = central_check_step(CentralCheck::AwaitProductId, CentralCheckEvent::Read(CentralRead::ProductId(expected)), expected);
    assert_eq!((s, a), (CentralCheck::ReplyPending, CentralCheckAction::SendProductId(expected)));
    let (s, a) = central_check_step(s, CentralCheckEvent::ReplyWritten(true), expected);
    assert_eq!((s, a), (CentralCheck::Accepted, CentralCheckAction::Done(true)));

    let (s, a) = central_check_step(CentralCheck::ReplyPending, CentralCheckEvent::ReplyWritten(false), expected);
    assert_eq!((s, a), (CentralCheck::Rejected, CentralCheckAction::Done(false)));

    for read in [CentralRead::ProductId(expected + 1), CentralRead::OtherMessage, CentralRead::ReadFailed, CentralRead::TimedOut] {
        let (s, a) = central_check_step(CentralCheck::AwaitProductId, CentralCheckEvent::Read(read), expected);
        assert_eq!((s, a), (CentralCheck::Rejected, CentralCheckAction::Done(false)));
    }

    let (s, a) = central_check_step(CentralCheck::Accepted, CentralCheckEvent::Read(CentralRead::TimedOut), expected);
    assert_eq!((s, a), (CentralCheck::Accepted, CentralCheckAction::Wait));
}

#[test]
fn link_events_deliver_only_decoded_writes_to_our_characteristic() {
    let ours = 0x0012;
    assert_eq!(split_link_action(SplitLinkEvent::Disconnected, ours), SplitLinkAction::Disconnect);
    assert_eq!(split_link_action(SplitLinkEvent::GattWrite { handle: ours, parsed: true }, ours), SplitLinkAction::Deliver);
    assert_eq!(split_link_action(SplitLinkEvent::GattWrite { handle: ours, parsed: false }, ours), SplitLinkAction::Respond);
    assert_eq!(split_link_action(SplitLinkEvent::GattWrite { handle: 0x0013, parsed: true }, ours), SplitLinkAction::Respond);
    assert_eq!(split_link_action(SplitLinkEvent::GattRead, ours), SplitLinkAction::Respond);
    assert_eq!(split_link_action(SplitLinkEvent::GattOther, ours), SplitLinkAction::Respond);
    assert_eq!(split_link_action(SplitLinkEvent::Other, ours), SplitLinkAction::Ignore);
}

const PRODUCT: u16 = 0x0071;

fn connected(peer: [u8; 6]) -> LinkEvent {
    LinkEvent::AdvertiseEnded { outcome: AdvertiseOutcome::Connected, peer }
}

fn timed_out() -> LinkEvent {
    LinkEvent::AdvertiseEnded { outcome: AdvertiseOutcome::TimedOut, peer: [0; 6] }
}

fn read(id: u16) -> LinkEvent {
    LinkEvent::Check(CentralCheckEvent::Read(CentralRead::ProductId(id)))
}

fn written(ok: bool) -> LinkEvent {
    LinkEvent::Check(CentralCheckEvent::ReplyWritten(ok))
}

#[test]
fn saved_central_reconnects_without_a_new_save() {
    let mut link = PeripheralLink::new(Some(StoredPeer { is_valid: true, address: OLD_QUBE }), PRODUCT);
    assert_eq!(link.state, LinkState::Paused);
    assert_eq!(
        link.start(),
        LinkAction::Advertise { phase: AdvertisePhase::Directed, directed_to: Some(OLD_QUBE), timeout_ms: 10_000, new_round: true }
    );
    assert_eq!(link.step(connected(OLD_QUBE)), LinkAction::ReadProductId { timeout_ms: 1_500 });
    assert_eq!(link.step(read(PRODUCT)), LinkAction::SendProductId(PRODUCT));
    assert_eq!(link.step(written(true)), LinkAction::Run { announce: true });
    assert_eq!(link.state, LinkState::Running);
    assert_eq!(
        link.step(LinkEvent::Disconnected),
        LinkAction::Advertise { phase: AdvertisePhase::Directed, directed_to: Some(OLD_QUBE), timeout_ms: 10_000, new_round: true }
    );
}

#[test]
fn a_new_central_binds_through_discoverable_advertising() {
    let mut link = PeripheralLink::new(Some(StoredPeer { is_valid: true, address: OLD_QUBE }), PRODUCT);
    link.start();
    // A different central answering the directed advertisement is refused.
    assert_eq!(link.step(connected(NEW_QUBE)), LinkAction::Reject { pause_ms: 500 });
    assert_eq!(link.step(LinkEvent::PauseOver), link_restart());
    assert_eq!(
        link.step(timed_out()),
        LinkAction::Advertise { phase: AdvertisePhase::Discoverable, directed_to: None, timeout_ms: 10_000, new_round: false }
    );
    assert_eq!(link.step(connected(NEW_QUBE)), LinkAction::ReadProductId { timeout_ms: 1_500 });
    link.step(read(PRODUCT));
    assert_eq!(link.step(written(true)), LinkAction::Save { addr: NEW_QUBE });
    assert_eq!(link.binding.addr, Some(OLD_QUBE));
    assert_eq!(link.step(LinkEvent::Saved(true)), LinkAction::Run { announce: false });
    assert_eq!(link.binding.addr, Some(NEW_QUBE));
    assert!(link.binding.saved);
}

fn link_restart() -> LinkAction {
    LinkAction::Advertise { phase: AdvertisePhase::Directed, directed_to: Some(OLD_QUBE), timeout_ms: 10_000, new_round: true }
}

#[test]
fn wrong_product_or_failed_reply_is_rejected() {
    let mut link = PeripheralLink::new(None, PRODUCT);
    assert_eq!(
        link.start(),
        LinkAction::Advertise { phase: AdvertisePhase::Discoverable, directed_to: None, timeout_ms: 10_000, new_round: true }
    );
    link.step(connected(NEW_QUBE));
    assert_eq!(link.step(read(PRODUCT + 1)), LinkAction::Reject { pause_ms: 500 });
    assert_eq!(link.state, LinkState::Paused);

    link.step(LinkEvent::PauseOver);
    link.step(connected(NEW_QUBE));
    link.step(read(PRODUCT));
    assert_eq!(link.step(written(false)), LinkAction::Reject { pause_ms: 500 });

    // A failed save still runs the link but remembers nothing.
    link.step(LinkEvent::PauseOver);
    link.step(connected(NEW_QUBE));
    link.step(read(PRODUCT));
    assert_eq!(link.step(written(true)), LinkAction::Save { addr: NEW_QUBE });
    assert_eq!(link.step(LinkEvent::Saved(false)), LinkAction::Run { announce: false });
    assert_eq!(link.binding.addr, None);
}

#[test]
fn nobody_connecting_ends_in_waiting_for_a_key() {
    let mut link = PeripheralLink::new(Some(StoredPeer { is_valid: true, address: OLD_QUBE }), PRODUCT);
    link.start();
    link.step(timed_out());
    assert_eq!(
        link.step(timed_out()),
        LinkAction::Advertise { phase: AdvertisePhase::DiscoverableRetry, directed_to: None, timeout_ms: 300_000, new_round: false }
    );
    assert_eq!(link.step(timed_out()), LinkAction::WaitForKey);
    assert_eq!(link.state, LinkState::Idle);
    assert_eq!(link.step(LinkEvent::Disconnected), LinkAction::Nothing);
    assert_eq!(link.step(LinkEvent::KeyPressed), link_restart());
    let failed = LinkEvent::AdvertiseEnded { outcome: AdvertiseOutcome::Failed, peer: [0; 6] };
    assert_eq!(link.step(failed), LinkAction::Pause { ms: 500 });
}

#[test]
fn connection_status_is_reported_disconnected_before_each_round() {
    let mut link = PeripheralLink::new(Some(StoredPeer { is_valid: true, address: OLD_QUBE }), PRODUCT);
    let mut reports = Vec::new();
    let record = |action: LinkAction, reports: &mut Vec<bool>| {
        if let Some(connected) = status_report(action) {
            reports.push(connected);
        }
    };
    record(link.start(), &mut reports);
    record(link.step(timed_out()), &mut reports);
    record(link.step(connected(NEW_QUBE)), &mut reports);
    record(link.step(read(PRODUCT)), &mut reports);
    record(link.step(written(true)), &mut reports);
    record(link.step(LinkEvent::Saved(true)), &mut reports);
    record(link.step(LinkEvent::Disconnected), &mut reports);
    record(link.step(connected(NEW_QUBE)), &mut reports);
    record(link.step(read(PRODUCT)), &mut reports);
    record(link.step(written(true)), &mut reports);
    record(link.step(LinkEvent::Disconnected), &mut reports);
    // Disconnected at the start, connected once saved, disconnected on the
    // next round, connected again without a save, disconnected again.
    assert_eq!(reports, vec![false, true, false, true, false]);
}

#[test]
fn status_reports_follow_the_action() {
    let advertise = |new_round| LinkAction::Advertise {
        phase: AdvertisePhase::Discoverable,
        directed_to: None,
        timeout_ms: 10_000,
        new_round,
    };
    assert_eq!(status_report(advertise(true)), Some(false));
    assert_eq!(status_report(advertise(false)), None);
    assert_eq!(status_report(LinkAction::Save { addr: NEW_QUBE }), Some(true));
    assert_eq!(status_report(LinkAction::Run { announce: true }), Some(true));
    assert_eq!(status_report(LinkAction::Run { announce: false }), None);
    assert_eq!(status_report(LinkAction::Reject { pause_ms: 500 }), None);
    assert_eq!(status_report(LinkAction::WaitForKey), None);
}
