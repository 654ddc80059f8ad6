use ergohaven::host_data::{
    clear_time, empty_host_data, host_data_eq, known, snapshot, snapshot_at, update_agents, update_agents_at,
    update_layout, update_media_artist, update_media_title, update_time, update_usage, update_usage_at, AgentSummary,
    HostDataStore, UsageSummary, HOST_FEED_TTL_MS, UNKNOWN,
};

fn agents() -> AgentSummary {
    AgentSummary { working: 1, idle: 2, blocked: 3, done: 4, unknown: 0 }
}

#[test]
fn a_new_store_shows_nothing() {
    let store = HostDataStore::new();
    let shown = snapshot_at(&store, 0);
    assert!(host_data_eq(&shown, &empty_host_data()));
    assert_eq!(shown.hour, None);
    assert_eq!(shown.agents, None);
}

#[test]
fn time_is_kept_only_when_valid() {
    let mut store = HostDataStore::new();
    update_time(&mut store, 23, 59);
    let shown = snapshot_at(&store, 0);
    assert_eq!((shown.hour, shown.minute), (Some(23), Some(59)));
    update_time(&mut store, 24, 0);
    let shown = snapshot_at(&store, 0);
    assert_eq!((shown.hour, shown.minute), (None, None));
    update_time(&mut store, 7, 60);
    assert_eq!(snapshot_at(&store, 0).minute, None);
    update_time(&mut store, 0, 0);
    clear_time(&mut store);
    assert_eq!(snapshot_at(&store, 0).hour, None);
}

#[test]
fn layout_reads_back() {
    let mut store = HostDataStore::new();
    update_layout(&mut store, 3);
    assert_eq!(snapshot_at(&store, 0).layout, Some(3));
    update_layout(&mut store, UNKNOWN);
    assert_eq!(snapshot_at(&store, 0).layout, None);
}

#[test]
fn known_maps_the_marker_to_none() {
    assert_eq!(known(0), Some(0));
    assert_eq!(known(254), Some(254));
    assert_eq!(known(255), None);
}

#[test]
fn media_text_is_cut_to_32_bytes_of_whole_characters() {
    let mut store = HostDataStore::new();
    update_media_artist(&mut store, "Nick Cave & The Bad Seeds");
    assert_eq!(snapshot_at(&store, 0).media_artist.as_str(), "Nick Cave & The Bad Seeds");

    update_media_title(&mut store, "abcdefghijklmnopqrstuvwxyz0123456789");
    assert_eq!(snapshot_at(&store, 0).media_title.as_str(), "abcdefghijklmnopqrstuvwxyz012345");

    // Seventeen two-byte letters: sixteen fit.
    let cyrillic = "\u{451}".repeat(17);
    update_media_artist(&mut store, &cyrillic);
    assert_eq!(snapshot_at(&store, 0).media_artist.as_str(), "\u{451}".repeat(16));

    // 31 bytes, then a 2-byte letter that no longer fits.
    let mixed = format!("{}\u{451}x", "a".repeat(31));
    update_media_title(&mut store, &mixed);
    assert_eq!(snapshot_at(&store, 0).media_title.as_str(), "a".repeat(31));
}

#[test]
fn agent_feed_expires_after_thirty_seconds() {
    let mut store = HostDataStore::new();
    update_agents_at(&mut store, agents(), 1_000);
    assert_eq!(snapshot_at(&store, 1_000).agents, Some(agents()));
    assert_eq!(snapshot_at(&store, 1_000 + HOST_FEED_TTL_MS - 1).agents, Some(agents()));
    assert_eq!(snapshot_at(&store, 1_000 + HOST_FEED_TTL_MS).agents, None);
    // A reading stamped after the clock counts as just received.
    assert_eq!(snapshot_at(&store, 0).agents, Some(agents()));
    update_agents_at(&mut store, AgentSummary::default(), 50_000);
    assert_eq!(snapshot_at(&store, 60_000).agents, Some(AgentSummary::default()));
}

#[test]
fn usage_feed_expires_after_thirty_seconds() {
    let mut store = HostDataStore::new();
    let usage = UsageSummary { five_hour: Some(42), seven_day: None, stale: true };
    update_usage_at(&mut store, usage, 10);
    assert_eq!(snapshot_at(&store, 30_009).usage, Some(usage));
    assert_eq!(snapshot_at(&store, 30_010).usage, None);
}

#[test]
fn live_updates_are_visible_right_away() {
    let mut store = HostDataStore::new();
    update_agents(&mut store, agents());
    update_usage(&mut store, UsageSummary::default());
    let shown = snapshot(&store);
    assert_eq!(shown.agents, Some(agents()));
    assert_eq!(shown.usage, Some(UsageSummary::default()));
}
