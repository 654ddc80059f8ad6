//! Data pushed by the host (clock, keyboard layout, media titles, the coding
//! agent and usage feeds) and the snapshot the status screen reads.

use vstd::prelude::*;
use vstd::utf8::*;

use crate::clock::now_millis;
use crate::text::{fitting_prefix, host_text_chars, host_text_clone, host_text_eq, host_text_new, update_media_text};

verus! {

/// Stored in place of a value the host has not sent.
pub const UNKNOWN: u8 = 255;

/// The agent and usage feeds are pushed by a host daemon that can die or lose
/// the socket it watches. Without an expiry the display would keep showing a
/// stale "1 working" forever, so anything older than this counts as no data.
pub const HOST_FEED_TTL_MS: u64 = 30_000;

/// How many host-side coding agents sit in each state.
#[derive(Clone, Copy, Debug, Default, PartialEq, Eq, Structural)]
pub struct AgentSummary {
    pub working: u8,
    pub idle: u8,
    pub blocked: u8,
    pub done: u8,
    pub unknown: u8,
}

/// How much of each subscription window the host has burned through, in
/// percent. A window the host cannot report stays `None`.
#[derive(Clone, Copy, Debug, Default, PartialEq, Eq, Structural)]
pub struct UsageSummary {
    /// Rolling 5-hour session limit.
    pub five_hour: Option<u8>,
    /// 7-day limit.
    pub seven_day: Option<u8>,
    /// The host has not refreshed these in a while: the numbers are the last
    /// ones seen rather than the current ones.
    pub stale: bool,
}

#[derive(Clone, Copy, Debug, PartialEq, Eq, Structural)]
struct AgentSnapshot {
    summary: AgentSummary,
    received: u64,
}

#[derive(Clone, Copy, Debug, PartialEq, Eq, Structural)]
struct UsageSnapshot {
    summary: UsageSummary,
    received: u64,
}

/// The state the host feeds write and the screen reads.
#[derive(Debug)]
pub struct HostDataStore {
    hour: u8,
    minute: u8,
    layout: u8,
    media_artist: heapless::String<32>,
    media_title: heapless::String<32>,
    agents: Option<AgentSnapshot>,
    usage: Option<UsageSnapshot>,
}

/// Abstract contents of a [`HostDataStore`]: raw bytes with [`UNKNOWN`] for
/// "not sent", the text slots as characters, and each feed with the time (in
/// milliseconds) it arrived.
pub ghost struct HostDataStoreView {
    pub hour: u8,
    pub minute: u8,
    pub layout: u8,
    pub media_artist: Seq<char>,
    pub media_title: Seq<char>,
    pub agents: Option<(AgentSummary, u64)>,
    pub usage: Option<(UsageSummary, u64)>,
}

impl View for HostDataStore {
    type V = HostDataStoreView;

    closed spec fn view(&self) -> HostDataStoreView {
        HostDataStoreView {
            hour: self.hour,
            minute: self.minute,
            layout: self.layout,
            media_artist: host_text_chars(self.media_artist),
            media_title: host_text_chars(self.media_title),
            agents: match self.agents {
                Some(s) => Some((s.summary, s.received)),
                None => None,
            },
            usage: match self.usage {
                Some(s) => Some((s.summary, s.received)),
                None => None,
            },
        }
    }
}

/// What the screen renders from the host feeds.
#[derive(Debug)]
pub struct HostData {
    pub hour: Option<u8>,
    pub minute: Option<u8>,
    pub layout: Option<u8>,
    pub media_artist: heapless::String<32>,
    pub media_title: heapless::String<32>,
    /// `None` while no agent packet has arrived, or once the last one expired.
    pub agents: Option<AgentSummary>,
    /// `None` while no usage packet has arrived, or once the last one expired.
    pub usage: Option<UsageSummary>,
}

pub ghost struct HostDataView {
    pub hour: Option<u8>,
    pub minute: Option<u8>,
    pub layout: Option<u8>,
    pub media_artist: Seq<char>,
    pub media_title: Seq<char>,
    pub agents: Option<AgentSummary>,
    pub usage: Option<UsageSummary>,
}

impl View for HostData {
    type V = HostDataView;

    open spec fn view(&self) -> HostDataView {
        HostDataView {
            hour: self.hour,
            minute: self.minute,
            layout: self.layout,
            media_artist: host_text_chars(self.media_artist),
            media_title: host_text_chars(self.media_title),
            agents: self.agents,
            usage: self.usage,
        }
    }
}

/// A stored byte read back as a value: [`UNKNOWN`] means "not sent".
pub open spec fn spec_known(value: u8) -> Option<u8> {
    if value != UNKNOWN {
        Some(value)
    } else {
        None
    }
}

/// Milliseconds from `received` to `now`; a reading from the future counts as
/// just received.
pub open spec fn age(received: u64, now: u64) -> int {
    if now >= received {
        now - received
    } else {
        0
    }
}

/// A feed value received at `received` is still shown at `now`.
pub open spec fn is_fresh(received: u64, now: u64) -> bool {
    age(received, now) < HOST_FEED_TTL_MS
}

pub open spec fn fresh_feed<T>(feed: Option<(T, u64)>, now: u64) -> Option<T> {
    match feed {
        Some((summary, received)) => if is_fresh(received, now) {
            Some(summary)
        } else {
            None
        },
        None => None,
    }
}

/// What a snapshot taken at `now` shows of the store.
pub open spec fn spec_snapshot(v: HostDataStoreView, now: u64) -> HostDataView {
    HostDataView {
        hour: spec_known(v.hour),
        minute: spec_known(v.minute),
        layout: spec_known(v.layout),
        media_artist: v.media_artist,
        media_title: v.media_title,
        agents: fresh_feed(v.agents, now),
        usage: fresh_feed(v.usage, now),
    }
}

/// The host clock after a time packet: kept when it is a real time of day,
/// cleared otherwise.
pub open spec fn with_time(v: HostDataStoreView, hour: u8, minute: u8) -> HostDataStoreView {
    if hour < 24 && minute < 60 {
        HostDataStoreView { hour, minute, ..v }
    } else {
        HostDataStoreView { hour: UNKNOWN, minute: UNKNOWN, ..v }
    }
}

/// The store after an agent summary arrives at `received`.
pub open spec fn with_agents(v: HostDataStoreView, summary: AgentSummary, received: u64) -> HostDataStoreView {
    HostDataStoreView { agents: Some((summary, received)), ..v }
}

/// The store after a usage summary arrives at `received`.
pub open spec fn with_usage(v: HostDataStoreView, summary: UsageSummary, received: u64) -> HostDataStoreView {
    HostDataStoreView { usage: Some((summary, received)), ..v }
}

impl HostDataStore {
    /// A store in which the host has sent nothing yet.
    pub fn new() -> (store: HostDataStore)
        ensures
            store@ == (HostDataStoreView {
                hour: UNKNOWN,
                minute: UNKNOWN,
                layout: UNKNOWN,
                media_artist: Seq::empty(),
                media_title: Seq::empty(),
                agents: None,
                usage: None,
            }),
    {
        HostDataStore {
            hour: UNKNOWN,
            minute: UNKNOWN,
            layout: UNKNOWN,
            media_artist: host_text_new(),
            media_title: host_text_new(),
            agents: None,
            usage: None,
        }
    }
}

/// Records the host's time of day; an hour or minute out of range clears it.
pub fn update_time(store: &mut HostDataStore, hour: u8, minute: u8)
    ensures
        final(store)@ == with_time(old(store)@, hour, minute),
{
    if hour < 24 && minute < 60 {
        store.hour = hour;
        store.minute = minute;
    } else {
        clear_time(store);
    }
}

/// Records the host's active keyboard layout.
pub fn update_layout(store: &mut HostDataStore, layout: u8)
    ensures
        final(store)@ == (HostDataStoreView { layout, ..old(store)@ }),
{
    store.layout = layout;
}

/// Forgets the host's time of day.
pub fn clear_time(store: &mut HostDataStore)
    ensures
        final(store)@ == (HostDataStoreView { hour: UNKNOWN, minute: UNKNOWN, ..old(store)@ }),
{
    store.hour = UNKNOWN;
    store.minute = UNKNOWN;
}

/// Records the artist of the playing media, cut to the longest prefix that
/// fits 32 UTF-8 bytes.
pub fn update_media_artist(store: &mut HostDataStore, value: &str)
    ensures
        final(store)@ == (HostDataStoreView { media_artist: fitting_prefix(value@, 32), ..old(store)@ }),
{
    update_media_text(&mut store.media_artist, value);
}

/// Records the title of the playing media, cut to the longest prefix that
/// fits 32 UTF-8 bytes.
pub fn update_media_title(store: &mut HostDataStore, value: &str)
    ensures
        final(store)@ == (HostDataStoreView { media_title: fitting_prefix(value@, 32), ..old(store)@ }),
{
    update_media_text(&mut store.media_title, value);
}

/// Records an agent summary received at `now` (milliseconds).
pub fn update_agents_at(store: &mut HostDataStore, summary: AgentSummary, now: u64)
    ensures
        final(store)@ == with_agents(old(store)@, summary, now),
{
    store.agents = Some(AgentSnapshot { summary, received: now });
}

/// Records an agent summary, stamped with the current time.
pub fn update_agents(store: &mut HostDataStore, summary: AgentSummary)
    ensures
        exists|now: u64| final(store)@ == #[trigger] with_agents(old(store)@, summary, now),
{
    let now = now_millis();
    update_agents_at(store, summary, now);
}

/// Records a usage summary received at `now` (milliseconds).
pub fn update_usage_at(store: &mut HostDataStore, summary: UsageSummary, now: u64)
    ensures
        final(store)@ == with_usage(old(store)@, summary, now),
{
    store.usage = Some(UsageSnapshot { summary, received: now });
}

/// Records a usage summary, stamped with the current time.
pub fn update_usage(store: &mut HostDataStore, summary: UsageSummary)
    ensures
        exists|now: u64| final(store)@ == #[trigger] with_usage(old(store)@, summary, now),
{
    let now = now_millis();
    update_usage_at(store, summary, now);
}

/// A stored byte read back as a value: [`UNKNOWN`] means "not sent".
pub fn known(value: u8) -> (r: Option<u8>)
    ensures
        r == spec_known(value),
{
    if value != UNKNOWN {
        Some(value)
    } else {
        None
    }
}

fn fresh(received: u64, now: u64) -> (r: bool)
    ensures
        r == is_fresh(received, now),
{
    let age = if now >= received {
        now - received
    } else {
        0
    };
    age < HOST_FEED_TTL_MS
}

/// What the screen shows of the store at time `now` (milliseconds).
pub fn snapshot_at(store: &HostDataStore, now: u64) -> (data: HostData)
    ensures
        data@ == spec_snapshot(store@, now),
{
    let agents = match store.agents {
        Some(s) => if fresh(s.received, now) {
            Some(s.summary)
        } else {
            None
        },
        None => None,
    };
    let usage = match store.usage {
        Some(s) => if fresh(s.received, now) {
            Some(s.summary)
        } else {
            None
        },
        None => None,
    };
    HostData {
        hour: known(store.hour),
        minute: known(store.minute),
        layout: known(store.layout),
        media_artist: host_text_clone(&store.media_artist),
        media_title: host_text_clone(&store.media_title),
        agents,
        usage,
    }
}

/// What the screen shows of the store now.
pub fn snapshot(store: &HostDataStore) -> (data: HostData)
    ensures
        exists|now: u64| data@ == #[trigger] spec_snapshot(store@, now),
{
    let now = now_millis();
    snapshot_at(store, now)
}


/// Whether two snapshots show the same thing.
pub fn host_data_eq(a: &HostData, b: &HostData) -> (same: bool)
    ensures
        same == (a@ == b@),
{
    a.hour == b.hour && a.minute == b.minute && a.layout == b.layout && host_text_eq(&a.media_artist, &b.media_artist)
        && host_text_eq(&a.media_title, &b.media_title) && a.agents == b.agents && a.usage == b.usage
}

/// A snapshot showing nothing.
pub fn empty_host_data() -> (data: HostData)
    ensures
        data@ == (HostDataView {
            hour: None,
            minute: None,
            layout: None,
            media_artist: Seq::empty(),
            media_title: Seq::empty(),
            agents: None,
            usage: None,
        }),
{
    HostData {
        hour: None,
        minute: None,
        layout: None,
        media_artist: host_text_new(),
        media_title: host_text_new(),
        agents: None,
        usage: None,
    }
}

/// A time of day the host sends is what the screen reads back; anything out
/// of range reads back as no time. Nothing else changes.
pub proof fn lemma_time_read_back(v: HostDataStoreView, hour: u8, minute: u8, now: u64)
    ensures
        ({
            let shown = spec_snapshot(with_time(v, hour, minute), now);
            let valid = hour < 24 && minute < 60;
            &&& shown.hour == (if valid { Some(hour) } else { None })
            &&& shown.minute == (if valid { Some(minute) } else { None })
            &&& shown == HostDataView { hour: shown.hour, minute: shown.minute, ..spec_snapshot(v, now) }
        }),
{
}

/// A cleared clock reads back as no time.
pub proof fn lemma_cleared_time_reads_none(v: HostDataStoreView, now: u64)
    ensures
        spec_snapshot(HostDataStoreView { hour: UNKNOWN, minute: UNKNOWN, ..v }, now).hour is None,
        spec_snapshot(HostDataStoreView { hour: UNKNOWN, minute: UNKNOWN, ..v }, now).minute is None,
{
}

/// A layout the host sends is what the screen reads back (the byte
/// [`UNKNOWN`] itself stands for "not sent").
pub proof fn lemma_layout_read_back(v: HostDataStoreView, layout: u8, now: u64)
    requires
        layout != UNKNOWN,
    ensures
        spec_snapshot(HostDataStoreView { layout, ..v }, now).layout == Some(layout),
{
}

/// Media text reads back as sent when its UTF-8 encoding fits the 32-byte
/// slot; longer text reads back as its longest fitting prefix of whole
/// characters.
pub proof fn lemma_media_text_read_back(v: HostDataStoreView, value: Seq<char>, now: u64)
    ensures
        ({
            let shown = spec_snapshot(HostDataStoreView { media_artist: fitting_prefix(value, 32), ..v }, now);
            &&& encode_utf8(value).len() <= 32 ==> shown.media_artist == value
            &&& shown.media_artist == value.take(shown.media_artist.len() as int)
            &&& encode_utf8(shown.media_artist).len() <= 32
        }),
        ({
            let shown = spec_snapshot(HostDataStoreView { media_title: fitting_prefix(value, 32), ..v }, now);
            &&& encode_utf8(value).len() <= 32 ==> shown.media_title == value
            &&& shown.media_title == value.take(shown.media_title.len() as int)
            &&& encode_utf8(shown.media_title).len() <= 32
        }),
{
    crate::text::lemma_fitting_prefix_bounds(value, 32);
    if encode_utf8(value).len() <= 32 {
        crate::text::lemma_fitting_prefix_whole(value, 32);
    }
}

/// A feed is shown for 30 seconds after it arrives and then reads back as no
/// data, until the host sends it again.
pub proof fn lemma_feeds_expire(
    v: HostDataStoreView,
    agents: AgentSummary,
    usage: UsageSummary,
    received: u64,
    now: u64,
)
    ensures
        spec_snapshot(with_agents(v, agents, received), now).agents == (if age(received, now) < HOST_FEED_TTL_MS {
            Some(agents)
        } else {
            None
        }),
        spec_snapshot(with_usage(v, usage, received), now).usage == (if age(received, now) < HOST_FEED_TTL_MS {
            Some(usage)
        } else {
            None
        }),
{
}

} // verus!
