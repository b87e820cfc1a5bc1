//! Usage snapshots and the statusline cache they are read from.
//!
//! The cache file is the statusline document that the assistant hands over,
//! byte for byte. Freshness comes from the file's modification time, and the
//! reader picks `rate_limits` out of a document that carries much else.

use vstd::prelude::*;
use vstd::string::*;

use crate::assistant::Assistant;
use crate::appcache::{app_file_usage, read_app_usage, scoped_view, AppUsage, AppView, ScopedMetric};
use crate::files::FileRead;
use crate::json::{
    get_in, json_of_value, member_of, parsed_json, parsed_json_bytes, value_of_bytes, value_of_text,
    Json, Tree,
};
use crate::paths::{join, joined_path};
use crate::percent::{number_percent, Percent};
use crate::time::Timestamp;

verus! {

/// Freshness of a [`UsageSnapshot`].
#[derive(Clone, Copy, Debug, PartialEq, Eq, Structural)]
pub enum SnapshotState {
    /// The cache was read, and is within the staleness window.
    Fresh,
    /// The cache was read, but is older than the staleness threshold.
    Stale,
    /// The cache is missing, unreadable or not JSON.
    Missing,
}

impl Default for SnapshotState {
    fn default() -> (state: Self)
        ensures
            state == SnapshotState::Missing,
    {
        SnapshotState::Missing
    }
}

/// One rate-limit window: the 5-hour session or the 7-day week.
#[derive(Clone, Copy, Debug, PartialEq, Eq, Structural)]
pub struct Metric {
    pub percent: Option<Percent>,
    pub resets_at: Option<Timestamp>,
}

impl Default for Metric {
    fn default() -> (metric: Self)
        ensures
            metric == (Metric { percent: None, resets_at: None }),
    {
        Metric { percent: None, resets_at: None }
    }
}

/// The `rate_limits` half of a statusline document.
#[derive(Clone, Copy, Debug, PartialEq, Eq, Structural)]
pub struct RateLimits {
    pub session: Option<Metric>,
    pub weekly: Option<Metric>,
}

/// A point-in-time read of the usage sources.
#[derive(Clone, Debug, PartialEq, Eq)]
pub struct UsageSnapshot {
    pub session: Option<Metric>,
    pub weekly: Option<Metric>,
    /// Per-model weekly buckets; only the app cache carries these.
    pub scoped: Vec<ScopedMetric>,
    /// When the `scoped` rows were fetched.
    pub scoped_fetched_at: Option<Timestamp>,
    /// When the winning source last reported.
    pub written_at: Option<Timestamp>,
    pub state: SnapshotState,
    /// Whether the statusline cache file was missing or not JSON.
    pub hook_missing: bool,
}

/// The contents of a [`UsageSnapshot`].
pub ghost struct SnapshotView {
    pub session: Option<Metric>,
    pub weekly: Option<Metric>,
    pub scoped: Seq<(Seq<char>, Metric)>,
    pub scoped_fetched_at: Option<Timestamp>,
    pub written_at: Option<Timestamp>,
    pub state: SnapshotState,
    pub hook_missing: bool,
}

impl View for UsageSnapshot {
    type V = SnapshotView;

    open spec fn view(&self) -> SnapshotView {
        SnapshotView {
            session: self.session,
            weekly: self.weekly,
            scoped: scoped_view(self.scoped@),
            scoped_fetched_at: self.scoped_fetched_at,
            written_at: self.written_at,
            state: self.state,
            hook_missing: self.hook_missing,
        }
    }
}

/// A snapshot that holds nothing.
pub open spec fn empty_snapshot() -> SnapshotView {
    SnapshotView {
        session: None,
        weekly: None,
        scoped: seq![],
        scoped_fetched_at: None,
        written_at: None,
        state: SnapshotState::Missing,
        hook_missing: false,
    }
}

/// What a cache that cannot be read gives.
pub open spec fn missing_snapshot() -> SnapshotView {
    SnapshotView { hook_missing: true, ..empty_snapshot() }
}

impl Default for UsageSnapshot {
    fn default() -> (snapshot: Self)
        ensures
            snapshot@ == empty_snapshot(),
    {
        let scoped: Vec<ScopedMetric> = Vec::new();
        proof {
            assert(scoped_view(scoped@) == Seq::<(Seq<char>, Metric)>::empty());
        }
        UsageSnapshot {
            session: None,
            weekly: None,
            scoped,
            scoped_fetched_at: None,
            written_at: None,
            state: SnapshotState::Missing,
            hook_missing: false,
        }
    }
}

impl UsageSnapshot {
    /// The snapshot of a cache that cannot be read.
    pub fn missing() -> (snapshot: Self)
        ensures
            snapshot@ == missing_snapshot(),
    {
        let mut snapshot = UsageSnapshot::default();
        snapshot.hook_missing = true;
        snapshot
    }
}

/// Caches older than this many seconds are stale.
pub const STALE_THRESHOLD_SECS: i64 = 600;

/// Name of the cache file inside the config directory.
pub const CACHE_FILE_NAME: &'static str = "usage-tray-statusline.json";

/// Name of the cache file that earlier releases wrote, kept so that it can be
/// deleted.
pub const LEGACY_CACHE_FILE_NAME: &'static str = "usage-tray-cache.json";

/// Name of the fixture file whose contents, where it exists, are presented as
/// the real snapshot.
pub const KAYFABE_FILE_NAME: &'static str = "kayfabe.json";

// ---------------------------------------------------------------------------
// Paths
// ---------------------------------------------------------------------------

/// The directory `~` stands for, or the current one where that is not known.
pub open spec fn home_or_here(home: Option<&str>) -> Seq<char> {
    match home {
        Some(h) => h@,
        None => "."@,
    }
}

/// The assistant's config directory: the override when it is set to more than
/// nothing, else the default one in the home directory.
pub open spec fn config_dir_path(
    env: Option<&str>,
    home: Option<&str>,
    assistant: Assistant,
) -> Seq<char> {
    match env {
        Some(dir) if dir@.len() > 0 => dir@,
        _ => joined_path(home_or_here(home), assistant.dot_dir()),
    }
}

/// The assistant's config directory. `env` is `$CLAUDE_CONFIG_DIR`.
pub fn claude_config_dir(env: Option<&str>, home: Option<&str>, assistant: &Assistant) -> (dir:
    String)
    ensures
        dir@ == config_dir_path(env, home, *assistant),
{
    if let Some(dir) = env {
        if !dir.is_empty() {
            return dir.to_owned();
        }
    }
    let name = assistant.dir_name();
    match home {
        Some(home) => join(home, name.as_str()),
        None => join(".", name.as_str()),
    }
}

/// Cache path inside a config directory.
pub fn cache_path_in(config_dir: &str) -> (path: String)
    ensures
        path@ == joined_path(config_dir@, CACHE_FILE_NAME@),
{
    join(config_dir, CACHE_FILE_NAME)
}

/// Where the cache is.
pub open spec fn cache_path_of(
    env: Option<&str>,
    home: Option<&str>,
    assistant: Assistant,
) -> Seq<char> {
    joined_path(config_dir_path(env, home, assistant), CACHE_FILE_NAME@)
}

/// Default cache file location.
pub fn default_cache_path(env: Option<&str>, home: Option<&str>, assistant: &Assistant) -> (path:
    String)
    ensures
        path@ == joined_path(config_dir_path(env, home, *assistant), CACHE_FILE_NAME@),
        path@ == cache_path_of(env, home, *assistant),
{
    let dir = claude_config_dir(env, home, assistant);
    cache_path_in(dir.as_str())
}

/// Where the fixture is.
pub open spec fn fixture_path_of(config_home: Option<&str>, assistant: Assistant) -> Seq<char> {
    joined_path(crate::config::config_dir_of(config_home, assistant), KAYFABE_FILE_NAME@)
}

/// Default fixture path: next to the config file. `config_home` is the
/// directory that holds the configuration of all programs.
pub fn default_kayfabe_path(config_home: Option<&str>, assistant: &Assistant) -> (path: String)
    ensures
        path@ == joined_path(
            crate::config::config_dir_of(config_home, *assistant),
            KAYFABE_FILE_NAME@,
        ),
        path@ == fixture_path_of(config_home, *assistant),
{
    let dir = crate::config::config_dir(config_home, assistant);
    join(dir.as_str(), KAYFABE_FILE_NAME)
}

// ---------------------------------------------------------------------------
// Writing the cache
// ---------------------------------------------------------------------------

/// Whether a document has a `rate_limits` member other than null.
pub open spec fn has_limits(tree: Tree) -> bool {
    match tree.member("rate_limits"@) {
        Some(limits) => limits != Tree::Null,
        None => false,
    }
}

/// Whether raw bytes are a document that has `rate_limits`.
pub open spec fn bytes_have_limits(bytes: Seq<u8>) -> bool {
    match parsed_json_bytes(bytes) {
        Some(tree) => has_limits(tree),
        None => false,
    }
}

/// Whether `document` has a `rate_limits` member other than null.
pub fn reports_limits(document: &Json) -> (reports: bool)
    ensures
        reports == has_limits(document.tree()),
{
    match document.get("rate_limits") {
        Some(limits) => !limits.is_null(),
        None => false,
    }
}

/// Whether raw statusline bytes have a `rate_limits` member. Bytes that are not
/// JSON, and an explicit null, both lack it.
pub fn has_rate_limits(body: &[u8]) -> (has: bool)
    ensures
        has == bytes_have_limits(body@),
{
    match value_of_bytes(body) {
        Some(value) => {
            let document = json_of_value(&value);
            reports_limits(&document)
        },
        None => false,
    }
}

/// Whether to write: unless what is there has data and what comes in has none.
pub open spec fn keeps_data(incoming_has: bool, existing_has: Option<bool>) -> bool {
    incoming_has || existing_has != Some(true)
}

/// Whether the `statusline` subcommand should overwrite the cache file with the
/// incoming document: always, but where the incoming one lacks `rate_limits`
/// and the existing one has it, which is the one case where writing loses
/// information.
pub fn should_write_cache(incoming: &[u8], existing: Option<&[u8]>) -> (write: bool)
    ensures
        write == keeps_data(
            bytes_have_limits(incoming@),
            match existing {
                Some(bytes) => Some(bytes_have_limits(bytes@)),
                None => None,
            },
        ),
{
    if has_rate_limits(incoming) {
        return true;
    }
    match existing {
        Some(existing) => !has_rate_limits(existing),
        None => true,
    }
}

/// Writing never loses usage data: a cache that has it is only ever replaced
/// by a document that has it too, and a document that has it is always kept.
pub proof fn cache_keeps_usage_data(incoming_has: bool, existing_has: Option<bool>)
    ensures
        keeps_data(incoming_has, existing_has) && existing_has == Some(true) ==> incoming_has,
        incoming_has ==> keeps_data(incoming_has, existing_has),
        existing_has is None ==> keeps_data(incoming_has, existing_has),
        existing_has == Some(true) || incoming_has ==> (if keeps_data(incoming_has, existing_has) {
            incoming_has
        } else {
            existing_has == Some(true)
        }),
{
}

// ---------------------------------------------------------------------------
// Reading the cache
// ---------------------------------------------------------------------------

/// The timestamp of a modification time that is `secs` whole seconds after the
/// Unix epoch, or before it.
pub open spec fn mtime_at(secs: u64, before_epoch: bool) -> Option<Timestamp> {
    if secs > i64::MAX {
        None
    } else if before_epoch {
        Timestamp::at_second(-(secs as int))
    } else {
        Timestamp::at_second(secs as int)
    }
}

/// A file's modification time, given as the whole seconds between it and the
/// Unix epoch. None when it is out of a timestamp's range.
pub fn cache_mtime(secs: u64, before_epoch: bool) -> (at: Option<Timestamp>)
    ensures
        at == mtime_at(secs, before_epoch),
{
    if secs > i64::MAX as u64 {
        return None;
    }
    if before_epoch {
        Timestamp::from_second(-(secs as i64))
    } else {
        Timestamp::from_second(secs as i64)
    }
}

/// Freshness by age: an unknown age counts as fresh.
pub open spec fn freshness(written_at: Option<Timestamp>, now: Timestamp) -> SnapshotState {
    match written_at {
        Some(at) => if now.secs() - at.secs() > STALE_THRESHOLD_SECS {
            SnapshotState::Stale
        } else {
            SnapshotState::Fresh
        },
        None => SnapshotState::Fresh,
    }
}

/// Classifies freshness from the cache file's modification time.
pub fn classify(written_at: Option<Timestamp>, now: Timestamp) -> (state: SnapshotState)
    ensures
        state == freshness(written_at, now),
{
    match written_at {
        Some(at) => {
            if now.as_second() - at.as_second() > STALE_THRESHOLD_SECS {
                SnapshotState::Stale
            } else {
                SnapshotState::Fresh
            }
        },
        None => SnapshotState::Fresh,
    }
}

/// A window with the given readings: one whose reset has passed rolled over
/// while nothing was running, so that nothing of it is used.
pub open spec fn rolled_over(
    percent: Option<Percent>,
    resets_at: Option<Timestamp>,
    now: Timestamp,
) -> Metric {
    let percent = match (percent, resets_at) {
        (Some(p), Some(r)) => if r.nanos() < now.nanos() && p.value() != 0 {
            Some(Percent::none_used())
        } else {
            Some(p)
        },
        (p, _) => p,
    };
    Metric { percent, resets_at }
}

/// A window with the given readings.
pub fn window(
    percent: Option<Percent>,
    resets_at: Option<Timestamp>,
    now: Timestamp,
) -> (metric: Metric)
    ensures
        metric == rolled_over(percent, resets_at, now),
{
    match (percent, resets_at) {
        (Some(p), Some(r)) => {
            if r.before(now) && !p.is_zero() {
                Metric { percent: Some(Percent::zero()), resets_at }
            } else {
                Metric { percent, resets_at }
            }
        },
        _ => Metric { percent, resets_at },
    }
}

/// The percentage that a document's member gives.
pub open spec fn percent_member(tree: Tree, key: Seq<char>) -> Option<Percent> {
    match tree.member(key) {
        Some(member) => match member.number() {
            Some(number) => number_percent(number),
            None => None,
        },
        None => None,
    }
}

/// The percentage that a document's member gives.
pub fn percent_in(document: &Json, key: &str) -> (percent: Option<Percent>)
    ensures
        percent == percent_member(document.tree(), key@),
{
    match document.get(key) {
        Some(member) => match member.as_number() {
            Some(number) => Percent::from_number(number),
            None => None,
        },
        None => None,
    }
}

/// The integer that a document's member gives.
pub open spec fn integer_member(tree: Tree, key: Seq<char>) -> Option<i64> {
    match tree.member(key) {
        Some(member) => member.integer(),
        None => None,
    }
}

/// The integer that a document's member gives.
pub fn integer_in(document: &Json, key: &str) -> (value: Option<i64>)
    ensures
        value == integer_member(document.tree(), key@),
{
    match document.get(key) {
        Some(member) => member.as_i64(),
        None => None,
    }
}

/// What a rate-limit window of a statusline document says.
pub open spec fn statusline_metric(tree: Tree, now: Timestamp) -> Metric {
    rolled_over(
        percent_member(tree, "used_percentage"@),
        match integer_member(tree, "resets_at"@) {
            Some(secs) => Timestamp::at_second(secs as int),
            None => None,
        },
        now,
    )
}

/// Parses one rate-limit window. A reset in the past forces the percentage to
/// zero.
pub fn parse_metric(value: &Json, now: Timestamp) -> (metric: Metric)
    ensures
        metric == statusline_metric(value.tree(), now),
{
    let percent = percent_in(value, "used_percentage");
    let resets_at = match integer_in(value, "resets_at") {
        Some(secs) => Timestamp::from_second(secs),
        None => None,
    };
    window(percent, resets_at, now)
}

/// What an optional window says.
pub open spec fn optional_metric(tree: Option<Tree>, now: Timestamp) -> Option<Metric> {
    match tree {
        Some(t) => Some(statusline_metric(t, now)),
        None => None,
    }
}

/// The rate limits that a statusline document reports.
pub open spec fn limits_in(tree: Tree, now: Timestamp) -> RateLimits {
    let limits = tree.member("rate_limits"@);
    RateLimits {
        session: optional_metric(member_of(limits, "five_hour"@), now),
        weekly: optional_metric(member_of(limits, "seven_day"@), now),
    }
}

/// Pulls the two windows out of a statusline document and ignores every other
/// member.
pub fn rate_limits_of(document: &Json, now: Timestamp) -> (limits: RateLimits)
    ensures
        limits == limits_in(document.tree(), now),
{
    let limits = document.get("rate_limits");
    let session = match get_in(limits, "five_hour") {
        Some(value) => Some(parse_metric(value, now)),
        None => None,
    };
    let weekly = match get_in(limits, "seven_day") {
        Some(value) => Some(parse_metric(value, now)),
        None => None,
    };
    RateLimits { session, weekly }
}

/// Parser for the raw statusline JSON. None means that this is not JSON at
/// all; everything softer than that degrades to absent fields.
pub fn parse_statusline_json(body: &str, now: Timestamp) -> (limits: Option<RateLimits>)
    ensures
        limits == (match parsed_json(body@) {
            Ok(tree) => Some(limits_in(tree, now)),
            Err(_) => None,
        }),
{
    match value_of_text(body) {
        Ok(value) => {
            let document = json_of_value(&value);
            Some(rate_limits_of(&document, now))
        },
        Err(_) => None,
    }
}

/// The snapshot of a cache with the given limits, if it was JSON.
pub open spec fn cache_snapshot(
    limits: Option<RateLimits>,
    written_at: Option<Timestamp>,
    now: Timestamp,
) -> SnapshotView {
    match limits {
        Some(limits) => SnapshotView {
            session: limits.session,
            weekly: limits.weekly,
            written_at,
            state: freshness(written_at, now),
            ..empty_snapshot()
        },
        None => missing_snapshot(),
    }
}

/// The snapshot of a cache with the given limits.
pub fn snapshot_of(
    limits: Option<RateLimits>,
    written_at: Option<Timestamp>,
    now: Timestamp,
) -> (snapshot: UsageSnapshot)
    ensures
        snapshot@ == cache_snapshot(limits, written_at, now),
{
    match limits {
        Some(limits) => {
            let mut snapshot = UsageSnapshot::default();
            snapshot.session = limits.session;
            snapshot.weekly = limits.weekly;
            snapshot.written_at = written_at;
            snapshot.state = classify(written_at, now);
            snapshot
        },
        None => UsageSnapshot::missing(),
    }
}

/// What a cache file's text gives.
pub open spec fn text_snapshot(
    body: Seq<char>,
    written_at: Option<Timestamp>,
    now: Timestamp,
) -> SnapshotView {
    cache_snapshot(
        match parsed_json(body) {
            Ok(tree) => Some(limits_in(tree, now)),
            Err(_) => None,
        },
        written_at,
        now,
    )
}

/// Builds a snapshot from a raw statusline document and the file's
/// modification time. A document without `rate_limits` is a perfectly good, if
/// empty, reading.
pub fn snapshot_from(body: &str, written_at: Option<Timestamp>, now: Timestamp) -> (snapshot:
    UsageSnapshot)
    ensures
        snapshot@ == text_snapshot(body@, written_at, now),
{
    let limits = parse_statusline_json(body, now);
    snapshot_of(limits, written_at, now)
}

/// What reading a cache file gives, whatever came of the read.
pub open spec fn file_snapshot(
    file: FileRead,
    mtime: Option<Timestamp>,
    now: Timestamp,
) -> SnapshotView {
    match file {
        FileRead::Text(body) => text_snapshot(body@, mtime, now),
        _ => missing_snapshot(),
    }
}

/// Turns what was read of a cache file into a snapshot. Any failure to read
/// yields a `Missing` snapshot.
pub fn read_snapshot(file: &FileRead, mtime: Option<Timestamp>, now: Timestamp) -> (snapshot:
    UsageSnapshot)
    ensures
        snapshot@ == file_snapshot(*file, mtime, now),
{
    match file {
        FileRead::Text(body) => snapshot_from(body.as_str(), mtime, now),
        _ => UsageSnapshot::missing(),
    }
}

// ---------------------------------------------------------------------------
// The staged snapshot
// ---------------------------------------------------------------------------

/// The integer that a document's member gives, or a default.
pub open spec fn integer_or(tree: Tree, key: Seq<char>, default: i64) -> int {
    match integer_member(tree, key) {
        Some(value) => value as int,
        None => default as int,
    }
}

/// The second that resets are counted from: the fixture's modification time,
/// or now where that is not known.
pub open spec fn reset_anchor(mtime: Option<Timestamp>, now: Timestamp) -> int {
    match mtime {
        Some(at) => at.secs(),
        None => now.secs(),
    }
}

/// The snapshot that a fixture stages.
pub open spec fn staged(tree: Tree, mtime: Option<Timestamp>, now: Timestamp) -> SnapshotView {
    let written_at = Timestamp::at_second(now.secs() - integer_or(tree, "age_minutes"@, 0) * 60);
    let anchor = reset_anchor(mtime, now);
    let session_resets_at = Timestamp::at_second(
        anchor + integer_or(tree, "session_resets_in_minutes"@, 180) * 60,
    );
    let weekly_resets_at = Timestamp::at_second(
        anchor + integer_or(tree, "weekly_resets_in_days"@, 4) * 86_400,
    );
    SnapshotView {
        session: Some(
            Metric { percent: percent_member(tree, "session"@), resets_at: session_resets_at },
        ),
        weekly: Some(
            Metric { percent: percent_member(tree, "weekly"@), resets_at: weekly_resets_at },
        ),
        scoped: match percent_member(tree, "fable"@) {
            Some(percent) => seq![
                (
                    "Fable"@,
                    Metric { percent: Some(percent), resets_at: weekly_resets_at },
                ),
            ],
            None => seq![],
        },
        scoped_fetched_at: written_at,
        written_at,
        state: freshness(written_at, now),
        hook_missing: false,
    }
}

/// The timestamp `count` times `unit` seconds after `anchor`, where that is in
/// range.
fn offset_second(anchor: i64, count: i64, unit: i64) -> (at: Option<Timestamp>)
    requires
        -86_400 <= unit <= 86_400,
    ensures
        at == Timestamp::at_second(anchor + count * unit),
{
    proof {
        assert(-86_400 * 0x8000_0000_0000_0000 <= count * unit <= 86_400 * 0x8000_0000_0000_0000)
            by (nonlinear_arith)
            requires
                -86_400 <= unit <= 86_400,
                -0x8000_0000_0000_0000 <= count <= 0x8000_0000_0000_0000,
        ;
    }
    let second: i128 = anchor as i128 + count as i128 * unit as i128;
    if second < i64::MIN as i128 || second > i64::MAX as i128 {
        None
    } else {
        Timestamp::from_second(second as i64)
    }
}

/// The integer that a document's member gives, or a default.
fn integer_in_or(document: &Json, key: &str, default: i64) -> (value: i64)
    ensures
        value == integer_or(document.tree(), key@, default),
{
    match integer_in(document, key) {
        Some(value) => value,
        None => default,
    }
}

/// Builds a snapshot from a fixture document.
///
/// Percentages are taken as they are. `age_minutes` counts back from now, so
/// that a staged age keeps meaning what it says on every poll. The two resets
/// count from the fixture's modification time, so that they stand still for an
/// unedited file. A reset already in the past does not zero its percentage.
pub fn staged_snapshot(document: &Json, mtime: Option<Timestamp>, now: Timestamp) -> (snapshot:
    UsageSnapshot)
    ensures
        snapshot@ == staged(document.tree(), mtime, now),
{
    let age_minutes = integer_in_or(document, "age_minutes", 0);
    let written_at = offset_second(now.as_second(), age_minutes, -60);
    let session_in = integer_in_or(document, "session_resets_in_minutes", 180);
    let weekly_in = integer_in_or(document, "weekly_resets_in_days", 4);
    let anchor: i64 = match mtime {
        Some(at) => at.as_second(),
        None => now.as_second(),
    };
    let session_resets_at = offset_second(anchor, session_in, 60);
    let weekly_resets_at = offset_second(anchor, weekly_in, 86_400);
    let mut scoped: Vec<ScopedMetric> = Vec::new();
    proof {
        assert(scoped_view(scoped@) == Seq::<(Seq<char>, Metric)>::empty());
    }
    if let Some(percent) = percent_in(document, "fable") {
        let metric = Metric { percent: Some(percent), resets_at: weekly_resets_at };
        scoped.push(ScopedMetric { name: "Fable".to_owned(), metric });
        proof {
            assert(scoped_view(scoped@) == seq![("Fable"@, metric)]);
        }
    }
    UsageSnapshot {
        session: Some(
            Metric { percent: percent_in(document, "session"), resets_at: session_resets_at },
        ),
        weekly: Some(
            Metric { percent: percent_in(document, "weekly"), resets_at: weekly_resets_at },
        ),
        scoped,
        scoped_fetched_at: written_at,
        written_at,
        state: classify(written_at, now),
        hook_missing: false,
    }
}

/// What a fixture's text stages: nothing where it is not JSON.
pub open spec fn staged_text(
    body: Seq<char>,
    mtime: Option<Timestamp>,
    now: Timestamp,
) -> SnapshotView {
    match parsed_json(body) {
        Ok(tree) => staged(tree, mtime, now),
        Err(_) => missing_snapshot(),
    }
}

/// Builds a snapshot from a fixture's text.
pub fn fake_snapshot(body: &str, mtime: Option<Timestamp>, now: Timestamp) -> (snapshot:
    UsageSnapshot)
    ensures
        snapshot@ == staged_text(body@, mtime, now),
{
    match value_of_text(body) {
        Ok(value) => {
            let document = json_of_value(&value);
            staged_snapshot(&document, mtime, now)
        },
        Err(_) => UsageSnapshot::missing(),
    }
}

/// The resets of an unedited fixture do not move from one poll to the next.
pub proof fn staged_resets_stand_still(
    tree: Tree,
    mtime: Timestamp,
    now: Timestamp,
    later: Timestamp,
)
    ensures
        staged(tree, Some(mtime), now).session == staged(tree, Some(mtime), later).session,
        staged(tree, Some(mtime), now).weekly == staged(tree, Some(mtime), later).weekly,
        staged(tree, Some(mtime), now).scoped == staged(tree, Some(mtime), later).scoped,
{
}

/// A staged age keeps meaning what it says: it is stale exactly when it is
/// more than the threshold, whenever the fixture is read.
pub proof fn staged_age_is_kept(tree: Tree, mtime: Option<Timestamp>, now: Timestamp)
    ensures
        staged(tree, mtime, now).written_at is Some ==> (staged(tree, mtime, now).state
            == SnapshotState::Stale <==> integer_or(tree, "age_minutes"@, 0) * 60
            > STALE_THRESHOLD_SECS),
{
    let second = now.secs() - integer_or(tree, "age_minutes"@, 0) * 60;
    if staged(tree, mtime, now).written_at is Some {
        Timestamp::instant_is_there(second * 1_000_000_000);
    }
}

/// A staged reading stays as old as it says: the time of writing moves with the
/// clock, by the same number of seconds.
pub proof fn staged_writing_moves_with_the_clock(
    tree: Tree,
    mtime: Option<Timestamp>,
    now: Timestamp,
    later: Timestamp,
)
    ensures
        staged(tree, mtime, now).written_at matches Some(then) ==> staged(
            tree,
            mtime,
            later,
        ).written_at matches Some(next) ==> next.secs() - then.secs() == later.secs() - now.secs()
            && now.secs() - then.secs() == integer_or(tree, "age_minutes"@, 0) * 60,
{
    let age = integer_or(tree, "age_minutes"@, 0) * 60;
    if staged(tree, mtime, now).written_at is Some {
        Timestamp::instant_is_there((now.secs() - age) * 1_000_000_000);
    }
    if staged(tree, mtime, later).written_at is Some {
        Timestamp::instant_is_there((later.secs() - age) * 1_000_000_000);
    }
}

// ---------------------------------------------------------------------------
// Merging
// ---------------------------------------------------------------------------

/// The first of two that is there.
pub open spec fn either<T>(first: Option<T>, second: Option<T>) -> Option<T> {
    if first is Some {
        first
    } else {
        second
    }
}

/// Whether the app cache is the fresher source: a dated one beats a hook of
/// unknown age, an undated one beats nothing.
pub open spec fn app_is_newer(app_at: Option<Timestamp>, hook_at: Option<Timestamp>) -> bool {
    match (app_at, hook_at) {
        (Some(a), Some(h)) => a.nanos() > h.nanos(),
        (Some(_), None) => true,
        (None, _) => false,
    }
}

/// The one snapshot that is shown.
pub open spec fn merged(hook: SnapshotView, app: Option<AppView>, now: Timestamp) -> SnapshotView {
    match app {
        None => hook,
        Some(app) => {
            let newer = app_is_newer(app.fetched_at, hook.written_at);
            let session = if newer {
                either(app.session, hook.session)
            } else {
                either(hook.session, app.session)
            };
            let weekly = if newer {
                either(app.weekly, hook.weekly)
            } else {
                either(hook.weekly, app.weekly)
            };
            let written_at = if newer {
                app.fetched_at
            } else {
                either(hook.written_at, app.fetched_at)
            };
            let hook_missing = hook.state == SnapshotState::Missing;
            let no_data = hook_missing && session is None && weekly is None && app.scoped.len()
                == 0;
            SnapshotView {
                session,
                weekly,
                scoped: app.scoped,
                scoped_fetched_at: app.fetched_at,
                written_at,
                state: if no_data {
                    SnapshotState::Missing
                } else {
                    freshness(written_at, now)
                },
                hook_missing,
            }
        },
    }
}

/// The first of two metrics that is there.
fn first_metric(first: Option<Metric>, second: Option<Metric>) -> (metric: Option<Metric>)
    ensures
        metric == either(first, second),
{
    match first {
        Some(metric) => Some(metric),
        None => second,
    }
}

/// Merges the statusline snapshot with the assistant's own record.
///
/// The freshest source wins, per metric, and a metric that the winner lacks
/// falls back to the other source. The per-model buckets always come from the
/// record, since the hook never has them. There is no data only when neither
/// source has any.
pub fn merge_snapshot(hook: UsageSnapshot, app: Option<AppUsage>, now: Timestamp) -> (snapshot:
    UsageSnapshot)
    ensures
        snapshot@ == merged(
            hook@,
            match app {
                Some(a) => Some(a@),
                None => None,
            },
            now,
        ),
{
    let app = match app {
        Some(app) => app,
        None => {
            return hook;
        },
    };
    let hook_missing = match hook.state {
        SnapshotState::Missing => true,
        _ => false,
    };
    let newer = match (app.fetched_at, hook.written_at) {
        (Some(app_at), Some(hook_at)) => hook_at.before(app_at),
        (Some(_), None) => true,
        (None, _) => false,
    };
    let session: Option<Metric>;
    let weekly: Option<Metric>;
    let written_at: Option<Timestamp>;
    if newer {
        session = first_metric(app.session, hook.session);
        weekly = first_metric(app.weekly, hook.weekly);
        written_at = app.fetched_at;
    } else {
        session = first_metric(hook.session, app.session);
        weekly = first_metric(hook.weekly, app.weekly);
        written_at = match hook.written_at {
            Some(at) => Some(at),
            None => app.fetched_at,
        };
    }
    let no_data = hook_missing && session.is_none() && weekly.is_none() && app.scoped.len() == 0;
    let state = if no_data {
        SnapshotState::Missing
    } else {
        classify(written_at, now)
    };
    UsageSnapshot {
        session,
        weekly,
        scoped: app.scoped,
        scoped_fetched_at: app.fetched_at,
        written_at,
        state,
        hook_missing,
    }
}

/// Merging loses nothing: a metric that either source has is shown, the
/// per-model buckets are the record's, and the fresher source's metric wins.
pub proof fn merge_loses_nothing(hook: SnapshotView, app: AppView, now: Timestamp)
    ensures
        merged(hook, Some(app), now).session is Some <==> hook.session is Some || app.session
            is Some,
        merged(hook, Some(app), now).weekly is Some <==> hook.weekly is Some || app.weekly is Some,
        merged(hook, Some(app), now).scoped == app.scoped,
        app_is_newer(app.fetched_at, hook.written_at) && app.session is Some ==> merged(
            hook,
            Some(app),
            now,
        ).session == app.session,
        !app_is_newer(app.fetched_at, hook.written_at) && hook.session is Some ==> merged(
            hook,
            Some(app),
            now,
        ).session == hook.session,
        app_is_newer(app.fetched_at, hook.written_at) && app.weekly is Some ==> merged(
            hook,
            Some(app),
            now,
        ).weekly == app.weekly,
        !app_is_newer(app.fetched_at, hook.written_at) && hook.weekly is Some ==> merged(
            hook,
            Some(app),
            now,
        ).weekly == hook.weekly,
{
}

/// There is no data exactly when neither source has any.
pub proof fn merge_misses_only_when_both_do(hook: SnapshotView, app: AppView, now: Timestamp)
    ensures
        merged(hook, Some(app), now).state == SnapshotState::Missing <==> (hook.state
            == SnapshotState::Missing && hook.session is None && hook.weekly is None
            && app.session is None && app.weekly is None && app.scoped.len() == 0),
        merged(hook, None, now).state == hook.state,
{
}

/// The time shown is that of the later of the two reports.
pub proof fn merge_shows_latest_report(hook: SnapshotView, app: AppView, now: Timestamp)
    ensures
        hook.written_at matches Some(h) ==> app.fetched_at matches Some(a) ==> merged(
            hook,
            Some(app),
            now,
        ).written_at == Some(
            if a.nanos() > h.nanos() {
                a
            } else {
                h
            },
        ),
{
}

/// What the poll reads: the fixture where there is one, else the two real
/// sources merged.
pub open spec fn polled(
    kayfabe: FileRead,
    kayfabe_mtime: Option<Timestamp>,
    cache: FileRead,
    cache_mtime: Option<Timestamp>,
    app_cache: FileRead,
    now: Timestamp,
) -> SnapshotView {
    match kayfabe {
        FileRead::Text(body) => staged_text(body@, kayfabe_mtime, now),
        FileRead::NotFound => merged(
            file_snapshot(cache, cache_mtime, now),
            app_file_usage(app_cache, now),
            now,
        ),
        FileRead::Failed(_) => missing_snapshot(),
    }
}

/// The read that the tray polls, given what was read of the three files. The
/// fixture, where it exists, becomes the snapshot and both real sources are
/// ignored; a fixture that cannot be read is as a missing cache.
pub fn read_merged_or_kayfabe(
    kayfabe: &FileRead,
    kayfabe_mtime: Option<Timestamp>,
    cache: &FileRead,
    cache_mtime: Option<Timestamp>,
    app_cache: &FileRead,
    now: Timestamp,
) -> (snapshot: UsageSnapshot)
    ensures
        snapshot@ == polled(*kayfabe, kayfabe_mtime, *cache, cache_mtime, *app_cache, now),
{
    match kayfabe {
        FileRead::Text(body) => fake_snapshot(body.as_str(), kayfabe_mtime, now),
        FileRead::NotFound => {
            let hook = read_snapshot(cache, cache_mtime, now);
            let app = read_app_usage(app_cache, now);
            merge_snapshot(hook, app, now)
        },
        FileRead::Failed(_) => UsageSnapshot::missing(),
    }
}

} // verus!
