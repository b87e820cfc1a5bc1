//! The assistant's own usage record.
//!
//! The record is an internal cache and no contract: every field is optional,
//! and any surprise means that a metric is absent.

use vstd::prelude::*;
use vstd::string::*;

use crate::assistant::Assistant;
use crate::files::FileRead;
use crate::json::{
    get_in, item_trees, item_trees_index, item_trees_len, json_of_value, member_of, parsed_json,
    value_of_text, Json, Tree,
};
use crate::paths::{join, joined_path};
use crate::source::{
    home_or_here, integer_in, integer_member, percent_in, percent_member, rolled_over, window, Metric,
};
use crate::text::same_text;
use crate::time::{parse_timestamp, timestamp_in, Timestamp};

verus! {

/// One per-model weekly bucket, such as "Fable at 71%".
#[derive(Clone, Debug, PartialEq, Eq)]
pub struct ScopedMetric {
    /// The model's display name.
    pub name: String,
    pub metric: Metric,
}

/// What per-model buckets say: name and metric of each, in order.
pub open spec fn scoped_view(scoped: Seq<ScopedMetric>) -> Seq<(Seq<char>, Metric)> {
    scoped.map_values(|s: ScopedMetric| (s.name@, s.metric))
}

/// The usable part of the record.
#[derive(Clone, Debug, PartialEq, Eq)]
pub struct AppUsage {
    pub session: Option<Metric>,
    pub weekly: Option<Metric>,
    /// Per-model weekly buckets, in the order of the record.
    pub scoped: Vec<ScopedMetric>,
    /// When the record was fetched.
    pub fetched_at: Option<Timestamp>,
}

/// The contents of an [`AppUsage`].
pub ghost struct AppView {
    pub session: Option<Metric>,
    pub weekly: Option<Metric>,
    pub scoped: Seq<(Seq<char>, Metric)>,
    pub fetched_at: Option<Timestamp>,
}

impl View for AppUsage {
    type V = AppView;

    open spec fn view(&self) -> AppView {
        AppView {
            session: self.session,
            weekly: self.weekly,
            scoped: scoped_view(self.scoped@),
            fetched_at: self.fetched_at,
        }
    }
}

impl Default for AppUsage {
    fn default() -> (usage: Self)
        ensures
            usage@ == (AppView { session: None, weekly: None, scoped: seq![], fetched_at: None }),
    {
        let scoped: Vec<ScopedMetric> = Vec::new();
        proof {
            assert(scoped_view(scoped@) == Seq::<(Seq<char>, Metric)>::empty());
        }
        AppUsage { session: None, weekly: None, scoped, fetched_at: None }
    }
}

/// Where the record is: inside the config directory that the override names,
/// else in the home directory itself.
pub open spec fn app_cache_at(
    config_dir: Option<&str>,
    home: Option<&str>,
    assistant: Assistant,
) -> Seq<char> {
    match config_dir {
        Some(dir) if dir@.len() > 0 => joined_path(dir@, assistant.dot_json()),
        _ => joined_path(home_or_here(home), assistant.dot_json()),
    }
}

/// Where the record is. `config_dir` is `$CLAUDE_CONFIG_DIR`.
pub fn app_cache_path_from(
    config_dir: Option<&str>,
    home: Option<&str>,
    assistant: &Assistant,
) -> (path: String)
    ensures
        path@ == app_cache_at(config_dir, home, *assistant),
{
    let name = assistant.record_name();
    if let Some(dir) = config_dir {
        if !dir.is_empty() {
            return join(dir, name.as_str());
        }
    }
    match home {
        Some(home) => join(home, name.as_str()),
        None => join(".", name.as_str()),
    }
}

/// What one rate-limit window of the record says.
pub open spec fn record_metric(tree: Tree, percent_key: Seq<char>, now: Timestamp) -> Metric {
    rolled_over(
        percent_member(tree, percent_key),
        match tree.member("resets_at"@) {
            Some(member) => match member.text() {
                Some(text) => timestamp_in(text),
                None => None,
            },
            None => None,
        },
        now,
    )
}

/// Parses one rate-limit window. The key of the percentage differs between the
/// named buckets and the per-model ones; the reset is an ISO-8601 text in
/// both. A reset in the past forces the percentage to zero.
pub fn parse_window(value: &Json, percent_key: &str, now: Timestamp) -> (metric: Metric)
    ensures
        metric == record_metric(value.tree(), percent_key@, now),
{
    let percent = percent_in(value, percent_key);
    let resets_at = match value.get("resets_at") {
        Some(member) => match member.as_str() {
            Some(text) => parse_timestamp(text),
            None => None,
        },
        None => None,
    };
    window(percent, resets_at, now)
}

/// A named bucket of the record, where it is an object.
pub open spec fn named_bucket(
    utilization: Option<Tree>,
    key: Seq<char>,
    now: Timestamp,
) -> Option<Metric> {
    match member_of(utilization, key) {
        Some(tree) => if tree is Object {
            Some(record_metric(tree, "utilization"@, now))
        } else {
            None
        },
        None => None,
    }
}

/// What an entry of the `limits` list says: the bucket of one model, where it
/// is of that kind and names the model.
pub open spec fn scoped_entry(tree: Tree, now: Timestamp) -> Option<(Seq<char>, Metric)> {
    let kind = match tree.member("kind"@) {
        Some(k) => k.text(),
        None => None,
    };
    let name = match member_of(member_of(tree.member("scope"@), "model"@), "display_name"@) {
        Some(n) => n.text(),
        None => None,
    };
    match (kind, name) {
        (Some(k), Some(n)) => if k == "weekly_scoped"@ {
            Some((n, record_metric(tree, "percent"@, now)))
        } else {
            None
        },
        _ => None,
    }
}

/// The buckets among the entries, in order.
pub open spec fn scoped_entries(entries: Seq<Tree>, now: Timestamp) -> Seq<(Seq<char>, Metric)>
    decreases entries.len(),
{
    if entries.len() == 0 {
        seq![]
    } else {
        let before = scoped_entries(entries.drop_last(), now);
        match scoped_entry(entries.last(), now) {
            Some(bucket) => before.push(bucket),
            None => before,
        }
    }
}

/// What a document of the record says of usage, if it says anything.
pub open spec fn recorded_usage(tree: Tree, now: Timestamp) -> Option<AppView> {
    match tree.member("cachedUsageUtilization"@) {
        Some(cached) => if cached is Object {
            let utilization = cached.member("utilization"@);
            Some(
                AppView {
                    session: named_bucket(utilization, "five_hour"@, now),
                    weekly: named_bucket(utilization, "seven_day"@, now),
                    scoped: match member_of(utilization, "limits"@) {
                        Some(limits) => match limits.items() {
                            Some(entries) => scoped_entries(entries, now),
                            None => seq![],
                        },
                        None => seq![],
                    },
                    fetched_at: match integer_member(cached, "fetchedAtMs"@) {
                        Some(ms) => Timestamp::at_millisecond(ms as int),
                        None => None,
                    },
                },
            )
        } else {
            None
        },
        None => None,
    }
}

/// A named bucket of the record, where it is an object.
fn bucket(utilization: Option<&Json>, key: &str, now: Timestamp) -> (metric: Option<Metric>)
    ensures
        metric == named_bucket(crate::json::tree_of(utilization), key@, now),
{
    match get_in(utilization, key) {
        Some(value) => match value {
            Json::Object(_) => Some(parse_window(value, "utilization", now)),
            _ => None,
        },
        None => None,
    }
}

/// The bucket of one model that an entry of the `limits` list gives.
fn parse_scoped(entry: &Json, now: Timestamp) -> (bucket: Option<ScopedMetric>)
    ensures
        match scoped_entry(entry.tree(), now) {
            Some((name, metric)) => bucket matches Some(b) && b.name@ == name && b.metric == metric,
            None => bucket is None,
        },
{
    let kind = match entry.get("kind") {
        Some(member) => member.as_str(),
        None => None,
    };
    let is_scoped = match kind {
        Some(kind) => same_text(kind, "weekly_scoped"),
        None => false,
    };
    if !is_scoped {
        return None;
    }
    let model = get_in(entry.get("scope"), "model");
    let name = match get_in(model, "display_name") {
        Some(member) => member.as_str(),
        None => None,
    };
    match name {
        Some(name) => Some(
            ScopedMetric { name: name.to_owned(), metric: parse_window(entry, "percent", now) },
        ),
        None => None,
    }
}

/// The buckets among the entries of the `limits` list, in order.
fn parse_limits(entries: &Vec<Json>, now: Timestamp) -> (scoped: Vec<ScopedMetric>)
    ensures
        scoped_view(scoped@) == scoped_entries(item_trees(entries@), now),
{
    let mut scoped: Vec<ScopedMetric> = Vec::new();
    let ghost trees = item_trees(entries@);
    let mut i: usize = 0;
    proof {
        item_trees_len(entries@);
        assert(scoped_view(scoped@) == Seq::<(Seq<char>, Metric)>::empty());
    }
    while i < entries.len()
        invariant
            i <= entries.len() == trees.len(),
            trees == item_trees(entries@),
            scoped_view(scoped@) == scoped_entries(trees.take(i as int), now),
        decreases entries.len() - i,
    {
        proof {
            item_trees_index(entries@, i as int);
            let here = trees.take(i as int + 1);
            assert(here.drop_last() == trees.take(i as int));
            assert(here.last() == trees[i as int]);
        }
        if let Some(found) = parse_scoped(&entries[i], now) {
            let ghost before = scoped@;
            scoped.push(found);
            proof {
                assert(scoped_view(scoped@) == scoped_view(before).push((found.name@, found.metric)));
            }
        }
        i = i + 1;
    }
    proof {
        assert(trees.take(trees.len() as int) == trees);
    }
    scoped
}

/// Reads the usage record out of its document.
pub fn app_usage_of(document: &Json, now: Timestamp) -> (usage: Option<AppUsage>)
    ensures
        match recorded_usage(document.tree(), now) {
            Some(view) => usage matches Some(u) && u@ == view,
            None => usage is None,
        },
{
    let cached = match document.get("cachedUsageUtilization") {
        Some(cached) => cached,
        None => {
            return None;
        },
    };
    match cached {
        Json::Object(_) => {},
        _ => {
            return None;
        },
    }
    let fetched_at = match integer_in(cached, "fetchedAtMs") {
        Some(ms) => Timestamp::from_millisecond(ms),
        None => None,
    };
    let utilization = cached.get("utilization");
    let limits = match get_in(utilization, "limits") {
        Some(limits) => limits.as_list(),
        None => None,
    };
    let mut scoped: Vec<ScopedMetric> = Vec::new();
    proof {
        assert(scoped_view(scoped@) == Seq::<(Seq<char>, Metric)>::empty());
    }
    if let Some(entries) = limits {
        scoped = parse_limits(entries, now);
    }
    Some(
        AppUsage {
            session: bucket(utilization, "five_hour", now),
            weekly: bucket(utilization, "seven_day", now),
            scoped,
            fetched_at,
        },
    )
}

/// What a text of the record says of usage.
pub open spec fn text_usage(body: Seq<char>, now: Timestamp) -> Option<AppView> {
    match parsed_json(body) {
        Ok(tree) => recorded_usage(tree, now),
        Err(_) => None,
    }
}

/// Parser for the text of the record: every missing or mistyped
/// field degrades to absence.
pub fn parse_app_cache(body: &str, now: Timestamp) -> (usage: Option<AppUsage>)
    ensures
        match text_usage(body@, now) {
            Some(view) => usage matches Some(u) && u@ == view,
            None => usage is None,
        },
{
    match value_of_text(body) {
        Ok(value) => {
            let document = json_of_value(&value);
            app_usage_of(&document, now)
        },
        Err(_) => None,
    }
}

/// What was read of the record says of usage: nothing after any failure.
pub open spec fn app_file_usage(file: FileRead, now: Timestamp) -> Option<AppView> {
    match file {
        FileRead::Text(body) => text_usage(body@, now),
        _ => None,
    }
}

/// Parses what was read of the record.
pub fn read_app_usage(file: &FileRead, now: Timestamp) -> (usage: Option<AppUsage>)
    ensures
        match app_file_usage(*file, now) {
            Some(view) => usage matches Some(u) && u@ == view,
            None => usage is None,
        },
{
    match file {
        FileRead::Text(body) => parse_app_cache(body.as_str(), now),
        _ => None,
    }
}

} // verus!
