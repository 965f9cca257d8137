//! The tabs that change how a scan runs: engine, cache, keeper, safety and pre-flight.
use vstd::prelude::*;

use crate::text::{cat2, cat3, decimal, decimal_string};

verus! {

/// The content hash.
#[derive(Clone, Copy, Debug, PartialEq, Eq, Structural)]
pub enum HashAlgo {
    River5,
    Blake3,
}

/// The hash's name in the list.
pub open spec fn algo_label(algo: HashAlgo) -> Seq<char> {
    match algo {
        HashAlgo::Blake3 => "BLAKE3 (32-byte, cryptographic)"@,
        HashAlgo::River5 => "RIVER5 (16-byte, AES-NI, default)"@,
    }
}

impl HashAlgo {
    /// The hash's name in the list.
    pub fn label(self) -> (r: &'static str)
        ensures
            r@ == algo_label(self),
    {
        match self {
            HashAlgo::Blake3 => "BLAKE3 (32-byte, cryptographic)",
            HashAlgo::River5 => "RIVER5 (16-byte, AES-NI, default)",
        }
    }
}

/// How the keeper of a group is picked.
#[derive(Clone, Copy, Debug, PartialEq, Eq, Structural)]
pub enum KeepStrategy {
    Smart,
    Newest,
    Oldest,
    ShortestPath,
    LongestPath,
    First,
    InReference,
}

/// The strategy's name in the list.
pub open spec fn strategy_label(strategy: KeepStrategy) -> Seq<char> {
    match strategy {
        KeepStrategy::Smart => "Smart (default) — heuristic scoring"@,
        KeepStrategy::Newest => "Newest — keep most recently modified"@,
        KeepStrategy::Oldest => "Oldest — keep earliest modified"@,
        KeepStrategy::ShortestPath => "Shortest path — closer to volume root"@,
        KeepStrategy::LongestPath => "Longest path — deepest in tree"@,
        KeepStrategy::First => "First — preserve scan order"@,
        KeepStrategy::InReference => "In-reference — favour the copy under a reference root"@,
    }
}

/// The strategies in the order they are listed.
pub open spec fn strategies() -> Seq<KeepStrategy> {
    seq![
        KeepStrategy::Smart,
        KeepStrategy::Newest,
        KeepStrategy::Oldest,
        KeepStrategy::ShortestPath,
        KeepStrategy::LongestPath,
        KeepStrategy::First,
        KeepStrategy::InReference,
    ]
}

impl KeepStrategy {
    /// The strategy's name in the list.
    pub fn label(self) -> (r: &'static str)
        ensures
            r@ == strategy_label(self),
    {
        match self {
            KeepStrategy::Smart => "Smart (default) — heuristic scoring",
            KeepStrategy::Newest => "Newest — keep most recently modified",
            KeepStrategy::Oldest => "Oldest — keep earliest modified",
            KeepStrategy::ShortestPath => "Shortest path — closer to volume root",
            KeepStrategy::LongestPath => "Longest path — deepest in tree",
            KeepStrategy::First => "First — preserve scan order",
            KeepStrategy::InReference => "In-reference — favour the copy under a reference root",
        }
    }

    /// The strategies in the order they are listed.
    pub fn all() -> (r: Vec<KeepStrategy>)
        ensures
            r@ == strategies(),
    {
        let mut r: Vec<KeepStrategy> = Vec::new();
        r.push(KeepStrategy::Smart);
        r.push(KeepStrategy::Newest);
        r.push(KeepStrategy::Oldest);
        r.push(KeepStrategy::ShortestPath);
        r.push(KeepStrategy::LongestPath);
        r.push(KeepStrategy::First);
        r.push(KeepStrategy::InReference);
        assert(r@ =~= strategies());
        r
    }
}

/// The sizes that a file must lie between.
#[derive(Clone, Copy, Debug, PartialEq, Eq, Structural)]
pub struct SizeLimits {
    pub min_size_bytes: u64,
    pub max_size_bytes: Option<u64>,
}

/// The switches of the tabs.
#[derive(Clone, Copy, Debug, PartialEq, Eq, Structural)]
pub struct ScanSwitches {
    pub use_format_aware: bool,
    pub follow_links: bool,
    pub allow_system_paths: bool,
    pub use_cache: bool,
    pub always_use_cache: bool,
    pub bypass_destructive_confirmation: bool,
    pub dismissed_alpha_warning: bool,
    pub skip_preflight: bool,
}

/// The knobs of the next scan.
#[derive(Clone, Copy, Debug, PartialEq, Eq, Structural)]
pub struct ScanKnobs {
    pub hash_algo: HashAlgo,
    pub sizes: SizeLimits,
    /// The number of worker threads, or none where the machine decides.
    pub threads: Option<usize>,
    pub keep_strategy: KeepStrategy,
    /// The days that scan history is kept, or 0 for ever.
    pub history_retention_days: u32,
    pub switches: ScanSwitches,
}

/// The settings of the next scan: its knobs, and the patterns that files must and must not match.
#[derive(Clone, Debug)]
pub struct ScanSettings {
    pub knobs: ScanKnobs,
    pub include_glob: String,
    pub exclude_glob: String,
}

/// A switch in the tabs.
#[derive(Clone, Copy, Debug, PartialEq, Eq, Structural)]
pub enum SettingsSwitch {
    FormatAware,
    FollowLinks,
    AllowSystemPaths,
    UseCache,
    AlwaysUseCache,
    BypassConfirmation,
    DismissAlphaWarning,
    SkipPreflight,
}

/// One change in the tabs.
#[derive(Clone, Copy, Debug, PartialEq, Eq, Structural)]
pub enum SettingsEdit {
    HashAlgo(HashAlgo),
    MinSize(u64),
    /// The switch that sets an upper size.
    CapMaxSize(bool),
    MaxSize(u64),
    /// The switch that sets the number of threads.
    ExplicitThreads(bool),
    Threads(usize),
    Keep(KeepStrategy),
    HistoryRetention(u32),
    Switch(SettingsSwitch, bool),
}

/// The largest size that the fields take.
pub const SIZE_LIMIT: u64 = 1_000_000_000_000_000;

/// The upper size that is set when the switch is turned on for the first time.
pub const DEFAULT_MAX_SIZE: u64 = 1_073_741_824;

/// The most threads that the field takes.
pub const THREAD_LIMIT: usize = 256;

/// The size within the field's limits.
pub open spec fn within_limit(size: u64) -> u64 {
    if size > SIZE_LIMIT {
        SIZE_LIMIT
    } else {
        size
    }
}

/// The number of threads within the field's limits.
pub open spec fn within_threads(threads: usize) -> usize {
    if threads < 1 {
        1
    } else if threads > THREAD_LIMIT {
        THREAD_LIMIT
    } else {
        threads
    }
}

/// The knobs after a switch was set. The switch for using the cache without asking is disabled
/// while the cache is off.
pub open spec fn switched(s: ScanSwitches, switch: SettingsSwitch, on: bool) -> ScanSwitches {
    match switch {
        SettingsSwitch::FormatAware => ScanSwitches { use_format_aware: on, ..s },
        SettingsSwitch::FollowLinks => ScanSwitches { follow_links: on, ..s },
        SettingsSwitch::AllowSystemPaths => ScanSwitches { allow_system_paths: on, ..s },
        SettingsSwitch::UseCache => ScanSwitches { use_cache: on, ..s },
        SettingsSwitch::AlwaysUseCache => ScanSwitches {
            always_use_cache: if s.use_cache {
                on
            } else {
                s.always_use_cache
            },
            ..s
        },
        SettingsSwitch::BypassConfirmation => ScanSwitches {
            bypass_destructive_confirmation: on,
            ..s
        },
        SettingsSwitch::DismissAlphaWarning => ScanSwitches { dismissed_alpha_warning: on, ..s },
        SettingsSwitch::SkipPreflight => ScanSwitches { skip_preflight: on, ..s },
    }
}

/// The upper size after its field was changed: the field is shown where there is one.
pub open spec fn max_after(max: Option<u64>, size: u64) -> Option<u64> {
    if max is Some {
        Some(within_limit(size))
    } else {
        None
    }
}

/// The number of threads after its field was changed: the field is shown where there is one.
pub open spec fn threads_after(threads: Option<usize>, n: usize) -> Option<usize> {
    if threads is Some {
        Some(within_threads(n))
    } else {
        None
    }
}

/// The number of threads after its switch was set.
pub open spec fn explicit_after(on: bool, cpus: usize) -> Option<usize> {
    if on {
        Some(cpus)
    } else {
        None
    }
}

/// The knobs after a change. A field that is not shown, or is disabled, changes nothing.
pub open spec fn edited(s: ScanKnobs, edit: SettingsEdit, cpus: usize) -> ScanKnobs {
    match edit {
        SettingsEdit::HashAlgo(v) => ScanKnobs { hash_algo: v, ..s },
        SettingsEdit::MinSize(v) => ScanKnobs {
            sizes: SizeLimits { min_size_bytes: within_limit(v), ..s.sizes },
            ..s
        },
        SettingsEdit::CapMaxSize(on) => ScanKnobs {
            sizes: SizeLimits { max_size_bytes: cap_after(s.sizes.max_size_bytes, on), ..s.sizes },
            ..s
        },
        SettingsEdit::MaxSize(v) => ScanKnobs {
            sizes: SizeLimits { max_size_bytes: max_after(s.sizes.max_size_bytes, v), ..s.sizes },
            ..s
        },
        SettingsEdit::ExplicitThreads(on) => ScanKnobs {
            threads: explicit_after(on, cpus),
            ..s
        },
        SettingsEdit::Threads(v) => ScanKnobs { threads: threads_after(s.threads, v), ..s },
        SettingsEdit::Keep(v) => ScanKnobs { keep_strategy: v, ..s },
        SettingsEdit::HistoryRetention(v) => ScanKnobs { history_retention_days: v, ..s },
        SettingsEdit::Switch(switch, on) => ScanKnobs {
            switches: switched(s.switches, switch, on),
            ..s
        },
    }
}

fn limited(size: u64) -> (r: u64)
    ensures
        r == within_limit(size),
{
    if size > SIZE_LIMIT {
        SIZE_LIMIT
    } else {
        size
    }
}

fn limited_threads(threads: usize) -> (r: usize)
    ensures
        r == within_threads(threads),
{
    if threads < 1 {
        1
    } else if threads > THREAD_LIMIT {
        THREAD_LIMIT
    } else {
        threads
    }
}

/// The upper size after its switch was set.
pub open spec fn cap_after(max: Option<u64>, on: bool) -> Option<u64> {
    if !on {
        None
    } else if max is Some {
        max
    } else {
        Some(DEFAULT_MAX_SIZE)
    }
}

fn capped(max: Option<u64>, on: bool) -> (r: Option<u64>)
    ensures
        r == cap_after(max, on),
{
    if !on {
        None
    } else if max.is_some() {
        max
    } else {
        Some(DEFAULT_MAX_SIZE)
    }
}

fn resized(max: Option<u64>, size: u64) -> (r: Option<u64>)
    ensures
        r == max_after(max, size),
{
    if max.is_some() {
        Some(limited(size))
    } else {
        None
    }
}

fn rethreaded(threads: Option<usize>, n: usize) -> (r: Option<usize>)
    ensures
        r == threads_after(threads, n),
{
    if threads.is_some() {
        Some(limited_threads(n))
    } else {
        None
    }
}

fn set_switch(switches: ScanSwitches, switch: SettingsSwitch, on: bool) -> (r: ScanSwitches)
    ensures
        r == switched(switches, switch, on),
{
    let mut r = switches;
    match switch {
        SettingsSwitch::FormatAware => {
            r.use_format_aware = on;
        },
        SettingsSwitch::FollowLinks => {
            r.follow_links = on;
        },
        SettingsSwitch::AllowSystemPaths => {
            r.allow_system_paths = on;
        },
        SettingsSwitch::UseCache => {
            r.use_cache = on;
        },
        SettingsSwitch::AlwaysUseCache => {
            if switches.use_cache {
                r.always_use_cache = on;
            }
        },
        SettingsSwitch::BypassConfirmation => {
            r.bypass_destructive_confirmation = on;
        },
        SettingsSwitch::DismissAlphaWarning => {
            r.dismissed_alpha_warning = on;
        },
        SettingsSwitch::SkipPreflight => {
            r.skip_preflight = on;
        },
    }
    r
}

/// Applies one change of the tabs. `cpus` is the number of threads the machine would choose.
pub fn apply_edit(knobs: &mut ScanKnobs, edit: SettingsEdit, cpus: usize)
    ensures
        *final(knobs) == edited(*old(knobs), edit, cpus),
{
    let settings = *knobs;
    let sizes = settings.sizes;
    *knobs = match edit {
        SettingsEdit::HashAlgo(v) => ScanKnobs { hash_algo: v, ..settings },
        SettingsEdit::MinSize(v) => ScanKnobs {
            sizes: SizeLimits { min_size_bytes: limited(v), ..sizes },
            ..settings
        },
        SettingsEdit::CapMaxSize(on) => ScanKnobs {
            sizes: SizeLimits { max_size_bytes: capped(sizes.max_size_bytes, on), ..sizes },
            ..settings
        },
        SettingsEdit::MaxSize(v) => ScanKnobs {
            sizes: SizeLimits { max_size_bytes: resized(sizes.max_size_bytes, v), ..sizes },
            ..settings
        },
        SettingsEdit::ExplicitThreads(on) => ScanKnobs {
            threads: if on {
                Some(cpus)
            } else {
                None
            },
            ..settings
        },
        SettingsEdit::Threads(v) => ScanKnobs {
            threads: rethreaded(settings.threads, v),
            ..settings
        },
        SettingsEdit::Keep(v) => ScanKnobs { keep_strategy: v, ..settings },
        SettingsEdit::HistoryRetention(v) => ScanKnobs { history_retention_days: v, ..settings },
        SettingsEdit::Switch(switch, on) => ScanKnobs {
            switches: set_switch(settings.switches, switch, on),
            ..settings
        },
    };
}

/// Sets the pattern that files have to match.
pub fn set_include_glob(settings: &mut ScanSettings, glob: String)
    ensures
        final(settings).include_glob@ == glob@,
        final(settings).knobs == old(settings).knobs,
        final(settings).exclude_glob == old(settings).exclude_glob,
{
    settings.include_glob = glob;
}

/// Sets the pattern that files must not match.
pub fn set_exclude_glob(settings: &mut ScanSettings, glob: String)
    ensures
        final(settings).exclude_glob@ == glob@,
        final(settings).knobs == old(settings).knobs,
        final(settings).include_glob == old(settings).include_glob,
{
    settings.exclude_glob = glob;
}

/// What stands behind the thread switch while the machine decides.
pub fn auto_threads_line(cpus: usize) -> (r: String)
    ensures
        r@ == "auto ("@ + decimal(cpus as nat) + ")"@,
{
    let n = decimal_string(cpus as u64);
    cat3("auto (", n.as_str(), ")")
}

/// The warning below the switch that takes the prompts away.
pub fn bypass_warning(knobs: &ScanKnobs) -> (r: Option<&'static str>)
    ensures
        match r {
            Some(line) => knobs.switches.bypass_destructive_confirmation && line@
                == "⚠ Destructive actions will fire WITHOUT confirmation."@,
            None => !knobs.switches.bypass_destructive_confirmation,
        },
{
    if knobs.switches.bypass_destructive_confirmation {
        Some("⚠ Destructive actions will fire WITHOUT confirmation.")
    } else {
        None
    }
}

/// How long scan history is kept, in words.
pub open spec fn retention_text(days: u32) -> Seq<char> {
    if days == 0 {
        "Forever"@
    } else if days == 30 {
        "30 days"@
    } else if days == 90 {
        "90 days"@
    } else if days == 365 {
        "1 year"@
    } else {
        decimal(days as nat) + " days (custom)"@
    }
}

/// How long scan history is kept, in words.
pub fn retention_label(days: u32) -> (r: String)
    ensures
        r@ == retention_text(days),
{
    if days == 0 {
        "Forever".to_owned()
    } else if days == 30 {
        "30 days".to_owned()
    } else if days == 90 {
        "90 days".to_owned()
    } else if days == 365 {
        "1 year".to_owned()
    } else {
        let n = decimal_string(days as u64);
        cat2(n.as_str(), " days (custom)")
    }
}

/// What happens to old rows, where they are not kept for ever.
pub fn retention_note(days: u32) -> (r: Option<String>)
    ensures
        match r {
            Some(line) => days > 0 && line@ == "Rows older than "@ + decimal(days as nat)
                + " days will be removed on next app launch."@,
            None => days == 0,
        },
{
    if days > 0 {
        let n = decimal_string(days as u64);
        Some(cat3("Rows older than ", n.as_str(), " days will be removed on next app launch."))
    } else {
        None
    }
}

/// A change keeps the sizes within the fields' limit, and a thread count at 1 or more.
pub proof fn edits_stay_within_limits(s: ScanKnobs, edit: SettingsEdit, cpus: usize)
    requires
        s.sizes.min_size_bytes <= SIZE_LIMIT,
        s.sizes.max_size_bytes matches Some(max) ==> max <= SIZE_LIMIT,
        s.threads matches Some(n) ==> 1 <= n,
        1 <= cpus,
    ensures
        edited(s, edit, cpus).sizes.min_size_bytes <= SIZE_LIMIT,
        edited(s, edit, cpus).sizes.max_size_bytes matches Some(max) ==> max <= SIZE_LIMIT,
        edited(s, edit, cpus).threads matches Some(n) ==> 1 <= n,
{
}

/// Turning the upper size off and on again sets it to its default; turning it on twice keeps it.
pub proof fn capping_twice_keeps_the_cap(s: ScanKnobs, cpus: usize)
    ensures
        edited(edited(s, SettingsEdit::CapMaxSize(true), cpus), SettingsEdit::CapMaxSize(true), cpus)
            == edited(s, SettingsEdit::CapMaxSize(true), cpus),
        edited(
            edited(s, SettingsEdit::CapMaxSize(false), cpus),
            SettingsEdit::CapMaxSize(true),
            cpus,
        ).sizes.max_size_bytes == Some(DEFAULT_MAX_SIZE),
{
}

/// An edit changes what it names and nothing else: sizes up to the largest one that the fields
/// take, an upper size and a number of threads only where they are set.
pub proof fn edits_change_what_they_name(s: ScanKnobs, edit: SettingsEdit, cpus: usize)
    ensures
        ({
            let t = edited(s, edit, cpus);
            &&& match edit {
                SettingsEdit::HashAlgo(v) => t.hash_algo == v,
                _ => t.hash_algo == s.hash_algo,
            }
            &&& match edit {
                SettingsEdit::Keep(v) => t.keep_strategy == v,
                _ => t.keep_strategy == s.keep_strategy,
            }
            &&& match edit {
                SettingsEdit::HistoryRetention(v) => t.history_retention_days == v,
                _ => t.history_retention_days == s.history_retention_days,
            }
            &&& match edit {
                SettingsEdit::MinSize(v) => t.sizes.min_size_bytes == if v < 1_000_000_000_000_000 {
                    v
                } else {
                    1_000_000_000_000_000
                },
                _ => t.sizes.min_size_bytes == s.sizes.min_size_bytes,
            }
            &&& match edit {
                SettingsEdit::CapMaxSize(false) => t.sizes.max_size_bytes is None,
                SettingsEdit::CapMaxSize(true) => t.sizes.max_size_bytes
                    == if s.sizes.max_size_bytes is Some {
                    s.sizes.max_size_bytes
                } else {
                    Some(1_073_741_824u64)
                },
                SettingsEdit::MaxSize(v) => {
                    &&& t.sizes.max_size_bytes is Some <==> s.sizes.max_size_bytes is Some
                    &&& t.sizes.max_size_bytes is Some ==> t.sizes.max_size_bytes->0 == if v
                        < 1_000_000_000_000_000 {
                        v
                    } else {
                        1_000_000_000_000_000
                    }
                },
                _ => t.sizes.max_size_bytes == s.sizes.max_size_bytes,
            }
            &&& match edit {
                SettingsEdit::ExplicitThreads(true) => t.threads == Some(cpus),
                SettingsEdit::ExplicitThreads(false) => t.threads is None,
                SettingsEdit::Threads(v) => {
                    &&& t.threads is Some <==> s.threads is Some
                    &&& t.threads is Some && 1 <= v <= 256 ==> t.threads == Some(v)
                    &&& t.threads is Some && v == 0 ==> t.threads == Some(1usize)
                    &&& t.threads is Some && v > 256 ==> t.threads == Some(256usize)
                },
                _ => t.threads == s.threads,
            }
            &&& !(edit is Switch) ==> t.switches == s.switches
        }),
{
}

/// A switch is set as it was clicked, and no other one changes with it. The one that lets the cache
/// always be used can be moved only while the cache is used at all.
pub proof fn switches_change_alone(s: ScanSwitches, switch: SettingsSwitch, on: bool)
    ensures
        ({
            let t = switched(s, switch, on);
            &&& t.use_format_aware == if switch == SettingsSwitch::FormatAware {
                on
            } else {
                s.use_format_aware
            }
            &&& t.follow_links == if switch == SettingsSwitch::FollowLinks {
                on
            } else {
                s.follow_links
            }
            &&& t.allow_system_paths == if switch == SettingsSwitch::AllowSystemPaths {
                on
            } else {
                s.allow_system_paths
            }
            &&& t.use_cache == if switch == SettingsSwitch::UseCache {
                on
            } else {
                s.use_cache
            }
            &&& t.always_use_cache == if switch == SettingsSwitch::AlwaysUseCache && s.use_cache {
                on
            } else {
                s.always_use_cache
            }
            &&& t.bypass_destructive_confirmation == if switch == SettingsSwitch::BypassConfirmation {
                on
            } else {
                s.bypass_destructive_confirmation
            }
            &&& t.dismissed_alpha_warning == if switch == SettingsSwitch::DismissAlphaWarning {
                on
            } else {
                s.dismissed_alpha_warning
            }
            &&& t.skip_preflight == if switch == SettingsSwitch::SkipPreflight {
                on
            } else {
                s.skip_preflight
            }
        }),
{
}

/// Every way to choose the file that is kept is offered, once.
pub proof fn every_strategy_is_offered(strategy: KeepStrategy)
    ensures
        strategies().contains(strategy),
        forall|i: int, j: int|
            0 <= i < j < strategies().len() ==> strategies()[i] != strategies()[j],
{
    let all = strategies();
    assert(all[0] == KeepStrategy::Smart);
    assert(all[1] == KeepStrategy::Newest);
    assert(all[2] == KeepStrategy::Oldest);
    assert(all[3] == KeepStrategy::ShortestPath);
    assert(all[4] == KeepStrategy::LongestPath);
    assert(all[5] == KeepStrategy::First);
    assert(all[6] == KeepStrategy::InReference);
}

/// The days that history is kept are told as they are set; none means for ever.
pub proof fn retention_is_told(days: u32)
    ensures
        days == 0 ==> retention_text(days) == "Forever"@,
        days == 365 ==> retention_text(days) == "1 year"@,
        days == 30 ==> retention_text(days) == "30 days"@,
        days == 90 ==> retention_text(days) == "90 days"@,
        days != 0 && days != 30 && days != 90 && days != 365 ==> retention_text(days) == decimal(
            days as nat,
        ) + " days (custom)"@,
{
}

} // verus!
