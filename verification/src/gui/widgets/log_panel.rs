//! The engine log: how many warnings and errors it holds, what is copied, and what is shown.
use vstd::prelude::*;

use crate::text::{begins_with, cat2, cat5, decimal, decimal_string};

verus! {

/// The weight of a log entry.
#[derive(Clone, Copy, Debug, PartialEq, Eq, Structural)]
pub enum LogLevel {
    Info,
    Warn,
    Error,
}

/// A log entry.
#[derive(Clone, Debug)]
pub struct LogEntry {
    pub level: LogLevel,
    pub message: String,
}

/// The tag before an entry.
pub open spec fn tag_text(level: LogLevel) -> Seq<char> {
    match level {
        LogLevel::Info => "info "@,
        LogLevel::Warn => "warn "@,
        LogLevel::Error => "error"@,
    }
}

/// The tag before an entry.
pub fn tag(level: LogLevel) -> (r: &'static str)
    ensures
        r@ == tag_text(level),
{
    match level {
        LogLevel::Info => "info ",
        LogLevel::Warn => "warn ",
        LogLevel::Error => "error",
    }
}

/// How many entries have the level.
pub open spec fn count_of(logs: Seq<LogEntry>, level: LogLevel) -> nat
    decreases logs.len(),
{
    if logs.len() == 0 {
        0
    } else {
        count_of(logs.drop_last(), level) + (if logs.last().level == level {
            1nat
        } else {
            0nat
        })
    }
}

fn count_level(logs: &Vec<LogEntry>, level: LogLevel) -> (r: usize)
    ensures
        r == count_of(logs@, level),
{
    let mut r: usize = 0;
    let mut i: usize = 0;
    while i < logs.len()
        invariant
            i <= logs.len(),
            r == count_of(logs@.take(i as int), level),
            r <= i,
        decreases logs.len() - i,
    {
        assert(logs@.take(i + 1).drop_last() =~= logs@.take(i as int));
        assert(logs@.take(i + 1).last() == logs@[i as int]);
        if logs[i].level == level {
            r = r + 1;
        }
        i = i + 1;
    }
    assert(logs@.take(i as int) =~= logs@);
    r
}

/// The counts beside the title; a count of 0 is not shown.
pub struct LogCounts {
    pub warnings: Option<String>,
    pub errors: Option<String>,
}

/// The counts beside the title.
pub fn log_counts(logs: &Vec<LogEntry>) -> (r: LogCounts)
    ensures
        match r.warnings {
            Some(text) => count_of(logs@, LogLevel::Warn) > 0 && text@ == decimal(
                count_of(logs@, LogLevel::Warn),
            ) + " warn"@,
            None => count_of(logs@, LogLevel::Warn) == 0,
        },
        match r.errors {
            Some(text) => count_of(logs@, LogLevel::Error) > 0 && text@ == decimal(
                count_of(logs@, LogLevel::Error),
            ) + " err"@,
            None => count_of(logs@, LogLevel::Error) == 0,
        },
{
    let warn: usize = count_level(logs, LogLevel::Warn);
    let err: usize = count_level(logs, LogLevel::Error);
    let warnings = if warn > 0 {
        let n = decimal_string(warn as u64);
        Some(cat2(n.as_str(), " warn"))
    } else {
        None
    };
    let errors = if err > 0 {
        let n = decimal_string(err as u64);
        Some(cat2(n.as_str(), " err"))
    } else {
        None
    };
    LogCounts { warnings, errors }
}

/// What is copied: every entry on its own line, behind its tag.
pub open spec fn copied(logs: Seq<LogEntry>) -> Seq<char>
    decreases logs.len(),
{
    if logs.len() == 0 {
        ""@
    } else {
        copied(logs.drop_last()) + tag_text(logs.last().level) + " "@ + logs.last().message@
            + "\n"@
    }
}

/// What is copied: every entry on its own line, behind its tag.
pub fn copy_text(logs: &Vec<LogEntry>) -> (r: String)
    ensures
        r@ == copied(logs@),
{
    let mut r = "".to_owned();
    let mut i: usize = 0;
    while i < logs.len()
        invariant
            i <= logs.len(),
            r@ == copied(logs@.take(i as int)),
        decreases logs.len() - i,
    {
        assert(logs@.take(i + 1).drop_last() =~= logs@.take(i as int));
        assert(logs@.take(i + 1).last() == logs@[i as int]);
        r = cat5(r.as_str(), tag(logs[i].level), " ", logs[i].message.as_str(), "\n");
        i = i + 1;
    }
    assert(logs@.take(i as int) =~= logs@);
    r
}

/// Whether the entry tells how a scan was resumed. Such entries stay in view.
pub open spec fn is_pinned(entry: LogEntry) -> bool {
    "resume diag:"@.is_prefix_of(entry.message@)
}

/// The places of the entries that are pinned, or of those that are not.
pub open spec fn places_of(logs: Seq<LogEntry>, pinned: bool) -> Seq<usize>
    decreases logs.len(),
{
    if logs.len() == 0 {
        Seq::empty()
    } else {
        let before = places_of(logs.drop_last(), pinned);
        if is_pinned(logs.last()) == pinned {
            before.push((logs.len() - 1) as usize)
        } else {
            before
        }
    }
}

/// The most entries that are listed below the pinned ones.
pub const TAIL: usize = 500;

/// The last of the places.
pub open spec fn last_places(places: Seq<usize>) -> Seq<usize> {
    if places.len() <= TAIL {
        places
    } else {
        places.skip(places.len() - TAIL)
    }
}

/// What the panel shows, by the places of the entries.
pub struct LogView {
    /// Shown above the list, each behind a pin.
    pub pinned: Vec<usize>,
    /// The list.
    pub rest: Vec<usize>,
}

/// What the panel shows: the pinned entries, and the last `TAIL` of the others.
pub fn log_view(logs: &Vec<LogEntry>) -> (r: LogView)
    ensures
        r.pinned@ == places_of(logs@, true),
        r.rest@ == last_places(places_of(logs@, false)),
{
    let mut pinned: Vec<usize> = Vec::new();
    let mut others: Vec<usize> = Vec::new();
    let mut i: usize = 0;
    assert(logs@.take(0) =~= Seq::<LogEntry>::empty());
    while i < logs.len()
        invariant
            i <= logs.len(),
            pinned@ == places_of(logs@.take(i as int), true),
            others@ == places_of(logs@.take(i as int), false),
        decreases logs.len() - i,
    {
        assert(logs@.take(i + 1).drop_last() =~= logs@.take(i as int));
        assert(logs@.take(i + 1).last() == logs@[i as int]);
        if begins_with(logs[i].message.as_str(), "resume diag:") {
            pinned.push(i);
        } else {
            others.push(i);
        }
        i = i + 1;
    }
    assert(logs@.take(i as int) =~= logs@);
    let start: usize = if others.len() > TAIL {
        others.len() - TAIL
    } else {
        0
    };
    let mut rest: Vec<usize> = Vec::new();
    let mut j: usize = start;
    while j < others.len()
        invariant
            start <= j <= others.len(),
            rest@ =~= others@.subrange(start as int, j as int),
        decreases others.len() - j,
    {
        rest.push(others[j]);
        j = j + 1;
    }
    assert(rest@ =~= last_places(others@));
    LogView { pinned, rest }
}

/// Every entry is either pinned or among the others, and no entry is both.
pub proof fn pinned_and_others_make_all(logs: Seq<LogEntry>)
    requires
        logs.len() <= usize::MAX,
    ensures
        places_of(logs, true).len() + places_of(logs, false).len() == logs.len(),
        forall|k: int, pinned: bool|
            0 <= k < logs.len() ==> #[trigger] places_of(logs, pinned).contains(k as usize) == (
            is_pinned(logs[k]) == pinned),
    decreases logs.len(),
{
    if logs.len() > 0 {
        let front = logs.drop_last();
        let last = (logs.len() - 1) as usize;
        pinned_and_others_make_all(front);
        assert forall|k: int, pinned: bool| 0 <= k < logs.len() implies #[trigger] places_of(
            logs,
            pinned,
        ).contains(k as usize) == (is_pinned(logs[k]) == pinned) by {
            let before = places_of(front, pinned);
            let now = places_of(logs, pinned);
            entries_keep_their_order(front, pinned);
            if is_pinned(logs.last()) == pinned {
                assert(now == before.push(last));
                assert(now[before.len() as int] == last);
                if before.contains(k as usize) {
                    let i = before.index_of(k as usize);
                    assert(now[i] == k);
                }
                if now.contains(k as usize) && k < last {
                    let i = now.index_of(k as usize);
                    assert(before[i] == k);
                }
            }
            if k < last {
                assert(front[k] == logs[k]);
            }
        }
    }
}

/// The places of a kind ascend, so entries are shown in the order they came, each once.
pub proof fn entries_keep_their_order(logs: Seq<LogEntry>, pinned: bool)
    requires
        logs.len() <= usize::MAX,
    ensures
        forall|i: int, j: int|
            0 <= i < j < places_of(logs, pinned).len() ==> places_of(logs, pinned)[i]
                < places_of(logs, pinned)[j],
        forall|i: int|
            0 <= i < places_of(logs, pinned).len() ==> #[trigger] places_of(logs, pinned)[i]
                < logs.len() && is_pinned(logs[places_of(logs, pinned)[i] as int]) == pinned,
    decreases logs.len(),
{
    if logs.len() > 0 {
        let front = logs.drop_last();
        entries_keep_their_order(front, pinned);
        assert forall|i: int| 0 <= i < places_of(logs, pinned).len() implies #[trigger] places_of(
            logs,
            pinned,
        )[i] < logs.len() && is_pinned(logs[places_of(logs, pinned)[i] as int]) == pinned by {
            if i < places_of(front, pinned).len() {
                let p = places_of(front, pinned)[i];
                assert(places_of(logs, pinned)[i] == p);
                assert(front[p as int] == logs[p as int]);
            }
        }
    }
}

/// Every entry is counted under its own level, once.
pub proof fn every_entry_is_counted(logs: Seq<LogEntry>, level: LogLevel)
    ensures
        count_of(logs, level) == logs.filter(|e: LogEntry| e.level == level).len(),
        count_of(logs, LogLevel::Info) + count_of(logs, LogLevel::Warn) + count_of(
            logs,
            LogLevel::Error,
        ) == logs.len(),
    decreases logs.len(),
{
    reveal(Seq::filter);
    if logs.len() > 0 {
        every_entry_is_counted(logs.drop_last(), level);
    }
}

proof fn lemma_line_behind(
    before: Seq<char>,
    tag: Seq<char>,
    gap: Seq<char>,
    message: Seq<char>,
    end: Seq<char>,
)
    ensures
        before + tag + gap + message + end == before + (tag + gap + message + end),
{
    assert(before + tag + gap + message + end =~= before + (tag + gap + message + end));
}

proof fn lemma_line_between(before: Seq<char>, line: Seq<char>, after: Seq<char>, last: Seq<char>)
    ensures
        before + line + after + last == before + line + (after + last),
{
    assert(before + line + after + last =~= before + line + (after + last));
}

/// What is copied holds a line for every entry, in order, with its level and its message.
pub proof fn every_entry_is_copied(logs: Seq<LogEntry>, k: int)
    requires
        0 <= k < logs.len(),
    ensures
        ({
            let tag = match logs[k].level {
                LogLevel::Info => "info "@,
                LogLevel::Warn => "warn "@,
                LogLevel::Error => "error"@,
            };
            copied(logs) == copied(logs.take(k)) + (tag + " "@ + logs[k].message@ + "\n"@) + copied(
                logs.skip(k + 1),
            )
        }),
        copied(Seq::empty()).len() == 0,
    decreases logs.len(),
{
    reveal_strlit("");
    let init = logs.drop_last();
    let rest = logs.skip(k + 1);
    let tag = tag_text(logs.last().level);
    let message = logs.last().message@;
    let last = tag + " "@ + message + "\n"@;
    lemma_line_behind(copied(init), tag, " "@, message, "\n"@);
    assert(copied(logs) == copied(init) + last);
    if k < logs.len() - 1 {
        let line = tag_text(logs[k].level) + " "@ + logs[k].message@ + "\n"@;
        every_entry_is_copied(init, k);
        assert(init.take(k) =~= logs.take(k));
        assert(init[k] == logs[k]);
        assert(rest.drop_last() =~= init.skip(k + 1));
        assert(rest.last() == logs.last());
        lemma_line_behind(copied(rest.drop_last()), tag, " "@, message, "\n"@);
        assert(copied(rest) == copied(rest.drop_last()) + last);
        lemma_line_between(copied(logs.take(k)), line, copied(rest.drop_last()), last);
    } else {
        assert(init =~= logs.take(k));
        assert(rest =~= Seq::<LogEntry>::empty());
        assert(logs.last() == logs[k]);
        let none = copied(rest);
        assert(none.len() == 0);
        assert(copied(init) + last + none =~= copied(init) + last);
    }
}

/// The entries that are shown of a long list are its last 500, in order; of another list all.
pub proof fn the_last_entries_are_shown(places: Seq<usize>, k: int)
    ensures
        last_places(places).len() == if places.len() < 500 {
            places.len()
        } else {
            500
        },
        0 <= k < last_places(places).len() ==> last_places(places)[last_places(places).len() - 1 - k]
            == places[places.len() - 1 - k],
{
}

} // verus!
