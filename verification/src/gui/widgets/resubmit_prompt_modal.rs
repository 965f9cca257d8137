//! The question at the start whether scans that were never submitted are submitted now.
use vstd::prelude::*;

use crate::gui::checkpoint::{listed_count, more_line, more_text};
use crate::gui::widgets::scan_history_panel::{format_unix_local, ScanRecord};
use crate::text::{cat5, cat8, decimal, decimal_string, plural, plural_of, texts};
use crate::time::timestamp_text;

verus! {

/// What the user picked.
#[derive(Debug, Clone, Copy, PartialEq, Eq, Structural)]
pub enum ResubmitPromptChoice {
    ResubmitAll,
    /// Show the history, to pick from it.
    OpenHistory,
    NotNow,
}

/// The most scans that are listed.
pub const LISTED: usize = 5;

/// The channel a scan was meant for.
pub open spec fn meant_for(record: ScanRecord) -> Seq<char> {
    match record.submission_channel {
        Some(channel) => channel@,
        None => record.channel@,
    }
}

/// The line of a scan.
pub open spec fn row_text(record: ScanRecord) -> Seq<char> {
    "• "@ + timestamp_text(record.started_at_unix) + " — "@ + decimal(record.roots@.len())
        + " root(s), "@ + decimal(record.total_dups as nat) + " group(s), channel "@ + meant_for(
        record,
    )
}

/// The lines of the scans that are listed.
pub open spec fn row_texts(rows: Seq<ScanRecord>) -> Seq<Seq<char>> {
    rows.take(listed_count(rows.len(), LISTED as nat) as int).map_values(
        |record: ScanRecord| row_text(record),
    )
}

/// What the question shows.
pub struct PromptTexts {
    pub title: String,
    pub rows: Vec<String>,
    pub more: Option<String>,
}

fn row_line(record: &ScanRecord) -> (r: String)
    ensures
        r@ == row_text(*record),
{
    let when = format_unix_local(record.started_at_unix);
    let roots = decimal_string(record.roots.len() as u64);
    let groups = decimal_string(record.total_dups);
    let channel = match &record.submission_channel {
        Some(channel) => channel.as_str(),
        None => record.channel.as_str(),
    };
    cat8(
        "• ",
        when.as_str(),
        " — ",
        roots.as_str(),
        " root(s), ",
        groups.as_str(),
        " group(s), channel ",
        channel,
    )
}

/// What the question shows.
pub fn prompt_texts(rows: &Vec<ScanRecord>) -> (r: PromptTexts)
    ensures
        r.title@ == decimal(rows@.len()) + " pending submission"@ + plural(rows@.len() as int)
            + " from prior session"@ + plural(rows@.len() as int),
        texts(r.rows@) == row_texts(rows@),
        match r.more {
            Some(line) => rows@.len() > LISTED && line@ == more_text(rows@.len(), LISTED as nat),
            None => rows@.len() <= LISTED,
        },
{
    let n = decimal_string(rows.len() as u64);
    let s = plural_of(rows.len() as u64);
    let title = cat5(n.as_str(), " pending submission", s, " from prior session", s);
    let end: usize = if rows.len() < LISTED {
        rows.len()
    } else {
        LISTED
    };
    let ghost wanted = row_texts(rows@);
    let mut lines: Vec<String> = Vec::new();
    let mut i: usize = 0;
    assert(texts(lines@) =~= wanted.take(0));
    while i < end
        invariant
            i <= end <= rows.len(),
            end == listed_count(rows@.len(), LISTED as nat),
            wanted == row_texts(rows@),
            texts(lines@) =~= wanted.take(i as int),
        decreases end - i,
    {
        let ghost before = lines@;
        let line = row_line(&rows[i]);
        lines.push(line);
        assert(texts(lines@) =~= texts(before).push(line@));
        i = i + 1;
    }
    assert(texts(lines@) =~= wanted);
    PromptTexts { title, rows: lines, more: more_line(rows.len(), LISTED) }
}

/// The first five scans each have their row, in order, with when they began, how many folders and
/// groups they had, and the channel they are meant for: the one of their submission where there was
/// one, else their own.
pub proof fn scans_have_their_rows(rows: Seq<ScanRecord>, k: int)
    requires
        0 <= k < rows.len(),
        k < 5,
    ensures
        row_texts(rows).len() == if rows.len() < 5 {
            rows.len()
        } else {
            5
        },
        ({
            let record = rows[k];
            let channel = match record.submission_channel {
                Some(own) => own@,
                None => record.channel@,
            };
            row_texts(rows)[k] == "• "@ + timestamp_text(record.started_at_unix) + " — "@ + decimal(
                record.roots@.len(),
            ) + " root(s), "@ + decimal(record.total_dups as nat) + " group(s), channel "@ + channel
        }),
{
}

} // verus!
