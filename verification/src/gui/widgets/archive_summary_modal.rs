//! What is shown when files have been archived.
use vstd::prelude::*;

use crate::gui::lines::{line_if, line_views, push_line, push_line_if, Line, Tone};
use crate::sizes::{format_size, human_size};
use crate::text::{cat2, cat4, cat5, cat6, decimal, decimal_string, plural, plural_of};

verus! {

/// What the user picked.
#[derive(Debug, Clone, Copy, PartialEq, Eq, Structural)]
pub enum ArchiveSummaryChoice {
    /// Close the summary.
    Done,
    /// Show the folder, and leave the summary open.
    RevealDestination,
}

/// How an archive run ended.
#[derive(Clone, Debug)]
pub struct ArchiveActionSummary {
    pub moved_count: u64,
    /// What was freed, and all that is credited.
    pub moved_bytes: u64,
    pub failed_access_denied_count: u64,
    pub failed_access_denied_bytes: u64,
    pub failed_cross_device_count: u64,
    pub failed_cross_device_bytes: u64,
    pub failed_other_count: u64,
    pub failed_other_bytes: u64,
    pub user_stopped: bool,
    pub destination: String,
}

impl ArchiveActionSummary {
    /// The files that were not moved.
    pub open spec fn failures(self) -> int {
        self.failed_access_denied_count + self.failed_cross_device_count + self.failed_other_count
    }

    /// The bytes that were not moved.
    pub open spec fn failed_total(self) -> int {
        self.failed_access_denied_bytes + self.failed_cross_device_bytes + self.failed_other_bytes
    }

    /// Whether the totals of what failed can be counted in 64 bits.
    pub open spec fn totals_fit(self) -> bool {
        self.failures() <= u64::MAX && self.failed_total() <= u64::MAX
    }

    /// The files that were not moved.
    pub fn failed_count(&self) -> (r: u64)
        requires
            self.failures() <= u64::MAX,
        ensures
            r == self.failures(),
    {
        self.failed_access_denied_count + self.failed_cross_device_count + self.failed_other_count
    }

    /// The bytes that were not moved.
    pub fn failed_bytes(&self) -> (r: u64)
        requires
            self.failed_total() <= u64::MAX,
        ensures
            r == self.failed_total(),
    {
        self.failed_access_denied_bytes + self.failed_cross_device_bytes + self.failed_other_bytes
    }
}

/// Whether the summary is closed by the pick.
pub fn closes(choice: ArchiveSummaryChoice) -> (r: bool)
    ensures
        r == (choice == ArchiveSummaryChoice::Done),
{
    choice == ArchiveSummaryChoice::Done
}

/// A count of files and their bytes.
pub open spec fn files_text(lead: Seq<char>, count: int, bytes: u64) -> Seq<char> {
    lead + decimal(count as nat) + " file"@ + plural(count) + " / "@ + human_size(bytes)
}

/// A count behind a reason.
pub open spec fn reason_text(lead: Seq<char>, count: u64, bytes: u64) -> Seq<char> {
    lead + decimal(count as nat) + " / "@ + human_size(bytes)
}

/// What helps against files that cannot be touched.
pub open spec fn access_tip() -> Seq<char> {
    "Tip: protected directories (Windows, Program Files, TrustedInstaller-owned) require elevated permissions to delete. Re-run from an admin terminal to move those files, or use the Exclusion preset packs to skip them on future scans."@
}

fn files_line(lead: &str, count: u64, bytes: u64) -> (r: String)
    ensures
        r@ == files_text(lead@, count as int, bytes),
{
    let n = decimal_string(count);
    let s = plural_of(count);
    let size = format_size(bytes);
    cat6(lead, n.as_str(), " file", s, " / ", size.as_str())
}

fn reason_line(lead: &str, count: u64, bytes: u64) -> (r: String)
    ensures
        r@ == reason_text(lead@, count, bytes),
{
    let n = decimal_string(count);
    let size = format_size(bytes);
    cat4(lead, n.as_str(), " / ", size.as_str())
}

/// The lines of what was moved.
pub open spec fn moved_lines(s: ArchiveActionSummary) -> Seq<(Tone, Seq<char>)> {
    seq![
        (Tone::Bright, "Actually reclaimed from source: "@ + human_size(s.moved_bytes)),
        (
            Tone::Dim,
            "("@ + decimal(s.moved_count as nat) + " file"@ + plural(s.moved_count as int)
                + " moved)"@,
        ),
        (Tone::Bright, files_text("Moved: "@, s.moved_count as int, s.moved_bytes)),
    ]
}

/// The lines of what was not moved: none where everything was.
pub open spec fn failed_lines(s: ArchiveActionSummary) -> Seq<(Tone, Seq<char>)> {
    if s.failures() == 0 {
        Seq::empty()
    } else {
        Seq::<(Tone, Seq<char>)>::empty().push(
            (Tone::Bright, files_text("Failed: "@, s.failures(), s.failed_total() as u64)),
        ) + line_if(
            s.failed_access_denied_count > 0,
            Tone::Dim,
            reason_text(
                "  · Access denied (protected dirs): "@,
                s.failed_access_denied_count,
                s.failed_access_denied_bytes,
            ),
        ) + line_if(
            s.failed_cross_device_count > 0,
            Tone::Dim,
            reason_text(
                "  · Cross-device / out of space: "@,
                s.failed_cross_device_count,
                s.failed_cross_device_bytes,
            ),
        ) + line_if(
            s.failed_other_count > 0,
            Tone::Dim,
            reason_text("  · Other (see log): "@, s.failed_other_count, s.failed_other_bytes),
        ) + line_if(s.failed_access_denied_count > 0, Tone::Dim, access_tip())
    }
}

/// What the summary shows.
pub struct ArchiveView {
    pub title: &'static str,
    pub moved: Vec<Line>,
    pub failed: Vec<Line>,
    pub folder: String,
}

fn failed_view(s: &ArchiveActionSummary) -> (r: Vec<Line>)
    requires
        s.totals_fit(),
    ensures
        line_views(r@) == failed_lines(*s),
{
    let mut r: Vec<Line> = Vec::new();
    assert(line_views(r@) =~= Seq::empty());
    let count: u64 = s.failed_count();
    if count == 0 {
        return r;
    }
    push_line(&mut r, Tone::Bright, files_line("Failed: ", count, s.failed_bytes()));
    let denied = reason_line(
        "  · Access denied (protected dirs): ",
        s.failed_access_denied_count,
        s.failed_access_denied_bytes,
    );
    push_line_if(&mut r, s.failed_access_denied_count > 0, Tone::Dim, denied);
    let crossed = reason_line(
        "  · Cross-device / out of space: ",
        s.failed_cross_device_count,
        s.failed_cross_device_bytes,
    );
    push_line_if(&mut r, s.failed_cross_device_count > 0, Tone::Dim, crossed);
    let other = reason_line("  · Other (see log): ", s.failed_other_count, s.failed_other_bytes);
    push_line_if(&mut r, s.failed_other_count > 0, Tone::Dim, other);
    let tip = "Tip: protected directories (Windows, Program Files, TrustedInstaller-owned) require elevated permissions to delete. Re-run from an admin terminal to move those files, or use the Exclusion preset packs to skip them on future scans.".to_owned();
    push_line_if(&mut r, s.failed_access_denied_count > 0, Tone::Dim, tip);
    r
}

/// What the summary shows.
pub fn archive_view(s: &ArchiveActionSummary) -> (r: ArchiveView)
    requires
        s.totals_fit(),
    ensures
        r.title@ == (if s.user_stopped {
            "Archive stopped"@
        } else {
            "Archive complete"@
        }),
        line_views(r.moved@) == moved_lines(*s),
        line_views(r.failed@) == failed_lines(*s),
        r.folder@ == "Archive folder: "@ + s.destination@,
{
    let mut moved: Vec<Line> = Vec::new();
    let size = format_size(s.moved_bytes);
    push_line(
        &mut moved,
        Tone::Bright,
        cat2("Actually reclaimed from source: ", size.as_str()),
    );
    let n = decimal_string(s.moved_count);
    let ending = plural_of(s.moved_count);
    push_line(&mut moved, Tone::Dim, cat5("(", n.as_str(), " file", ending, " moved)"));
    push_line(&mut moved, Tone::Bright, files_line("Moved: ", s.moved_count, s.moved_bytes));
    assert(line_views(moved@) =~= moved_lines(*s));
    ArchiveView {
        title: if s.user_stopped {
            "Archive stopped"
        } else {
            "Archive complete"
        },
        moved,
        failed: failed_view(s),
        folder: cat2("Archive folder: ", s.destination.as_str()),
    }
}

/// What is said to be freed depends on what was moved, and on nothing that failed.
pub proof fn only_moved_bytes_count(a: ArchiveActionSummary, b: ArchiveActionSummary)
    requires
        a.moved_count == b.moved_count,
        a.moved_bytes == b.moved_bytes,
    ensures
        moved_lines(a) == moved_lines(b),
{
}

/// Where something failed, the first line counts all of it, every reason that occurred has a line
/// with its own count and size, and the others have none. Where nothing failed there is no line.
pub proof fn failures_are_told_by_reason(s: ArchiveActionSummary)
    requires
        s.totals_fit(),
    ensures
        ({
            let lines = failed_lines(s);
            let denied = s.failed_access_denied_count;
            let crossed = s.failed_cross_device_count;
            let other = s.failed_other_count;
            &&& denied == 0 && crossed == 0 && other == 0 <==> lines.len() == 0
            &&& lines.len() > 0 ==> lines[0].1 == "Failed: "@ + decimal(
                (denied + crossed + other) as nat,
            ) + " file"@ + plural(denied + crossed + other) + " / "@ + human_size(
                (s.failed_access_denied_bytes + s.failed_cross_device_bytes + s.failed_other_bytes) as u64,
            )
            &&& denied > 0 ==> lines[1].1 == "  · Access denied (protected dirs): "@ + decimal(
                denied as nat,
            ) + " / "@ + human_size(s.failed_access_denied_bytes)
            &&& crossed > 0 ==> lines[if denied > 0 {
                2int
            } else {
                1int
            }].1 == "  · Cross-device / out of space: "@ + decimal(crossed as nat) + " / "@ + human_size(
                s.failed_cross_device_bytes,
            )
            &&& other > 0 ==> lines[1 + (if denied > 0 {
                1int
            } else {
                0int
            }) + (if crossed > 0 {
                1int
            } else {
                0int
            })].1 == "  · Other (see log): "@ + decimal(other as nat) + " / "@ + human_size(
                s.failed_other_bytes,
            )
            &&& denied > 0 ==> lines.last().1 == access_tip()
            &&& lines.len() > 0 ==> lines.len() == 1 + (if denied > 0 {
                2int
            } else {
                0int
            }) + (if crossed > 0 {
                1int
            } else {
                0int
            }) + (if other > 0 {
                1int
            } else {
                0int
            })
        }),
{
}

/// What was moved is told with its size and its number of files.
pub proof fn moved_files_are_told(s: ArchiveActionSummary)
    ensures
        moved_lines(s).len() == 3,
        moved_lines(s)[0].1 == "Actually reclaimed from source: "@ + human_size(s.moved_bytes),
        moved_lines(s)[2].1 == "Moved: "@ + decimal(s.moved_count as nat) + " file"@ + plural(
            s.moved_count as int,
        ) + " / "@ + human_size(s.moved_bytes),
{
}

} // verus!
