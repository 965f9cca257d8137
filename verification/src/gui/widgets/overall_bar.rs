//! The bar that shows how far a scan is.
use vstd::prelude::*;

use crate::text::{cat2, cat4, cat8, decimal, decimal_string, padded, padded_string};

verus! {

/// Where a scan is.
#[derive(Clone, Copy, Debug, PartialEq, Eq, Structural)]
pub enum OverallStage {
    Idle,
    Inventory,
    SizeGroup,
    Layout,
    Hashing,
    Finishing,
}

/// The colour of the bar.
#[derive(Clone, Copy, Debug, PartialEq, Eq, Structural)]
pub enum BarColor {
    /// The theme's accent.
    Accent,
    /// The theme's accent, dimmed.
    AccentDim,
    /// Red, green and blue.
    Rgb(u8, u8, u8),
}

/// The colour of the bar.
pub fn stage_color(stage: OverallStage) -> (r: BarColor)
    ensures
        r == (match stage {
            OverallStage::Idle => BarColor::AccentDim,
            OverallStage::Inventory => BarColor::Rgb(0x69, 0x9b, 0xff),
            OverallStage::SizeGroup => BarColor::Rgb(0x8a, 0xb4, 0xff),
            OverallStage::Layout => BarColor::Rgb(0xa0, 0xc6, 0xff),
            OverallStage::Hashing => BarColor::Accent,
            OverallStage::Finishing => BarColor::Rgb(0xfc, 0x53, 0x85),
        }),
{
    match stage {
        OverallStage::Idle => BarColor::AccentDim,
        OverallStage::Inventory => BarColor::Rgb(0x69, 0x9b, 0xff),
        OverallStage::SizeGroup => BarColor::Rgb(0x8a, 0xb4, 0xff),
        OverallStage::Layout => BarColor::Rgb(0xa0, 0xc6, 0xff),
        OverallStage::Hashing => BarColor::Accent,
        OverallStage::Finishing => BarColor::Rgb(0xfc, 0x53, 0x85),
    }
}

/// A time that remains, from whole seconds: seconds, minutes and seconds, or hours and minutes.
pub open spec fn eta_text(secs: Option<u64>) -> Seq<char> {
    match secs {
        None => "—"@,
        Some(total) => if total < 60 {
            decimal(total as nat) + "s"@
        } else if total / 60 < 60 {
            decimal((total / 60) as nat) + "m "@ + padded((total % 60) as nat, 2) + "s"@
        } else {
            decimal((total / 3600) as nat) + "h "@ + padded((total / 60 % 60) as nat, 2) + "m"@
        },
    }
}

/// A time that remains, from whole seconds; a dash where it is not known.
pub fn format_eta(secs: Option<u64>) -> (r: String)
    ensures
        r@ == eta_text(secs),
{
    match secs {
        None => "—".to_owned(),
        Some(total) => {
            if total < 60 {
                let s = decimal_string(total);
                return cat2(s.as_str(), "s");
            }
            let m: u64 = total / 60;
            let s: u64 = total % 60;
            if m < 60 {
                let minutes = decimal_string(m);
                let seconds = padded_string(s, 2);
                return cat4(minutes.as_str(), "m ", seconds.as_str(), "s");
            }
            assert(total / 60 / 60 == total / 3600);
            let hours = decimal_string(m / 60);
            let minutes = padded_string(m % 60, 2);
            cat4(hours.as_str(), "h ", minutes.as_str(), "m")
        },
    }
}

/// The text on the bar while the total is known.
pub fn determinate_text(label: &str, done: u64, total: u64, percent: u32, eta: Option<u64>) -> (r:
    String)
    ensures
        r@ == label@ + "  ·  "@ + decimal(done as nat) + "/"@ + decimal(total as nat) + "  ·  "@
            + decimal(percent as nat) + ("%   ETA "@ + eta_text(eta)),
{
    let d = decimal_string(done);
    let t = decimal_string(total);
    let p = decimal_string(percent as u64);
    let e = format_eta(eta);
    let rest = cat2("%   ETA ", e.as_str());
    cat8(label, "  ·  ", d.as_str(), "/", t.as_str(), "  ·  ", p.as_str(), rest.as_str())
}

/// The text on the bar while the total is not known.
pub fn indeterminate_text(label: &str, done: u64) -> (r: String)
    ensures
        r@ == (if done == 0 {
            label@
        } else {
            label@ + "  ·  "@ + decimal(done as nat) + " seen"@
        }),
{
    if done == 0 {
        label.to_owned()
    } else {
        let d = decimal_string(done);
        cat4(label, "  ·  ", d.as_str(), " seen")
    }
}

/// The time that is left is told in seconds below a minute, in minutes and seconds below an hour,
/// and in hours and minutes from then on; where it is unknown, with a dash.
pub proof fn times_left_have_their_units(hours: nat, minutes: nat, seconds: nat, total: u64)
    requires
        total == 3_600 * hours + 60 * minutes + seconds,
        minutes < 60,
        seconds < 60,
    ensures
        eta_text(None) == "—"@,
        hours == 0 && minutes == 0 ==> eta_text(Some(total)) == decimal(seconds) + "s"@,
        hours == 0 && minutes > 0 ==> eta_text(Some(total)) == decimal(minutes) + "m "@ + padded(
            seconds,
            2,
        ) + "s"@,
        hours > 0 ==> eta_text(Some(total)) == decimal(hours) + "h "@ + padded(minutes, 2) + "m"@,
{
    assert(total / 60 == 60 * hours + minutes);
    assert(total % 60 == seconds);
    assert(total / 3_600 == hours);
    assert((60 * hours + minutes) % 60 == minutes);
}

} // verus!
