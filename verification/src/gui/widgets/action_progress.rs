//! The window over everything while an action on files runs.
use vstd::prelude::*;

use crate::text::{cat2, cat3, cut_left, cut_left_of, decimal, decimal_string};

verus! {

/// How far an action is.
#[derive(Clone, Debug)]
pub struct ActionState {
    pub name: String,
    pub done: u64,
    pub total: Option<u64>,
    /// What is being worked on.
    pub current: Option<String>,
}

/// The count: of how many, where that is known.
pub open spec fn counter_text(done: u64, total: Option<u64>) -> Seq<char> {
    match total {
        Some(all) => decimal(done as nat) + " / "@ + decimal(all as nat),
        None => decimal(done as nat) + " processed"@,
    }
}

/// The last `max_len` characters of a path behind an ellipsis, where it is longer than that.
pub fn truncate_path_left(s: &str, max_len: usize) -> (r: String)
    ensures
        r@ == cut_left(s@, max_len as nat),
{
    cut_left_of(s, max_len)
}

/// The two lines of the window.
pub struct ProgressTexts {
    pub counter: String,
    /// What is being worked on; a space keeps the line where there is nothing.
    pub current: String,
}

/// The two lines of the window.
pub fn progress_texts(action: &ActionState) -> (r: ProgressTexts)
    ensures
        r.counter@ == counter_text(action.done, action.total),
        r.current@ == (match action.current {
            Some(text) => cut_left(text@, 60),
            None => " "@,
        }),
{
    let done = decimal_string(action.done);
    let counter = match action.total {
        Some(all) => {
            let total = decimal_string(all);
            cat3(done.as_str(), " / ", total.as_str())
        },
        None => cat2(done.as_str(), " processed"),
    };
    let current = match &action.current {
        Some(text) => truncate_path_left(text.as_str(), 60),
        None => " ".to_owned(),
    };
    ProgressTexts { counter, current }
}

/// Progress is told as what is done of all, where all is known, and else as what is done.
pub proof fn progress_is_told(done: u64, all: u64)
    ensures
        counter_text(done, Some(all)) == decimal(done as nat) + " / "@ + decimal(all as nat),
        counter_text(done, None) == decimal(done as nat) + " processed"@,
{
}

} // verus!
