//! The warning at the start that the software is not finished.
use vstd::prelude::*;

verus! {

/// An answer to the warning.
#[derive(Copy, Clone, Debug, PartialEq, Eq, Structural)]
pub enum AlphaWarningChoice {
    /// Close it for this session.
    AcknowledgeOnce,
    /// Close it for good.
    AcknowledgeForever,
}

/// Whether the warning is shown, and whether it will be at the next start.
#[derive(Copy, Clone, Debug, PartialEq, Eq, Structural)]
pub struct AlphaWarning {
    pub shown: bool,
    /// The user has closed it for good.
    pub dismissed: bool,
}

impl AlphaWarning {
    /// The warning at the start: shown unless it was closed for good.
    pub fn at_start(dismissed: bool) -> (r: Self)
        ensures
            r == (AlphaWarning { shown: !dismissed, dismissed }),
    {
        AlphaWarning { shown: !dismissed, dismissed }
    }

    /// An answer closes the warning, and may close it for good.
    pub fn answer(&mut self, choice: AlphaWarningChoice)
        ensures
            !final(self).shown,
            final(self).dismissed == (old(self).dismissed || choice
                == AlphaWarningChoice::AcknowledgeForever),
    {
        self.shown = false;
        if choice == AlphaWarningChoice::AcknowledgeForever {
            self.dismissed = true;
        }
    }
}

} // verus!
