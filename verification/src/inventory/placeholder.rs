//! Cloud placeholders and reparse points: which files may be read, and which may be acted on.
//!
//! On Windows a file can be a local stub whose content lives elsewhere; reading it forces a
//! download. The inventory records the state of every file, and the stages that read or change
//! files ask it first. On other platforms every file is an ordinary one.
use vstd::prelude::*;

use crate::paths::Platform;

verus! {

/// Opening the file at all recalls it from the cloud.
pub const FILE_ATTRIBUTE_RECALL_ON_OPEN: u32 = 0x0004_0000;

/// Reading data past what is cached locally recalls it from the cloud.
pub const FILE_ATTRIBUTE_RECALL_ON_DATA_ACCESS: u32 = 0x0040_0000;

/// The file carries a reparse point, told apart by its tag.
pub const FILE_ATTRIBUTE_REPARSE_POINT: u32 = 0x0000_0400;

/// The reparse tag of Windows Server data deduplication.
pub const IO_REPARSE_TAG_DEDUP: u32 = 0x8000_0013;

/// What kind of placeholder or reparse point a file is.
#[derive(Clone, Copy, Debug, PartialEq, Eq, Hash, Structural)]
pub enum PlaceholderState {
    /// A regular file.
    NotPlaceholder,
    /// Opening the file triggers a download.
    RecallOnOpen,
    /// Reading the file's data triggers a download.
    RecallOnDataAccess,
    /// Stored by the file system's own deduplication. The data is local and readable.
    ReparseDedup,
    /// A reparse point of another kind, with its raw tag.
    OtherReparse(u32),
}

impl Default for PlaceholderState {
    fn default() -> (r: Self)
        ensures
            r == PlaceholderState::NotPlaceholder,
    {
        PlaceholderState::NotPlaceholder
    }
}

impl PlaceholderState {
    /// Whether the file waits in the cloud.
    pub open spec fn is_recall(self) -> bool {
        self is RecallOnOpen || self is RecallOnDataAccess
    }

    /// Whether content reads are blocked where nothing was opted into.
    pub open spec fn content_read_blocked(self) -> bool {
        self.is_recall() || self is OtherReparse
    }

    /// Whether content reads are blocked, given whether recalls were opted into.
    pub open spec fn content_read_blocked_under(self, allow_recall: bool) -> bool {
        self is OtherReparse || (self.is_recall() && !allow_recall)
    }

    /// Whether destructive actions are blocked, given whether deduplicated files were opted into.
    pub open spec fn destructive_blocked_under(self, allow_deduped: bool) -> bool {
        self.is_recall() || self is OtherReparse || (self is ReparseDedup && !allow_deduped)
    }

    /// Whether the hash stages must not read the file. Files deduplicated by the file system
    /// are readable; reparse points of an unknown kind are not read.
    pub fn blocks_content_read(self) -> (r: bool)
        ensures
            r == self.content_read_blocked(),
    {
        match self {
            PlaceholderState::RecallOnOpen
            | PlaceholderState::RecallOnDataAccess
            | PlaceholderState::OtherReparse(_) => true,
            _ => false,
        }
    }

    /// Whether the file is reported as a skip.
    pub fn emits_event(self) -> (r: bool)
        ensures
            r == !(self is NotPlaceholder),
    {
        match self {
            PlaceholderState::NotPlaceholder => false,
            _ => true,
        }
    }

    /// Whether actions that delete, move or replace the file are blocked.
    pub fn blocks_destructive_action(self) -> (r: bool)
        ensures
            r == !(self is NotPlaceholder),
    {
        match self {
            PlaceholderState::NotPlaceholder => false,
            _ => true,
        }
    }

    /// As [`PlaceholderState::blocks_content_read`], where the user may have opted into recalls.
    pub fn blocks_content_read_under_policy(self, allow_recall: bool) -> (r: bool)
        ensures
            r == self.content_read_blocked_under(allow_recall),
    {
        match self {
            PlaceholderState::NotPlaceholder | PlaceholderState::ReparseDedup => false,
            PlaceholderState::RecallOnOpen | PlaceholderState::RecallOnDataAccess => !allow_recall,
            PlaceholderState::OtherReparse(_) => true,
        }
    }

    /// As [`PlaceholderState::blocks_destructive_action`], where the user may have opted into
    /// acting on deduplicated files.
    pub fn blocks_destructive_action_under_policy(self, allow_deduped: bool) -> (r: bool)
        ensures
            r == self.destructive_blocked_under(allow_deduped),
    {
        match self {
            PlaceholderState::NotPlaceholder => false,
            PlaceholderState::ReparseDedup => !allow_deduped,
            PlaceholderState::RecallOnOpen
            | PlaceholderState::RecallOnDataAccess
            | PlaceholderState::OtherReparse(_) => true,
        }
    }
}

/// The state of a file with these attributes and this reparse tag. The recall bits come first:
/// a cloud stub is one whatever its tag.
pub open spec fn classified(
    platform: Platform,
    attributes: u32,
    reparse_tag: Option<u32>,
) -> PlaceholderState {
    if platform is Unix {
        PlaceholderState::NotPlaceholder
    } else if attributes & FILE_ATTRIBUTE_RECALL_ON_OPEN != 0 {
        PlaceholderState::RecallOnOpen
    } else if attributes & FILE_ATTRIBUTE_RECALL_ON_DATA_ACCESS != 0 {
        PlaceholderState::RecallOnDataAccess
    } else if attributes & FILE_ATTRIBUTE_REPARSE_POINT != 0 {
        match reparse_tag {
            Some(tag) => if tag == IO_REPARSE_TAG_DEDUP {
                PlaceholderState::ReparseDedup
            } else {
                PlaceholderState::OtherReparse(tag)
            },
            None => PlaceholderState::OtherReparse(0),
        }
    } else {
        PlaceholderState::NotPlaceholder
    }
}

/// The state of a file, from its attributes and its reparse tag where that is known.
pub fn classify(platform: Platform, attributes: u32, reparse_tag: Option<u32>) -> (r: PlaceholderState)
    ensures
        r == classified(platform, attributes, reparse_tag),
{
    match platform {
        Platform::Unix => PlaceholderState::NotPlaceholder,
        Platform::Windows => {
            if attributes & FILE_ATTRIBUTE_RECALL_ON_OPEN != 0 {
                PlaceholderState::RecallOnOpen
            } else if attributes & FILE_ATTRIBUTE_RECALL_ON_DATA_ACCESS != 0 {
                PlaceholderState::RecallOnDataAccess
            } else if attributes & FILE_ATTRIBUTE_REPARSE_POINT != 0 {
                match reparse_tag {
                    Some(tag) => {
                        if tag == IO_REPARSE_TAG_DEDUP {
                            PlaceholderState::ReparseDedup
                        } else {
                            PlaceholderState::OtherReparse(tag)
                        }
                    },
                    None => PlaceholderState::OtherReparse(0),
                }
            } else {
                PlaceholderState::NotPlaceholder
            }
        },
    }
}

/// With nothing opted into, the policies block exactly what the plain questions block.
pub proof fn default_policy_blocks_the_same(state: PlaceholderState)
    ensures
        state.content_read_blocked_under(false) == state.content_read_blocked(),
        state.destructive_blocked_under(false) == !(state is NotPlaceholder),
{
}

/// Opting in only ever unblocks: what is blocked with the opt-in is blocked without it. Nothing
/// unblocks a reparse point of an unknown kind, and no opt-in for deduplicated files unblocks
/// a file that waits in the cloud.
pub proof fn opting_in_only_unblocks(state: PlaceholderState)
    ensures
        state.content_read_blocked_under(true) ==> state.content_read_blocked_under(false),
        state.destructive_blocked_under(true) ==> state.destructive_blocked_under(false),
        state is OtherReparse ==> state.content_read_blocked_under(true)
            && state.destructive_blocked_under(true),
        state.is_recall() ==> state.destructive_blocked_under(true),
{
}

/// A file that must not be read is never acted on destructively.
pub proof fn unreadable_is_never_acted_on(state: PlaceholderState)
    ensures
        state.content_read_blocked() ==> !(state is NotPlaceholder),
{
}

/// Away from Windows every file is an ordinary one: nothing about it is blocked or reported.
pub proof fn ordinary_away_from_windows(attributes: u32, reparse_tag: Option<u32>)
    ensures
        classified(Platform::Unix, attributes, reparse_tag) is NotPlaceholder,
{
}

/// A recall bit decides the state whatever the reparse tag is.
pub proof fn recall_takes_precedence(attributes: u32, a: Option<u32>, b: Option<u32>)
    requires
        attributes & FILE_ATTRIBUTE_RECALL_ON_OPEN != 0 || attributes
            & FILE_ATTRIBUTE_RECALL_ON_DATA_ACCESS != 0,
    ensures
        classified(Platform::Windows, attributes, a) == classified(Platform::Windows, attributes, b),
        classified(Platform::Windows, attributes, a).is_recall(),
{
}

/// On Windows a file waits in the cloud exactly where one of the two recall bits is set, a
/// reparse point without them is told apart by its tag, and without any of the three bits the
/// file is a regular one.
pub proof fn attributes_tell_the_state(attributes: u32, reparse_tag: Option<u32>)
    ensures
        ({
            let state = classified(Platform::Windows, attributes, reparse_tag);
            let on_open = attributes & 0x4_0000 != 0;
            let on_data = attributes & 0x40_0000 != 0;
            let reparse = attributes & 0x400 != 0;
            &&& state is RecallOnOpen <==> on_open
            &&& state is RecallOnDataAccess <==> on_data && !on_open
            &&& state is NotPlaceholder <==> !on_open && !on_data && !reparse
            &&& state is ReparseDedup <==> !on_open && !on_data && reparse && reparse_tag == Some(
                0x8000_0013u32,
            )
            &&& (reparse && !on_open && !on_data && reparse_tag is None) ==> state
                == PlaceholderState::OtherReparse(0)
            &&& (state matches PlaceholderState::OtherReparse(tag) && reparse_tag is Some)
                ==> reparse_tag == Some(state->0)
        }),
{
}

/// Regular files and deduplicated ones can be read under every policy; a file that waits in the
/// cloud only where recalls were opted into; a reparse point of another kind never. Regular files
/// can be acted on under every policy; deduplicated ones only where that was opted into; the
/// others never.
pub proof fn policies_block_what_they_name(state: PlaceholderState, opted_in: bool)
    ensures
        state.content_read_blocked_under(opted_in) <==> match state {
            PlaceholderState::NotPlaceholder => false,
            PlaceholderState::ReparseDedup => false,
            PlaceholderState::RecallOnOpen => !opted_in,
            PlaceholderState::RecallOnDataAccess => !opted_in,
            PlaceholderState::OtherReparse(_) => true,
        },
        state.destructive_blocked_under(opted_in) <==> match state {
            PlaceholderState::NotPlaceholder => false,
            PlaceholderState::ReparseDedup => !opted_in,
            PlaceholderState::RecallOnOpen => true,
            PlaceholderState::RecallOnDataAccess => true,
            PlaceholderState::OtherReparse(_) => true,
        },
        state.content_read_blocked() <==> !(state is NotPlaceholder) && !(state is ReparseDedup),
{
}

} // verus!
