//! The comment tool: for each video, the checks made before a comment is
//! posted, the post, and the optional pin.

use vstd::prelude::*;
use crate::text::concat2;
use crate::tools::description::ToolOutcome;

verus! {

/// What happened last while commenting on one video.
#[derive(Debug, PartialEq, Eq)]
pub enum CommentEvent {
    /// Nothing yet.
    Start,
    /// Whether the video already has a pinned comment, or why that could
    /// not be told.
    PinnedChecked(Result<bool, String>),
    /// Whether the same comment is already there, or why that could not be
    /// told.
    DuplicateChecked(Result<bool, String>),
    /// The new comment's ID, or why posting failed.
    Posted(Result<String, String>),
    /// Pinning the posted comment was attempted (its outcome does not
    /// change the result: the comment is posted).
    PinAttempted { comment_id: String },
}

/// What to do next while commenting on one video.
#[derive(Debug, Clone, PartialEq, Eq)]
pub enum CommentAction {
    CheckPinned,
    CheckDuplicate,
    Post,
    Pin { comment_id: String },
    Finish { outcome: ToolOutcome, comment_id: Option<String> },
}

/// The options of the comment tool.
#[derive(Debug, Clone, Copy, PartialEq, Eq)]
pub struct CommentOptions {
    /// Pin the comment once posted.
    pub pin: bool,
    /// Skip videos that already have a pinned comment.
    pub skip_if_pinned: bool,
    /// Go on even when a pinned comment exists or cannot be detected.
    pub force: bool,
}

/// A step that ends the work on a video with `outcome`.
pub open spec fn finishes(r: CommentAction, outcome: ToolOutcome, comment_id: Option<String>) -> bool {
    r == (CommentAction::Finish { outcome, comment_id })
}

/// A step that ends the work on a video skipped for `reason`.
pub open spec fn skips_with(r: CommentAction, reason: Seq<char>) -> bool {
    r matches CommentAction::Finish { outcome: ToolOutcome::Skipped(m), comment_id: None } && m@ == reason
}

/// A step that ends the work on a video failed for `reason`.
pub open spec fn fails_with(r: CommentAction, reason: Seq<char>) -> bool {
    r matches CommentAction::Finish { outcome: ToolOutcome::Failed(m), comment_id: None } && m@ == reason
}

/// Decide the next step of commenting on one video. With `skip_if_pinned`
/// the video is first checked for a pinned comment, and skipped when one
/// exists or the check fails, unless forced. A video that already has the
/// same comment is skipped. Otherwise the comment is posted, then pinned
/// when asked; a posted comment counts as a success whether or not the pin
/// took.
pub fn comment_step(options: CommentOptions, event: CommentEvent) -> (r: CommentAction)
    ensures
        event is Start && options.skip_if_pinned ==> r == CommentAction::CheckPinned,
        event is Start && !options.skip_if_pinned ==> r == CommentAction::CheckDuplicate,
        event == CommentEvent::PinnedChecked(Ok(true)) ==> if options.force {
            r == CommentAction::CheckDuplicate
        } else {
            skips_with(r, "Pinned comment already exists"@)
        },
        event == CommentEvent::PinnedChecked(Ok(false)) ==> r == CommentAction::CheckDuplicate,
        event matches CommentEvent::PinnedChecked(Err(e)) ==> if options.force {
            r == CommentAction::CheckDuplicate
        } else {
            skips_with(r, "Could not detect pinned comment: "@ + e@)
        },
        event == CommentEvent::DuplicateChecked(Ok(true)) ==> skips_with(r, "Identical comment already exists"@),
        event == CommentEvent::DuplicateChecked(Ok(false)) ==> r == CommentAction::Post,
        event matches CommentEvent::DuplicateChecked(Err(e)) ==> fails_with(r, "Failed to check for duplicate: "@ + e@),
        event matches CommentEvent::Posted(Ok(id)) ==> if options.pin {
            r == (CommentAction::Pin { comment_id: id })
        } else {
            finishes(r, ToolOutcome::Success, Some(id))
        },
        event matches CommentEvent::Posted(Err(e)) ==> fails_with(r, "Failed to post comment: "@ + e@),
        event matches CommentEvent::PinAttempted { comment_id } ==> finishes(r, ToolOutcome::Success, Some(comment_id)),
{
    match event {
        CommentEvent::Start => {
            if options.skip_if_pinned {
                CommentAction::CheckPinned
            } else {
                CommentAction::CheckDuplicate
            }
        },
        CommentEvent::PinnedChecked(Ok(true)) => {
            if options.force {
                CommentAction::CheckDuplicate
            } else {
                CommentAction::Finish {
                    outcome: ToolOutcome::Skipped("Pinned comment already exists".to_owned()),
                    comment_id: None,
                }
            }
        },
        CommentEvent::PinnedChecked(Ok(false)) => CommentAction::CheckDuplicate,
        CommentEvent::PinnedChecked(Err(e)) => {
            if options.force {
                CommentAction::CheckDuplicate
            } else {
                CommentAction::Finish {
                    outcome: ToolOutcome::Skipped(concat2("Could not detect pinned comment: ", e.as_str())),
                    comment_id: None,
                }
            }
        },
        CommentEvent::DuplicateChecked(Ok(true)) => CommentAction::Finish {
            outcome: ToolOutcome::Skipped("Identical comment already exists".to_owned()),
            comment_id: None,
        },
        CommentEvent::DuplicateChecked(Ok(false)) => CommentAction::Post,
        CommentEvent::DuplicateChecked(Err(e)) => CommentAction::Finish {
            outcome: ToolOutcome::Failed(concat2("Failed to check for duplicate: ", e.as_str())),
            comment_id: None,
        },
        CommentEvent::Posted(Ok(id)) => {
            if options.pin {
                CommentAction::Pin { comment_id: id }
            } else {
                CommentAction::Finish { outcome: ToolOutcome::Success, comment_id: Some(id) }
            }
        },
        CommentEvent::Posted(Err(e)) => CommentAction::Finish {
            outcome: ToolOutcome::Failed(concat2("Failed to post comment: ", e.as_str())),
            comment_id: None,
        },
        CommentEvent::PinAttempted { comment_id } => CommentAction::Finish {
            outcome: ToolOutcome::Success,
            comment_id: Some(comment_id),
        },
    }
}

} // verus!
