//! Comment operations: the endpoints they call, the retries while a new
//! comment thread becomes visible, and the checks for an existing or a
//! pinned comment.

use vstd::prelude::*;
use crate::text::{concat2, concat3, opt_str_view, opt_view, str_eq, trim, trim_str};
use crate::youtube::types::{CommentItemAuthor, CommentsResponse, CommentsResponseAuthor, VideoResponseChannel};

verus! {

/// The endpoint that creates and updates comment threads.
pub const COMMENT_THREADS_ENDPOINT: &'static str = "commentThreads?part=snippet";

/// How many times a comment thread is fetched before pinning gives up.
pub const PIN_FETCH_MAX_TRIES: u32 = 5;

/// The pause between two fetches of a comment thread, in milliseconds.
pub const PIN_FETCH_DELAY_MS: u64 = 1000;

/// The endpoint that fetches one comment thread: `commentThreads?part=snippet&id={comment_id}`.
pub fn comment_thread_endpoint(comment_id: &str) -> (r: String)
    ensures
        r@ == "commentThreads?part=snippet&id="@ + comment_id@,
{
    concat2("commentThreads?part=snippet&id=", comment_id)
}

/// The endpoint that lists a video's comment threads as plain text:
/// `commentThreads?part=snippet&videoId={video_id}&textFormat=plainText`.
pub fn video_comments_endpoint(video_id: &str) -> (r: String)
    ensures
        r@ == "commentThreads?part=snippet&videoId="@ + video_id@ + "&textFormat=plainText"@,
{
    concat3("commentThreads?part=snippet&videoId=", video_id, "&textFormat=plainText")
}

/// A new top-level comment on a video.
#[derive(Debug, Clone)]
pub struct CommentPost {
    pub video_id: String,
    pub text_original: String,
}

/// The comment thread to create for a comment on a video.
pub fn comment_post(video_id: &str, comment_text: &str) -> (r: CommentPost)
    ensures
        r.video_id@ == video_id@,
        r.text_original@ == comment_text@,
{
    CommentPost { video_id: video_id.to_owned(), text_original: comment_text.to_owned() }
}

/// What to do after fetching the comment thread to pin.
#[derive(Debug, Clone, Copy, PartialEq, Eq)]
pub enum PinFetchStep {
    /// The thread was found: update it.
    Update,
    /// Not visible yet: wait, then fetch again; `tries` fetches were made.
    Retry { tries: u32 },
    /// Not found after the last allowed fetch.
    GiveUp,
}

/// After fetch number `tries + 1`: a found thread is updated; otherwise the
/// fetch is repeated until `PIN_FETCH_MAX_TRIES` fetches came back empty.
pub open spec fn pin_fetch_step_spec(tries: u32, found: bool) -> PinFetchStep {
    if found {
        PinFetchStep::Update
    } else if tries + 1 >= PIN_FETCH_MAX_TRIES {
        PinFetchStep::GiveUp
    } else {
        PinFetchStep::Retry { tries: (tries + 1) as u32 }
    }
}

/// Decide what follows a fetch of the comment thread to pin, `tries` being
/// the number of earlier fetches that came back empty.
pub fn pin_fetch_step(tries: u32, found: bool) -> (r: PinFetchStep)
    requires
        tries < PIN_FETCH_MAX_TRIES,
    ensures
        r == pin_fetch_step_spec(tries, found),
{
    if found {
        PinFetchStep::Update
    } else if tries + 1 >= PIN_FETCH_MAX_TRIES {
        PinFetchStep::GiveUp
    } else {
        PinFetchStep::Retry { tries: tries + 1 }
    }
}

/// How many fetches pinning makes from `tries` earlier empty fetches on,
/// when the thread first shows up at fetch `appears_at` (counting from 0),
/// or never when `appears_at` is `None`.
pub open spec fn pin_fetches(tries: u32, appears_at: Option<nat>) -> nat
    decreases PIN_FETCH_MAX_TRIES - tries,
{
    let found = match appears_at {
        Some(k) => k <= tries,
        None => false,
    };
    if tries >= PIN_FETCH_MAX_TRIES {
        0
    } else {
        match pin_fetch_step_spec(tries, found) {
            PinFetchStep::Retry { tries: t } => 1 + pin_fetches(t, appears_at),
            _ => 1,
        }
    }
}

/// Pinning fetches the comment thread at most `PIN_FETCH_MAX_TRIES` times,
/// and stops at the first fetch that finds it.
pub proof fn lemma_pin_fetches_bounded(tries: u32, appears_at: Option<nat>)
    requires
        tries < PIN_FETCH_MAX_TRIES,
    ensures
        pin_fetches(tries, appears_at) <= PIN_FETCH_MAX_TRIES - tries,
        match appears_at {
            Some(k) => tries <= k < PIN_FETCH_MAX_TRIES ==> pin_fetches(tries, appears_at) == k + 1 - tries,
            None => true,
        },
    decreases PIN_FETCH_MAX_TRIES - tries,
{
    if tries + 1 < PIN_FETCH_MAX_TRIES {
        lemma_pin_fetches_bounded((tries + 1) as u32, appears_at);
    }
}

/// Whether a comment on the video has the given text, both trimmed.
pub open spec fn comment_text_present(comments: CommentsResponse, text: Seq<char>) -> bool {
    exists|i: int| 0 <= i < comments.items@.len()
        && trim((#[trigger] comments.items@[i]).snippet.top_level_comment.snippet.text_original@) == trim(text)
}

/// A comment with the same text at any position, surrounding whitespace
/// aside, counts as already present; and the text counts as present only
/// when some comment has it.
pub proof fn lemma_comment_found_at_any_position(comments: CommentsResponse, text: Seq<char>, i: int)
    ensures
        0 <= i < comments.items@.len()
            && trim(comments.items@[i].snippet.top_level_comment.snippet.text_original@) == trim(text)
            ==> comment_text_present(comments, text),
        comment_text_present(comments, text) ==> exists|j: int| 0 <= j < comments.items@.len()
            && trim((#[trigger] comments.items@[j]).snippet.top_level_comment.snippet.text_original@) == trim(text),
{
}

/// Whether a comment with the same text, ignoring surrounding whitespace,
/// is already on the video.
pub fn comment_exists(comments: &CommentsResponse, comment_text: &str) -> (r: bool)
    ensures
        r == comment_text_present(*comments, comment_text@),
{
    let wanted = trim_str(comment_text);
    let mut i: usize = 0;
    while i < comments.items.len()
        invariant
            i <= comments.items@.len(),
            wanted@ == trim(comment_text@),
            forall|j: int| 0 <= j < i ==> trim((#[trigger] comments.items@[j]).snippet.top_level_comment.snippet.text_original@) != trim(comment_text@),
        decreases comments.items@.len() - i,
    {
        let t = trim_str(comments.items[i].snippet.top_level_comment.snippet.text_original.as_str());
        if t == wanted {
            return true;
        }
        i = i + 1;
    }
    false
}

/// The channel that owns a video, as the video's details give it: the
/// channel of the first item, if any. `None` also stands for a fetch that
/// failed or could not be read.
pub fn owner_channel(response: Option<&VideoResponseChannel>) -> (r: Option<String>)
    ensures
        match response {
            Some(v) => if v.items@.len() > 0 {
                opt_view(r) == opt_view(v.items@[0].snippet.channel_id)
            } else {
                r is None
            },
            None => r is None,
        },
{
    match response {
        Some(v) => {
            if v.items.len() == 0 {
                None
            } else {
                match &v.items[0].snippet.channel_id {
                    Some(c) => Some(c.clone()),
                    None => None,
                }
            }
        },
        None => None,
    }
}

/// The channel of a comment thread's top-level comment, if given.
pub open spec fn author_of(item: CommentItemAuthor) -> Option<Seq<char>> {
    match item.snippet.top_level_comment.snippet.author_channel_id {
        Some(a) => opt_view(a.value),
        None => None,
    }
}

/// Whether a video counts as having a pinned comment: one of its top-level
/// comments was written by the video's owner.
pub open spec fn pinned(owner: Option<Seq<char>>, comments: CommentsResponseAuthor) -> bool {
    owner matches Some(c) && exists|i: int| 0 <= i < comments.items@.len()
        && author_of(#[trigger] comments.items@[i]) == Some(c)
}

/// Whether the owner of a video (when known) wrote one of its comments.
fn by_owner(owner: &str, comments: &CommentsResponseAuthor) -> (r: bool)
    ensures
        r == exists|i: int| 0 <= i < comments.items@.len() && author_of(#[trigger] comments.items@[i]) == Some(owner@),
{
    let mut i: usize = 0;
    while i < comments.items.len()
        invariant
            i <= comments.items@.len(),
            forall|j: int| 0 <= j < i ==> author_of(#[trigger] comments.items@[j]) != Some(owner@),
        decreases comments.items@.len() - i,
    {
        match &comments.items[i].snippet.top_level_comment.snippet.author_channel_id {
            Some(a) => match &a.value {
                Some(v) => {
                    if str_eq(v.as_str(), owner) {
                        return true;
                    }
                },
                None => {},
            },
            None => {},
        }
        i = i + 1;
    }
    false
}

/// Whether a video already has a comment that counts as pinned: one written
/// by the video's owner. With the owner unknown the answer is `false`.
pub fn has_pinned_comment(owner: Option<&str>, comments: &CommentsResponseAuthor) -> (r: bool)
    ensures
        r == pinned(opt_str_view(owner), *comments),
{
    match owner {
        Some(c) => by_owner(c, comments),
        None => false,
    }
}

} // verus!
