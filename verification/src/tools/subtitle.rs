//! The subtitle tool: which existing caption tracks an upload would
//! duplicate, and what to do about them.

use vstd::prelude::*;
use crate::text::{opt_str_view, str_eq};
use crate::youtube::CaptionDetails;

verus! {

/// The name of a caption track to upload: the given name, or the language.
pub open spec fn track_name(language: Seq<char>, name: Option<Seq<char>>) -> Seq<char> {
    match name {
        Some(n) => n,
        None => language,
    }
}

/// A caption's name as compared: missing counts as empty.
pub open spec fn name_or_empty(name: Option<String>) -> Seq<char> {
    match name {
        Some(n) => n@,
        None => Seq::empty(),
    }
}

/// The existing tracks with the same language and name, in order.
pub open spec fn matching(caps: Seq<CaptionDetails>, language: Seq<char>, name: Seq<char>) -> Seq<CaptionDetails>
    decreases caps.len(),
{
    if caps.len() == 0 {
        Seq::empty()
    } else {
        let rest = matching(caps.drop_last(), language, name);
        let c = caps.last();
        if c.language@ == language && name_or_empty(c.name) == name {
            rest.push(c)
        } else {
            rest
        }
    }
}

/// The name of the caption track to upload.
pub fn caption_track_name(language: &str, name: Option<&str>) -> (r: String)
    ensures
        r@ == track_name(language@, opt_str_view(name)),
{
    match name {
        Some(n) => n.to_owned(),
        None => language.to_owned(),
    }
}

/// The IDs of the existing caption tracks with the same language and name.
pub fn matching_caption_ids(captions: &Vec<CaptionDetails>, language: &str, name: &str) -> (r: Vec<String>)
    ensures
        r@.len() == matching(captions@, language@, name@).len(),
        forall|i: int| 0 <= i < r@.len() ==> #[trigger] r@[i]@ == matching(captions@, language@, name@)[i].id@,
{
    let mut r: Vec<String> = Vec::new();
    let mut i: usize = 0;
    while i < captions.len()
        invariant
            i <= captions@.len(),
            r@.len() == matching(captions@.take(i as int), language@, name@).len(),
            forall|k: int| 0 <= k < r@.len() ==> #[trigger] r@[k]@ == matching(captions@.take(i as int), language@, name@)[k].id@,
        decreases captions@.len() - i,
    {
        let c = &captions[i];
        proof {
            assert(captions@.take(i + 1).drop_last() =~= captions@.take(i as int));
            assert(captions@.take(i + 1).last() == captions@[i as int]);
            if name@.len() == 0 {
                assert(name@ =~= Seq::<char>::empty());
            }
        }
        let same_name = match &c.name {
            Some(n) => str_eq(n.as_str(), name),
            None => name.is_empty(),
        };
        if str_eq(c.language.as_str(), language) && same_name {
            r.push(c.id.clone());
        }
        i = i + 1;
    }
    proof {
        assert(captions@.take(captions@.len() as int) =~= captions@);
    }
    r
}

/// What the subtitle tool does about existing matching tracks.
#[derive(Debug, Clone, Copy, PartialEq, Eq, Structural)]
pub enum SubtitlePlan {
    /// A matching track exists and overwriting was not asked: stop.
    Refuse,
    /// Upload the new track.
    Upload,
    /// Delete the matching tracks (if any), then upload.
    ReplaceThenUpload,
}

/// Decide what to do given how many matching tracks exist.
pub fn subtitle_plan(matching_count: usize, overwrite: bool) -> (r: SubtitlePlan)
    ensures
        matching_count > 0 && !overwrite ==> r == SubtitlePlan::Refuse,
        overwrite ==> r == SubtitlePlan::ReplaceThenUpload,
        matching_count == 0 && !overwrite ==> r == SubtitlePlan::Upload,
{
    if overwrite {
        SubtitlePlan::ReplaceThenUpload
    } else if matching_count > 0 {
        SubtitlePlan::Refuse
    } else {
        SubtitlePlan::Upload
    }
}

} // verus!
