//! Video operations: the endpoints they call, the channel listing page by
//! page, and the changes made to a fetched video resource before it is put
//! back (languages, recording date, description, tags).

use vstd::prelude::*;
use crate::text::{
    clone_all, clone_opt, concat2, concat3, contains, contains_seq, is_blank, join, join_str,
    lowercase_of, opt_str_view, opt_view, owned_opt, to_lowercase, trim, views,
};
use crate::youtube::VideoDetails;
use crate::youtube::types::{SearchResponse, VideoItem, VideoResponse, VideoResponseSimple};

verus! {

/// The endpoint that updates a video's snippet.
pub const UPDATE_SNIPPET_ENDPOINT: &'static str = "videos?part=snippet";

/// The endpoint that updates a video's snippet and recording details.
pub const UPDATE_SNIPPET_AND_RECORDING_ENDPOINT: &'static str = "videos?part=snippet,recordingDetails";

/// The endpoint of a search for the channel's own videos, 50 per page.
pub const CHANNEL_SEARCH_ENDPOINT: &'static str = "search?part=snippet&forMine=true&type=video&maxResults=50";

/// The endpoint that deletes a video: `videos?id={video_id}`.
pub fn delete_video_endpoint(video_id: &str) -> (r: String)
    ensures
        r@ == "videos?id="@ + video_id@,
{
    concat2("videos?id=", video_id)
}

/// The endpoint that fetches a video's snippet: `videos?part=snippet&id={video_id}`.
pub fn video_snippet_endpoint(video_id: &str) -> (r: String)
    ensures
        r@ == "videos?part=snippet&id="@ + video_id@,
{
    concat2("videos?part=snippet&id=", video_id)
}

/// The endpoint that fetches a video's snippet and recording details.
pub fn video_snippet_and_recording_endpoint(video_id: &str) -> (r: String)
    ensures
        r@ == "videos?part=snippet,recordingDetails&id="@ + video_id@,
{
    concat2("videos?part=snippet,recordingDetails&id=", video_id)
}

/// The search endpoint for one page of the channel's videos: the first page
/// without a token, a later one with `&pageToken={token}`.
pub open spec fn search_page(page_token: Option<Seq<char>>) -> Seq<char> {
    match page_token {
        Some(t) => CHANNEL_SEARCH_ENDPOINT@ + "&pageToken="@ + t,
        None => CHANNEL_SEARCH_ENDPOINT@,
    }
}

/// Build the search endpoint for one page of the channel's videos.
pub fn search_page_endpoint(page_token: Option<&str>) -> (r: String)
    ensures
        r@ == search_page(opt_str_view(page_token)),
{
    match page_token {
        Some(t) => concat3(CHANNEL_SEARCH_ENDPOINT, "&pageToken=", t),
        None => CHANNEL_SEARCH_ENDPOINT.to_owned(),
    }
}

/// The video ids of a page of search results, in order.
pub fn search_video_ids(response: &SearchResponse) -> (r: Vec<String>)
    ensures
        r@.len() == response.items@.len(),
        forall|i: int| 0 <= i < r@.len() ==> #[trigger] r@[i]@ == response.items@[i].id.video_id@,
{
    let mut r: Vec<String> = Vec::new();
    let mut i: usize = 0;
    while i < response.items.len()
        invariant
            i <= response.items@.len(),
            r@.len() == i,
            forall|j: int| 0 <= j < i ==> #[trigger] r@[j]@ == response.items@[j].id.video_id@,
        decreases response.items@.len() - i,
    {
        r.push(response.items[i].id.video_id.clone());
        i = i + 1;
    }
    r
}

/// The endpoint that fetches the full details of the given videos, or
/// `None` when there are none to fetch (no request is made then).
pub fn video_details_endpoint(video_ids: &Vec<String>) -> (r: Option<String>)
    ensures
        video_ids@.len() == 0 ==> r is None,
        video_ids@.len() > 0 ==> (r matches Some(e)
            && e@ == "videos?part=snippet,status,recordingDetails,contentDetails&id="@ + join(views(video_ids@), ","@)),
{
    if video_ids.len() == 0 {
        None
    } else {
        let ids = join_str(video_ids, ",");
        Some(concat2("videos?part=snippet,status,recordingDetails,contentDetails&id=", ids.as_str()))
    }
}

/// The tags of a video as listed: its tags, or none when it has no tag list.
pub open spec fn listed_tags(tags: Option<Vec<String>>) -> Seq<Seq<char>> {
    match tags {
        Some(t) => views(t@),
        None => Seq::empty(),
    }
}

/// `d` holds the details of video resource `item`.
pub open spec fn details_of(d: VideoDetails, item: VideoItem) -> bool {
    &&& d.id@ == item.id@
    &&& d.title@ == item.snippet.title@
    &&& d.description@ == item.snippet.description@
    &&& d.status@ == item.status.privacy_status@
    &&& d.upload_date@ == item.snippet.published_at@
    &&& d.category_id@ == item.snippet.category_id@
    &&& views(d.tags@) == listed_tags(item.snippet.tags)
    &&& opt_view(d.default_language) == opt_view(item.snippet.default_language)
    &&& opt_view(d.default_audio_language) == opt_view(item.snippet.default_audio_language)
    &&& opt_view(d.recording_date) == match item.recording_details {
        Some(rd) => opt_view(rd.recording_date),
        None => None,
    }
    &&& opt_view(d.duration) == match item.content_details {
        Some(cd) => opt_view(cd.duration),
        None => None,
    }
    &&& opt_view(d.caption) == match item.content_details {
        Some(cd) => opt_view(cd.caption),
        None => None,
    }
}

/// The listing details of one video resource.
pub fn video_details_of(item: &VideoItem) -> (r: VideoDetails)
    ensures
        details_of(r, *item),
{
    let tags = match &item.snippet.tags {
        Some(t) => clone_all(t),
        None => {
            let t: Vec<String> = Vec::new();
            proof {
                assert(views(t@) =~= Seq::<Seq<char>>::empty());
            }
            t
        },
    };
    let recording_date = match &item.recording_details {
        Some(rd) => clone_opt(&rd.recording_date),
        None => None,
    };
    let (duration, caption) = match &item.content_details {
        Some(cd) => (clone_opt(&cd.duration), clone_opt(&cd.caption)),
        None => (None, None),
    };
    VideoDetails {
        id: item.id.clone(),
        title: item.snippet.title.clone(),
        description: item.snippet.description.clone(),
        status: item.status.privacy_status.clone(),
        upload_date: item.snippet.published_at.clone(),
        category_id: item.snippet.category_id.clone(),
        tags,
        default_language: clone_opt(&item.snippet.default_language),
        default_audio_language: clone_opt(&item.snippet.default_audio_language),
        recording_date,
        duration,
        caption,
    }
}

/// The listing details of every video of a details response, in order.
pub fn video_details_list(response: &VideoResponse) -> (r: Vec<VideoDetails>)
    ensures
        r@.len() == response.items@.len(),
        forall|i: int| 0 <= i < r@.len() ==> details_of(#[trigger] r@[i], response.items@[i]),
{
    let mut r: Vec<VideoDetails> = Vec::new();
    let mut i: usize = 0;
    while i < response.items.len()
        invariant
            i <= response.items@.len(),
            r@.len() == i,
            forall|j: int| 0 <= j < i ==> details_of(#[trigger] r@[j], response.items@[j]),
        decreases response.items@.len() - i,
    {
        r.push(video_details_of(&response.items[i]));
        i = i + 1;
    }
    r
}

/// Where the listing of the channel stands.
#[derive(Debug, Clone, PartialEq, Eq)]
pub enum PageCursor {
    /// The first page is next.
    First,
    /// The page of this token is next.
    Next(String),
    /// The listing has ended.
    Finished,
}

/// What fetching one page gave.
#[derive(Debug, Clone, PartialEq, Eq)]
pub enum PageResult {
    /// The fetch failed.
    Failed,
    /// A page of videos (`empty` when it held none) and the token of the
    /// page after it, if any.
    Fetched { empty: bool, next_page_token: Option<String> },
}

/// One step of the listing: whether the page (or the error) is handed out,
/// and where the listing goes next.
#[derive(Debug, Clone, PartialEq, Eq)]
pub struct PageStep {
    pub emit: bool,
    pub cursor: PageCursor,
}

/// A failure is handed out and ends the listing; an empty page ends it
/// without being handed out; any other page is handed out, and the listing
/// goes on to the next page while there is a token for one.
pub open spec fn page_step_spec(result: PageResult) -> (bool, PageCursor) {
    match result {
        PageResult::Failed => (true, PageCursor::Finished),
        PageResult::Fetched { empty, next_page_token } => {
            if empty {
                (false, PageCursor::Finished)
            } else {
                match next_page_token {
                    Some(t) => (true, PageCursor::Next(t)),
                    None => (true, PageCursor::Finished),
                }
            }
        },
    }
}

/// Advance the listing after a page was fetched.
pub fn page_step(result: PageResult) -> (r: PageStep)
    ensures
        (r.emit, r.cursor) == page_step_spec(result),
        result is Failed ==> r.cursor is Finished,
        !(r.cursor is First),
{
    match result {
        PageResult::Failed => PageStep { emit: true, cursor: PageCursor::Finished },
        PageResult::Fetched { empty, next_page_token } => {
            if empty {
                PageStep { emit: false, cursor: PageCursor::Finished }
            } else {
                match next_page_token {
                    Some(t) => PageStep { emit: true, cursor: PageCursor::Next(t) },
                    None => PageStep { emit: true, cursor: PageCursor::Finished },
                }
            }
        },
    }
}

/// The search endpoint to fetch for a cursor, or `None` once the listing
/// has ended.
pub fn cursor_endpoint(cursor: &PageCursor) -> (r: Option<String>)
    ensures
        cursor is Finished ==> r is None,
        cursor is First ==> (r matches Some(e) && e@ == search_page(None)),
        cursor matches PageCursor::Next(t) ==> (r matches Some(e) && e@ == search_page(Some(t@))),
{
    match cursor {
        PageCursor::First => Some(search_page_endpoint(None)),
        PageCursor::Next(t) => Some(search_page_endpoint(Some(t.as_str()))),
        PageCursor::Finished => None,
    }
}

/// The description of the first video of a response, or `None` when the
/// response holds no video (the video was not found).
pub fn first_description(response: &VideoResponseSimple) -> (r: Option<String>)
    ensures
        response.items@.len() == 0 ==> r is None,
        response.items@.len() > 0 ==> (r matches Some(d) && d@ == response.items@[0].snippet.description@),
{
    if response.items.len() == 0 {
        None
    } else {
        Some(response.items[0].snippet.description.clone())
    }
}

/// Whether a description already holds the given content.
pub fn description_contains(description: &str, content: &str) -> (r: bool)
    ensures
        r == contains_seq(description@, content@),
{
    contains(description, content)
}

/// The description after appending: the content alone when the description
/// is missing or blank, else the description, a blank line and the content.
pub open spec fn appended_description(existing: Option<Seq<char>>, additional: Seq<char>) -> Seq<char> {
    match existing {
        Some(d) => if trim(d).len() == 0 {
            additional
        } else {
            d + "\n\n"@ + additional
        },
        None => additional,
    }
}

/// Append content to a description.
pub fn append_description(existing: Option<&str>, additional: &str) -> (r: String)
    ensures
        r@ == appended_description(opt_str_view(existing), additional@),
{
    match existing {
        Some(d) => {
            if is_blank(d) {
                additional.to_owned()
            } else {
                concat3(d, "\n\n", additional)
            }
        },
        None => additional.to_owned(),
    }
}

/// Whether `tag` is among `existing`, ignoring case.
pub open spec fn has_tag_ignoring_case(existing: Seq<Seq<char>>, tag: Seq<char>) -> bool {
    exists|i: int| 0 <= i < existing.len() && lowercase_of(#[trigger] existing[i]) == lowercase_of(tag)
}

/// The additional tags that the video does not have yet (ignoring case),
/// in their order. Repeats among the additional tags are kept.
pub open spec fn fresh_tags(existing: Seq<Seq<char>>, additional: Seq<Seq<char>>) -> Seq<Seq<char>>
    decreases additional.len(),
{
    if additional.len() == 0 {
        Seq::empty()
    } else {
        let rest = fresh_tags(existing, additional.drop_last());
        let t = additional.last();
        if has_tag_ignoring_case(existing, t) {
            rest
        } else {
            rest.push(t)
        }
    }
}

/// The tags after adding: `None` when every additional tag is already there
/// (the tags are left as they are), else the existing tags followed by the
/// fresh ones.
pub open spec fn merged_tags(existing: Seq<Seq<char>>, additional: Seq<Seq<char>>) -> Option<Seq<Seq<char>>> {
    let fresh = fresh_tags(existing, additional);
    if fresh.len() == 0 {
        None
    } else {
        Some(existing + fresh)
    }
}

/// The lowercase forms of `v`, in order.
fn lowercase_all(v: &Vec<String>) -> (r: Vec<String>)
    ensures
        r@.len() == v@.len(),
        forall|i: int| 0 <= i < r@.len() ==> #[trigger] r@[i]@ == lowercase_of(v@[i]@),
{
    let mut r: Vec<String> = Vec::new();
    let mut i: usize = 0;
    while i < v.len()
        invariant
            i <= v@.len(),
            r@.len() == i,
            forall|j: int| 0 <= j < i ==> #[trigger] r@[j]@ == lowercase_of(v@[j]@),
        decreases v@.len() - i,
    {
        r.push(to_lowercase(v[i].as_str()));
        i = i + 1;
    }
    r
}

/// Whether `lower` is one of `lowers`.
fn among(lowers: &Vec<String>, lower: &String) -> (r: bool)
    ensures
        r == exists|i: int| 0 <= i < lowers@.len() && (#[trigger] lowers@[i])@ == lower@,
{
    let mut i: usize = 0;
    while i < lowers.len()
        invariant
            i <= lowers@.len(),
            forall|j: int| 0 <= j < i ==> (#[trigger] lowers@[j])@ != lower@,
        decreases lowers@.len() - i,
    {
        if lowers[i] == *lower {
            return true;
        }
        i = i + 1;
    }
    false
}

/// Add tags to a video's tags, ignoring case when telling which are new.
pub fn merge_tags(existing: &Vec<String>, additional: &Vec<String>) -> (r: Option<Vec<String>>)
    ensures
        match r {
            Some(t) => merged_tags(views(existing@), views(additional@)) == Some(views(t@)),
            None => merged_tags(views(existing@), views(additional@)) is None,
        },
{
    let lowers = lowercase_all(existing);
    let ghost ex = views(existing@);
    let mut fresh: Vec<String> = Vec::new();
    let mut i: usize = 0;
    while i < additional.len()
        invariant
            i <= additional@.len(),
            ex == views(existing@),
            lowers@.len() == existing@.len(),
            forall|j: int| 0 <= j < lowers@.len() ==> #[trigger] lowers@[j]@ == lowercase_of(existing@[j]@),
            views(fresh@) == fresh_tags(ex, views(additional@.take(i as int))),
        decreases additional@.len() - i,
    {
        let ghost prefix = views(additional@.take(i as int));
        let ghost next = views(additional@.take(i + 1));
        proof {
            assert(next.drop_last() =~= prefix);
            assert(next.last() == additional@[i as int]@);
        }
        let lower = to_lowercase(additional[i].as_str());
        let seen = among(&lowers, &lower);
        proof {
            if seen {
                let k = choose|k: int| 0 <= k < lowers@.len() && (#[trigger] lowers@[k])@ == lower@;
                assert(ex[k] == existing@[k]@);
                assert(lowercase_of(ex[k]) == lowercase_of(additional@[i as int]@));
                assert(has_tag_ignoring_case(ex, next.last()));
            } else {
                assert forall|k: int| 0 <= k < ex.len() implies lowercase_of(#[trigger] ex[k]) != lowercase_of(next.last()) by {
                    assert(lowers@[k]@ == lowercase_of(existing@[k]@));
                }
            }
        }
        if !seen {
            let ghost before = fresh@;
            fresh.push(additional[i].clone());
            proof {
                assert(views(fresh@) =~= views(before).push(additional@[i as int]@));
            }
        }
        i = i + 1;
    }
    proof {
        assert(additional@.take(additional@.len() as int) =~= additional@);
    }
    if fresh.len() == 0 {
        None
    } else {
        let mut all = clone_all(existing);
        let ghost before = all@;
        let mut k: usize = 0;
        while k < fresh.len()
            invariant
                k <= fresh@.len(),
                views(all@) == views(before) + views(fresh@.take(k as int)),
            decreases fresh@.len() - k,
        {
            let ghost b = all@;
            all.push(fresh[k].clone());
            proof {
                assert(views(all@) =~= views(b).push(fresh@[k as int]@));
                assert(views(fresh@.take(k + 1)) =~= views(fresh@.take(k as int)).push(fresh@[k as int]@));
            }
            k = k + 1;
        }
        proof {
            assert(fresh@.take(fresh@.len() as int) =~= fresh@);
        }
        Some(all)
    }
}

/// The changes made to a fetched video resource before it is put back:
/// each field set in the patch is written into the resource, the others
/// are left as fetched.
#[derive(Debug, Clone)]
pub struct VideoPatch {
    pub default_language: Option<String>,
    pub default_audio_language: Option<String>,
    pub description: Option<String>,
    pub tags: Option<Vec<String>>,
    pub recording_date: Option<String>,
}

/// Set the languages that are given.
pub fn language_patch(default_language: Option<&str>, default_audio_language: Option<&str>) -> (r: VideoPatch)
    ensures
        opt_view(r.default_language) == opt_str_view(default_language),
        opt_view(r.default_audio_language) == opt_str_view(default_audio_language),
        r.description is None,
        r.tags is None,
        r.recording_date is None,
{
    VideoPatch {
        default_language: owned_opt(default_language),
        default_audio_language: owned_opt(default_audio_language),
        description: None,
        tags: None,
        recording_date: None,
    }
}

/// Set the recording date.
pub fn recording_date_patch(recording_date: &str) -> (r: VideoPatch)
    ensures
        r.recording_date matches Some(d) && d@ == recording_date@,
        r.default_language is None,
        r.default_audio_language is None,
        r.description is None,
        r.tags is None,
{
    VideoPatch {
        default_language: None,
        default_audio_language: None,
        description: None,
        tags: None,
        recording_date: Some(recording_date.to_owned()),
    }
}

/// Append content to the description that was fetched.
pub fn append_description_patch(existing: Option<&str>, additional: &str) -> (r: VideoPatch)
    ensures
        r.description matches Some(d) && d@ == appended_description(opt_str_view(existing), additional@),
        r.default_language is None,
        r.default_audio_language is None,
        r.tags is None,
        r.recording_date is None,
{
    VideoPatch {
        default_language: None,
        default_audio_language: None,
        description: Some(append_description(existing, additional)),
        tags: None,
        recording_date: None,
    }
}

/// Overwrite the description.
pub fn set_description_patch(new_description: &str) -> (r: VideoPatch)
    ensures
        r.description matches Some(d) && d@ == new_description@,
        r.default_language is None,
        r.default_audio_language is None,
        r.tags is None,
        r.recording_date is None,
{
    VideoPatch {
        default_language: None,
        default_audio_language: None,
        description: Some(new_description.to_owned()),
        tags: None,
        recording_date: None,
    }
}

/// Add tags to those that were fetched; the tags are left alone when none
/// is new.
pub fn tags_patch(existing: &Vec<String>, additional: &Vec<String>) -> (r: VideoPatch)
    ensures
        match r.tags {
            Some(t) => merged_tags(views(existing@), views(additional@)) == Some(views(t@)),
            None => merged_tags(views(existing@), views(additional@)) is None,
        },
        r.default_language is None,
        r.default_audio_language is None,
        r.description is None,
        r.recording_date is None,
{
    VideoPatch {
        default_language: None,
        default_audio_language: None,
        description: None,
        tags: merge_tags(existing, additional),
        recording_date: None,
    }
}

/// Adding tags twice adds nothing the second time: once merged, every
/// additional tag is present, so a second merge leaves the tags alone.
pub proof fn lemma_merge_tags_idempotent(existing: Seq<Seq<char>>, additional: Seq<Seq<char>>)
    ensures
        merged_tags(
            match merged_tags(existing, additional) {
                Some(t) => t,
                None => existing,
            },
            additional,
        ) is None,
{
    let after = match merged_tags(existing, additional) {
        Some(t) => t,
        None => existing,
    };
    lemma_all_present(existing, additional, after);
    lemma_fresh_empty(after, additional);
}

/// Every additional tag is present, ignoring case, in the merged tags.
proof fn lemma_all_present(existing: Seq<Seq<char>>, additional: Seq<Seq<char>>, after: Seq<Seq<char>>)
    requires
        after == match merged_tags(existing, additional) {
            Some(t) => t,
            None => existing,
        },
    ensures
        forall|i: int| 0 <= i < additional.len() ==> has_tag_ignoring_case(after, #[trigger] additional[i]),
{
    let fresh = fresh_tags(existing, additional);
    assert forall|i: int| 0 <= i < additional.len() implies has_tag_ignoring_case(after, #[trigger] additional[i]) by {
        if has_tag_ignoring_case(existing, additional[i]) {
            let k = choose|k: int| 0 <= k < existing.len() && lowercase_of(#[trigger] existing[k]) == lowercase_of(additional[i]);
            assert(after[k] == existing[k]);
        } else {
            lemma_fresh_holds(existing, additional, i);
            let k = choose|k: int| 0 <= k < fresh.len() && fresh[k] == additional[i];
            assert(fresh.len() > 0);
            assert(after == existing + fresh);
            assert(after[existing.len() + k] == fresh[k]);
        }
    }
}

/// An additional tag that is not among the existing ones is among the
/// fresh ones.
proof fn lemma_fresh_holds(existing: Seq<Seq<char>>, additional: Seq<Seq<char>>, i: int)
    requires
        0 <= i < additional.len(),
        !has_tag_ignoring_case(existing, additional[i]),
    ensures
        exists|k: int| 0 <= k < fresh_tags(existing, additional).len() && fresh_tags(existing, additional)[k] == additional[i],
    decreases additional.len(),
{
    let rest = fresh_tags(existing, additional.drop_last());
    if i == additional.len() - 1 {
        assert(fresh_tags(existing, additional)[rest.len() as int] == additional[i]);
    } else {
        assert(additional.drop_last()[i] == additional[i]);
        lemma_fresh_holds(existing, additional.drop_last(), i);
        let k = choose|k: int| 0 <= k < rest.len() && rest[k] == additional[i];
        assert(fresh_tags(existing, additional)[k] == rest[k]);
    }
}

/// When every additional tag is present, none is fresh.
proof fn lemma_fresh_empty(existing: Seq<Seq<char>>, additional: Seq<Seq<char>>)
    requires
        forall|i: int| 0 <= i < additional.len() ==> has_tag_ignoring_case(existing, #[trigger] additional[i]),
    ensures
        fresh_tags(existing, additional).len() == 0,
    decreases additional.len(),
{
    if additional.len() > 0 {
        let d = additional.drop_last();
        assert forall|i: int| 0 <= i < d.len() implies has_tag_ignoring_case(existing, #[trigger] d[i]) by {
            assert(d[i] == additional[i]);
        }
        lemma_fresh_empty(existing, d);
        assert(has_tag_ignoring_case(existing, additional[additional.len() - 1]));
    }
}

} // verus!
