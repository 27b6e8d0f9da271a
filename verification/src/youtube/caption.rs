//! Caption operations: the endpoints they call, the caption listing, and
//! the metadata of an uploaded caption track.

use vstd::prelude::*;
use crate::text::{clone_opt, concat2, opt_str_view, opt_view};
use crate::youtube::CaptionDetails;
use crate::youtube::types::{CaptionItem, CaptionResponse};

verus! {

/// The endpoint that caption files are uploaded to.
pub const CAPTION_UPLOAD_URL: &'static str =
    "https://www.googleapis.com/upload/youtube/v3/captions?uploadType=multipart&part=snippet";

/// The endpoint that lists a video's captions: `captions?part=snippet&videoId={video_id}`.
pub fn captions_endpoint(video_id: &str) -> (r: String)
    ensures
        r@ == "captions?part=snippet&videoId="@ + video_id@,
{
    concat2("captions?part=snippet&videoId=", video_id)
}

/// The endpoint that deletes a caption track: `captions?id={caption_id}`.
pub fn delete_caption_endpoint(caption_id: &str) -> (r: String)
    ensures
        r@ == "captions?id="@ + caption_id@,
{
    concat2("captions?id=", caption_id)
}

/// `d` holds the details of caption resource `item`.
pub open spec fn caption_of(d: CaptionDetails, item: CaptionItem) -> bool {
    &&& d.id@ == item.id@
    &&& d.video_id@ == item.snippet.video_id@
    &&& d.language@ == item.snippet.language@
    &&& d.is_auto_synced == item.snippet.is_auto_synced
    &&& d.is_cc == item.snippet.is_cc
    &&& d.is_large == item.snippet.is_large
    &&& d.is_draft == item.snippet.is_draft
    &&& d.is_easy_reader == item.snippet.is_easy_reader
    &&& opt_view(d.audio_track_type) == opt_view(item.snippet.audio_track_type)
    &&& opt_view(d.name) == opt_view(item.snippet.name)
}

/// The details of one caption resource.
pub fn caption_details_of(item: &CaptionItem) -> (r: CaptionDetails)
    ensures
        caption_of(r, *item),
{
    CaptionDetails {
        id: item.id.clone(),
        video_id: item.snippet.video_id.clone(),
        language: item.snippet.language.clone(),
        is_auto_synced: item.snippet.is_auto_synced,
        is_cc: item.snippet.is_cc,
        is_large: item.snippet.is_large,
        is_draft: item.snippet.is_draft,
        is_easy_reader: item.snippet.is_easy_reader,
        audio_track_type: clone_opt(&item.snippet.audio_track_type),
        name: clone_opt(&item.snippet.name),
    }
}

/// The details of every caption of a caption listing, in order.
pub fn caption_details_list(response: &CaptionResponse) -> (r: Vec<CaptionDetails>)
    ensures
        r@.len() == response.items@.len(),
        forall|i: int| 0 <= i < r@.len() ==> caption_of(#[trigger] r@[i], response.items@[i]),
{
    let mut r: Vec<CaptionDetails> = Vec::new();
    let mut i: usize = 0;
    while i < response.items.len()
        invariant
            i <= response.items@.len(),
            r@.len() == i,
            forall|j: int| 0 <= j < i ==> caption_of(#[trigger] r@[j], response.items@[j]),
        decreases response.items@.len() - i,
    {
        r.push(caption_details_of(&response.items[i]));
        i = i + 1;
    }
    r
}

/// Record the captions of one video in a channel-wide listing: a video whose
/// captions could not be fetched is left out.
pub fn record_captions(
    listing: &mut Vec<(String, Vec<CaptionDetails>)>,
    video_id: &str,
    captions: Option<Vec<CaptionDetails>>,
)
    ensures
        captions is None ==> final(listing)@ == old(listing)@,
        captions matches Some(c) ==> (final(listing)@.len() == old(listing)@.len() + 1
            && final(listing)@.drop_last() == old(listing)@
            && final(listing)@.last().0@ == video_id@
            && final(listing)@.last().1 == c),
{
    match captions {
        Some(c) => {
            listing.push((video_id.to_owned(), c));
            proof {
                assert(final(listing)@.drop_last() =~= old(listing)@);
            }
        },
        None => {},
    }
}

/// The snippet of an uploaded caption track.
#[derive(Debug, Clone)]
pub struct CaptionMetadata {
    pub video_id: String,
    pub language: String,
    pub name: String,
}

/// The metadata of a caption upload: the track is named by `name`, or by
/// its language when no name is given.
pub fn caption_metadata(video_id: &str, language: &str, name: Option<&str>) -> (r: CaptionMetadata)
    ensures
        r.video_id@ == video_id@,
        r.language@ == language@,
        r.name@ == match opt_str_view(name) {
            Some(n) => n,
            None => language@,
        },
{
    let n = match name {
        Some(n) => n.to_owned(),
        None => language.to_owned(),
    };
    CaptionMetadata { video_id: video_id.to_owned(), language: language.to_owned(), name: n }
}

} // verus!
