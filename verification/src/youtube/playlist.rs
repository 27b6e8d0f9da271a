//! Playlist operations: the endpoints they call, where a new item goes and
//! which item a removal by video targets.

use vstd::prelude::*;
use crate::text::{concat2, concat3};
use crate::youtube::types::{PlaylistInfoResponse, PlaylistItemsResponse};

verus! {

/// The endpoint that inserts a playlist item.
pub const INSERT_PLAYLIST_ITEM_ENDPOINT: &'static str = "playlistItems?part=snippet";

/// The kind of resource that a playlist item refers to.
pub const VIDEO_RESOURCE_KIND: &'static str = "youtube#video";

/// The endpoint that fetches a playlist's item count:
/// `playlistItems?part=contentDetails&playlistId={playlist_id}`.
pub fn playlist_info_endpoint(playlist_id: &str) -> (r: String)
    ensures
        r@ == "playlistItems?part=contentDetails&playlistId="@ + playlist_id@,
{
    concat2("playlistItems?part=contentDetails&playlistId=", playlist_id)
}

/// The endpoint that deletes a playlist item: `playlistItems?id={item_id}`.
pub fn remove_playlist_item_endpoint(playlist_item_id: &str) -> (r: String)
    ensures
        r@ == "playlistItems?id="@ + playlist_item_id@,
{
    concat2("playlistItems?id=", playlist_item_id)
}

/// The endpoint that finds a video's items in a playlist:
/// `playlistItems?part=id&playlistId={playlist_id}&videoId={video_id}`.
pub fn playlist_items_of_video_endpoint(playlist_id: &str, video_id: &str) -> (r: String)
    ensures
        r@ == "playlistItems?part=id&playlistId="@ + playlist_id@ + "&videoId="@ + video_id@,
{
    let head = concat2("playlistItems?part=id&playlistId=", playlist_id);
    concat3(head.as_str(), "&videoId=", video_id)
}

/// The snippet of a new playlist item.
#[derive(Debug, Clone)]
pub struct PlaylistInsertion {
    pub playlist_id: String,
    pub position: u32,
    pub resource_kind: String,
    pub video_id: String,
}

/// A new item for a video goes at the end of the playlist: its position is
/// the number of items the playlist holds.
pub fn playlist_insertion(info: &PlaylistInfoResponse, playlist_id: &str, video_id: &str) -> (r: PlaylistInsertion)
    ensures
        r.playlist_id@ == playlist_id@,
        r.position == info.page_info.total_results,
        r.resource_kind@ == VIDEO_RESOURCE_KIND@,
        r.video_id@ == video_id@,
{
    PlaylistInsertion {
        playlist_id: playlist_id.to_owned(),
        position: info.page_info.total_results,
        resource_kind: VIDEO_RESOURCE_KIND.to_owned(),
        video_id: video_id.to_owned(),
    }
}

/// The item that a removal by video targets: the first item found, or
/// `None` when the video is not in the playlist.
pub fn first_playlist_item_id(items: &PlaylistItemsResponse) -> (r: Option<String>)
    ensures
        items.items@.len() == 0 ==> r is None,
        items.items@.len() > 0 ==> (r matches Some(id) && id@ == items.items@[0].id@),
{
    if items.items.len() == 0 {
        None
    } else {
        Some(items.items[0].id.clone())
    }
}

} // verus!
