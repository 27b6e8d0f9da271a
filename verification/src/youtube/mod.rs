//! YouTube Data API v3: service URLs, OAuth scopes, profile-based credential
//! files, listing results, and the request and response logic of each
//! client operation (split by domain: upload, video, playlist, caption,
//! comment).

pub mod caption;
pub mod comment;
pub mod playlist;
pub mod profile;
pub mod types;
pub mod upload;
pub mod video;

pub use profile::{
    ProfileNameError, ResolveError, choose_client_secret, credentials_path_for_profile,
    token_path_for_profile, validate_profile_name,
};

use vstd::prelude::*;
use crate::text::{opt_view, views};

verus! {

/// YouTube API service name.
pub const YOUTUBE_API_SERVICE_NAME: &'static str = "youtube";
/// YouTube API version.
pub const YOUTUBE_API_VERSION: &'static str = "v3";
/// Host of the Google APIs.
pub const YOUTUBE_API_BASE_URL: &'static str = "https://www.googleapis.com";

/// OAuth 2.0 scope for uploads.
pub const YOUTUBE_UPLOAD_SCOPE: &'static str = "https://www.googleapis.com/auth/youtube.upload";
/// OAuth 2.0 scope for managing the account.
pub const YOUTUBE_SCOPE: &'static str = "https://www.googleapis.com/auth/youtube";
/// OAuth 2.0 scope for read-only access.
pub const YOUTUBE_READONLY_SCOPE: &'static str = "https://www.googleapis.com/auth/youtube.readonly";
/// OAuth 2.0 scope for playlist and comment changes over SSL.
pub const YOUTUBE_PLAYLIST_SCOPE: &'static str = "https://www.googleapis.com/auth/youtube.force-ssl";

/// What `url::Url::parse(base)` followed by `path_segments_mut().extend(segments)`
/// serializes to; `None` when the base does not parse or cannot be a base.
pub uninterp spec fn url_with_segments(base: Seq<char>, segments: Seq<Seq<char>>) -> Option<Seq<char>>;

/// As [`url_with_segments`], then `query_pairs_mut().extend_pairs(pairs)`.
pub uninterp spec fn url_with_segments_and_query(
    base: Seq<char>,
    segments: Seq<Seq<char>>,
    pairs: Seq<(Seq<char>, Seq<char>)>,
) -> Option<Seq<char>>;

/// The API base URL.
pub open spec fn youtube_base_url() -> Seq<char> {
    "https://www.googleapis.com/youtube/v3"@
}

/// The direct (multipart) upload URL.
pub open spec fn youtube_upload_url() -> Seq<char> {
    "https://www.googleapis.com/upload/youtube/v3/videos?uploadType=multipart&part=snippet%2Cstatus%2CrecordingDetails"@
}

/// `url::Url::parse`, `Url::path_segments_mut` and `PathSegmentsMut::extend`,
/// serialized: the base URL with the segments appended (percent-encoded).
/// The contract names the result in general, and states it for the API
/// host with the service name and version: the host parses with the path
/// `/`, and `extend` adds each segment after a `/` (the crate's own example
/// extends `https://github.com/` in the same way). The URL standard is not
/// restated for other inputs.
#[verifier::external_body]
fn url_push_segments(base: &str, segments: &Vec<String>) -> (r: Option<String>)
    ensures
        r matches Some(u) ==> url_with_segments(base@, views(segments@)) == Some(u@),
        r is None ==> url_with_segments(base@, views(segments@)) is None,
        base@ == YOUTUBE_API_BASE_URL@ && views(segments@) == base_url_segments() ==> opt_view(r) == Some(youtube_base_url()),
{
    let mut url = url::Url::parse(base).ok()?;
    url.path_segments_mut().ok()?.extend(segments.iter());
    Some(url.to_string())
}

/// The view of a list of string pairs.
pub open spec fn pair_views(v: Seq<(String, String)>) -> Seq<(Seq<char>, Seq<char>)> {
    v.map_values(|p: (String, String)| (p.0@, p.1@))
}

/// As [`url_push_segments`], then `Url::query_pairs_mut` and
/// `Serializer::extend_pairs` (form-urlencoded query pairs). The contract
/// names the result in general, and states it for the API host with the
/// upload path and query: the pairs follow a `?`, joined by `&`, each as
/// `key=value` with `,` encoded as `%2C` (`form_urlencoded` keeps only
/// letters, digits and `*-._` unchanged). The URL standard is not restated
/// for other inputs.
#[verifier::external_body]
fn url_push_segments_and_query(base: &str, segments: &Vec<String>, pairs: &Vec<(String, String)>) -> (r: Option<String>)
    ensures
        r matches Some(u) ==> url_with_segments_and_query(base@, views(segments@), pair_views(pairs@)) == Some(u@),
        r is None ==> url_with_segments_and_query(base@, views(segments@), pair_views(pairs@)) is None,
        base@ == YOUTUBE_API_BASE_URL@ && views(segments@) == upload_url_segments() && pair_views(pairs@) == upload_url_query() ==> opt_view(r) == Some(youtube_upload_url()),
{
    let mut url = url::Url::parse(base).ok()?;
    url.path_segments_mut().ok()?.extend(segments.iter());
    url.query_pairs_mut().extend_pairs(pairs.iter());
    Some(url.to_string())
}

/// The path segments of the API base URL: service name and version.
pub open spec fn base_url_segments() -> Seq<Seq<char>> {
    seq![YOUTUBE_API_SERVICE_NAME@, YOUTUBE_API_VERSION@]
}

/// The path segments of the direct upload URL.
pub open spec fn upload_url_segments() -> Seq<Seq<char>> {
    seq!["upload"@, YOUTUBE_API_SERVICE_NAME@, YOUTUBE_API_VERSION@, "videos"@]
}

/// The query of the direct upload URL.
pub open spec fn upload_url_query() -> Seq<(Seq<char>, Seq<char>)> {
    seq![("uploadType"@, "multipart"@), ("part"@, "snippet,status,recordingDetails"@)]
}

/// Build the YouTube API base URL (`https://www.googleapis.com/youtube/v3`)
/// from the host, the service name and the version.
pub fn build_youtube_base_url() -> (r: String)
    ensures
        r@ == youtube_base_url(),
        url_with_segments(YOUTUBE_API_BASE_URL@, base_url_segments()) == Some(r@),
{
    let mut segments: Vec<String> = Vec::new();
    segments.push(YOUTUBE_API_SERVICE_NAME.to_owned());
    segments.push(YOUTUBE_API_VERSION.to_owned());
    proof {
        assert(views(segments@) =~= base_url_segments());
    }
    match url_push_segments(YOUTUBE_API_BASE_URL, &segments) {
        Some(u) => u,
        None => String::new(),
    }
}

/// Build the YouTube direct (multipart) upload URL from the host, the
/// upload path and the multipart query.
pub fn build_youtube_direct_upload_url() -> (r: String)
    ensures
        r@ == youtube_upload_url(),
        url_with_segments_and_query(YOUTUBE_API_BASE_URL@, upload_url_segments(), upload_url_query()) == Some(r@),
{
    let mut segments: Vec<String> = Vec::new();
    segments.push("upload".to_owned());
    segments.push(YOUTUBE_API_SERVICE_NAME.to_owned());
    segments.push(YOUTUBE_API_VERSION.to_owned());
    segments.push("videos".to_owned());
    let mut pairs: Vec<(String, String)> = Vec::new();
    pairs.push(("uploadType".to_owned(), "multipart".to_owned()));
    pairs.push(("part".to_owned(), "snippet,status,recordingDetails".to_owned()));
    proof {
        assert(views(segments@) =~= upload_url_segments());
        assert(pair_views(pairs@) =~= upload_url_query());
    }
    match url_push_segments_and_query(YOUTUBE_API_BASE_URL, &segments, &pairs) {
        Some(u) => u,
        None => String::new(),
    }
}

/// The default OAuth scopes, in the order they are requested.
pub open spec fn default_scopes() -> Seq<Seq<char>> {
    seq![YOUTUBE_UPLOAD_SCOPE@, YOUTUBE_PLAYLIST_SCOPE@, YOUTUBE_SCOPE@, YOUTUBE_READONLY_SCOPE@]
}

/// Default YouTube OAuth scopes: upload, force-ssl, youtube, readonly.
pub fn default_youtube_scopes() -> (r: Vec<&'static str>)
    ensures
        r@.map_values(|s: &'static str| s@) == default_scopes(),
{
    let mut r: Vec<&'static str> = Vec::new();
    r.push(YOUTUBE_UPLOAD_SCOPE);
    r.push(YOUTUBE_PLAYLIST_SCOPE);
    r.push(YOUTUBE_SCOPE);
    r.push(YOUTUBE_READONLY_SCOPE);
    proof {
        assert(r@.map_values(|s: &'static str| s@) =~= default_scopes());
    }
    r
}

/// Receives upload progress.
pub trait ProgressReporter: Send + Sync {
    /// `uploaded` of `total` bytes of `filename` have been sent.
    fn report_progress(&self, uploaded: u64, total: u64, filename: &str);

    /// The upload has finished.
    fn finish(&self);
}

/// A progress reporter that does nothing.
pub struct NoProgress;

impl ProgressReporter for NoProgress {
    fn report_progress(&self, uploaded: u64, total: u64, filename: &str) {
    }

    fn finish(&self) {
    }
}

/// Video details for listing.
#[derive(Debug, Clone)]
pub struct VideoDetails {
    pub id: String,
    pub title: String,
    pub description: String,
    pub status: String,
    pub upload_date: String,
    pub category_id: String,
    pub tags: Vec<String>,
    pub default_language: Option<String>,
    pub default_audio_language: Option<String>,
    pub recording_date: Option<String>,
    pub duration: Option<String>,
    pub caption: Option<String>,
}

/// Caption/subtitle details for a video.
#[derive(Debug, Clone)]
pub struct CaptionDetails {
    pub id: String,
    pub video_id: String,
    pub language: String,
    pub is_auto_synced: Option<bool>,
    pub is_cc: Option<bool>,
    pub is_large: Option<bool>,
    pub is_draft: Option<bool>,
    pub name: Option<String>,
    pub audio_track_type: Option<String>,
    pub is_easy_reader: Option<bool>,
}

} // verus!
