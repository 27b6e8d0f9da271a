//! The YouTube Data API responses that the library reads, as plain data.

use vstd::prelude::*;

verus! {

/// YouTube API response for video upload
#[derive(Debug, Clone)]
pub struct VideoUploadResponse {
    pub id: String,
    pub snippet: VideoSnippet,
}

/// Video snippet information from YouTube API
#[derive(Debug, Clone)]
pub struct VideoSnippet {
    pub title: String,
    pub description: String,
    pub category_id: String,
}

/// Playlist info response from YouTube API
#[derive(Debug, Clone)]
pub struct PlaylistInfoResponse {
    pub page_info: PageInfo,
}

/// Page info for pagination
#[derive(Debug, Clone)]
pub struct PageInfo {
    pub total_results: u32,
}

/// Playlist item response from YouTube API
#[derive(Debug, Clone)]
pub struct PlaylistItemResponse {
    pub snippet: PlaylistItemSnippet,
    pub id: String,
}

/// Playlist item snippet information
#[derive(Debug, Clone)]
pub struct PlaylistItemSnippet {
    pub position: u32,
    pub playlist_id: String,
}

/// Playlist items list response
#[derive(Debug, Clone)]
pub struct PlaylistItemsResponse {
    pub items: Vec<PlaylistItem>,
}

/// Playlist item in a list
#[derive(Debug, Clone)]
pub struct PlaylistItem {
    pub id: String,
}

/// Search response from YouTube API
#[derive(Debug, Clone)]
pub struct SearchResponse {
    pub items: Vec<SearchItem>,
    pub next_page_token: Option<String>,
}

/// Search result item
#[derive(Debug, Clone)]
pub struct SearchItem {
    pub id: VideoId,
}

/// Video ID from search results
#[derive(Debug, Clone)]
pub struct VideoId {
    pub video_id: String,
}

/// Video response with full details
#[derive(Debug, Clone)]
pub struct VideoResponse {
    pub items: Vec<VideoItem>,
}

/// Video item with complete metadata
#[derive(Debug, Clone)]
pub struct VideoItem {
    pub id: String,
    pub snippet: VideoSnippetFull,
    pub status: VideoStatus,
    pub recording_details: Option<RecordingDetails>,
    pub content_details: Option<ContentDetails>,
}

/// Complete video snippet information
#[derive(Debug, Clone)]
pub struct VideoSnippetFull {
    pub title: String,
    pub description: String,
    pub category_id: String,
    pub published_at: String,
    pub tags: Option<Vec<String>>,
    pub default_language: Option<String>,
    pub default_audio_language: Option<String>,
    pub channel_id: Option<String>,
}

/// Simple video snippet for basic operations
#[derive(Debug, Clone)]
pub struct VideoSnippetSimple {
    pub description: String,
}

/// Video snippet with channel ID for owner detection
#[derive(Debug, Clone)]
pub struct VideoSnippetChannel {
    pub channel_id: Option<String>,
}

/// Video item with simple snippet
#[derive(Debug, Clone)]
pub struct VideoItemSimple {
    pub id: String,
    pub snippet: VideoSnippetSimple,
}

/// Video item with channel snippet
#[derive(Debug, Clone)]
pub struct VideoItemChannel {
    pub snippet: VideoSnippetChannel,
}

/// Video response with simple items
#[derive(Debug, Clone)]
pub struct VideoResponseSimple {
    pub items: Vec<VideoItemSimple>,
}

/// Video response with channel items
#[derive(Debug, Clone)]
pub struct VideoResponseChannel {
    pub items: Vec<VideoItemChannel>,
}

/// Video status information
#[derive(Debug, Clone)]
pub struct VideoStatus {
    pub privacy_status: String,
}

/// Recording details for a video
#[derive(Debug, Clone)]
pub struct RecordingDetails {
    pub recording_date: Option<String>,
}

/// Content details for a video
#[derive(Debug, Clone)]
pub struct ContentDetails {
    pub duration: Option<String>,
    pub caption: Option<String>,
}

/// Caption list response
#[derive(Debug, Clone)]
pub struct CaptionResponse {
    pub items: Vec<CaptionItem>,
}

/// Caption item
#[derive(Debug, Clone)]
pub struct CaptionItem {
    pub id: String,
    pub snippet: CaptionSnippet,
}

/// Caption snippet information
#[derive(Debug, Clone)]
pub struct CaptionSnippet {
    pub video_id: String,
    pub language: String,
    pub track_kind: Option<String>,
    pub is_auto_synced: Option<bool>,
    pub is_cc: Option<bool>,
    pub is_large: Option<bool>,
    pub is_draft: Option<bool>,
    pub is_easy_reader: Option<bool>,
    pub audio_track_type: Option<String>,
    pub name: Option<String>,
}

/// Caption upload response
#[derive(Debug, Clone)]
pub struct CaptionUploadResponse {
    pub id: String,
}

/// Comment response with ID
#[derive(Debug, Clone)]
pub struct CommentResponse {
    pub id: String,
}

/// Comments list response for comment_exists
#[derive(Debug, Clone)]
pub struct CommentsResponse {
    pub items: Vec<CommentItem>,
}

/// Comment item for comment_exists
#[derive(Debug, Clone)]
pub struct CommentItem {
    pub snippet: CommentSnippet,
}

/// Comment snippet for comment_exists
#[derive(Debug, Clone)]
pub struct CommentSnippet {
    pub top_level_comment: TopLevelComment,
}

/// Top-level comment for comment_exists
#[derive(Debug, Clone)]
pub struct TopLevelComment {
    pub snippet: TextSnippet,
}

/// Text snippet of a comment
#[derive(Debug, Clone)]
pub struct TextSnippet {
    pub text_original: String,
}

/// Comments list response for has_pinned_comment
#[derive(Debug, Clone)]
pub struct CommentsResponseAuthor {
    pub items: Vec<CommentItemAuthor>,
}

/// Comment item with author info for has_pinned_comment
#[derive(Debug, Clone)]
pub struct CommentItemAuthor {
    pub snippet: ThreadSnippetAuthor,
}

/// Thread snippet with author info for has_pinned_comment
#[derive(Debug, Clone)]
pub struct ThreadSnippetAuthor {
    pub is_replies_disabled: bool,
    pub top_level_comment: TopLevelCommentAuthor,
}

/// Top-level comment with author info for has_pinned_comment
#[derive(Debug, Clone)]
pub struct TopLevelCommentAuthor {
    pub snippet: CommentSnippetAuthor,
}

/// Comment snippet with author channel for has_pinned_comment
#[derive(Debug, Clone)]
pub struct CommentSnippetAuthor {
    pub author_channel_id: Option<AuthorChannelId>,
}

/// Author channel ID wrapper
#[derive(Debug, Clone)]
pub struct AuthorChannelId {
    pub value: Option<String>,
}

/// Thread snippet with reply settings
#[derive(Debug, Clone)]
pub struct ThreadSnippet {
    pub is_replies_disabled: bool,
    pub top_level_comment: TopLevelComment,
}

} // verus!
