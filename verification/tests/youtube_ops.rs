use rust_yt_uploader::models::{midnight_timestamp, BatchConfigRoot, CommonConfig, PrivacyStatus, VideoCategory};
use rust_yt_uploader::youtube::caption::{caption_details_list, caption_metadata, record_captions, captions_endpoint, delete_caption_endpoint};
use rust_yt_uploader::youtube::comment::{
    comment_exists, comment_thread_endpoint, has_pinned_comment, owner_channel, pin_fetch_step, video_comments_endpoint,
    PinFetchStep,
};
use rust_yt_uploader::youtube::playlist::{
    first_playlist_item_id, playlist_info_endpoint, playlist_insertion, playlist_items_of_video_endpoint,
    remove_playlist_item_endpoint,
};
use rust_yt_uploader::youtube::types::{
    AuthorChannelId, CaptionItem, CaptionResponse, CaptionSnippet, CommentItem, CommentItemAuthor, CommentSnippet,
    CommentSnippetAuthor, CommentsResponse, CommentsResponseAuthor, PageInfo, PlaylistInfoResponse, PlaylistItem,
    PlaylistItemsResponse, RecordingDetails, SearchItem, SearchResponse, TextSnippet, ThreadSnippetAuthor,
    TopLevelComment, TopLevelCommentAuthor, VideoId, VideoItem, VideoItemChannel, VideoResponse, VideoResponseChannel,
    VideoSnippetChannel, VideoSnippetFull, VideoStatus,
};
use rust_yt_uploader::youtube::upload::{
    follow_up, plan_batch, upload_metadata, BatchPlanError, FollowUp,
};
use rust_yt_uploader::youtube::video::{
    append_description, cursor_endpoint, delete_video_endpoint, merge_tags, page_step, search_page_endpoint,
    search_video_ids, video_details_endpoint, video_details_list, PageCursor, PageResult,
};
use rust_yt_uploader::{build_youtube_base_url, build_youtube_direct_upload_url, default_youtube_scopes, VideoUploadOptions};

#[test]
fn service_urls() {
    assert_eq!(build_youtube_base_url(), "https://www.googleapis.com/youtube/v3");
    assert_eq!(
        build_youtube_direct_upload_url(),
        "https://www.googleapis.com/upload/youtube/v3/videos?uploadType=multipart&part=snippet%2Cstatus%2CrecordingDetails"
    );
    assert_eq!(
        default_youtube_scopes(),
        vec![
            "https://www.googleapis.com/auth/youtube.upload",
            "https://www.googleapis.com/auth/youtube.force-ssl",
            "https://www.googleapis.com/auth/youtube",
            "https://www.googleapis.com/auth/youtube.readonly",
        ]
    );
}

#[test]
fn endpoints() {
    assert_eq!(delete_video_endpoint("v1"), "videos?id=v1");
    assert_eq!(search_page_endpoint(None), "search?part=snippet&forMine=true&type=video&maxResults=50");
    assert_eq!(
        search_page_endpoint(Some("TOK")),
        "search?part=snippet&forMine=true&type=video&maxResults=50&pageToken=TOK"
    );
    assert_eq!(video_details_endpoint(&vec![]), None);
    assert_eq!(
        video_details_endpoint(&vec!["a".to_string(), "b".to_string()]).unwrap(),
        "videos?part=snippet,status,recordingDetails,contentDetails&id=a,b"
    );
    assert_eq!(playlist_info_endpoint("PL1"), "playlistItems?part=contentDetails&playlistId=PL1");
    assert_eq!(remove_playlist_item_endpoint("it"), "playlistItems?id=it");
    assert_eq!(playlist_items_of_video_endpoint("PL1", "v"), "playlistItems?part=id&playlistId=PL1&videoId=v");
    assert_eq!(captions_endpoint("v"), "captions?part=snippet&videoId=v");
    assert_eq!(delete_caption_endpoint("c"), "captions?id=c");
    assert_eq!(comment_thread_endpoint("c"), "commentThreads?part=snippet&id=c");
    assert_eq!(video_comments_endpoint("v"), "commentThreads?part=snippet&videoId=v&textFormat=plainText");
}

fn item(id: &str, tags: Option<Vec<&str>>) -> VideoItem {
    VideoItem {
        id: id.to_string(),
        snippet: VideoSnippetFull {
            title: format!("T {}", id),
            description: "D".to_string(),
            category_id: "22".to_string(),
            published_at: "2026-01-01T00:00:00Z".to_string(),
            tags: tags.map(|t| t.into_iter().map(|s| s.to_string()).collect()),
            default_language: Some("en".to_string()),
            default_audio_language: None,
            channel_id: None,
        },
        status: VideoStatus { privacy_status: "public".to_string() },
        recording_details: Some(RecordingDetails { recording_date: Some("2026-01-02".to_string()) }),
        content_details: None,
    }
}

#[test]
fn video_details_from_resources() {
    let resp = VideoResponse { items: vec![item("a", Some(vec!["x", "y"])), item("b", None)] };
    let list = video_details_list(&resp);
    assert_eq!(list.len(), 2);
    assert_eq!(list[0].id, "a");
    assert_eq!(list[0].title, "T a");
    assert_eq!(list[0].tags, vec!["x".to_string(), "y".to_string()]);
    assert_eq!(list[0].status, "public");
    assert_eq!(list[0].recording_date.as_deref(), Some("2026-01-02"));
    assert_eq!(list[1].tags, Vec::<String>::new());
    assert_eq!(list[1].duration, None);
    let search = SearchResponse {
        items: vec![SearchItem { id: VideoId { video_id: "a".to_string() } }, SearchItem { id: VideoId { video_id: "c".to_string() } }],
        next_page_token: None,
    };
    assert_eq!(search_video_ids(&search), vec!["a".to_string(), "c".to_string()]);
}

#[test]
fn paging_ends_on_error_empty_page_or_last_token() {
    let s = page_step(PageResult::Failed);
    assert!(s.emit);
    assert_eq!(s.cursor, PageCursor::Finished);
    let s = page_step(PageResult::Fetched { empty: true, next_page_token: Some("t".to_string()) });
    assert!(!s.emit);
    assert_eq!(s.cursor, PageCursor::Finished);
    let s = page_step(PageResult::Fetched { empty: false, next_page_token: Some("t".to_string()) });
    assert!(s.emit);
    assert_eq!(s.cursor, PageCursor::Next("t".to_string()));
    let s = page_step(PageResult::Fetched { empty: false, next_page_token: None });
    assert!(s.emit);
    assert_eq!(s.cursor, PageCursor::Finished);
    assert_eq!(cursor_endpoint(&PageCursor::Finished), None);
    assert_eq!(cursor_endpoint(&PageCursor::Next("t".to_string())).unwrap(), search_page_endpoint(Some("t")));
    assert_eq!(cursor_endpoint(&PageCursor::First).unwrap(), search_page_endpoint(None));
}

#[test]
fn descriptions_are_appended_after_a_blank_line() {
    assert_eq!(append_description(Some("Old"), "New"), "Old\n\nNew");
    assert_eq!(append_description(Some("  \n"), "New"), "New");
    assert_eq!(append_description(None, "New"), "New");
}

fn strings(v: &[&str]) -> Vec<String> {
    v.iter().map(|s| s.to_string()).collect()
}

#[test]
fn tags_are_added_ignoring_case() {
    let merged = merge_tags(&strings(&["Rust", "Video"]), &strings(&["rust", "New", "new", "VIDEO"]));
    assert_eq!(merged, Some(strings(&["Rust", "Video", "New", "new"])));
    assert_eq!(merge_tags(&strings(&["a"]), &strings(&["A"])), None);
    let once = merge_tags(&strings(&["a"]), &strings(&["b", "c"])).unwrap();
    assert_eq!(merge_tags(&once, &strings(&["b", "c"])), None);
}

#[test]
fn playlist_items_go_last() {
    let info = PlaylistInfoResponse { page_info: PageInfo { total_results: 7 } };
    let ins = playlist_insertion(&info, "PL1", "vid");
    assert_eq!(ins.position, 7);
    assert_eq!(ins.resource_kind, "youtube#video");
    assert_eq!(ins.playlist_id, "PL1");
    assert_eq!(ins.video_id, "vid");
    assert_eq!(first_playlist_item_id(&PlaylistItemsResponse { items: vec![] }), None);
    let items = PlaylistItemsResponse { items: vec![PlaylistItem { id: "i1".to_string() }, PlaylistItem { id: "i2".to_string() }] };
    assert_eq!(first_playlist_item_id(&items).as_deref(), Some("i1"));
}

#[test]
fn captions_listing_and_metadata() {
    let resp = CaptionResponse {
        items: vec![CaptionItem {
            id: "c1".to_string(),
            snippet: CaptionSnippet {
                video_id: "v".to_string(),
                language: "en".to_string(),
                track_kind: None,
                is_auto_synced: Some(true),
                is_cc: None,
                is_large: None,
                is_draft: Some(false),
                is_easy_reader: None,
                audio_track_type: None,
                name: Some("English".to_string()),
            },
        }],
    };
    let caps = caption_details_list(&resp);
    assert_eq!(caps.len(), 1);
    assert_eq!(caps[0].id, "c1");
    assert_eq!(caps[0].is_auto_synced, Some(true));
    assert_eq!(caps[0].name.as_deref(), Some("English"));
    let mut listing = Vec::new();
    record_captions(&mut listing, "v", Some(caps));
    record_captions(&mut listing, "w", None);
    assert_eq!(listing.len(), 1);
    assert_eq!(listing[0].0, "v");
    let meta = caption_metadata("v", "fr", None);
    assert_eq!(meta.name, "fr");
    assert_eq!(caption_metadata("v", "fr", Some("Français")).name, "Français");
}

fn comment(text: &str) -> CommentItem {
    CommentItem {
        snippet: CommentSnippet { top_level_comment: TopLevelComment { snippet: TextSnippet { text_original: text.to_string() } } },
    }
}

fn authored(author: Option<&str>, replies_disabled: bool) -> CommentItemAuthor {
    CommentItemAuthor {
        snippet: ThreadSnippetAuthor {
            is_replies_disabled: replies_disabled,
            top_level_comment: TopLevelCommentAuthor {
                snippet: CommentSnippetAuthor {
                    author_channel_id: author.map(|a| AuthorChannelId { value: Some(a.to_string()) }),
                },
            },
        },
    }
}

#[test]
fn comments_and_pins() {
    let comments = CommentsResponse { items: vec![comment("  hello world \n"), comment("other")] };
    assert!(comment_exists(&comments, "hello world"));
    assert!(!comment_exists(&comments, "hello"));
    let owner = VideoResponseChannel { items: vec![VideoItemChannel { snippet: VideoSnippetChannel { channel_id: Some("UC1".to_string()) } }] };
    assert_eq!(owner_channel(Some(&owner)).as_deref(), Some("UC1"));
    assert_eq!(owner_channel(None), None);
    assert_eq!(owner_channel(Some(&VideoResponseChannel { items: vec![] })), None);
    let threads = CommentsResponseAuthor { items: vec![authored(Some("UC2"), false), authored(Some("UC1"), false)] };
    assert!(has_pinned_comment(Some("UC1"), &threads));
    assert!(!has_pinned_comment(Some("UC3"), &threads));
    assert!(!has_pinned_comment(None, &threads));
    let disabled = CommentsResponseAuthor { items: vec![authored(None, true), authored(Some("UC2"), true)] };
    assert!(!has_pinned_comment(None, &disabled));
    assert!(!has_pinned_comment(Some("UC1"), &disabled));
    assert!(has_pinned_comment(Some("UC2"), &disabled));
    assert_eq!(pin_fetch_step(0, true), PinFetchStep::Update);
    assert_eq!(pin_fetch_step(0, false), PinFetchStep::Retry { tries: 1 });
    assert_eq!(pin_fetch_step(4, false), PinFetchStep::GiveUp);
}

#[test]
fn upload_metadata_and_follow_up() {
    let options = VideoUploadOptions {
        file: "f.mp4".to_string(),
        title: "T".to_string(),
        description: "D".to_string(),
        keywords: " a, b ,,c".to_string(),
        category: 28,
        privacy_status: "unlisted".to_string(),
        playlist_id: "PL1234567890123456".to_string(),
        default_audio_language: "en".to_string(),
        default_language: "de".to_string(),
        recording_date: "2026-01-24".to_string(),
    };
    let meta = upload_metadata(&options);
    assert_eq!(meta.tags, strings(&["a", "b", "", "c"]));
    assert_eq!(meta.category_id, "28");
    assert_eq!(meta.recording_date, "2026-01-24T00:00:00.000Z");
    let no_keywords = VideoUploadOptions { keywords: String::new(), ..options };
    assert!(upload_metadata(&no_keywords).tags.is_empty());
    assert_eq!(follow_up(true, Some("p".to_string())), FollowUp::RemoveAndDelete { playlist_item_id: "p".to_string() });
    assert_eq!(follow_up(false, Some("p".to_string())), FollowUp::Keep);
    assert_eq!(follow_up(true, None), FollowUp::Keep);
    assert_eq!(midnight_timestamp("2024-01-15"), "2024-01-15T00:00:00.000Z");
}

#[test]
fn batches_are_checked_then_planned() {
    let common = CommonConfig {
        prefix: "My Series - ".to_string(),
        keywords: "rust".to_string(),
        category: VideoCategory::HowtoStyle,
        privacy_status: PrivacyStatus::Private,
        playlist_id: "PL1234567890123456".to_string(),
        default_audio_language: "en".to_string(),
        default_language: "en".to_string(),
        recording_date: "2026-01-24".to_string(),
    };
    let config = BatchConfigRoot {
        test: false,
        common: common.clone(),
        titles: strings(&["  Episode 1 ", "Episode 2"]),
        files: strings(&["a.MTS", "p1.mkv, p2.mkv"]),
    };
    let items = plan_batch(&config, &vec![vec![true], vec![true, true]]).unwrap();
    assert_eq!(items.len(), 2);
    assert_eq!(items[0].full_title, "My Series - Episode 1");
    assert_eq!(items[0].merge_suffix, None);
    assert_eq!(items[1].files, strings(&["p1.mkv", "p2.mkv"]));
    assert_eq!(items[1].merge_suffix.as_deref(), Some(".mkv"));
    assert!(matches!(plan_batch(&config, &vec![vec![true], vec![true, false]]), Err(BatchPlanError::Files(_))));
    let blank = BatchConfigRoot { common: CommonConfig { keywords: "  ".to_string(), ..common.clone() }, ..config.clone() };
    assert!(matches!(plan_batch(&blank, &vec![vec![true], vec![true, true]]), Err(BatchPlanError::Keywords(_))));
    let bad = BatchConfigRoot { titles: vec![], ..config.clone() };
    assert!(matches!(plan_batch(&bad, &vec![vec![true], vec![true, true]]), Err(BatchPlanError::Invalid(_))));
    let no_ext = BatchConfigRoot { files: strings(&["a.MTS", "part1 part2"]), ..config };
    assert_eq!(plan_batch(&no_ext, &vec![vec![true], vec![true, true]]).unwrap()[1].merge_suffix.as_deref(), Some(".MTS"));
}
