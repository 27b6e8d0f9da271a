use rust_yt_uploader::tools::comment::{comment_step, CommentAction, CommentEvent, CommentOptions};
use rust_yt_uploader::tools::description::{
    already_canonical, append_step, normalize, preview, verify_exhausted, verify_record, verify_start, verify_step, AppendAction,
    AppendEvent, ToolOutcome, VerifyAction, VerifyOutcome,
};
use rust_yt_uploader::tools::language::{language_check, needs_language_update, shown_language, LanguageCheck};
use rust_yt_uploader::tools::list::{
    filter_listing_by_language, format_as_ids_only, format_as_table, format_captions_as_table, merge_videos_by_id,
    OutputFormat,
};
use rust_yt_uploader::tools::subtitle::{caption_track_name, matching_caption_ids, subtitle_plan, SubtitlePlan};
use rust_yt_uploader::tools::tags::parse_tags;
use rust_yt_uploader::tools::{clean_text, split_trailing_file};
use rust_yt_uploader::video_process::{concat_list, ffmpeg_concat_args, ffprobe_duration_args, pick_fast_temp_dir};
use rust_yt_uploader::{CaptionDetails, VideoDetails};

fn video(id: &str, title: &str) -> VideoDetails {
    VideoDetails {
        id: id.to_string(),
        title: title.to_string(),
        description: String::new(),
        status: "public".to_string(),
        upload_date: "2026-01-01T00:00:00Z".to_string(),
        category_id: "22".to_string(),
        tags: vec![],
        default_language: None,
        default_audio_language: None,
        recording_date: None,
        duration: None,
        caption: None,
    }
}

#[test]
fn merge_overwrites_by_id_and_appends_new() {
    let existing = vec![video("a", "A old"), video("b", "B")];
    let fresh = vec![video("b", "B new"), video("c", "C")];
    let merged = merge_videos_by_id(existing, &fresh);
    let ids: Vec<&str> = merged.iter().map(|v| v.id.as_str()).collect();
    assert_eq!(ids, ["a", "b", "c"], "existing order kept, new appended");
    assert_eq!(merged[1].title, "B new", "existing entry overwritten by id");
}

#[test]
fn merge_without_output_file_is_identity() {
    let fresh = vec![video("a", "A")];
    let merged = merge_videos_by_id(Vec::new(), &fresh);
    assert_eq!(merged.len(), 1);
    assert_eq!(merged[0].id, "a");
}

#[test]
fn merging_twice_changes_nothing() {
    let existing = vec![video("a", "A"), video("b", "B")];
    let fresh = vec![video("b", "B2"), video("c", "C")];
    let once = merge_videos_by_id(existing, &fresh);
    let twice = merge_videos_by_id(once.clone(), &fresh);
    let titles = |v: &Vec<VideoDetails>| v.iter().map(|x| x.title.clone()).collect::<Vec<_>>();
    assert_eq!(titles(&once), titles(&twice));
}

#[test]
fn output_formats_ignore_case() {
    assert_eq!(OutputFormat::from_name("JSON").unwrap(), OutputFormat::Json);
    assert_eq!(OutputFormat::from_name("jsonl").unwrap(), OutputFormat::Jsonl);
    assert_eq!(OutputFormat::from_name("Table").unwrap(), OutputFormat::Table);
    let err = OutputFormat::from_name("xml").unwrap_err();
    assert_eq!(err.message(), "Invalid output format: xml. Supported: json, jsonl, table");
}

#[test]
fn video_table_rows() {
    assert_eq!(format_as_table(&[]), "No videos found.");
    let mut v = video("abc", "A title that is far longer than thirty-four bytes");
    v.duration = Some("PT1M".to_string());
    let table = format_as_table(&[v, video("x", "short")]);
    let lines: Vec<&str> = table.lines().collect();
    assert_eq!(lines.len(), 4);
    assert_eq!(lines[0], "VIDEO ID             | TITLE                              | DURATION | STATUS   | RECORDING DATE");
    assert_eq!(lines[2], format!("{:<20} | {:<34} | {:<8} | {:<8} | {}", "abc", "A title that is far longer than...", "PT1M", "public", "N/A"));
    assert_eq!(lines[3], format!("{:<20} | {:<34} | {:<8} | {:<8} | {}", "x", "short", "N/A", "public", "N/A"));
    assert!(table.ends_with('\n'));
    let wide = format_as_table(&[video("é", "ü")]);
    assert_eq!(wide.lines().nth(2).unwrap(), format!("{:<20} | {:<34} | {:<8} | {:<8} | {}", "é", "ü", "N/A", "public", "N/A"));
}

#[test]
fn ids_one_per_line() {
    assert_eq!(format_as_ids_only(&[video("a", ""), video("b", "")]), "a\nb");
    assert_eq!(format_as_ids_only(&[]), "");
}

fn caption(lang: &str, name: Option<&str>, cc: Option<bool>) -> CaptionDetails {
    CaptionDetails {
        id: format!("id-{}", lang),
        video_id: "v".to_string(),
        language: lang.to_string(),
        is_auto_synced: None,
        is_cc: cc,
        is_large: None,
        is_draft: None,
        name: name.map(|n| n.to_string()),
        audio_track_type: None,
        is_easy_reader: None,
    }
}

#[test]
fn caption_table_rows() {
    assert_eq!(format_captions_as_table(&vec![]), "No captions found.");
    let listing = vec![
        ("v1".to_string(), vec![caption("en", Some("English"), Some(true)), caption("fr", None, None)]),
        ("v2".to_string(), vec![]),
    ];
    let table = format_captions_as_table(&listing);
    let lines: Vec<&str> = table.lines().collect();
    assert_eq!(lines.len(), 4);
    assert_eq!(lines[2], format!("{:<20} | {:<8} | {:<11} | {:<5} | {:<15} | {:<5} | {}", "v1", "en", "No", "No", "Yes", "No", "English"));
    assert_eq!(lines[3], format!("{:<20} | {:<8} | {:<11} | {:<5} | {:<15} | {:<5} | {}", "", "fr", "No", "No", "No", "No", "-"));
    let only_fr = filter_listing_by_language(&listing, "fr");
    assert_eq!(only_fr.len(), 1);
    assert_eq!(only_fr[0].1.len(), 1);
    assert_eq!(only_fr[0].1[0].language, "fr");
}

#[test]
fn trailing_file_arguments() {
    let args: Vec<String> = vec!["v1".into(), "v2".into(), "tags.txt".into()];
    let (ids, file) = split_trailing_file(&args).unwrap();
    assert_eq!(ids, vec!["v1".to_string(), "v2".to_string()]);
    assert_eq!(file, "tags.txt");
    assert!(split_trailing_file(&vec!["only".to_string()]).is_none());
}

#[test]
fn content_files_are_cleaned() {
    let content = "  first line\r\n\n   \nsecond\n-- end of file --\nthird  \n";
    assert_eq!(clean_text(content), "first line\nsecond\nthird");
    assert_eq!(clean_text("\n \n-- end of file --"), "");
}

#[test]
fn tags_files_split_on_all_separators() {
    assert_eq!(
        parse_tags("tag1, tag2；tag3，another tag;;  \n"),
        vec!["tag1".to_string(), "tag2".to_string(), "tag3".to_string(), "another tag".to_string()]
    );
    assert!(parse_tags(" , ; ").is_empty());
}

#[test]
fn normalizing_descriptions() {
    assert_eq!(normalize("  a\r\nb \r\n"), "a\nb");
    assert!(already_canonical("x\r\ny\n", "  x\ny"));
    assert!(!already_canonical("x", "y"));
    assert_eq!(preview(&"é".repeat(130)).chars().count(), 120);
    assert_eq!(preview("short"), "short");
}

#[test]
fn surrounding_whitespace_never_changes_the_comparison() {
    for s in ["a\r", "\na", "a\r\nb", "", " \r", "x y"] {
        for ws in ["\n", "\r\n", " \t", "\r", "\n\r"] {
            assert_eq!(normalize(&format!("{}{}", s, ws)), normalize(s));
            assert_eq!(normalize(&format!("{}{}", ws, s)), normalize(s));
        }
    }
}

#[test]
fn append_pipeline() {
    assert_eq!(append_step(false, AppendEvent::Start), AppendAction::CheckDuplicate);
    assert_eq!(append_step(true, AppendEvent::Start), AppendAction::Update);
    assert_eq!(
        append_step(false, AppendEvent::Checked(Ok(true))),
        AppendAction::Finish(ToolOutcome::Skipped("Content already exists in description".to_string()))
    );
    assert_eq!(append_step(false, AppendEvent::Checked(Ok(false))), AppendAction::Update);
    assert_eq!(
        append_step(false, AppendEvent::Checked(Err("boom".to_string()))),
        AppendAction::Finish(ToolOutcome::Failed("Failed to check for duplicate: boom".to_string()))
    );
    assert_eq!(append_step(false, AppendEvent::Updated(Ok(()))), AppendAction::Finish(ToolOutcome::Success));
    assert_eq!(
        append_step(false, AppendEvent::Updated(Err("x".to_string()))),
        AppendAction::Finish(ToolOutcome::Failed("Failed to update description: x".to_string()))
    );
}

#[test]
fn verify_pipeline() {
    let p = verify_start();
    let p = verify_record(p, None, "want").unwrap_err();
    let p = verify_record(p, Some("other"), "want").unwrap_err();
    assert_eq!(p.attempt, 3);
    assert_eq!(
        verify_exhausted(&p),
        VerifyOutcome::Mismatch { got_preview: "other".to_string(), expected_preview: "want".to_string() }
    );
    assert_eq!(verify_record(p, Some(" want\r\n"), "want").unwrap(), VerifyOutcome::Verified { attempt: 3 });
    assert_eq!(verify_exhausted(&verify_start()), VerifyOutcome::Unfetched);
}

/// Drive a check the way the command does, over fetches given in advance;
/// returns how it ended and how many fetches it made.
fn run_check(fetches: &[Option<&str>], expected: &str, retries: usize) -> (VerifyOutcome, usize) {
    let mut progress = verify_start();
    let mut made = 0;
    loop {
        match verify_step(&progress, retries) {
            VerifyAction::Stop(o) => return (o, made),
            VerifyAction::Fetch { attempt, pause_first } => {
                assert_eq!(attempt, made + 1);
                assert_eq!(pause_first, attempt > 1);
                made += 1;
                match verify_record(progress, fetches[attempt - 1], expected) {
                    Ok(o) => return (o, made),
                    Err(next) => progress = next,
                }
            }
        }
    }
}

#[test]
fn verify_steps_bound_the_fetches() {
    let fetches = [None, Some("other"), Some("want\n"), Some("want")];
    assert_eq!(run_check(&fetches, "want", 0), (VerifyOutcome::Unfetched, 0));
    assert_eq!(run_check(&fetches, "want", 1), (VerifyOutcome::Unfetched, 1));
    assert_eq!(
        run_check(&fetches, "want", 2),
        (VerifyOutcome::Mismatch { got_preview: "other".to_string(), expected_preview: "want".to_string() }, 2)
    );
    assert_eq!(run_check(&fetches, "want", 3), (VerifyOutcome::Verified { attempt: 3 }, 3));
    assert_eq!(run_check(&fetches, "want", 4), (VerifyOutcome::Verified { attempt: 3 }, 3));
    assert_eq!(
        verify_step(&verify_start(), 3),
        VerifyAction::Fetch { attempt: 1, pause_first: false }
    );
}

#[test]
fn comment_pipeline() {
    let opts = CommentOptions { pin: true, skip_if_pinned: true, force: false };
    assert_eq!(comment_step(opts, CommentEvent::Start), CommentAction::CheckPinned);
    assert_eq!(
        comment_step(opts, CommentEvent::PinnedChecked(Ok(true))),
        CommentAction::Finish { outcome: ToolOutcome::Skipped("Pinned comment already exists".to_string()), comment_id: None }
    );
    let forced = CommentOptions { force: true, ..opts };
    assert_eq!(comment_step(forced, CommentEvent::PinnedChecked(Ok(true))), CommentAction::CheckDuplicate);
    assert_eq!(
        comment_step(opts, CommentEvent::PinnedChecked(Err("e".to_string()))),
        CommentAction::Finish { outcome: ToolOutcome::Skipped("Could not detect pinned comment: e".to_string()), comment_id: None }
    );
    assert_eq!(comment_step(opts, CommentEvent::DuplicateChecked(Ok(false))), CommentAction::Post);
    assert_eq!(
        comment_step(opts, CommentEvent::DuplicateChecked(Ok(true))),
        CommentAction::Finish { outcome: ToolOutcome::Skipped("Identical comment already exists".to_string()), comment_id: None }
    );
    assert_eq!(
        comment_step(opts, CommentEvent::Posted(Ok("c1".to_string()))),
        CommentAction::Pin { comment_id: "c1".to_string() }
    );
    let no_pin = CommentOptions { pin: false, skip_if_pinned: false, force: false };
    assert_eq!(comment_step(no_pin, CommentEvent::Start), CommentAction::CheckDuplicate);
    assert_eq!(
        comment_step(no_pin, CommentEvent::Posted(Ok("c1".to_string()))),
        CommentAction::Finish { outcome: ToolOutcome::Success, comment_id: Some("c1".to_string()) }
    );
    assert_eq!(
        comment_step(opts, CommentEvent::Posted(Err("no".to_string()))),
        CommentAction::Finish { outcome: ToolOutcome::Failed("Failed to post comment: no".to_string()), comment_id: None }
    );
    assert_eq!(
        comment_step(opts, CommentEvent::PinAttempted { comment_id: "c1".to_string() }),
        CommentAction::Finish { outcome: ToolOutcome::Success, comment_id: Some("c1".to_string()) }
    );
}

#[test]
fn language_updates() {
    let mut v = video("a", "t");
    assert!(needs_language_update(&v, true));
    assert!(needs_language_update(&v, false));
    v.default_language = Some("zh".to_string());
    assert!(!needs_language_update(&v, true));
    assert!(needs_language_update(&v, false));
    v.default_audio_language = Some("zh-Hans".to_string());
    assert!(!needs_language_update(&v, false));
    assert_eq!(language_check(&v, false), LanguageCheck::UpToDate);
    v.status = "PRIVATE".to_string();
    assert_eq!(language_check(&v, false), LanguageCheck::NotPublic);
    v.status = "Public".to_string();
    v.default_audio_language = None;
    assert_eq!(language_check(&v, false), LanguageCheck::NeedsUpdate);
    assert_eq!(shown_language(&None), "(not set)");
    assert_eq!(shown_language(&Some("de".to_string())), "de");
}

#[test]
fn subtitle_matching_and_plan() {
    let caps = vec![caption("en", Some("English"), None), caption("en", None, None), caption("fr", Some("English"), None)];
    assert_eq!(caption_track_name("en", None), "en");
    assert_eq!(caption_track_name("en", Some("English")), "English");
    assert_eq!(matching_caption_ids(&caps, "en", "English"), vec!["id-en".to_string()]);
    assert_eq!(matching_caption_ids(&caps, "en", "").len(), 1);
    assert_eq!(subtitle_plan(1, false), SubtitlePlan::Refuse);
    assert_eq!(subtitle_plan(0, false), SubtitlePlan::Upload);
    assert_eq!(subtitle_plan(0, true), SubtitlePlan::ReplaceThenUpload);
}

#[test]
fn ffmpeg_command_lines() {
    assert_eq!(concat_list(&["a.mts".to_string(), "b c.mts".to_string()]), "file 'a.mts'\nfile 'b c.mts'\n");
    assert_eq!(
        ffmpeg_concat_args("list.txt", "out.mts"),
        vec!["-y", "-threads", "0", "-fflags", "+genpts", "-safe", "0", "-f", "concat", "-i", "list.txt", "-c", "copy",
            "-avoid_negative_ts", "make_zero", "out.mts"]
    );
    assert_eq!(
        ffprobe_duration_args("v.mp4"),
        vec!["-v", "error", "-show_entries", "format=duration", "-of", "default=noprint_wrappers=1:nokey=1", "v.mp4"]
    );
    assert_eq!(pick_fast_temp_dir(&vec![false, true, true]), Some("/tmp"));
    assert_eq!(pick_fast_temp_dir(&vec![true, true, true]), Some("/dev/shm"));
    assert_eq!(pick_fast_temp_dir(&vec![false, false, false]), None);
}
