use rust_yt_uploader::models::{
    validate_playlist_id, BatchConfigRoot, BatchFilesError, CommonConfig, ConfigFormat, IndividualConfigRoot,
    PrivacyStatus, VideoCategory, VideoConfig, VideoUploadOptions, schema_from_keys,
};
use std::io::Write;

fn create_test_video_file() -> tempfile::NamedTempFile {
    let mut file = tempfile::NamedTempFile::new().expect("Failed to create temp file");
    file.write_all(b"fake video content\n").expect("Failed to write to temp file");
    file
}

fn file_exists(path: &str) -> bool {
    std::path::Path::new(path).exists()
}

fn sample_options(category: u32) -> VideoUploadOptions {
    VideoUploadOptions {
        file: "test.mp4".to_string(),
        title: "Test Video".to_string(),
        description: "Test Description".to_string(),
        keywords: "test,video".to_string(),
        category,
        privacy_status: "private".to_string(),
        playlist_id: "PL1234567890123456".to_string(),
        default_audio_language: "en".to_string(),
        default_language: "en".to_string(),
        recording_date: "2026-01-24T00:00:00.000Z".to_string(),
    }
}

fn common(prefix: &str, keywords: &str, playlist: &str) -> CommonConfig {
    CommonConfig {
        prefix: prefix.to_string(),
        keywords: keywords.to_string(),
        category: VideoCategory::PeopleBlogs,
        privacy_status: PrivacyStatus::Private,
        playlist_id: playlist.to_string(),
        default_audio_language: "en".to_string(),
        default_language: "en".to_string(),
        recording_date: "2026-01-24".to_string(),
    }
}

#[test]
fn models_test_video_category_conversion() {
    assert_eq!(VideoCategory::PeopleBlogs.as_u32(), 22);
    assert_eq!(VideoCategory::from_u32(22).unwrap(), VideoCategory::PeopleBlogs);
    assert!(VideoCategory::from_u32(999).is_err());
}

#[test]
fn integration_test_video_category_conversion() {
    assert_eq!(VideoCategory::PeopleBlogs.as_u32(), 22);
    assert_eq!(VideoCategory::ScienceTechnology.as_u32(), 28);
    assert_eq!(VideoCategory::Gaming.as_u32(), 20);

    assert_eq!(VideoCategory::from_u32(22).unwrap(), VideoCategory::PeopleBlogs);
    assert_eq!(VideoCategory::from_u32(28).unwrap(), VideoCategory::ScienceTechnology);
    assert_eq!(VideoCategory::from_u32(20).unwrap(), VideoCategory::Gaming);

    assert!(VideoCategory::from_u32(999).is_err());
}

#[test]
fn models_test_playlist_id_validation() {
    assert!(validate_playlist_id("PL1234567890123456").is_ok());
    assert!(validate_playlist_id("PLAbCdEfGhIjKlMnOpQrStUvWxYz").is_ok());
    assert!(validate_playlist_id("invalid").is_err());
    assert!(validate_playlist_id("PL123").is_err());
}

#[test]
fn integration_test_playlist_id_validation() {
    assert!(validate_playlist_id("PL1234567890123456").is_ok());
    assert!(validate_playlist_id("PLAbCdEfGhIjKlMnOpQrStUvWxYz").is_ok());
    assert!(validate_playlist_id("PL_-1234567890123456").is_ok());

    assert!(validate_playlist_id("invalid").is_err());
    assert!(validate_playlist_id("PL123").is_err());
    assert!(validate_playlist_id("XL1234567890123456").is_err());
    assert!(validate_playlist_id("").is_err());
}

#[test]
fn test_formatted_recording_date() {
    let options = VideoUploadOptions {
        file: "test.mp4".to_string(),
        title: "Test".to_string(),
        description: "Test".to_string(),
        keywords: "test".to_string(),
        category: 22,
        privacy_status: "private".to_string(),
        playlist_id: "PL1234567890123456".to_string(),
        default_audio_language: "en".to_string(),
        default_language: "en".to_string(),
        recording_date: "2026-01-24".to_string(),
    };
    assert_eq!(options.formatted_recording_date(), "2026-01-24T00:00:00.000Z");

    let options_with_timestamp = VideoUploadOptions {
        recording_date: "2026-01-24T12:30:45.000Z".to_string(),
        ..options
    };
    assert_eq!(options_with_timestamp.formatted_recording_date(), "2026-01-24T12:30:45.000Z");
}

#[test]
fn recording_date_formatting_is_idempotent() {
    let mut options = sample_options(22);
    options.recording_date = "2025-12-31".to_string();
    let once = options.formatted_recording_date();
    options.recording_date = once.clone();
    assert_eq!(options.formatted_recording_date(), once);
    assert_eq!(once, "2025-12-31T00:00:00.000Z");
}

#[test]
fn upload_test_video_upload_options_creation() {
    let options = sample_options(VideoCategory::PeopleBlogs.as_u32());
    assert_eq!(options.title, "Test Video");
    assert_eq!(options.category, 22);
    assert_eq!(options.privacy_status, "private");
}

#[test]
fn youtube_client_test_video_upload_options_creation() {
    let options = sample_options(VideoCategory::PeopleBlogs.as_u32());
    assert_eq!(options.title, "Test Video");
    assert_eq!(options.category, 22);
    assert_eq!(options.privacy_status, "private");
}

#[test]
fn privacy_status_names_round_trip() {
    for p in [PrivacyStatus::Public, PrivacyStatus::Private, PrivacyStatus::Unlisted] {
        assert_eq!(PrivacyStatus::from_name(p.as_str()), p);
    }
    assert_eq!(PrivacyStatus::from_name("PUBLIC"), PrivacyStatus::Public);
    assert_eq!(PrivacyStatus::from_name("Unlisted"), PrivacyStatus::Unlisted);
    assert_eq!(PrivacyStatus::from_name("whatever"), PrivacyStatus::Private);
    assert_eq!(PrivacyStatus::default(), PrivacyStatus::Private);
    assert_eq!(PrivacyStatus::Public.as_str(), "public");
    assert_eq!(PrivacyStatus::Unlisted.as_str(), "unlisted");
}

#[test]
fn category_ids_round_trip() {
    for id in 0u32..60 {
        if let Ok(c) = VideoCategory::from_u32(id) {
            assert_eq!(c.as_u32(), id);
        }
    }
    assert_eq!(VideoCategory::default(), VideoCategory::PeopleBlogs);
    let err = VideoCategory::from_u32(999).unwrap_err();
    assert_eq!(err.message(), "Invalid video category ID: 999");
}

#[test]
fn schema_detection_from_keys() {
    assert_eq!(schema_from_keys(true, false, false, false), Some(ConfigFormat::Individual));
    assert_eq!(schema_from_keys(true, true, true, true), Some(ConfigFormat::Individual));
    assert_eq!(schema_from_keys(false, true, true, true), Some(ConfigFormat::Batch));
    assert_eq!(schema_from_keys(false, true, true, false), None);
    assert_eq!(schema_from_keys(false, false, false, false), None);
}

#[test]
fn upload_test_individual_config_validation() {
    let temp_file = create_test_video_file();
    let file_path = temp_file.path().to_string_lossy().to_string();
    let video_config = VideoConfig {
        title: "Test Video".to_string(),
        description: "Test Description".to_string(),
        keywords: "test,video".to_string(),
        file: file_path.clone(),
        category: VideoCategory::PeopleBlogs,
        privacy_status: PrivacyStatus::Private,
        playlist_id: "PL1234567890123456".to_string(),
        default_audio_language: "en".to_string(),
        default_language: "en".to_string(),
        recording_date: "2026-01-24T00:00:00.000Z".to_string(),
    };
    let config = IndividualConfigRoot { test: false, videos: vec![video_config] };
    assert!(config.validate(&vec![file_exists(&file_path)]).is_ok());
}

#[test]
fn youtube_client_test_individual_config_validation() {
    let temp_file = create_test_video_file();
    let file_path = temp_file.path().to_string_lossy().to_string();
    let video_config = VideoConfig {
        title: "Test Video".to_string(),
        description: "Test Description".to_string(),
        keywords: "test,video".to_string(),
        file: file_path.clone(),
        category: VideoCategory::PeopleBlogs,
        privacy_status: PrivacyStatus::Private,
        playlist_id: "PL1234567890123456".to_string(),
        default_audio_language: "en".to_string(),
        default_language: "en".to_string(),
        recording_date: "2026-01-24T00:00:00.000Z".to_string(),
    };
    let config = IndividualConfigRoot { test: false, videos: vec![video_config] };
    assert!(config.validate(&vec![file_exists(&file_path)]).is_ok());
}

#[test]
fn upload_test_batch_config_validation() {
    let temp_file = create_test_video_file();
    let file_path = temp_file.path().to_string_lossy().to_string();
    let config = BatchConfigRoot {
        test: false,
        common: CommonConfig { recording_date: "2026-01-24T00:00:00.000Z".to_string(), ..common("Test Prefix ", "test,video", "PL1234567890123456") },
        titles: vec!["Video 1".to_string()],
        files: vec![file_path.clone()],
    };
    assert!(config.validate().is_ok());
    assert!(config.validate_files_and_lengths(&vec![vec![file_exists(&file_path)]]).is_ok());
}

#[test]
fn youtube_client_test_batch_config_validation() {
    let temp_file = create_test_video_file();
    let file_path = temp_file.path().to_string_lossy().to_string();
    let config = BatchConfigRoot {
        test: false,
        common: CommonConfig { recording_date: "2026-01-24T00:00:00.000Z".to_string(), ..common("Test Prefix ", "test,video", "PL1234567890123456") },
        titles: vec!["Video 1".to_string()],
        files: vec![file_path.clone()],
    };
    assert!(config.validate().is_ok());
    assert!(config.validate_files_and_lengths(&vec![vec![file_exists(&file_path)]]).is_ok());
}

#[test]
fn test_config_validation() {
    let temp_file = create_test_video_file();
    let file_path = temp_file.path().to_string_lossy().to_string();

    let valid_config = BatchConfigRoot {
        test: false,
        common: common("Test ", "test,video", "PL1234567890123456"),
        titles: vec!["Video 1".to_string()],
        files: vec![file_path.clone()],
    };
    assert!(valid_config.validate().is_ok());
    assert!(valid_config.validate_files_and_lengths(&vec![vec![file_exists(&file_path)]]).is_ok());

    let invalid_config = BatchConfigRoot {
        test: false,
        common: common("Test ", "test,video", "PL1234567890123456"),
        titles: vec!["Video 1".to_string(), "Video 2".to_string()],
        files: vec![file_path.clone()],
    };
    assert!(invalid_config.validate_files_and_lengths(&vec![vec![file_exists(&file_path)]]).is_err());
}

#[test]
fn batch_files_errors() {
    let config = BatchConfigRoot {
        test: false,
        common: common("P ", "k", "PL1234567890123456"),
        titles: vec!["a".to_string(), "b".to_string()],
        files: vec!["x.mp4".to_string()],
    };
    assert_eq!(
        config.validate_files_and_lengths(&vec![vec![true]]),
        Err(BatchFilesError::CountMismatch { titles: 2, files: 1 })
    );
    let config = BatchConfigRoot { files: vec!["x.mp4".to_string(), "y.mp4;z.mp4".to_string()], ..config };
    assert_eq!(
        config.validate_files_and_lengths(&vec![vec![true], vec![true, false]]),
        Err(BatchFilesError::FileMissing { index: 1, name: 1 })
    );
    assert_eq!(
        config.validate_files_and_lengths(&vec![vec![false], vec![false, true]]),
        Err(BatchFilesError::FileMissing { index: 0, name: 0 })
    );
    assert_eq!(config.validate_files_and_lengths(&vec![vec![true], vec![true, true]]), Ok(()));
    let empty_entry = BatchConfigRoot { files: vec!["x.mp4".to_string(), " ,; ".to_string()], ..config };
    assert_eq!(
        empty_entry.validate_files_and_lengths(&vec![vec![true], vec![]]),
        Err(BatchFilesError::FileMissing { index: 1, name: 0 })
    );
}

#[test]
fn batch_validation_reports_each_rule() {
    let config = BatchConfigRoot {
        test: false,
        common: common("", "", "bad"),
        titles: vec![],
        files: vec![],
    };
    let errs = config.validate().unwrap_err();
    assert_eq!(errs.len(), 5);
}

#[test]
fn individual_validation_reports_missing_file_and_long_title() {
    let video = VideoConfig {
        title: "x".repeat(101),
        description: String::new(),
        keywords: "k".to_string(),
        file: "missing.mp4".to_string(),
        category: VideoCategory::Music,
        privacy_status: PrivacyStatus::Public,
        playlist_id: "PL1234567890123456".to_string(),
        default_audio_language: "en".to_string(),
        default_language: "en".to_string(),
        recording_date: "2026-01-24".to_string(),
    };
    let config = IndividualConfigRoot { test: false, videos: vec![video] };
    let errs = config.validate(&vec![false]).unwrap_err();
    assert_eq!(errs.len(), 2);
    assert!(errs.iter().all(|v| v.video == Some(0)));
    let empty = IndividualConfigRoot { test: false, videos: vec![] };
    assert_eq!(empty.validate(&vec![]).unwrap_err().len(), 1);
}

#[test]
fn keywords_must_not_be_blank() {
    assert!(common("p", "   ", "PL1234567890123456").validate_keywords().is_err());
    assert!(common("p", "a,b", "PL1234567890123456").validate_keywords().is_ok());
}

#[test]
fn batch_file_entries_split_on_commas_semicolons_and_whitespace() {
    let config = BatchConfigRoot {
        test: false,
        common: common("P ", "k", "PL1234567890123456"),
        titles: vec!["a".to_string(), "b".to_string()],
        files: vec!["a.MTS, b.MTS;c.MTS".to_string(), "  one.mp4  ".to_string()],
    };
    let parsed = config.parse_files();
    assert_eq!(parsed, vec![vec!["a.MTS", "b.MTS", "c.MTS"], vec!["one.mp4"]]);
}
