//! Verified core of a YouTube uploader: configuration models and their
//! validation, profile-based credential paths, request planning for the
//! YouTube Data API, OAuth 2.0 with PKCE, retry decisions, and the
//! decisions that the command-line tools make.

pub mod google_oauth;
pub mod models;
pub mod retry;
pub mod text;
pub mod tools;
pub mod video_process;
pub mod youtube;

pub use google_oauth::Credentials;
pub use models::{
    BatchConfigRoot, CommonConfig, ConfigFormat, IndividualConfigRoot, PrivacyStatus, VideoCategory,
    VideoConfig, VideoUploadOptions,
};
pub use youtube::{
    CaptionDetails, NoProgress, ProgressReporter, VideoDetails, build_youtube_base_url,
    build_youtube_direct_upload_url, credentials_path_for_profile, default_youtube_scopes,
    token_path_for_profile, validate_profile_name,
};
