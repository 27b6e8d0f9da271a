//! OAuth 2.0 for the YouTube API: stored credentials and their checks, the
//! PKCE parameters and request bodies of the installed-app flow, the choice
//! between reusing, refreshing and renewing credentials, and the URLs and
//! headers of authenticated API requests.

pub mod credentials;
pub mod google;
pub mod oauth;

pub use credentials::Credentials;
