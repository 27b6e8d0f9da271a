# rust_yt_uploader

A YouTube uploader whose decisions are verified with Verus: configuration
models and their validation, profile-based credential files, OAuth 2.0 with
PKCE, retry decisions, the requests and updates of the YouTube Data API, and
the per-video pipelines of the command-line tools.

## Layout

- `src/` — the verified library.
  - `models.rs`: configuration formats, privacy statuses, video categories,
    playlist IDs and the validation rules of individual and batch files.
  - `retry.rs`: which failures are retried and when a run of attempts stops.
  - `google_oauth/`: stored credentials, PKCE parameters, authorization URL
    and token request bodies, token responses, the choice between reusing,
    refreshing and renewing credentials, API URLs.
  - `youtube/`: service URLs and scopes, profile files, response types, and
    the request logic of uploads, videos, playlists, captions and comments.
  - `tools/`: the listing formats and the pipelines of the description,
    comment, tag, language and subtitle tools.
  - `video_process.rs`: temporary directories and ffmpeg/ffprobe command lines.
  - `text.rs`: string operations with exact specifications.
- `app/` — the I/O around the library: serde forms of its data, HTTP calls,
  the OAuth callback server, ffmpeg, progress bars, and the command-line tools.
- `tests/` — tests of the library.

Calls into other crates (regex, url, sha2, base64, urlencoding, rand) are made
from `src/` through small trusted wrappers. Most of their contracts name the
result as a function of the arguments (with a few facts such as the 32 bytes
of a SHA-256 digest) rather than restate the crate's algorithm; the
percent-encoding of `urlencoding` and the playlist-ID pattern given to `regex`
are stated exactly, and the random index from `rand` is only bounded.
