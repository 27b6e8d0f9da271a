//! Configuration models for the uploader (individual and batch YAML formats)
//! and the validation rules they are held to.

use vstd::prelude::*;
use crate::text::{
    Separators, ascii_lower, all_ws, chars_vec, concat2, decimal, has_char, is_blank, lowercase_of,
    split_by, split_str, to_lowercase, trim_nonempty, trimmed_nonempty, u64_to_decimal, views, is_sep,
    lemma_split_pieces, lemma_trim_shape, lemma_trimmed_nonempty, trim,
};

verus! {

/// Which of the two YAML configuration layouts a file uses.
#[derive(Debug, Clone, Copy, PartialEq, Eq, Structural)]
pub enum ConfigFormat {
    /// A `videos` list with one entry per video.
    Individual,
    /// A `common` section with parallel `titles` and `files` lists.
    Batch,
}

/// The layout chosen from which top-level keys a YAML mapping holds:
/// `videos` means individual; `common`, `titles` and `files` together mean batch.
pub open spec fn schema_for(videos: bool, common: bool, titles: bool, files: bool) -> Option<ConfigFormat> {
    if videos {
        Some(ConfigFormat::Individual)
    } else if common && titles && files {
        Some(ConfigFormat::Batch)
    } else {
        None
    }
}

/// Decide the configuration layout from the top-level keys that are present.
pub fn schema_from_keys(videos: bool, common: bool, titles: bool, files: bool) -> (r: Option<ConfigFormat>)
    ensures
        r == schema_for(videos, common, titles, files),
{
    if videos {
        Some(ConfigFormat::Individual)
    } else if common && titles && files {
        Some(ConfigFormat::Batch)
    } else {
        None
    }
}

/// Options for uploading a single video.
#[derive(Debug, Clone)]
pub struct VideoUploadOptions {
    pub file: String,
    pub title: String,
    pub description: String,
    pub keywords: String,
    pub category: u32,
    pub privacy_status: String,
    pub playlist_id: String,
    pub default_audio_language: String,
    pub default_language: String,
    pub recording_date: String,
}

/// The suffix that turns a `YYYY-MM-DD` date into a YouTube timestamp.
pub open spec fn midnight_suffix() -> Seq<char> {
    seq!['T', '0', '0', ':', '0', '0', ':', '0', '0', '.', '0', '0', '0', 'Z']
}

/// A recording date as the YouTube API expects it: kept as is when it already
/// holds a `T` (a timestamp), otherwise completed to midnight UTC.
pub open spec fn api_recording_date(d: Seq<char>) -> Seq<char> {
    if d.contains('T') {
        d
    } else {
        d + midnight_suffix()
    }
}

/// `date` followed by the midnight suffix (`YYYY-MM-DD` to `YYYY-MM-DDT00:00:00.000Z`).
pub fn midnight_timestamp(date: &str) -> (r: String)
    ensures
        r@ == date@ + midnight_suffix(),
{
    let r = concat2(date, "T00:00:00.000Z");
    proof {
        reveal_strlit("T00:00:00.000Z");
        assert("T00:00:00.000Z"@ =~= midnight_suffix());
    }
    r
}

impl VideoUploadOptions {
    /// Convert `recording_date` from `YYYY-MM-DD` to the YouTube API timestamp
    /// format `YYYY-MM-DDTHH:MM:SS.000Z`; a value that is already a timestamp
    /// is returned unchanged.
    pub fn formatted_recording_date(&self) -> (r: String)
        ensures
            r@ == api_recording_date(self.recording_date@),
    {
        if has_char(self.recording_date.as_str(), 'T') {
            self.recording_date.clone()
        } else {
            midnight_timestamp(self.recording_date.as_str())
        }
    }
}

/// Formatting a recording date is idempotent, and its result is a timestamp.
pub proof fn lemma_recording_date_idempotent(d: Seq<char>)
    ensures
        api_recording_date(d).contains('T'),
        api_recording_date(api_recording_date(d)) == api_recording_date(d),
{
    if !d.contains('T') {
        let r = d + midnight_suffix();
        assert(r[d.len() as int] == 'T');
    }
}

/// Valid YouTube video privacy status values.
#[derive(Debug, Clone, Copy, PartialEq, Eq, Structural)]
pub enum PrivacyStatus {
    Public,
    Private,
    Unlisted,
}

impl Default for PrivacyStatus {
    fn default() -> (r: Self)
        ensures
            r == PrivacyStatus::Private,
    {
        PrivacyStatus::Private
    }
}

/// The privacy status named by an already lowercased string; anything
/// other than `public` or `unlisted` means private.
pub open spec fn privacy_from_lowercase(s: Seq<char>) -> PrivacyStatus {
    if s == seq!['p', 'u', 'b', 'l', 'i', 'c'] {
        PrivacyStatus::Public
    } else if s == seq!['u', 'n', 'l', 'i', 's', 't', 'e', 'd'] {
        PrivacyStatus::Unlisted
    } else {
        PrivacyStatus::Private
    }
}

/// The API name of a privacy status.
pub open spec fn privacy_name(p: PrivacyStatus) -> Seq<char> {
    match p {
        PrivacyStatus::Public => seq!['p', 'u', 'b', 'l', 'i', 'c'],
        PrivacyStatus::Private => seq!['p', 'r', 'i', 'v', 'a', 't', 'e'],
        PrivacyStatus::Unlisted => seq!['u', 'n', 'l', 'i', 's', 't', 'e', 'd'],
    }
}

impl PrivacyStatus {
    /// Parse a privacy status, case-insensitively; anything other than
    /// `public` or `unlisted` gives the default, `Private`.
    pub fn from_name(s: &str) -> (r: PrivacyStatus)
        ensures
            r == privacy_from_lowercase(lowercase_of(s@)),
            vstd::utf8::is_ascii_chars(s@) ==> r == privacy_from_lowercase(
                s@.map_values(|c: char| ascii_lower(c)),
            ),
    {
        let lower = to_lowercase(s);
        let v = chars_vec(lower.as_str());
        proof {
            reveal_strlit("public");
            reveal_strlit("unlisted");
        }
        if seq_eq(&v, "public") {
            proof {
                assert("public"@ =~= seq!['p', 'u', 'b', 'l', 'i', 'c']);
            }
            PrivacyStatus::Public
        } else if seq_eq(&v, "unlisted") {
            proof {
                assert("unlisted"@ =~= seq!['u', 'n', 'l', 'i', 's', 't', 'e', 'd']);
            }
            PrivacyStatus::Unlisted
        } else {
            proof {
                assert("public"@ =~= seq!['p', 'u', 'b', 'l', 'i', 'c']);
                assert("unlisted"@ =~= seq!['u', 'n', 'l', 'i', 's', 't', 'e', 'd']);
            }
            PrivacyStatus::Private
        }
    }

    /// The API name: `public`, `private` or `unlisted`.
    pub fn as_str(&self) -> (r: &'static str)
        ensures
            r@ == privacy_name(*self),
    {
        proof {
            reveal_strlit("public");
            reveal_strlit("private");
            reveal_strlit("unlisted");
        }
        match self {
            PrivacyStatus::Public => {
                proof {
                    assert("public"@ =~= privacy_name(*self));
                }
                "public"
            },
            PrivacyStatus::Unlisted => {
                proof {
                    assert("unlisted"@ =~= privacy_name(*self));
                }
                "unlisted"
            },
            PrivacyStatus::Private => {
                proof {
                    assert("private"@ =~= privacy_name(*self));
                }
                "private"
            },
        }
    }
}

/// `v` holds exactly the characters of `s`.
fn seq_eq(v: &Vec<char>, s: &str) -> (r: bool)
    ensures
        r == (v@ == s@),
{
    let w = chars_vec(s);
    if v.len() != w.len() {
        return false;
    }
    let mut i: usize = 0;
    while i < v.len()
        invariant
            v@.len() == w@.len(),
            w@ == s@,
            i <= v@.len(),
            forall|j: int| 0 <= j < i ==> v@[j] == w@[j],
        decreases v@.len() - i,
    {
        if v[i] != w[i] {
            return false;
        }
        i = i + 1;
    }
    proof {
        assert(v@ =~= w@);
    }
    true
}

/// Parsing the name of a privacy status gives that status back.
pub proof fn lemma_privacy_round_trip(p: PrivacyStatus)
    ensures
        privacy_from_lowercase(privacy_name(p).map_values(|c: char| ascii_lower(c))) == p,
{
    let n = privacy_name(p);
    assert(n.map_values(|c: char| ascii_lower(c)) =~= n);
}

/// YouTube video category IDs.
///
/// See: <https://developers.google.com/youtube/v3/docs/videoCategories/list>
#[derive(Debug, Clone, Copy, PartialEq, Eq, Structural)]
pub enum VideoCategory {
    FilmAnimation,
    AutosVehicles,
    Music,
    PetsAnimals,
    Sports,
    ShortMovies,
    TravelEvents,
    Gaming,
    Videoblogging,
    PeopleBlogs,
    Comedy,
    Entertainment,
    NewsPolitics,
    HowtoStyle,
    Education,
    ScienceTechnology,
    NonprofitsActivism,
    Movies,
    AnimationAnime,
    ActionAdventure,
    Classics,
    ComedyFilm,
    Documentary,
    Drama,
    Family,
    Foreign,
    Horror,
    SciFiFantasy,
    Thriller,
    Shorts,
    Shows,
}

/// The YouTube category ID of a category.
pub open spec fn category_id(c: VideoCategory) -> u32 {
    match c {
        VideoCategory::FilmAnimation => 1,
        VideoCategory::AutosVehicles => 2,
        VideoCategory::Music => 10,
        VideoCategory::PetsAnimals => 15,
        VideoCategory::Sports => 17,
        VideoCategory::ShortMovies => 18,
        VideoCategory::TravelEvents => 19,
        VideoCategory::Gaming => 20,
        VideoCategory::Videoblogging => 21,
        VideoCategory::PeopleBlogs => 22,
        VideoCategory::Comedy => 23,
        VideoCategory::Entertainment => 24,
        VideoCategory::NewsPolitics => 25,
        VideoCategory::HowtoStyle => 26,
        VideoCategory::Education => 27,
        VideoCategory::ScienceTechnology => 28,
        VideoCategory::NonprofitsActivism => 29,
        VideoCategory::Movies => 30,
        VideoCategory::AnimationAnime => 31,
        VideoCategory::ActionAdventure => 32,
        VideoCategory::Classics => 33,
        VideoCategory::ComedyFilm => 34,
        VideoCategory::Documentary => 35,
        VideoCategory::Drama => 36,
        VideoCategory::Family => 37,
        VideoCategory::Foreign => 38,
        VideoCategory::Horror => 39,
        VideoCategory::SciFiFantasy => 40,
        VideoCategory::Thriller => 41,
        VideoCategory::Shorts => 42,
        VideoCategory::Shows => 43,
    }
}

/// The category with a given YouTube ID, if there is one.
pub open spec fn category_of(id: u32) -> Option<VideoCategory> {
    if id == 1 {
        Some(VideoCategory::FilmAnimation)
    } else if id == 2 {
        Some(VideoCategory::AutosVehicles)
    } else if id == 10 {
        Some(VideoCategory::Music)
    } else if id == 15 {
        Some(VideoCategory::PetsAnimals)
    } else if id == 17 {
        Some(VideoCategory::Sports)
    } else if id == 18 {
        Some(VideoCategory::ShortMovies)
    } else if id == 19 {
        Some(VideoCategory::TravelEvents)
    } else if id == 20 {
        Some(VideoCategory::Gaming)
    } else if id == 21 {
        Some(VideoCategory::Videoblogging)
    } else if id == 22 {
        Some(VideoCategory::PeopleBlogs)
    } else if id == 23 {
        Some(VideoCategory::Comedy)
    } else if id == 24 {
        Some(VideoCategory::Entertainment)
    } else if id == 25 {
        Some(VideoCategory::NewsPolitics)
    } else if id == 26 {
        Some(VideoCategory::HowtoStyle)
    } else if id == 27 {
        Some(VideoCategory::Education)
    } else if id == 28 {
        Some(VideoCategory::ScienceTechnology)
    } else if id == 29 {
        Some(VideoCategory::NonprofitsActivism)
    } else if id == 30 {
        Some(VideoCategory::Movies)
    } else if id == 31 {
        Some(VideoCategory::AnimationAnime)
    } else if id == 32 {
        Some(VideoCategory::ActionAdventure)
    } else if id == 33 {
        Some(VideoCategory::Classics)
    } else if id == 34 {
        Some(VideoCategory::ComedyFilm)
    } else if id == 35 {
        Some(VideoCategory::Documentary)
    } else if id == 36 {
        Some(VideoCategory::Drama)
    } else if id == 37 {
        Some(VideoCategory::Family)
    } else if id == 38 {
        Some(VideoCategory::Foreign)
    } else if id == 39 {
        Some(VideoCategory::Horror)
    } else if id == 40 {
        Some(VideoCategory::SciFiFantasy)
    } else if id == 41 {
        Some(VideoCategory::Thriller)
    } else if id == 42 {
        Some(VideoCategory::Shorts)
    } else if id == 43 {
        Some(VideoCategory::Shows)
    } else {
        None
    }
}

/// An ID that names no YouTube video category.
#[derive(Debug, Clone, Copy, PartialEq, Eq, Structural)]
pub struct InvalidCategory {
    pub id: u32,
}

impl InvalidCategory {
    /// The human-readable message for this error.
    pub fn message(&self) -> (r: String)
        ensures
            r@ == "Invalid video category ID: "@ + decimal(self.id as nat),
    {
        let digits = u64_to_decimal(self.id as u64);
        concat2("Invalid video category ID: ", digits.as_str())
    }
}

impl Default for VideoCategory {
    fn default() -> (r: Self)
        ensures
            r == VideoCategory::PeopleBlogs,
    {
        VideoCategory::PeopleBlogs
    }
}

impl VideoCategory {
    /// The ID used by the YouTube API.
    pub fn as_u32(&self) -> (r: u32)
        ensures
            r == category_id(*self),
    {
        match self {
            VideoCategory::FilmAnimation => 1,
            VideoCategory::AutosVehicles => 2,
            VideoCategory::Music => 10,
            VideoCategory::PetsAnimals => 15,
            VideoCategory::Sports => 17,
            VideoCategory::ShortMovies => 18,
            VideoCategory::TravelEvents => 19,
            VideoCategory::Gaming => 20,
            VideoCategory::Videoblogging => 21,
            VideoCategory::PeopleBlogs => 22,
            VideoCategory::Comedy => 23,
            VideoCategory::Entertainment => 24,
            VideoCategory::NewsPolitics => 25,
            VideoCategory::HowtoStyle => 26,
            VideoCategory::Education => 27,
            VideoCategory::ScienceTechnology => 28,
            VideoCategory::NonprofitsActivism => 29,
            VideoCategory::Movies => 30,
            VideoCategory::AnimationAnime => 31,
            VideoCategory::ActionAdventure => 32,
            VideoCategory::Classics => 33,
            VideoCategory::ComedyFilm => 34,
            VideoCategory::Documentary => 35,
            VideoCategory::Drama => 36,
            VideoCategory::Family => 37,
            VideoCategory::Foreign => 38,
            VideoCategory::Horror => 39,
            VideoCategory::SciFiFantasy => 40,
            VideoCategory::Thriller => 41,
            VideoCategory::Shorts => 42,
            VideoCategory::Shows => 43,
        }
    }

    /// The category with the given YouTube ID.
    pub fn from_u32(value: u32) -> (r: Result<VideoCategory, InvalidCategory>)
        ensures
            r is Ok <==> category_of(value) is Some,
            r matches Ok(c) ==> category_of(value) == Some(c),
            r matches Err(e) ==> e.id == value,
    {
        match value {
            1 => Ok(VideoCategory::FilmAnimation),
            2 => Ok(VideoCategory::AutosVehicles),
            10 => Ok(VideoCategory::Music),
            15 => Ok(VideoCategory::PetsAnimals),
            17 => Ok(VideoCategory::Sports),
            18 => Ok(VideoCategory::ShortMovies),
            19 => Ok(VideoCategory::TravelEvents),
            20 => Ok(VideoCategory::Gaming),
            21 => Ok(VideoCategory::Videoblogging),
            22 => Ok(VideoCategory::PeopleBlogs),
            23 => Ok(VideoCategory::Comedy),
            24 => Ok(VideoCategory::Entertainment),
            25 => Ok(VideoCategory::NewsPolitics),
            26 => Ok(VideoCategory::HowtoStyle),
            27 => Ok(VideoCategory::Education),
            28 => Ok(VideoCategory::ScienceTechnology),
            29 => Ok(VideoCategory::NonprofitsActivism),
            30 => Ok(VideoCategory::Movies),
            31 => Ok(VideoCategory::AnimationAnime),
            32 => Ok(VideoCategory::ActionAdventure),
            33 => Ok(VideoCategory::Classics),
            34 => Ok(VideoCategory::ComedyFilm),
            35 => Ok(VideoCategory::Documentary),
            36 => Ok(VideoCategory::Drama),
            37 => Ok(VideoCategory::Family),
            38 => Ok(VideoCategory::Foreign),
            39 => Ok(VideoCategory::Horror),
            40 => Ok(VideoCategory::SciFiFantasy),
            41 => Ok(VideoCategory::Thriller),
            42 => Ok(VideoCategory::Shorts),
            43 => Ok(VideoCategory::Shows),
            _ => Err(InvalidCategory { id: value }),
        }
    }
}

/// Each category has the ID of YouTube's category table (Film & Animation 1,
/// Autos & Vehicles 2, Music 10, ..., Howto & Style 26, Education 27, ...,
/// Shows 43), and each of those IDs names its category.
pub proof fn lemma_category_table()
    ensures
        category_id(VideoCategory::FilmAnimation) == 1 && category_of(1) == Some(VideoCategory::FilmAnimation),
        category_id(VideoCategory::AutosVehicles) == 2 && category_of(2) == Some(VideoCategory::AutosVehicles),
        category_id(VideoCategory::Music) == 10 && category_of(10) == Some(VideoCategory::Music),
        category_id(VideoCategory::PetsAnimals) == 15 && category_of(15) == Some(VideoCategory::PetsAnimals),
        category_id(VideoCategory::Sports) == 17 && category_of(17) == Some(VideoCategory::Sports),
        category_id(VideoCategory::ShortMovies) == 18 && category_of(18) == Some(VideoCategory::ShortMovies),
        category_id(VideoCategory::TravelEvents) == 19 && category_of(19) == Some(VideoCategory::TravelEvents),
        category_id(VideoCategory::Gaming) == 20 && category_of(20) == Some(VideoCategory::Gaming),
        category_id(VideoCategory::Videoblogging) == 21 && category_of(21) == Some(VideoCategory::Videoblogging),
        category_id(VideoCategory::PeopleBlogs) == 22 && category_of(22) == Some(VideoCategory::PeopleBlogs),
        category_id(VideoCategory::Comedy) == 23 && category_of(23) == Some(VideoCategory::Comedy),
        category_id(VideoCategory::Entertainment) == 24 && category_of(24) == Some(VideoCategory::Entertainment),
        category_id(VideoCategory::NewsPolitics) == 25 && category_of(25) == Some(VideoCategory::NewsPolitics),
        category_id(VideoCategory::HowtoStyle) == 26 && category_of(26) == Some(VideoCategory::HowtoStyle),
        category_id(VideoCategory::Education) == 27 && category_of(27) == Some(VideoCategory::Education),
        category_id(VideoCategory::ScienceTechnology) == 28 && category_of(28) == Some(VideoCategory::ScienceTechnology),
        category_id(VideoCategory::NonprofitsActivism) == 29 && category_of(29) == Some(VideoCategory::NonprofitsActivism),
        category_id(VideoCategory::Movies) == 30 && category_of(30) == Some(VideoCategory::Movies),
        category_id(VideoCategory::AnimationAnime) == 31 && category_of(31) == Some(VideoCategory::AnimationAnime),
        category_id(VideoCategory::ActionAdventure) == 32 && category_of(32) == Some(VideoCategory::ActionAdventure),
        category_id(VideoCategory::Classics) == 33 && category_of(33) == Some(VideoCategory::Classics),
        category_id(VideoCategory::ComedyFilm) == 34 && category_of(34) == Some(VideoCategory::ComedyFilm),
        category_id(VideoCategory::Documentary) == 35 && category_of(35) == Some(VideoCategory::Documentary),
        category_id(VideoCategory::Drama) == 36 && category_of(36) == Some(VideoCategory::Drama),
        category_id(VideoCategory::Family) == 37 && category_of(37) == Some(VideoCategory::Family),
        category_id(VideoCategory::Foreign) == 38 && category_of(38) == Some(VideoCategory::Foreign),
        category_id(VideoCategory::Horror) == 39 && category_of(39) == Some(VideoCategory::Horror),
        category_id(VideoCategory::SciFiFantasy) == 40 && category_of(40) == Some(VideoCategory::SciFiFantasy),
        category_id(VideoCategory::Thriller) == 41 && category_of(41) == Some(VideoCategory::Thriller),
        category_id(VideoCategory::Shorts) == 42 && category_of(42) == Some(VideoCategory::Shorts),
        category_id(VideoCategory::Shows) == 43 && category_of(43) == Some(VideoCategory::Shows),
{
}

/// Category IDs and categories correspond one to one: the ID of a category
/// names that category, and a known ID is the ID of the category it names.
pub proof fn lemma_category_round_trip(c: VideoCategory, id: u32)
    ensures
        category_of(category_id(c)) == Some(c),
        category_of(id) matches Some(d) ==> category_id(d) == id,
{
}


/// The pattern that a playlist ID must match.
pub const PLAYLIST_ID_PATTERN: &'static str = "^PL[a-zA-Z0-9_-]{16,33}$";

/// What `regex::Regex::new(pattern)` followed by `is_match(haystack)` gives:
/// `None` when the pattern does not compile, otherwise whether it matches.
pub uninterp spec fn regex_match_result(pattern: Seq<char>, haystack: Seq<char>) -> Option<bool>;

/// A character of the class `[a-zA-Z0-9_-]`.
pub open spec fn playlist_id_char(c: char) -> bool {
    ('a' <= c && c <= 'z') || ('A' <= c && c <= 'Z') || ('0' <= c && c <= '9') || c == '_' || c == '-'
}

/// The strings that `^PL[a-zA-Z0-9_-]{16,33}$` matches: `^` and `$` are the
/// start and end of the whole string, so the string is `PL` followed by 16 to
/// 33 characters of the class, and nothing else.
pub open spec fn playlist_shape(s: Seq<char>) -> bool {
    &&& 18 <= s.len() <= 35
    &&& s[0] == 'P' && s[1] == 'L'
    &&& forall|i: int| 2 <= i < s.len() ==> playlist_id_char(#[trigger] s[i])
}

/// `regex::Regex::new` and `Regex::is_match`: compiles `pattern` and tests
/// whether it matches somewhere in `haystack`. The contract names the result;
/// for the playlist pattern it also states it: the pattern compiles, and it
/// matches exactly the strings of `playlist_shape` (the crate documents `^`
/// and `$` as the beginning and end of the haystack, `x{n,m}` as `n` to `m`
/// repetitions). The semantics of other patterns are not restated.
#[verifier::external_body]
fn regex_is_match(pattern: &str, haystack: &str) -> (r: Option<bool>)
    ensures
        r == regex_match_result(pattern@, haystack@),
        pattern@ == PLAYLIST_ID_PATTERN@ ==> r == Some(playlist_shape(haystack@)),
{
    match regex::Regex::new(pattern) {
        Ok(re) => Some(re.is_match(haystack)),
        Err(_) => None,
    }
}

/// A playlist ID that does not have the shape `PL` followed by 16 to 33
/// letters, digits, `_` or `-`.
#[derive(Debug, Clone, Copy, PartialEq, Eq, Structural)]
pub struct InvalidPlaylistId;

impl InvalidPlaylistId {
    /// The human-readable message for this error.
    pub fn message(&self) -> (r: &'static str)
        ensures
            r@ == "Invalid playlist ID format"@,
    {
        "Invalid playlist ID format"
    }
}

/// A playlist ID is valid when it has the shape of the playlist pattern.
pub open spec fn playlist_id_ok(id: Seq<char>) -> bool {
    playlist_shape(id)
}

/// The verdict on a playlist ID from the outcome of matching it against the
/// playlist pattern.
pub fn playlist_id_verdict(matched: Option<bool>) -> (r: Result<(), InvalidPlaylistId>)
    ensures
        r is Ok <==> matched == Some(true),
{
    match matched {
        Some(true) => Ok(()),
        _ => Err(InvalidPlaylistId),
    }
}

/// Validate a playlist ID against `^PL[a-zA-Z0-9_-]{16,33}$`.
pub fn validate_playlist_id(playlist_id: &str) -> (r: Result<(), InvalidPlaylistId>)
    ensures
        r is Ok <==> playlist_id_ok(playlist_id@),
{
    let matched = regex_is_match(PLAYLIST_ID_PATTERN, playlist_id);
    playlist_id_verdict(matched)
}

/// Common configuration shared across the videos of a batch.
#[derive(Debug, Clone)]
pub struct CommonConfig {
    /// Title prefix for all videos.
    pub prefix: String,
    /// Comma-separated keywords/tags.
    pub keywords: String,
    pub category: VideoCategory,
    pub privacy_status: PrivacyStatus,
    pub playlist_id: String,
    pub default_audio_language: String,
    pub default_language: String,
    pub recording_date: String,
}

/// Configuration for a single video (individual format).
#[derive(Debug, Clone)]
pub struct VideoConfig {
    pub title: String,
    pub description: String,
    pub keywords: String,
    /// Path to the video file.
    pub file: String,
    pub category: VideoCategory,
    pub privacy_status: PrivacyStatus,
    pub playlist_id: String,
    pub default_audio_language: String,
    pub default_language: String,
    pub recording_date: String,
}

/// Root of the individual YAML format.
#[derive(Debug, Clone)]
pub struct IndividualConfigRoot {
    /// Test mode: delete the videos again after upload.
    pub test: bool,
    pub videos: Vec<VideoConfig>,
}

/// Root of the batch YAML format.
#[derive(Debug, Clone)]
pub struct BatchConfigRoot {
    /// Test mode: delete the videos again after upload.
    pub test: bool,
    pub common: CommonConfig,
    /// One title per video.
    pub titles: Vec<String>,
    /// One entry per video; an entry may name several files.
    pub files: Vec<String>,
}

/// Keywords made of whitespace only.
#[derive(Debug, Clone, Copy, PartialEq, Eq, Structural)]
pub struct BlankKeywords;

impl BlankKeywords {
    /// The human-readable message for this error.
    pub fn message(&self) -> (r: &'static str)
        ensures
            r@ == "keywords cannot be empty or whitespace only"@,
    {
        "keywords cannot be empty or whitespace only"
    }
}

impl CommonConfig {
    /// Validate that the keywords are not empty or whitespace only.
    pub fn validate_keywords(&self) -> (r: Result<(), BlankKeywords>)
        ensures
            r is Err <==> all_ws(self.keywords@),
    {
        if is_blank(self.keywords.as_str()) {
            Err(BlankKeywords)
        } else {
            Ok(())
        }
    }
}

/// A configuration field that a validation rule is about.
#[derive(Debug, Clone, Copy, PartialEq, Eq, Structural)]
pub enum ConfigField {
    Prefix,
    Keywords,
    PlaylistId,
    Title,
    File,
    Videos,
    Titles,
    Files,
}

/// The rule that a field breaks.
#[derive(Debug, Clone, Copy, PartialEq, Eq, Structural)]
pub enum RuleKind {
    /// Too short (or too long) for its length bounds.
    Length,
    /// Not a playlist ID.
    PlaylistIdFormat,
    /// The named file does not exist.
    FileMissing,
}

/// One broken validation rule; `video` is the index of the video entry
/// for rules about an entry of `videos`.
#[derive(Debug, Clone, Copy, PartialEq, Eq, Structural)]
pub struct Violation {
    pub video: Option<usize>,
    pub field: ConfigField,
    pub rule: RuleKind,
}

/// `v` followed by `x` when `cond` holds.
pub open spec fn push_if(v: Seq<Violation>, cond: bool, x: Violation) -> Seq<Violation> {
    if cond {
        v.push(x)
    } else {
        v
    }
}

/// A violation of `rule` on `field` outside the video list.
pub open spec fn top(field: ConfigField, rule: RuleKind) -> Violation {
    Violation { video: None, field, rule }
}

/// The rules on common configuration: non-empty prefix and keywords and a
/// valid playlist ID.
pub open spec fn common_violations(c: CommonConfig) -> Seq<Violation> {
    let v0 = Seq::<Violation>::empty();
    let v1 = push_if(v0, c.prefix@.len() < 1, top(ConfigField::Prefix, RuleKind::Length));
    let v2 = push_if(v1, c.keywords@.len() < 1, top(ConfigField::Keywords, RuleKind::Length));
    push_if(v2, !playlist_id_ok(c.playlist_id@), top(ConfigField::PlaylistId, RuleKind::PlaylistIdFormat))
}

/// The rules on one video entry: a title of 1 to 100 characters, non-empty
/// keywords, a non-empty path to an existing file, and a valid playlist ID.
pub open spec fn video_violations(v: VideoConfig, file_exists: bool, idx: Option<usize>) -> Seq<Violation> {
    let e = Seq::<Violation>::empty();
    let v1 = push_if(e, v.title@.len() < 1 || v.title@.len() > 100,
        Violation { video: idx, field: ConfigField::Title, rule: RuleKind::Length });
    let v2 = push_if(v1, v.keywords@.len() < 1,
        Violation { video: idx, field: ConfigField::Keywords, rule: RuleKind::Length });
    let v3 = push_if(v2, v.file@.len() < 1,
        Violation { video: idx, field: ConfigField::File, rule: RuleKind::Length });
    let v4 = push_if(v3, !file_exists,
        Violation { video: idx, field: ConfigField::File, rule: RuleKind::FileMissing });
    push_if(v4, !playlist_id_ok(v.playlist_id@),
        Violation { video: idx, field: ConfigField::PlaylistId, rule: RuleKind::PlaylistIdFormat })
}

/// The rules on every video entry, entry by entry.
pub open spec fn videos_violations(videos: Seq<VideoConfig>, exist: Seq<bool>) -> Seq<Violation>
    decreases videos.len(),
{
    if videos.len() == 0 {
        Seq::empty()
    } else {
        let n = (videos.len() - 1) as int;
        videos_violations(videos.drop_last(), exist.take(n))
            + video_violations(videos[n], exist[n], Some(n as usize))
    }
}

/// The rules on an individual configuration: at least one video, and each
/// video entry valid.
pub open spec fn individual_violations(c: IndividualConfigRoot, exist: Seq<bool>) -> Seq<Violation> {
    push_if(Seq::empty(), c.videos@.len() < 1, top(ConfigField::Videos, RuleKind::Length))
        + videos_violations(c.videos@, exist)
}

/// The rules on a batch configuration: valid common section, at least one
/// title and at least one file entry.
pub open spec fn batch_violations(c: BatchConfigRoot) -> Seq<Violation> {
    let v1 = push_if(common_violations(c.common), c.titles@.len() < 1,
        top(ConfigField::Titles, RuleKind::Length));
    push_if(v1, c.files@.len() < 1, top(ConfigField::Files, RuleKind::Length))
}

fn push_when(v: &mut Vec<Violation>, cond: bool, x: Violation)
    ensures
        final(v)@ == push_if(old(v)@, cond, x),
{
    if cond {
        v.push(x);
    }
}

/// Check a common configuration section against its rules.
fn common_violation_list(c: &CommonConfig) -> (r: Vec<Violation>)
    ensures
        r@ == common_violations(*c),
{
    let mut v: Vec<Violation> = Vec::new();
    push_when(&mut v, c.prefix.as_str().is_empty(), Violation { video: None, field: ConfigField::Prefix, rule: RuleKind::Length });
    push_when(&mut v, c.keywords.as_str().is_empty(), Violation { video: None, field: ConfigField::Keywords, rule: RuleKind::Length });
    let ok = validate_playlist_id(c.playlist_id.as_str()).is_ok();
    push_when(&mut v, !ok, Violation { video: None, field: ConfigField::PlaylistId, rule: RuleKind::PlaylistIdFormat });
    v
}

/// Check one video entry against its rules.
fn video_violation_list(c: &VideoConfig, file_exists: bool, idx: Option<usize>) -> (r: Vec<Violation>)
    ensures
        r@ == video_violations(*c, file_exists, idx),
{
    let mut v: Vec<Violation> = Vec::new();
    let title_len = c.title.as_str().unicode_len();
    push_when(&mut v, title_len < 1 || title_len > 100, Violation { video: idx, field: ConfigField::Title, rule: RuleKind::Length });
    push_when(&mut v, c.keywords.as_str().is_empty(), Violation { video: idx, field: ConfigField::Keywords, rule: RuleKind::Length });
    push_when(&mut v, c.file.as_str().is_empty(), Violation { video: idx, field: ConfigField::File, rule: RuleKind::Length });
    push_when(&mut v, !file_exists, Violation { video: idx, field: ConfigField::File, rule: RuleKind::FileMissing });
    let ok = validate_playlist_id(c.playlist_id.as_str()).is_ok();
    push_when(&mut v, !ok, Violation { video: idx, field: ConfigField::PlaylistId, rule: RuleKind::PlaylistIdFormat });
    v
}

fn append_all(v: &mut Vec<Violation>, w: Vec<Violation>)
    ensures
        final(v)@ == old(v)@ + w@,
{
    let mut w = w;
    v.append(&mut w);
}

/// `Ok` when there are no violations, else all of them.
fn verdict(v: Vec<Violation>) -> (r: Result<(), Vec<Violation>>)
    ensures
        r is Ok <==> v@.len() == 0,
        r matches Err(e) ==> e@ == v@,
{
    if v.len() == 0 {
        Ok(())
    } else {
        Err(v)
    }
}

impl CommonConfig {
    /// Check the common section: non-empty prefix and keywords, valid playlist ID.
    pub fn validate(&self) -> (r: Result<(), Vec<Violation>>)
        ensures
            r is Ok <==> common_violations(*self).len() == 0,
            r matches Err(e) ==> e@ == common_violations(*self),
    {
        verdict(common_violation_list(self))
    }
}

impl VideoConfig {
    /// Check one video entry; `file_exists` tells whether its file exists.
    pub fn validate(&self, file_exists: bool) -> (r: Result<(), Vec<Violation>>)
        ensures
            r is Ok <==> video_violations(*self, file_exists, None).len() == 0,
            r matches Err(e) ==> e@ == video_violations(*self, file_exists, None),
    {
        verdict(video_violation_list(self, file_exists, None))
    }
}

impl IndividualConfigRoot {
    /// Check an individual configuration; `files_exist[i]` tells whether the
    /// file of `videos[i]` exists.
    pub fn validate(&self, files_exist: &Vec<bool>) -> (r: Result<(), Vec<Violation>>)
        requires
            files_exist@.len() == self.videos@.len(),
        ensures
            r is Ok <==> individual_violations(*self, files_exist@).len() == 0,
            r matches Err(e) ==> e@ == individual_violations(*self, files_exist@),
    {
        let mut v: Vec<Violation> = Vec::new();
        push_when(&mut v, self.videos.len() < 1, Violation { video: None, field: ConfigField::Videos, rule: RuleKind::Length });
        let ghost head = v@;
        let mut i: usize = 0;
        while i < self.videos.len()
            invariant
                i <= self.videos@.len() == files_exist@.len(),
                head == push_if(Seq::empty(), self.videos@.len() < 1, top(ConfigField::Videos, RuleKind::Length)),
                v@ == head + videos_violations(self.videos@.take(i as int), files_exist@.take(i as int)),
            decreases self.videos@.len() - i,
        {
            let w = video_violation_list(&self.videos[i], files_exist[i], Some(i));
            let ghost before = v@;
            append_all(&mut v, w);
            proof {
                let vs = self.videos@.take(i + 1);
                let ex = files_exist@.take(i + 1);
                assert(vs.drop_last() =~= self.videos@.take(i as int));
                assert(ex.take(i as int) =~= files_exist@.take(i as int));
                assert(videos_violations(vs, ex) == videos_violations(self.videos@.take(i as int), files_exist@.take(i as int)) + w@);
                assert(v@ =~= head + videos_violations(vs, ex));
            }
            i = i + 1;
        }
        proof {
            assert(self.videos@.take(i as int) =~= self.videos@);
            assert(files_exist@.take(i as int) =~= files_exist@);
        }
        verdict(v)
    }
}

/// A batch whose title and file lists do not line up, or one of whose file
/// entries does not exist.
#[derive(Debug, Clone, Copy, PartialEq, Eq, Structural)]
pub enum BatchFilesError {
    /// Different numbers of titles and file entries.
    CountMismatch { titles: usize, files: usize },
    /// The file at position `name` of the entry at `index` does not exist, or
    /// (with `name` 0) the entry names no file at all.
    FileMissing { index: usize, name: usize },
}

impl BatchConfigRoot {
    /// Check the batch configuration: valid common section, at least one
    /// title and one file entry.
    pub fn validate(&self) -> (r: Result<(), Vec<Violation>>)
        ensures
            r is Ok <==> batch_violations(*self).len() == 0,
            r matches Err(e) ==> e@ == batch_violations(*self),
    {
        let mut v = common_violation_list(&self.common);
        push_when(&mut v, self.titles.len() < 1, Violation { video: None, field: ConfigField::Titles, rule: RuleKind::Length });
        push_when(&mut v, self.files.len() < 1, Violation { video: None, field: ConfigField::Files, rule: RuleKind::Length });
        verdict(v)
    }

    /// Check that titles and file entries have the same length and that every
    /// file named by every entry exists (`files_exist[i][j]` for the `j`-th
    /// name of `file_names(files[i])`); an entry that names no file counts as
    /// missing. The first missing file is reported.
    pub fn validate_files_and_lengths(&self, files_exist: &Vec<Vec<bool>>) -> (r: Result<(), BatchFilesError>)
        requires
            files_exist@.len() == self.files@.len(),
            forall|i: int| 0 <= i < files_exist@.len()
                ==> (#[trigger] files_exist@[i])@.len() == file_names(self.files@[i]@).len(),
        ensures
            self.titles@.len() != self.files@.len() ==> r == Err::<(), BatchFilesError>(
                BatchFilesError::CountMismatch { titles: self.titles.len(), files: self.files.len() },
            ),
            self.titles@.len() == self.files@.len() ==> (r is Ok <==> all_present(files_exist@)),
            self.titles@.len() == self.files@.len() ==> !(r matches Err(BatchFilesError::CountMismatch { .. })),
            r matches Err(BatchFilesError::FileMissing { index, name }) ==> first_missing(files_exist@, index as int, name as int),
    {
        if self.titles.len() != self.files.len() {
            return Err(BatchFilesError::CountMismatch { titles: self.titles.len(), files: self.files.len() });
        }
        let mut i: usize = 0;
        while i < files_exist.len()
            invariant
                i <= files_exist@.len(),
                self.titles@.len() == self.files@.len(),
                forall|k: int| 0 <= k < i ==> entry_present(#[trigger] files_exist@[k]@),
            decreases files_exist@.len() - i,
        {
            let flags = &files_exist[i];
            if flags.len() == 0 {
                return Err(BatchFilesError::FileMissing { index: i, name: 0 });
            }
            let mut j: usize = 0;
            while j < flags.len()
                invariant
                    i < files_exist@.len(),
                    j <= flags@.len(),
                    self.titles@.len() == self.files@.len(),
                    flags@ == files_exist@[i as int]@,
                    forall|k: int| 0 <= k < i ==> entry_present(#[trigger] files_exist@[k]@),
                    forall|k: int| 0 <= k < j ==> #[trigger] flags@[k],
                decreases flags@.len() - j,
            {
                if !flags[j] {
                    return Err(BatchFilesError::FileMissing { index: i, name: j });
                }
                j = j + 1;
            }
            i = i + 1;
        }
        Ok(())
    }

    /// The files of each entry: an entry may name several files separated by
    /// commas, semicolons or whitespace; empty names are dropped.
    pub fn parse_files(&self) -> (r: Vec<Vec<String>>)
        ensures
            r@.len() == self.files@.len(),
            forall|i: int| 0 <= i < r@.len() ==> views(#[trigger] r@[i]@) == file_names(self.files@[i]@),
    {
        let mut r: Vec<Vec<String>> = Vec::new();
        let mut i: usize = 0;
        while i < self.files.len()
            invariant
                i <= self.files@.len(),
                r@.len() == i,
                forall|j: int| 0 <= j < i ==> views(#[trigger] r@[j]@) == file_names(self.files@[j]@),
            decreases self.files@.len() - i,
        {
            let pieces = split_str(self.files[i].as_str(), Separators::ListMarks);
            let names = trim_nonempty(&pieces);
            r.push(names);
            i = i + 1;
        }
        r
    }
}

/// Every file of a batch entry exists, and the entry names at least one.
pub open spec fn entry_present(flags: Seq<bool>) -> bool {
    flags.len() > 0 && forall|j: int| 0 <= j < flags.len() ==> #[trigger] flags[j]
}

/// Every batch entry names files that all exist.
pub open spec fn all_present(files_exist: Seq<Vec<bool>>) -> bool {
    forall|i: int| 0 <= i < files_exist.len() ==> entry_present(#[trigger] files_exist[i]@)
}

/// File `name` of entry `index` is the first one missing: every earlier entry
/// is present, and entry `index` names no file (`name` 0) or its file `name`
/// is the first that does not exist.
pub open spec fn first_missing(files_exist: Seq<Vec<bool>>, index: int, name: int) -> bool {
    &&& 0 <= index < files_exist.len()
    &&& forall|k: int| 0 <= k < index ==> entry_present(#[trigger] files_exist[k]@)
    &&& {
        let flags = files_exist[index]@;
        ||| flags.len() == 0 && name == 0
        ||| 0 <= name < flags.len() && !flags[name] && forall|k: int| 0 <= k < name ==> #[trigger] flags[k]
    }
}

/// The file names in one batch file entry.
pub open spec fn file_names(entry: Seq<char>) -> Seq<Seq<char>> {
    trimmed_nonempty(split_by(entry, Separators::ListMarks))
}

/// Every file name of a batch file entry is non-empty and holds no comma,
/// semicolon or whitespace.
pub proof fn lemma_file_names_clean(entry: Seq<char>)
    ensures
        forall|i: int| 0 <= i < file_names(entry).len() ==> {
            let f = #[trigger] file_names(entry)[i];
            &&& f.len() > 0
            &&& forall|j: int| 0 <= j < f.len() ==> !is_sep(Separators::ListMarks, f[j])
        },
{
    let ps = split_by(entry, Separators::ListMarks);
    lemma_split_pieces(entry, Separators::ListMarks);
    lemma_trimmed_nonempty(ps);
    assert forall|i: int| 0 <= i < file_names(entry).len() implies {
        let f = #[trigger] file_names(entry)[i];
        &&& f.len() > 0
        &&& forall|j: int| 0 <= j < f.len() ==> !is_sep(Separators::ListMarks, f[j])
    } by {
        let f = file_names(entry)[i];
        let m = choose|m: int| 0 <= m < ps.len() && f == trim(ps[m]);
        lemma_trim_shape(ps[m]);
        let (a, b) = choose|a: int, b: int| 0 <= a <= b <= ps[m].len() && trim(ps[m]) == ps[m].subrange(a, b);
        assert forall|j: int| 0 <= j < f.len() implies !is_sep(Separators::ListMarks, f[j]) by {
            assert(f[j] == ps[m][a + j]);
        }
    }
}

} // verus!
