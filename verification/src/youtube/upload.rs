//! Upload planning: the options of each video of an individual or batch
//! configuration, the metadata sent with an upload, and what follows it.

use vstd::prelude::*;
use crate::models::{
    BatchConfigRoot, BatchFilesError, BlankKeywords, CommonConfig, IndividualConfigRoot, VideoConfig,
    VideoUploadOptions, Violation, all_present, api_recording_date, batch_violations, category_id, file_names,
    entry_present, first_missing,
    individual_violations, privacy_name,
};
use crate::text::all_ws;
use crate::text::{
    Separators, concat2, decimal, split_by, split_str, trim, trim_all, trim_each, trim_str,
    u64_to_decimal, views,
};

verus! {

/// What `std::path::Path::extension` gives for a path, as characters.
pub uninterp spec fn path_extension_of(p: Seq<char>) -> Option<Seq<char>>;

/// `std::path::Path::extension`: the extension of the file name of `p`.
/// The contract names the result; the path grammar is not restated.
#[verifier::external_body]
fn path_extension(p: &str) -> (r: Option<String>)
    ensures
        r matches Some(e) ==> path_extension_of(p@) == Some(e@),
        r is None ==> path_extension_of(p@) is None,
{
    std::path::Path::new(p).extension().and_then(|e| e.to_str()).map(|e| e.to_owned())
}

/// The suffix of the temporary file that merged parts are written to: the
/// extension of the first part, or `MTS` when it has none.
pub open spec fn merge_suffix_for(first: Seq<char>) -> Seq<char> {
    "."@ + match path_extension_of(first) {
        Some(e) => e,
        None => "MTS"@,
    }
}

/// One video of a batch: its full title, its files, and the suffix of the
/// temporary file its parts are merged into when there are several.
#[derive(Debug)]
pub struct BatchItem {
    pub full_title: String,
    pub files: Vec<String>,
    pub merge_suffix: Option<String>,
}

/// The title of a batch video: the common prefix and the trimmed title.
pub open spec fn batch_title(prefix: Seq<char>, title: Seq<char>) -> Seq<char> {
    prefix + trim(title)
}

/// Plan one video of a batch from its title and the files of its entry.
pub fn plan_batch_item(prefix: &str, title: &str, files: &Vec<String>) -> (r: BatchItem)
    requires
        files@.len() >= 1,
    ensures
        r.full_title@ == batch_title(prefix@, title@),
        views(r.files@) == views(files@),
        files@.len() > 1 ==> (r.merge_suffix matches Some(s) && s@ == merge_suffix_for(files@[0]@)),
        files@.len() == 1 ==> r.merge_suffix is None,
{
    let t = trim_str(title);
    let full_title = concat2(prefix, t.as_str());
    let mut copy: Vec<String> = Vec::new();
    let mut i: usize = 0;
    while i < files.len()
        invariant
            i <= files@.len(),
            views(copy@) == views(files@.take(i as int)),
        decreases files@.len() - i,
    {
        let f = files[i].clone();
        let ghost before = copy@;
        copy.push(f);
        proof {
            assert(views(copy@) =~= views(before).push(f@));
            assert(views(files@.take(i + 1)) =~= views(files@.take(i as int)).push(files@[i as int]@));
        }
        i = i + 1;
    }
    proof {
        assert(files@.take(files@.len() as int) =~= files@);
    }
    let merge_suffix = if files.len() > 1 {
        let ext = match path_extension(files[0].as_str()) {
            Some(e) => e,
            None => "MTS".to_owned(),
        };
        Some(concat2(".", ext.as_str()))
    } else {
        None
    };
    BatchItem { full_title, files: copy, merge_suffix }
}

/// The upload options of one batch video: the title doubles as description,
/// everything else comes from the common section.
pub fn options_for_batch_item(common: &CommonConfig, full_title: &str, file: &str) -> (r: VideoUploadOptions)
    ensures
        r.file@ == file@,
        r.title@ == full_title@,
        r.description@ == full_title@,
        r.keywords@ == common.keywords@,
        r.category == category_id(common.category),
        r.privacy_status@ == privacy_name(common.privacy_status),
        r.playlist_id@ == common.playlist_id@,
        r.default_audio_language@ == common.default_audio_language@,
        r.default_language@ == common.default_language@,
        r.recording_date@ == common.recording_date@,
{
    VideoUploadOptions {
        file: file.to_owned(),
        title: full_title.to_owned(),
        description: full_title.to_owned(),
        keywords: common.keywords.clone(),
        category: common.category.as_u32(),
        privacy_status: common.privacy_status.as_str().to_owned(),
        playlist_id: common.playlist_id.clone(),
        default_audio_language: common.default_audio_language.clone(),
        default_language: common.default_language.clone(),
        recording_date: common.recording_date.clone(),
    }
}

/// The upload options of one entry of an individual configuration: every
/// field taken as is.
pub fn options_for_video(video: &VideoConfig) -> (r: VideoUploadOptions)
    ensures
        options_of(r, *video),
{
    VideoUploadOptions {
        file: video.file.clone(),
        title: video.title.clone(),
        description: video.description.clone(),
        keywords: video.keywords.clone(),
        category: video.category.as_u32(),
        privacy_status: video.privacy_status.as_str().to_owned(),
        playlist_id: video.playlist_id.clone(),
        default_audio_language: video.default_audio_language.clone(),
        default_language: video.default_language.clone(),
        recording_date: video.recording_date.clone(),
    }
}

/// The metadata part of a video upload (snippet, status, recording details).
#[derive(Debug)]
pub struct UploadMetadata {
    pub title: String,
    pub description: String,
    pub tags: Vec<String>,
    pub category_id: String,
    pub default_language: String,
    pub default_audio_language: String,
    pub privacy_status: String,
    pub recording_date: String,
}

/// The tags of an upload: none for empty keywords, else the comma-separated
/// keywords, each trimmed (empty pieces kept).
pub open spec fn keyword_tags(k: Seq<char>) -> Seq<Seq<char>> {
    if k.len() == 0 {
        Seq::empty()
    } else {
        trim_all(split_by(k, Separators::Char(',')))
    }
}

/// The metadata sent with a video upload.
pub fn upload_metadata(options: &VideoUploadOptions) -> (r: UploadMetadata)
    ensures
        r.title@ == options.title@,
        r.description@ == options.description@,
        views(r.tags@) == keyword_tags(options.keywords@),
        r.category_id@ == decimal(options.category as nat),
        r.default_language@ == options.default_language@,
        r.default_audio_language@ == options.default_audio_language@,
        r.privacy_status@ == options.privacy_status@,
        r.recording_date@ == api_recording_date(options.recording_date@),
{
    let tags = if options.keywords.as_str().is_empty() {
        let t: Vec<String> = Vec::new();
        proof {
            assert(views(t@) =~= Seq::<Seq<char>>::empty());
        }
        t
    } else {
        let pieces = split_str(options.keywords.as_str(), Separators::Char(','));
        trim_each(&pieces)
    };
    UploadMetadata {
        title: options.title.clone(),
        description: options.description.clone(),
        tags,
        category_id: u64_to_decimal(options.category as u64),
        default_language: options.default_language.clone(),
        default_audio_language: options.default_audio_language.clone(),
        privacy_status: options.privacy_status.clone(),
        recording_date: options.formatted_recording_date(),
    }
}

/// What follows a successful upload and playlist insertion.
#[derive(Debug, Clone, PartialEq, Eq)]
pub enum FollowUp {
    /// Nothing: keep the video.
    Keep,
    /// Test mode: remove the playlist item, then delete the video.
    RemoveAndDelete { playlist_item_id: String },
}

/// The follow-up of an upload: in test mode, a video that was added to its
/// playlist is removed from it and deleted again; otherwise it is kept.
pub fn follow_up(test_mode: bool, playlist_item_id: Option<String>) -> (r: FollowUp)
    ensures
        test_mode && playlist_item_id is Some ==> (r matches FollowUp::RemoveAndDelete { playlist_item_id: p }
            && Some(p) == playlist_item_id),
        !(test_mode && playlist_item_id is Some) ==> r == FollowUp::Keep,
{
    match playlist_item_id {
        Some(p) => {
            if test_mode {
                FollowUp::RemoveAndDelete { playlist_item_id: p }
            } else {
                FollowUp::Keep
            }
        },
        None => FollowUp::Keep,
    }
}

/// `item` is the plan of a batch video with this prefix, title and files.
pub open spec fn planned(item: BatchItem, prefix: Seq<char>, title: Seq<char>, files: Seq<Seq<char>>) -> bool {
    &&& item.full_title@ == batch_title(prefix, title)
    &&& views(item.files@) == files
    &&& files.len() > 1 ==> (item.merge_suffix matches Some(s) && s@ == merge_suffix_for(files[0]))
    &&& files.len() == 1 ==> item.merge_suffix is None
}

/// Why a batch cannot be uploaded, in the order the checks are made.
#[derive(Debug, Clone)]
pub enum BatchPlanError {
    /// The configuration breaks these rules.
    Invalid(Vec<Violation>),
    /// The titles and file entries do not line up, or a file is missing.
    Files(BatchFilesError),
    /// The keywords are whitespace only.
    Keywords(BlankKeywords),
}

/// Check a batch configuration and plan each of its videos: the rules of
/// the configuration, then the titles against the file entries and the
/// existence of every file each entry names (`files_exist[i][j]` for name `j`
/// of entry `i`), then the keywords. On success, video `i` has title
/// `titles[i]` and the files of entry `i`.
pub fn plan_batch(config: &BatchConfigRoot, files_exist: &Vec<Vec<bool>>) -> (r: Result<Vec<BatchItem>, BatchPlanError>)
    requires
        files_exist@.len() == config.files@.len(),
        forall|i: int| 0 <= i < files_exist@.len()
            ==> (#[trigger] files_exist@[i])@.len() == file_names(config.files@[i]@).len(),
    ensures
        batch_violations(*config).len() > 0 ==> (r matches Err(BatchPlanError::Invalid(v)) && v@ == batch_violations(*config)),
        batch_violations(*config).len() == 0 && config.titles@.len() != config.files@.len() ==> r matches Err(
            BatchPlanError::Files(BatchFilesError::CountMismatch { .. }),
        ),
        batch_violations(*config).len() == 0 && config.titles@.len() == config.files@.len()
            && !all_present(files_exist@)
            ==> r matches Err(BatchPlanError::Files(BatchFilesError::FileMissing { .. })),
        r matches Err(BatchPlanError::Files(BatchFilesError::FileMissing { index, name }))
            ==> first_missing(files_exist@, index as int, name as int),
        r matches Err(BatchPlanError::Keywords(_)) <==> (batch_violations(*config).len() == 0
            && config.titles@.len() == config.files@.len()
            && all_present(files_exist@)
            && all_ws(config.common.keywords@)),
        r is Ok <==> (batch_violations(*config).len() == 0
            && config.titles@.len() == config.files@.len()
            && all_present(files_exist@)
            && !all_ws(config.common.keywords@)),
        r matches Ok(items) ==> items@.len() == config.titles@.len() && forall|i: int| 0 <= i < items@.len()
            ==> planned(#[trigger] items@[i], config.common.prefix@, config.titles@[i]@, file_names(config.files@[i]@)),
{
    match config.validate() {
        Err(v) => return Err(BatchPlanError::Invalid(v)),
        Ok(()) => {},
    }
    match config.validate_files_and_lengths(files_exist) {
        Err(e) => return Err(BatchPlanError::Files(e)),
        Ok(()) => {},
    }
    match config.common.validate_keywords() {
        Err(e) => return Err(BatchPlanError::Keywords(e)),
        Ok(()) => {},
    }
    let parsed = config.parse_files();
    proof {
        assert forall|j: int| 0 <= j < config.files@.len() implies file_names(#[trigger] config.files@[j]@).len() >= 1 by {
            assert(entry_present(files_exist@[j]@));
        }
    }
    let mut items: Vec<BatchItem> = Vec::new();
    let mut i: usize = 0;
    while i < config.titles.len()
        invariant
            i <= config.titles@.len() == config.files@.len() == parsed@.len(),
            forall|j: int| 0 <= j < parsed@.len() ==> views(#[trigger] parsed@[j]@) == file_names(config.files@[j]@),
            forall|j: int| 0 <= j < config.files@.len() ==> file_names(#[trigger] config.files@[j]@).len() >= 1,
            items@.len() == i,
            forall|j: int| 0 <= j < i ==> planned(#[trigger] items@[j], config.common.prefix@, config.titles@[j]@,
                file_names(config.files@[j]@)),
        decreases config.titles@.len() - i,
    {
        proof {
            assert(views(parsed@[i as int]@).len() == parsed@[i as int]@.len());
            assert(file_names(config.files@[i as int]@).len() >= 1);
        }
        let item = plan_batch_item(config.common.prefix.as_str(), config.titles[i].as_str(), &parsed[i]);
        proof {
            let names = file_names(config.files@[i as int]@);
            assert(views(parsed@[i as int]@) == names);
            if names.len() > 1 {
                assert(parsed@[i as int]@[0]@ == views(parsed@[i as int]@)[0]);
            }
        }
        items.push(item);
        i = i + 1;
    }
    Ok(items)
}

/// Check an individual configuration (`files_exist[i]` for the file of
/// video `i`) and give the upload options of each video, in order.
pub fn plan_individual(config: &IndividualConfigRoot, files_exist: &Vec<bool>) -> (r: Result<Vec<VideoUploadOptions>, Vec<Violation>>)
    requires
        files_exist@.len() == config.videos@.len(),
    ensures
        r is Ok <==> individual_violations(*config, files_exist@).len() == 0,
        r matches Err(v) ==> v@ == individual_violations(*config, files_exist@),
        r matches Ok(o) ==> o@.len() == config.videos@.len() && forall|i: int| 0 <= i < o@.len()
            ==> options_of(#[trigger] o@[i], config.videos@[i]),
{
    match config.validate(files_exist) {
        Err(v) => return Err(v),
        Ok(()) => {},
    }
    let mut out: Vec<VideoUploadOptions> = Vec::new();
    let mut i: usize = 0;
    while i < config.videos.len()
        invariant
            i <= config.videos@.len(),
            out@.len() == i,
            forall|j: int| 0 <= j < i ==> options_of(#[trigger] out@[j], config.videos@[j]),
        decreases config.videos@.len() - i,
    {
        out.push(options_for_video(&config.videos[i]));
        i = i + 1;
    }
    Ok(out)
}

/// `o` holds the upload options of video entry `v`, every field as is.
pub open spec fn options_of(o: VideoUploadOptions, v: VideoConfig) -> bool {
    &&& o.file@ == v.file@
    &&& o.title@ == v.title@
    &&& o.description@ == v.description@
    &&& o.keywords@ == v.keywords@
    &&& o.category == category_id(v.category)
    &&& o.privacy_status@ == privacy_name(v.privacy_status)
    &&& o.playlist_id@ == v.playlist_id@
    &&& o.default_audio_language@ == v.default_audio_language@
    &&& o.default_language@ == v.default_language@
    &&& o.recording_date@ == v.recording_date@
}

} // verus!
