//! The channel listing tool: its output formats, the table and ID-list
//! renderings of videos and captions, caption filtering by language, and the
//! merge of a fresh page into an earlier snapshot.

use vstd::prelude::*;
use vstd::string::StringSliceAdditionalSpecFns;
use vstd::utf8::{decode_utf8, encode_utf8, encode_utf8_decode_utf8, is_char_boundary};
use crate::text::{
    clone_all, clone_opt, concat2, join, join_str, lowercase_of, opt_view, str_eq, to_lowercase,
    views,
};
use crate::youtube::{CaptionDetails, VideoDetails};

verus! {

/// How the listing is written.
#[derive(Debug, Clone, Copy, PartialEq, Eq, Structural)]
pub enum OutputFormat {
    /// All entries in one JSON array.
    Json,
    /// One JSON object per line.
    Jsonl,
    /// A human-readable table.
    Table,
}

/// An output format name that is none of `json`, `jsonl` and `table`.
#[derive(Debug, Clone)]
pub struct InvalidOutputFormat {
    pub given: String,
}

impl InvalidOutputFormat {
    /// The human-readable message for this error.
    pub fn message(&self) -> (r: String)
        ensures
            r@ == "Invalid output format: "@ + self.given@ + ". Supported: json, jsonl, table"@,
    {
        crate::text::concat3("Invalid output format: ", self.given.as_str(), ". Supported: json, jsonl, table")
    }
}

/// The format named `name`, compared after lowercasing.
pub open spec fn output_format_named(lower: Seq<char>) -> Option<OutputFormat> {
    if lower == "json"@ {
        Some(OutputFormat::Json)
    } else if lower == "jsonl"@ {
        Some(OutputFormat::Jsonl)
    } else if lower == "table"@ {
        Some(OutputFormat::Table)
    } else {
        None
    }
}

impl OutputFormat {
    /// Parse an output format name, ignoring case.
    pub fn from_name(name: &str) -> (r: Result<OutputFormat, InvalidOutputFormat>)
        ensures
            match output_format_named(lowercase_of(name@)) {
                Some(f) => r == Ok::<OutputFormat, InvalidOutputFormat>(f),
                None => r matches Err(e) && e.given@ == name@,
            },
    {
        let lower = to_lowercase(name);
        if str_eq(lower.as_str(), "json") {
            Ok(OutputFormat::Json)
        } else if str_eq(lower.as_str(), "jsonl") {
            Ok(OutputFormat::Jsonl)
        } else if str_eq(lower.as_str(), "table") {
            Ok(OutputFormat::Table)
        } else {
            Err(InvalidOutputFormat { given: name.to_owned() })
        }
    }
}

/// `n` spaces.
pub open spec fn spaces(n: nat) -> Seq<char> {
    Seq::new(n, |i: int| ' ')
}

/// `s` padded with spaces on the right to at least `width` characters, as
/// the `{:<width}` format does.
pub open spec fn pad_right(s: Seq<char>, width: nat) -> Seq<char> {
    if s.len() >= width {
        s
    } else {
        s + spaces((width - s.len()) as nat)
    }
}

/// Pad a string on the right to at least `width` characters.
fn padded(s: &str, width: usize) -> (r: String)
    ensures
        r@ == pad_right(s@, width as nat),
{
    let n = s.unicode_len();
    let mut r = s.to_owned();
    if n >= width {
        return r;
    }
    let mut k = n;
    while k < width
        invariant
            n <= k <= width,
            n == s@.len(),
            r@ == s@ + spaces((k - n) as nat),
        decreases width - k,
    {
        let ghost before = r@;
        crate::text::push_char(&mut r, ' ');
        proof {
            assert(r@ =~= s@ + spaces((k + 1 - n) as nat));
        }
        k = k + 1;
    }
    r
}

/// The header of the video table.
pub const VIDEO_TABLE_HEADER: &'static str =
    "VIDEO ID             | TITLE                              | DURATION | STATUS   | RECORDING DATE\n";

/// The rule under the header of the video table.
pub const VIDEO_TABLE_RULE: &'static str =
    "--------------------+------------------------------------+----------+----------+--------------------\n";

/// What the video table shows when there is no video.
pub const NO_VIDEOS: &'static str = "No videos found.";

/// The byte length of a string as `str::len` gives it.
pub open spec fn byte_len(s: Seq<char>) -> usize {
    encode_utf8(s).len() as usize
}

/// A title as the table shows it: titles over 34 bytes are cut to their
/// first 31 bytes and marked with `...`.
pub open spec fn shown_title(title: Seq<char>) -> Seq<char> {
    if byte_len(title) > 34 {
        decode_utf8(encode_utf8(title).subrange(0, 31)) + "..."@
    } else {
        title
    }
}

/// A title that the table can cut: short enough, or with a character
/// boundary after its first 31 bytes.
pub open spec fn title_cuttable(title: Seq<char>) -> bool {
    byte_len(title) > 34 ==> is_char_boundary(encode_utf8(title), 31)
}

/// The table form of a title.
fn shown_title_of(title: &str) -> (r: String)
    requires
        title_cuttable(title@),
    ensures
        r@ == shown_title(title@),
{
    if title.len() > 34 {
        let (head, _tail) = title.split_at(31);
        proof {
            encode_utf8_decode_utf8(head@);
            assert(head.spec_bytes() == encode_utf8(head@));
        }
        concat2(head, "...")
    } else {
        title.to_owned()
    }
}

/// An optional value as the table shows it: `N/A` when missing.
pub open spec fn or_na(o: Option<String>) -> Seq<char> {
    match o {
        Some(s) => s@,
        None => "N/A"@,
    }
}

fn or_na_of(o: &Option<String>) -> (r: String)
    ensures
        r@ == or_na(*o),
{
    match o {
        Some(s) => s.clone(),
        None => "N/A".to_owned(),
    }
}

/// One row of the video table.
pub open spec fn video_row(v: VideoDetails) -> Seq<char> {
    pad_right(v.id@, 20) + " | "@ + pad_right(shown_title(v.title@), 34) + " | "@ + pad_right(or_na(v.duration), 8)
        + " | "@ + pad_right(v.status@, 8) + " | "@ + or_na(v.recording_date) + "\n"@
}

/// The rows of the video table, in order.
pub open spec fn video_rows(vs: Seq<VideoDetails>) -> Seq<char>
    decreases vs.len(),
{
    if vs.len() == 0 {
        Seq::empty()
    } else {
        video_rows(vs.drop_last()) + video_row(vs.last())
    }
}

/// The video table: header, rule and one row per video, or a notice when
/// there is no video.
pub open spec fn video_table(vs: Seq<VideoDetails>) -> Seq<char> {
    if vs.len() == 0 {
        NO_VIDEOS@
    } else {
        VIDEO_TABLE_HEADER@ + VIDEO_TABLE_RULE@ + video_rows(vs)
    }
}

/// Append `s` to `out`.
fn append(out: &mut String, s: &str)
    ensures
        final(out)@ == old(out)@ + s@,
{
    out.append(s);
}

/// Render videos as a table.
pub fn format_as_table(videos: &[VideoDetails]) -> (r: String)
    requires
        forall|i: int| 0 <= i < videos@.len() ==> title_cuttable(#[trigger] videos@[i].title@),
    ensures
        r@ == video_table(videos@),
{
    if videos.len() == 0 {
        return NO_VIDEOS.to_owned();
    }
    let mut out = VIDEO_TABLE_HEADER.to_owned();
    append(&mut out, VIDEO_TABLE_RULE);
    let ghost head = out@;
    let mut i: usize = 0;
    while i < videos.len()
        invariant
            i <= videos@.len(),
            head == VIDEO_TABLE_HEADER@ + VIDEO_TABLE_RULE@,
            forall|k: int| 0 <= k < videos@.len() ==> title_cuttable(#[trigger] videos@[k].title@),
            out@ == head + video_rows(videos@.take(i as int)),
        decreases videos@.len() - i,
    {
        let v = &videos[i];
        let ghost before = out@;
        let id = padded(v.id.as_str(), 20);
        let title = shown_title_of(v.title.as_str());
        let title = padded(title.as_str(), 34);
        let duration = or_na_of(&v.duration);
        let duration = padded(duration.as_str(), 8);
        let status = padded(v.status.as_str(), 8);
        let recording = or_na_of(&v.recording_date);
        append(&mut out, id.as_str());
        append(&mut out, " | ");
        append(&mut out, title.as_str());
        append(&mut out, " | ");
        append(&mut out, duration.as_str());
        append(&mut out, " | ");
        append(&mut out, status.as_str());
        append(&mut out, " | ");
        append(&mut out, recording.as_str());
        append(&mut out, "\n");
        proof {
            assert(videos@.take(i + 1).drop_last() =~= videos@.take(i as int));
            assert(videos@.take(i + 1).last() == videos@[i as int]);
            assert(out@ =~= before + video_row(videos@[i as int]));
        }
        i = i + 1;
    }
    proof {
        assert(videos@.take(videos@.len() as int) =~= videos@);
    }
    out
}

/// The IDs of the videos, one per line.
pub open spec fn ids_only(vs: Seq<VideoDetails>) -> Seq<char> {
    join(vs.map_values(|v: VideoDetails| v.id@), "\n"@)
}

/// Render videos as their IDs, one per line.
pub fn format_as_ids_only(videos: &[VideoDetails]) -> (r: String)
    ensures
        r@ == ids_only(videos@),
{
    let mut ids: Vec<String> = Vec::new();
    let mut i: usize = 0;
    while i < videos.len()
        invariant
            i <= videos@.len(),
            views(ids@) == videos@.take(i as int).map_values(|v: VideoDetails| v.id@),
        decreases videos@.len() - i,
    {
        let ghost before = ids@;
        ids.push(videos[i].id.clone());
        proof {
            assert(views(ids@) =~= views(before).push(videos@[i as int].id@));
            assert(videos@.take(i + 1).map_values(|v: VideoDetails| v.id@) =~= videos@.take(i as int).map_values(
                |v: VideoDetails| v.id@,
            ).push(videos@[i as int].id@));
        }
        i = i + 1;
    }
    proof {
        assert(videos@.take(videos@.len() as int) =~= videos@);
    }
    join_str(&ids, "\n")
}

/// The header of the caption table.
pub const CAPTION_TABLE_HEADER: &'static str =
    "VIDEO ID             | LANGUAGE | AUTO-SYNCED | DRAFT | CLOSED CAPTIONS | LARGE | NAME\n";

/// The rule under the header of the caption table.
pub const CAPTION_TABLE_RULE: &'static str =
    "--------------------+----------+-------------+-------+-----------------+-------+--------------------\n";

/// What the caption table shows when there is no entry.
pub const NO_CAPTIONS: &'static str = "No captions found.";

/// `Yes` or `No`.
pub open spec fn yes_no(b: bool) -> Seq<char> {
    if b {
        "Yes"@
    } else {
        "No"@
    }
}

/// An optional flag, missing counting as false.
pub open spec fn flag(b: Option<bool>) -> bool {
    match b {
        Some(x) => x,
        None => false,
    }
}

/// A caption flag shows as `Yes` exactly when the API gave `true`; `false`
/// and a missing flag both show as `No`.
pub proof fn lemma_flag_yes_only_when_true(b: Option<bool>)
    ensures
        flag(b) <==> b == Some(true),
        yes_no(flag(b)) == (if b == Some(true) { "Yes"@ } else { "No"@ }),
{
}

/// A caption name as the table shows it: `-` when missing.
pub open spec fn name_or_dash(o: Option<String>) -> Seq<char> {
    match o {
        Some(s) => s@,
        None => "-"@,
    }
}

/// One row of the caption table; the video ID is shown on the first
/// caption of each video only.
pub open spec fn caption_row(video_shown: Seq<char>, c: CaptionDetails) -> Seq<char> {
    pad_right(video_shown, 20) + " | "@ + pad_right(c.language@, 8) + " | "@ + pad_right(yes_no(flag(c.is_auto_synced)), 11)
        + " | "@ + pad_right(yes_no(flag(c.is_draft)), 5) + " | "@ + pad_right(yes_no(flag(c.is_cc)), 15) + " | "@
        + pad_right(yes_no(flag(c.is_large)), 5) + " | "@ + name_or_dash(c.name) + "\n"@
}

/// The rows of one video's captions.
pub open spec fn caption_rows(video_id: Seq<char>, caps: Seq<CaptionDetails>) -> Seq<char>
    decreases caps.len(),
{
    if caps.len() == 0 {
        Seq::empty()
    } else {
        caption_rows(video_id, caps.drop_last()) + caption_row(
            if caps.len() == 1 { video_id } else { Seq::empty() },
            caps.last(),
        )
    }
}

/// The rows of every entry of a caption listing, in order.
pub open spec fn listing_rows(entries: Seq<(String, Vec<CaptionDetails>)>) -> Seq<char>
    decreases entries.len(),
{
    if entries.len() == 0 {
        Seq::empty()
    } else {
        listing_rows(entries.drop_last()) + caption_rows(entries.last().0@, entries.last().1@)
    }
}

/// The caption table: header, rule and the rows, or a notice when the
/// listing is empty.
pub open spec fn caption_table(entries: Seq<(String, Vec<CaptionDetails>)>) -> Seq<char> {
    if entries.len() == 0 {
        NO_CAPTIONS@
    } else {
        CAPTION_TABLE_HEADER@ + CAPTION_TABLE_RULE@ + listing_rows(entries)
    }
}

fn yes_no_of(b: Option<bool>) -> (r: &'static str)
    ensures
        r@ == yes_no(flag(b)),
{
    let on = match b {
        Some(x) => x,
        None => false,
    };
    if on {
        "Yes"
    } else {
        "No"
    }
}

/// One row of the caption table.
fn caption_row_of(shown: &str, c: &CaptionDetails) -> (r: String)
    ensures
        r@ == caption_row(shown@, *c),
{
    let col0 = padded(shown, 20);
    let col1 = padded(c.language.as_str(), 8);
    let col2 = padded(yes_no_of(c.is_auto_synced), 11);
    let col3 = padded(yes_no_of(c.is_draft), 5);
    let col4 = padded(yes_no_of(c.is_cc), 15);
    let col5 = padded(yes_no_of(c.is_large), 5);
    let name = match &c.name {
        Some(n) => n.clone(),
        None => "-".to_owned(),
    };
    let mut out = String::new();
    append(&mut out, col0.as_str());
    append(&mut out, " | ");
    append(&mut out, col1.as_str());
    append(&mut out, " | ");
    append(&mut out, col2.as_str());
    append(&mut out, " | ");
    append(&mut out, col3.as_str());
    append(&mut out, " | ");
    append(&mut out, col4.as_str());
    append(&mut out, " | ");
    append(&mut out, col5.as_str());
    append(&mut out, " | ");
    append(&mut out, name.as_str());
    append(&mut out, "\n");
    proof {
        assert(out@ =~= caption_row(shown@, *c));
    }
    out
}

/// The rows of one video's captions.
fn caption_rows_of(video_id: &str, caps: &Vec<CaptionDetails>) -> (r: String)
    ensures
        r@ == caption_rows(video_id@, caps@),
{
    let mut out = String::new();
    let mut i: usize = 0;
    while i < caps.len()
        invariant
            i <= caps@.len(),
            out@ == caption_rows(video_id@, caps@.take(i as int)),
        decreases caps@.len() - i,
    {
        let shown = if i == 0 { video_id } else { "" };
        proof {
            reveal_strlit("");
            let t = caps@.take(i + 1);
            assert(t.drop_last() =~= caps@.take(i as int));
            assert(t.last() == caps@[i as int]);
            assert(shown@ =~= if t.len() == 1 { video_id@ } else { Seq::<char>::empty() });
        }
        let row = caption_row_of(shown, &caps[i]);
        append(&mut out, row.as_str());
        i = i + 1;
    }
    proof {
        assert(caps@.take(caps@.len() as int) =~= caps@);
    }
    out
}

/// Render a caption listing as a table.
pub fn format_captions_as_table(captions: &Vec<(String, Vec<CaptionDetails>)>) -> (r: String)
    ensures
        r@ == caption_table(captions@),
{
    if captions.len() == 0 {
        return NO_CAPTIONS.to_owned();
    }
    let mut out = CAPTION_TABLE_HEADER.to_owned();
    append(&mut out, CAPTION_TABLE_RULE);
    let ghost head = out@;
    let mut i: usize = 0;
    while i < captions.len()
        invariant
            i <= captions@.len(),
            head == CAPTION_TABLE_HEADER@ + CAPTION_TABLE_RULE@,
            out@ == head + listing_rows(captions@.take(i as int)),
        decreases captions@.len() - i,
    {
        let rows = caption_rows_of(captions[i].0.as_str(), &captions[i].1);
        append(&mut out, rows.as_str());
        proof {
            assert(captions@.take(i + 1).drop_last() =~= captions@.take(i as int));
            assert(captions@.take(i + 1).last() == captions@[i as int]);
        }
        i = i + 1;
    }
    proof {
        assert(captions@.take(captions@.len() as int) =~= captions@);
    }
    out
}

/// A copy of a caption's details.
fn copy_caption(c: &CaptionDetails) -> (r: CaptionDetails)
    ensures
        r == *c,
{
    CaptionDetails {
        id: c.id.clone(),
        video_id: c.video_id.clone(),
        language: c.language.clone(),
        is_auto_synced: c.is_auto_synced,
        is_cc: c.is_cc,
        is_large: c.is_large,
        is_draft: c.is_draft,
        name: clone_opt(&c.name),
        audio_track_type: clone_opt(&c.audio_track_type),
        is_easy_reader: c.is_easy_reader,
    }
}

/// The captions in `language`, in order.
pub open spec fn in_language(caps: Seq<CaptionDetails>, language: Seq<char>) -> Seq<CaptionDetails>
    decreases caps.len(),
{
    if caps.len() == 0 {
        Seq::empty()
    } else {
        let rest = in_language(caps.drop_last(), language);
        if caps.last().language@ == language {
            rest.push(caps.last())
        } else {
            rest
        }
    }
}

/// Keep the captions in `language`.
pub fn filter_captions_by_language(caps: &Vec<CaptionDetails>, language: &str) -> (r: Vec<CaptionDetails>)
    ensures
        r@ == in_language(caps@, language@),
{
    let mut r: Vec<CaptionDetails> = Vec::new();
    let mut i: usize = 0;
    while i < caps.len()
        invariant
            i <= caps@.len(),
            r@ == in_language(caps@.take(i as int), language@),
        decreases caps@.len() - i,
    {
        proof {
            assert(caps@.take(i + 1).drop_last() =~= caps@.take(i as int));
            assert(caps@.take(i + 1).last() == caps@[i as int]);
        }
        if str_eq(caps[i].language.as_str(), language) {
            r.push(copy_caption(&caps[i]));
        }
        i = i + 1;
    }
    proof {
        assert(caps@.take(caps@.len() as int) =~= caps@);
    }
    r
}

/// A channel-wide caption listing restricted to `language`: each video's
/// captions in that language, videos left with none dropped.
pub open spec fn listing_in_language(entries: Seq<(Seq<char>, Seq<CaptionDetails>)>, language: Seq<char>) -> Seq<
    (Seq<char>, Seq<CaptionDetails>),
>
    decreases entries.len(),
{
    if entries.len() == 0 {
        Seq::empty()
    } else {
        let rest = listing_in_language(entries.drop_last(), language);
        let kept = in_language(entries.last().1, language);
        if kept.len() > 0 {
            rest.push((entries.last().0, kept))
        } else {
            rest
        }
    }
}

/// The view of a caption listing.
pub open spec fn listing_view(entries: Seq<(String, Vec<CaptionDetails>)>) -> Seq<(Seq<char>, Seq<CaptionDetails>)> {
    entries.map_values(|e: (String, Vec<CaptionDetails>)| (e.0@, e.1@))
}

/// Restrict a channel-wide caption listing to one language.
pub fn filter_listing_by_language(listing: &Vec<(String, Vec<CaptionDetails>)>, language: &str) -> (r: Vec<
    (String, Vec<CaptionDetails>),
>)
    ensures
        listing_view(r@) == listing_in_language(listing_view(listing@), language@),
{
    let mut r: Vec<(String, Vec<CaptionDetails>)> = Vec::new();
    let mut i: usize = 0;
    while i < listing.len()
        invariant
            i <= listing@.len(),
            listing_view(r@) == listing_in_language(listing_view(listing@.take(i as int)), language@),
        decreases listing@.len() - i,
    {
        proof {
            assert(listing_view(listing@.take(i + 1)).drop_last() =~= listing_view(listing@.take(i as int)));
            assert(listing_view(listing@.take(i + 1)).last() == (listing@[i as int].0@, listing@[i as int].1@));
        }
        let kept = filter_captions_by_language(&listing[i].1, language);
        if kept.len() > 0 {
            let ghost before = r@;
            r.push((listing[i].0.clone(), kept));
            proof {
                assert(listing_view(r@) =~= listing_view(before).push((r@.last().0@, r@.last().1@)));
            }
        }
        i = i + 1;
    }
    proof {
        assert(listing@.take(listing@.len() as int) =~= listing@);
    }
    r
}

/// Two listings of the same video hold the same details.
pub open spec fn same_video(a: VideoDetails, b: VideoDetails) -> bool {
    &&& a.id@ == b.id@
    &&& a.title@ == b.title@
    &&& a.description@ == b.description@
    &&& a.status@ == b.status@
    &&& a.upload_date@ == b.upload_date@
    &&& a.category_id@ == b.category_id@
    &&& views(a.tags@) == views(b.tags@)
    &&& opt_view(a.default_language) == opt_view(b.default_language)
    &&& opt_view(a.default_audio_language) == opt_view(b.default_audio_language)
    &&& opt_view(a.recording_date) == opt_view(b.recording_date)
    &&& opt_view(a.duration) == opt_view(b.duration)
    &&& opt_view(a.caption) == opt_view(b.caption)
}

/// Element by element, the same details.
pub open spec fn same_videos(a: Seq<VideoDetails>, b: Seq<VideoDetails>) -> bool {
    a.len() == b.len() && forall|i: int| 0 <= i < a.len() ==> same_video(#[trigger] a[i], b[i])
}

/// A copy of a video's details.
fn copy_video(v: &VideoDetails) -> (r: VideoDetails)
    ensures
        same_video(r, *v),
{
    VideoDetails {
        id: v.id.clone(),
        title: v.title.clone(),
        description: v.description.clone(),
        status: v.status.clone(),
        upload_date: v.upload_date.clone(),
        category_id: v.category_id.clone(),
        tags: clone_all(&v.tags),
        default_language: clone_opt(&v.default_language),
        default_audio_language: clone_opt(&v.default_audio_language),
        recording_date: clone_opt(&v.recording_date),
        duration: clone_opt(&v.duration),
        caption: clone_opt(&v.caption),
    }
}

/// The position of the first entry with this ID.
pub open spec fn index_of_id(vs: Seq<VideoDetails>, id: Seq<char>) -> Option<int>
    decreases vs.len(),
{
    if vs.len() == 0 {
        None
    } else {
        match index_of_id(vs.drop_last(), id) {
            Some(i) => Some(i),
            None => if vs.last().id@ == id {
                Some(vs.len() - 1)
            } else {
                None
            },
        }
    }
}

/// One fresh entry merged in: it overwrites the first entry with its ID, or
/// is appended when there is none.
pub open spec fn merge_one(vs: Seq<VideoDetails>, v: VideoDetails) -> Seq<VideoDetails> {
    match index_of_id(vs, v.id@) {
        Some(i) => vs.update(i, v),
        None => vs.push(v),
    }
}

/// Fresh entries merged into a snapshot one after the other.
pub open spec fn merged(existing: Seq<VideoDetails>, fresh: Seq<VideoDetails>) -> Seq<VideoDetails>
    decreases fresh.len(),
{
    if fresh.len() == 0 {
        existing
    } else {
        merge_one(merged(existing, fresh.drop_last()), fresh.last())
    }
}

/// Where the first entry with `id` is, if any.
fn find_id(vs: &Vec<VideoDetails>, id: &str) -> (r: Option<usize>)
    ensures
        match r {
            Some(i) => index_of_id(vs@, id@) == Some(i as int),
            None => index_of_id(vs@, id@) is None,
        },
{
    let mut i: usize = 0;
    while i < vs.len()
        invariant
            i <= vs@.len(),
            index_of_id(vs@.take(i as int), id@) is None,
        decreases vs@.len() - i,
    {
        proof {
            assert(vs@.take(i + 1).drop_last() =~= vs@.take(i as int));
            assert(vs@.take(i + 1).last() == vs@[i as int]);
        }
        if str_eq(vs[i].id.as_str(), id) {
            proof {
                lemma_index_of_id_prefix(vs@, i as int + 1, id@);
            }
            return Some(i);
        }
        i = i + 1;
    }
    proof {
        assert(vs@.take(vs@.len() as int) =~= vs@);
    }
    None
}

/// A first occurrence in a prefix is the first occurrence in the whole.
proof fn lemma_index_of_id_prefix(vs: Seq<VideoDetails>, k: int, id: Seq<char>)
    requires
        0 <= k <= vs.len(),
        index_of_id(vs.take(k), id) is Some,
    ensures
        index_of_id(vs, id) == index_of_id(vs.take(k), id),
    decreases vs.len() - k,
{
    if k < vs.len() {
        assert(vs.take(k + 1).drop_last() =~= vs.take(k));
        lemma_index_of_id_prefix(vs, k + 1, id);
    } else {
        assert(vs.take(k) =~= vs);
    }
}

/// The same IDs at the same places give the same first positions.
proof fn lemma_index_of_id_same(a: Seq<VideoDetails>, b: Seq<VideoDetails>, id: Seq<char>)
    requires
        same_videos(a, b),
    ensures
        index_of_id(a, id) == index_of_id(b, id),
    decreases a.len(),
{
    if a.len() > 0 {
        assert(same_videos(a.drop_last(), b.drop_last()));
        lemma_index_of_id_same(a.drop_last(), b.drop_last(), id);
        assert(same_video(a[a.len() - 1], b[b.len() - 1]));
    }
}

/// A found position is a position of that ID.
proof fn lemma_index_of_id_found(vs: Seq<VideoDetails>, id: Seq<char>)
    ensures
        index_of_id(vs, id) matches Some(i) ==> 0 <= i < vs.len() && vs[i].id@ == id,
        index_of_id(vs, id) is None ==> forall|j: int| 0 <= j < vs.len() ==> (#[trigger] vs[j]).id@ != id,
    decreases vs.len(),
{
    if vs.len() > 0 {
        lemma_index_of_id_found(vs.drop_last(), id);
        assert forall|j: int| 0 <= j < vs.len() - 1 implies vs.drop_last()[j] == #[trigger] vs[j] by {}
    }
}

/// Merge a fresh page of videos into an earlier snapshot, overwriting by ID:
/// entries of the snapshot keep their position, new ones are appended.
pub fn merge_videos_by_id(existing: Vec<VideoDetails>, fresh: &[VideoDetails]) -> (r: Vec<VideoDetails>)
    ensures
        same_videos(r@, merged(existing@, fresh@)),
{
    let mut out = existing;
    let ghost start = out@;
    let ghost mut model: Seq<VideoDetails> = out@;
    let mut i: usize = 0;
    while i < fresh.len()
        invariant
            i <= fresh@.len(),
            model == merged(start, fresh@.take(i as int)),
            same_videos(out@, model),
        decreases fresh@.len() - i,
    {
        let v = copy_video(&fresh[i]);
        let ghost fv = fresh@[i as int];
        proof {
            assert(fresh@.take(i + 1).drop_last() =~= fresh@.take(i as int));
            assert(fresh@.take(i + 1).last() == fv);
            lemma_index_of_id_same(out@, model, fv.id@);
        }
        let found = find_id(&out, fresh[i].id.as_str());
        match found {
            Some(k) => {
                proof {
                    lemma_index_of_id_found(out@, fv.id@);
                }
                out.set(k, v);
                proof {
                    model = model.update(k as int, fv);
                    assert forall|j: int| 0 <= j < out@.len() implies same_video(#[trigger] out@[j], model[j]) by {
                        if j != k {
                        }
                    }
                }
            },
            None => {
                out.push(v);
                proof {
                    model = model.push(fv);
                    assert forall|j: int| 0 <= j < out@.len() implies same_video(#[trigger] out@[j], model[j]) by {
                        if j < out@.len() - 1 {
                        }
                    }
                }
            },
        }
        i = i + 1;
    }
    proof {
        assert(fresh@.take(fresh@.len() as int) =~= fresh@);
    }
    out
}

/// Merging keeps the snapshot's entries in place: the first entries of the
/// result have the snapshot's IDs, in the snapshot's order, and nothing is
/// lost.
pub proof fn lemma_merge_keeps_positions(existing: Seq<VideoDetails>, fresh: Seq<VideoDetails>)
    ensures
        merged(existing, fresh).len() >= existing.len(),
        forall|i: int| 0 <= i < existing.len() ==> (#[trigger] merged(existing, fresh)[i]).id@ == existing[i].id@,
    decreases fresh.len(),
{
    if fresh.len() > 0 {
        let m = merged(existing, fresh.drop_last());
        lemma_merge_keeps_positions(existing, fresh.drop_last());
        lemma_index_of_id_found(m, fresh.last().id@);
        assert forall|i: int| 0 <= i < existing.len() implies (#[trigger] merged(existing, fresh)[i]).id@ == existing[i].id@ by {
            assert(m[i].id@ == existing[i].id@);
        }
    }
}

/// After merging, every fresh entry's ID is present, and the first entry
/// with the ID of the last fresh entry is that entry.
pub proof fn lemma_merge_includes_fresh(existing: Seq<VideoDetails>, fresh: Seq<VideoDetails>)
    ensures
        forall|k: int| 0 <= k < fresh.len() ==> (#[trigger] index_of_id(merged(existing, fresh), fresh[k].id@)) is Some,
        fresh.len() > 0 ==> (index_of_id(merged(existing, fresh), fresh.last().id@) matches Some(i)
            && merged(existing, fresh)[i] == fresh.last()),
    decreases fresh.len(),
{
    if fresh.len() > 0 {
        let m = merged(existing, fresh.drop_last());
        let v = fresh.last();
        let r = merged(existing, fresh);
        lemma_merge_includes_fresh(existing, fresh.drop_last());
        lemma_index_of_id_found(m, v.id@);
        lemma_merge_one_ids(m, v);
        assert forall|k: int| 0 <= k < fresh.len() implies (#[trigger] index_of_id(r, fresh[k].id@)) is Some by {
            if k < fresh.len() - 1 {
                assert(fresh.drop_last()[k] == fresh[k]);
                lemma_index_kept(m, v, fresh[k].id@);
            }
        }
    }
}

/// Merging one entry in finds it at the first place of its ID.
proof fn lemma_merge_one_ids(vs: Seq<VideoDetails>, v: VideoDetails)
    ensures
        index_of_id(merge_one(vs, v), v.id@) matches Some(i) && merge_one(vs, v)[i] == v,
{
    lemma_index_of_id_found(vs, v.id@);
    match index_of_id(vs, v.id@) {
        Some(i) => {
            lemma_index_update(vs, i, v, v.id@);
        },
        None => {
            lemma_index_push(vs, v, v.id@);
        },
    }
}

/// Updating an entry with one of the same ID keeps first positions.
proof fn lemma_index_update(vs: Seq<VideoDetails>, i: int, v: VideoDetails, id: Seq<char>)
    requires
        0 <= i < vs.len(),
        vs[i].id@ == v.id@,
    ensures
        index_of_id(vs.update(i, v), id) == index_of_id(vs, id),
    decreases vs.len(),
{
    let u = vs.update(i, v);
    if i == vs.len() - 1 {
        assert(u.drop_last() =~= vs.drop_last());
    } else {
        assert(u.drop_last() =~= vs.drop_last().update(i, v));
        lemma_index_update(vs.drop_last(), i, v, id);
    }
}

/// Appending keeps first positions, and adds one for a new ID.
proof fn lemma_index_push(vs: Seq<VideoDetails>, v: VideoDetails, id: Seq<char>)
    ensures
        index_of_id(vs, id) is Some ==> index_of_id(vs.push(v), id) == index_of_id(vs, id),
        index_of_id(vs, id) is None && v.id@ == id ==> index_of_id(vs.push(v), id) == Some(vs.len() as int),
{
    assert(vs.push(v).drop_last() =~= vs);
}

/// An ID present before a merge step is present after it.
proof fn lemma_index_kept(vs: Seq<VideoDetails>, v: VideoDetails, id: Seq<char>)
    requires
        index_of_id(vs, id) is Some,
    ensures
        index_of_id(merge_one(vs, v), id) is Some,
{
    lemma_index_of_id_found(vs, v.id@);
    match index_of_id(vs, v.id@) {
        Some(i) => {
            lemma_index_update(vs, i, v, id);
        },
        None => {
            lemma_index_push(vs, v, id);
        },
    }
}

/// The last fresh entry with this ID, if any.
pub open spec fn last_with_id(fresh: Seq<VideoDetails>, id: Seq<char>) -> Option<VideoDetails>
    decreases fresh.len(),
{
    if fresh.len() == 0 {
        None
    } else if fresh.last().id@ == id {
        Some(fresh.last())
    } else {
        last_with_id(fresh.drop_last(), id)
    }
}

/// A snapshot with the first entry of each fresh ID replaced by the last
/// fresh entry with that ID.
pub open spec fn overwritten(vs: Seq<VideoDetails>, fresh: Seq<VideoDetails>) -> Seq<VideoDetails> {
    Seq::new(
        vs.len(),
        |i: int|
            if index_of_id(vs, vs[i].id@) == Some(i) && last_with_id(fresh, vs[i].id@) is Some {
                last_with_id(fresh, vs[i].id@)->Some_0
            } else {
                vs[i]
            },
    )
}

/// The last fresh entry with an ID has that ID.
proof fn lemma_last_with_id(fresh: Seq<VideoDetails>, id: Seq<char>)
    ensures
        last_with_id(fresh, id) matches Some(w) ==> w.id@ == id,
    decreases fresh.len(),
{
    if fresh.len() > 0 {
        lemma_last_with_id(fresh.drop_last(), id);
    }
}

/// The same IDs at the same places give the same first positions.
proof fn lemma_index_same_ids(a: Seq<VideoDetails>, b: Seq<VideoDetails>, id: Seq<char>)
    requires
        a.len() == b.len(),
        forall|i: int| 0 <= i < a.len() ==> (#[trigger] a[i]).id@ == b[i].id@,
    ensures
        index_of_id(a, id) == index_of_id(b, id),
    decreases a.len(),
{
    if a.len() > 0 {
        let (da, db) = (a.drop_last(), b.drop_last());
        assert forall|i: int| 0 <= i < da.len() implies (#[trigger] da[i]).id@ == db[i].id@ by {
            assert(da[i] == a[i]);
            assert(db[i] == b[i]);
        }
        lemma_index_same_ids(da, db, id);
        assert(a[a.len() - 1].id@ == b[b.len() - 1].id@);
    }
}

/// Merging entries whose IDs are all present only overwrites: the first
/// entry of each fresh ID becomes the last fresh entry with that ID.
proof fn lemma_merge_present(vs: Seq<VideoDetails>, fresh: Seq<VideoDetails>)
    requires
        forall|k: int| 0 <= k < fresh.len() ==> (#[trigger] index_of_id(vs, fresh[k].id@)) is Some,
    ensures
        merged(vs, fresh) == overwritten(vs, fresh),
    decreases fresh.len(),
{
    if fresh.len() == 0 {
        assert(overwritten(vs, fresh) =~= vs);
    } else {
        let f = fresh.drop_last();
        let v = fresh.last();
        assert forall|k: int| 0 <= k < f.len() implies (#[trigger] index_of_id(vs, f[k].id@)) is Some by {
            assert(f[k] == fresh[k]);
        }
        lemma_merge_present(vs, f);
        let y = overwritten(vs, f);
        assert forall|i: int| 0 <= i < vs.len() implies (#[trigger] y[i]).id@ == vs[i].id@ by {
            lemma_last_with_id(f, vs[i].id@);
        }
        lemma_index_same_ids(y, vs, v.id@);
        assert(index_of_id(vs, fresh[fresh.len() - 1].id@) is Some);
        let j = index_of_id(vs, v.id@)->Some_0;
        lemma_index_of_id_found(vs, v.id@);
        assert(merged(vs, fresh) == y.update(j, v));
        assert forall|i: int| 0 <= i < vs.len() implies #[trigger] y.update(j, v)[i] == overwritten(vs, fresh)[i] by {
            if i == j {
                assert(vs[i].id@ == v.id@);
            } else {
                if vs[i].id@ == v.id@ {
                    assert(index_of_id(vs, vs[i].id@) == Some(j));
                } else {
                    assert(last_with_id(fresh, vs[i].id@) == last_with_id(f, vs[i].id@));
                }
            }
        }
        assert(y.update(j, v) =~= overwritten(vs, fresh));
    }
}

/// After merging, the first entry with a fresh ID is the last fresh entry
/// with that ID.
proof fn lemma_merge_holds_last(existing: Seq<VideoDetails>, fresh: Seq<VideoDetails>, id: Seq<char>)
    ensures
        last_with_id(fresh, id) matches Some(w) ==> (index_of_id(merged(existing, fresh), id) matches Some(i)
            && merged(existing, fresh)[i] == w),
    decreases fresh.len(),
{
    if fresh.len() > 0 {
        let f = fresh.drop_last();
        let v = fresh.last();
        let y = merged(existing, f);
        if v.id@ == id {
            lemma_merge_one_ids(y, v);
        } else {
            lemma_merge_holds_last(existing, f, id);
            if last_with_id(f, id) is Some {
                let i = index_of_id(y, id)->Some_0;
                lemma_index_of_id_found(y, id);
                lemma_index_of_id_found(y, v.id@);
                match index_of_id(y, v.id@) {
                    Some(j) => {
                        lemma_index_update(y, j, v, id);
                    },
                    None => {
                        lemma_index_push(y, v, id);
                    },
                }
            }
        }
    }
}

/// Merging the same page twice changes nothing the second time.
pub proof fn lemma_merge_idempotent(existing: Seq<VideoDetails>, fresh: Seq<VideoDetails>)
    ensures
        merged(merged(existing, fresh), fresh) == merged(existing, fresh),
{
    let m = merged(existing, fresh);
    lemma_merge_includes_fresh(existing, fresh);
    lemma_merge_present(m, fresh);
    assert forall|i: int| 0 <= i < m.len() implies #[trigger] overwritten(m, fresh)[i] == m[i] by {
        if index_of_id(m, m[i].id@) == Some(i) && last_with_id(fresh, m[i].id@) is Some {
            lemma_merge_holds_last(existing, fresh, m[i].id@);
        }
    }
    assert(overwritten(m, fresh) =~= m);
}

} // verus!
