//! The language tool: which public videos get their language metadata set.

use vstd::prelude::*;
use crate::text::{lowercase_of, opt_view, str_eq, to_lowercase};
use crate::youtube::VideoDetails;

verus! {

/// The default language that the tool sets.
pub const TARGET_LANGUAGE: &'static str = "zh";

/// The default audio language that the tool sets.
pub const TARGET_AUDIO_LANGUAGE: &'static str = "zh-Hans";

/// How a language that is not set is shown.
pub const NOT_SET: &'static str = "(not set)";

/// Whether a video's language metadata is to be updated: with `only_empty`,
/// when neither language is set; otherwise when either differs from the
/// target (a missing one counts as different).
pub open spec fn needs_update(
    default_language: Option<Seq<char>>,
    default_audio_language: Option<Seq<char>>,
    only_empty: bool,
) -> bool {
    if only_empty {
        default_language is None && default_audio_language is None
    } else {
        !(default_language == Some(TARGET_LANGUAGE@)) || !(default_audio_language == Some(TARGET_AUDIO_LANGUAGE@))
    }
}

/// Without `only_empty`, a video is updated exactly when its default language
/// is not `zh` or its default audio language is not `zh-Hans` (a missing
/// one counting as not set to the target); with `only_empty`, exactly when
/// neither language is set.
pub proof fn lemma_needs_update_targets(
    default_language: Option<Seq<char>>,
    default_audio_language: Option<Seq<char>>,
)
    ensures
        needs_update(default_language, default_audio_language, false) <==> (default_language != Some("zh"@)
            || default_audio_language != Some("zh-Hans"@)),
        needs_update(default_language, default_audio_language, true) <==> (default_language is None
            && default_audio_language is None),
{
}

/// Whether a video's language metadata is to be updated.
pub fn needs_language_update(video: &VideoDetails, only_empty: bool) -> (r: bool)
    ensures
        r == needs_update(opt_view(video.default_language), opt_view(video.default_audio_language), only_empty),
{
    if only_empty {
        video.default_language.is_none() && video.default_audio_language.is_none()
    } else {
        let lang_differs = match &video.default_language {
            Some(l) => !str_eq(l.as_str(), TARGET_LANGUAGE),
            None => true,
        };
        let audio_differs = match &video.default_audio_language {
            Some(l) => !str_eq(l.as_str(), TARGET_AUDIO_LANGUAGE),
            None => true,
        };
        lang_differs || audio_differs
    }
}

/// Whether a privacy status is `public`, ignoring case.
pub fn is_public(status: &str) -> (r: bool)
    ensures
        r == (lowercase_of(status@) == "public"@),
{
    let lower = to_lowercase(status);
    str_eq(lower.as_str(), "public")
}

/// Where a video stands for the language tool.
#[derive(Debug, Clone, Copy, PartialEq, Eq, Structural)]
pub enum LanguageCheck {
    /// Not public: left alone.
    NotPublic,
    /// Public, with the language metadata wanted.
    UpToDate,
    /// Public, and to be updated.
    NeedsUpdate,
}

/// Classify a video for the language tool.
pub fn language_check(video: &VideoDetails, only_empty: bool) -> (r: LanguageCheck)
    ensures
        lowercase_of(video.status@) != "public"@ ==> r == LanguageCheck::NotPublic,
        lowercase_of(video.status@) == "public"@ ==> (r == LanguageCheck::NeedsUpdate <==> needs_update(
            opt_view(video.default_language),
            opt_view(video.default_audio_language),
            only_empty,
        )),
        r != LanguageCheck::NotPublic ==> lowercase_of(video.status@) == "public"@,
{
    if !is_public(video.status.as_str()) {
        LanguageCheck::NotPublic
    } else if needs_language_update(video, only_empty) {
        LanguageCheck::NeedsUpdate
    } else {
        LanguageCheck::UpToDate
    }
}

/// A language as the tool shows it: the language, or `(not set)`.
pub fn shown_language(language: &Option<String>) -> (r: String)
    ensures
        r@ == match opt_view(*language) {
            Some(l) => l,
            None => NOT_SET@,
        },
{
    match language {
        Some(l) => l.clone(),
        None => NOT_SET.to_owned(),
    }
}

} // verus!
