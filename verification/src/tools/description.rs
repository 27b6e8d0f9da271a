//! The description tools: appending content to descriptions without
//! repeating it, and overwriting descriptions with a check that YouTube
//! gives back what was written.

use vstd::prelude::*;
use crate::text::{
    all_ws, concat2, is_ws, lemma_replace_crlf_concat, lemma_replace_crlf_ws, lemma_trim_append_ws, lemma_trim_prepend_ws,
    replace_crlf, replace_crlf_str, trim, trim_str,
};

verus! {

/// How the work on one video ended.
#[derive(Debug, Clone, PartialEq, Eq)]
pub enum ToolOutcome {
    Success,
    Skipped(String),
    Failed(String),
}

/// A description as compared: line endings made `\n`, then trimmed.
pub open spec fn normalized(s: Seq<char>) -> Seq<char> {
    trim(replace_crlf(s))
}

/// Whitespace before or after a description (a trailing newline that
/// YouTube drops or adds, a `\r\n`, spaces) never changes how it compares.
pub proof fn lemma_normalize_ignores_surrounding_ws(s: Seq<char>, ws: Seq<char>)
    requires
        all_ws(ws),
    ensures
        normalized(s + ws) == normalized(s),
        normalized(ws + s) == normalized(s),
{
    // After: a `\r` ending `s` may join a `\n` starting `ws`.
    if s.len() > 0 && s.last() == '\r' && ws.len() > 0 && ws[0] == '\n' {
        let s0 = s.drop_last();
        let w0 = ws.skip(1);
        let cr = seq!['\r'];
        let crlf = seq!['\r', '\n'] + w0;
        assert(s + ws =~= s0 + crlf);
        assert(s =~= s0 + cr);
        assert(crlf[0] == '\r' && cr[0] == '\r');
        lemma_replace_crlf_concat(s0, crlf);
        lemma_replace_crlf_concat(s0, cr);
        assert(crlf.skip(2) =~= w0);
        assert(replace_crlf(crlf) =~= seq!['\n'] + replace_crlf(w0));
        assert(cr.skip(1) =~= Seq::<char>::empty());
        assert(replace_crlf(Seq::<char>::empty()) =~= Seq::<char>::empty());
        assert(replace_crlf(cr) =~= cr);
        assert(all_ws(w0)) by {
            assert forall|i: int| 0 <= i < w0.len() implies is_ws(#[trigger] w0[i]) by {
                assert(w0[i] == ws[i + 1]);
            }
        }
        lemma_replace_crlf_ws(w0);
        let tail = seq!['\n'] + replace_crlf(w0);
        assert(all_ws(tail)) by {
            assert forall|i: int| 0 <= i < tail.len() implies is_ws(#[trigger] tail[i]) by {
                if i > 0 {
                    assert(tail[i] == replace_crlf(w0)[i - 1]);
                }
            }
        }
        assert(all_ws(cr)) by {
            assert(is_ws(cr[0]));
        }
        lemma_trim_append_ws(replace_crlf(s0), tail);
        lemma_trim_append_ws(replace_crlf(s0), cr);
    } else {
        lemma_replace_crlf_concat(s, ws);
        lemma_replace_crlf_ws(ws);
        lemma_trim_append_ws(replace_crlf(s), replace_crlf(ws));
    }
    // Before: a `\r` ending `ws` may join a `\n` starting `s`.
    if ws.len() > 0 && ws.last() == '\r' && s.len() > 0 && s[0] == '\n' {
        let w0 = ws.drop_last();
        let s0 = s.skip(1);
        let crlf = seq!['\r', '\n'] + s0;
        assert(ws + s =~= w0 + crlf);
        assert(crlf[0] == '\r');
        lemma_replace_crlf_concat(w0, crlf);
        assert(crlf.skip(2) =~= s0);
        assert(s.skip(1) =~= s0);
        assert(replace_crlf(crlf) =~= seq!['\n'] + replace_crlf(s0));
        assert(replace_crlf(s) =~= seq!['\n'] + replace_crlf(s0));
        assert(all_ws(w0)) by {
            assert forall|i: int| 0 <= i < w0.len() implies is_ws(#[trigger] w0[i]) by {
                assert(w0[i] == ws[i]);
            }
        }
        lemma_replace_crlf_ws(w0);
        lemma_trim_prepend_ws(replace_crlf(w0), replace_crlf(s));
    } else {
        lemma_replace_crlf_concat(ws, s);
        lemma_replace_crlf_ws(ws);
        lemma_trim_prepend_ws(replace_crlf(ws), replace_crlf(s));
    }
}

/// Normalize a description for comparison.
pub fn normalize(s: &str) -> (r: String)
    ensures
        r@ == normalized(s@),
{
    let n = replace_crlf_str(s);
    trim_str(n.as_str())
}

/// Whether the live description already is the canonical content.
pub fn already_canonical(live: &str, content: &str) -> (r: bool)
    ensures
        r == (normalized(live@) == normalized(content@)),
{
    let a = normalize(live);
    let b = normalize(content);
    a == b
}

/// What happened last when appending to one video's description.
#[derive(Debug, PartialEq, Eq)]
pub enum AppendEvent {
    /// Nothing yet.
    Start,
    /// Whether the description already holds the content, or why that
    /// could not be told.
    Checked(Result<bool, String>),
    /// The outcome of the update.
    Updated(Result<(), String>),
}

/// What to do next when appending to one video's description.
#[derive(Debug, Clone, PartialEq, Eq)]
pub enum AppendAction {
    /// Check whether the description already holds the content.
    CheckDuplicate,
    /// Append the content.
    Update,
    /// Done.
    Finish(ToolOutcome),
}

/// Decide the next step of appending to one video's description.
pub fn append_step(force: bool, event: AppendEvent) -> (r: AppendAction)
    ensures
        event is Start && force ==> r == AppendAction::Update,
        event is Start && !force ==> r == AppendAction::CheckDuplicate,
        event == AppendEvent::Checked(Ok(true)) ==> (r matches AppendAction::Finish(ToolOutcome::Skipped(m))
            && m@ == "Content already exists in description"@),
        event == AppendEvent::Checked(Ok(false)) ==> r == AppendAction::Update,
        event matches AppendEvent::Checked(Err(e)) ==> (r matches AppendAction::Finish(ToolOutcome::Failed(m))
            && m@ == "Failed to check for duplicate: "@ + e@),
        event == AppendEvent::Updated(Ok(())) ==> r == AppendAction::Finish(ToolOutcome::Success),
        event matches AppendEvent::Updated(Err(e)) ==> (r matches AppendAction::Finish(ToolOutcome::Failed(m))
            && m@ == "Failed to update description: "@ + e@),
{
    match event {
        AppendEvent::Start => {
            if force {
                AppendAction::Update
            } else {
                AppendAction::CheckDuplicate
            }
        },
        AppendEvent::Checked(Ok(true)) => AppendAction::Finish(
            ToolOutcome::Skipped("Content already exists in description".to_owned()),
        ),
        AppendEvent::Checked(Ok(false)) => AppendAction::Update,
        AppendEvent::Checked(Err(e)) => AppendAction::Finish(
            ToolOutcome::Failed(concat2("Failed to check for duplicate: ", e.as_str())),
        ),
        AppendEvent::Updated(Ok(())) => AppendAction::Finish(ToolOutcome::Success),
        AppendEvent::Updated(Err(e)) => AppendAction::Finish(
            ToolOutcome::Failed(concat2("Failed to update description: ", e.as_str())),
        ),
    }
}

/// How many characters of each side a failed check shows.
pub const PREVIEW_CHARS: usize = 120;

/// The first `n` characters of `s` (all of it when shorter).
pub open spec fn first_chars(s: Seq<char>, n: nat) -> Seq<char> {
    if s.len() <= n {
        s
    } else {
        s.take(n as int)
    }
}

/// The first 120 characters of a description.
pub fn preview(s: &str) -> (r: String)
    ensures
        r@ == first_chars(s@, PREVIEW_CHARS as nat),
{
    let v = crate::text::chars_vec(s);
    if v.len() <= PREVIEW_CHARS {
        crate::text::string_from_chars(&v)
    } else {
        let r = crate::text::string_from_range(&v, 0, PREVIEW_CHARS);
        proof {
            assert(v@.subrange(0, PREVIEW_CHARS as int) =~= v@.take(PREVIEW_CHARS as int));
        }
        r
    }
}

/// Where a check that an overwritten description was taken stands: the
/// attempt to make next (from 1) and the last mismatch seen, normalized
/// (what came back, what was expected).
#[derive(Debug, Clone)]
pub struct VerifyProgress {
    pub attempt: usize,
    pub last_mismatch: Option<(String, String)>,
}

/// How a check ended.
#[derive(Debug, Clone, PartialEq, Eq)]
pub enum VerifyOutcome {
    /// The description came back as written, at this attempt.
    Verified { attempt: usize },
    /// Every attempt came back different; the last difference, cut short.
    Mismatch { got_preview: String, expected_preview: String },
    /// No attempt could fetch the description.
    Unfetched,
}

/// The check before its first attempt.
pub fn verify_start() -> (r: VerifyProgress)
    ensures
        r.attempt == 1,
        r.last_mismatch is None,
{
    VerifyProgress { attempt: 1, last_mismatch: None }
}

/// `o` is how a check ends once its attempts are used up: with the last
/// mismatch, cut short, or with nothing fetched.
pub open spec fn exhausted_as(progress: VerifyProgress, o: VerifyOutcome) -> bool {
    match progress.last_mismatch {
        Some((g, e)) => o matches VerifyOutcome::Mismatch { got_preview, expected_preview }
            && got_preview@ == first_chars(g@, PREVIEW_CHARS as nat)
            && expected_preview@ == first_chars(e@, PREVIEW_CHARS as nat),
        None => o == VerifyOutcome::Unfetched,
    }
}

/// The outcome once every attempt is used: the last mismatch, if any.
pub fn verify_exhausted(progress: &VerifyProgress) -> (r: VerifyOutcome)
    ensures
        exhausted_as(*progress, r),
{
    match &progress.last_mismatch {
        Some((g, e)) => VerifyOutcome::Mismatch { got_preview: preview(g.as_str()), expected_preview: preview(e.as_str()) },
        None => VerifyOutcome::Unfetched,
    }
}

/// Whether a check allowed `retries` attempts makes attempt `attempt`
/// (attempts count from 1; the last attempt a counter can hold is not made).
pub open spec fn verify_continues(attempt: nat, retries: nat) -> bool {
    1 <= attempt <= retries && attempt < usize::MAX
}

/// What a check does next.
#[derive(Debug, Clone, PartialEq, Eq)]
pub enum VerifyAction {
    /// Fetch the description for this attempt, after a pause when an
    /// earlier attempt did not verify.
    Fetch { attempt: usize, pause_first: bool },
    /// Stop: every allowed attempt was made without a match.
    Stop(VerifyOutcome),
}

/// The next step of a check allowed `retries` attempts: fetch for the
/// current attempt while attempts remain, else stop with the last mismatch.
pub fn verify_step(progress: &VerifyProgress, retries: usize) -> (r: VerifyAction)
    ensures
        verify_continues(progress.attempt as nat, retries as nat) ==> r == (VerifyAction::Fetch {
            attempt: progress.attempt,
            pause_first: progress.attempt > 1,
        }),
        !verify_continues(progress.attempt as nat, retries as nat) ==> (r matches VerifyAction::Stop(o)
            && exhausted_as(*progress, o)),
{
    if 1 <= progress.attempt && progress.attempt <= retries && progress.attempt < usize::MAX {
        VerifyAction::Fetch { attempt: progress.attempt, pause_first: progress.attempt > 1 }
    } else {
        VerifyAction::Stop(verify_exhausted(progress))
    }
}

/// Record what an attempt fetched (`None` when the fetch failed): a
/// description equal to the expected one after normalizing ends the check;
/// otherwise the check moves to the next attempt, remembering the mismatch.
pub fn verify_record(progress: VerifyProgress, fetched: Option<&str>, expected: &str) -> (r: Result<
    VerifyOutcome,
    VerifyProgress,
>)
    requires
        progress.attempt < usize::MAX,
    ensures
        match fetched {
            Some(got) => if normalized(got@) == normalized(expected@) {
                r == Ok::<VerifyOutcome, VerifyProgress>(VerifyOutcome::Verified { attempt: progress.attempt })
            } else {
                r matches Err(p) && p.attempt == progress.attempt + 1 && (p.last_mismatch matches Some((g, e))
                    && g@ == normalized(got@) && e@ == normalized(expected@))
            },
            None => r matches Err(p) && p.attempt == progress.attempt + 1 && (match progress.last_mismatch {
                Some((g0, e0)) => (p.last_mismatch matches Some((g, e)) && g@ == g0@ && e@ == e0@),
                None => p.last_mismatch is None,
            }),
        },
{
    match fetched {
        Some(got) => {
            let got_n = normalize(got);
            let expected_n = normalize(expected);
            if got_n == expected_n {
                Ok(VerifyOutcome::Verified { attempt: progress.attempt })
            } else {
                Err(VerifyProgress { attempt: progress.attempt + 1, last_mismatch: Some((got_n, expected_n)) })
            }
        },
        None => Err(VerifyProgress { attempt: progress.attempt + 1, last_mismatch: progress.last_mismatch }),
    }
}

/// The outcome of a check allowed `retries` attempts, when the attempts
/// fetch `fetches` in turn (`None` for a failed fetch; as many as are given).
pub open spec fn verify_run(attempt: nat, retries: nat, fetches: Seq<Option<Seq<char>>>, expected: Seq<char>) -> Option<nat>
    decreases retries + 1 - attempt,
{
    if attempt > retries || attempt == 0 || (attempt - 1) >= fetches.len() {
        None
    } else {
        match fetches[attempt - 1] {
            Some(got) => if normalized(got) == normalized(expected) {
                Some(attempt)
            } else {
                verify_run(attempt + 1, retries, fetches, expected)
            },
            None => verify_run(attempt + 1, retries, fetches, expected),
        }
    }
}

/// A check verifies at the first attempt whose description matches, and
/// never after its last allowed attempt.
pub proof fn lemma_verify_first_match(attempt: nat, retries: nat, fetches: Seq<Option<Seq<char>>>, expected: Seq<char>)
    requires
        attempt >= 1,
    ensures
        verify_run(attempt, retries, fetches, expected) matches Some(k) ==> (attempt <= k <= retries && k <= fetches.len()
            && (fetches[k - 1] matches Some(got) && normalized(got) == normalized(expected))
            && forall|j: int| attempt <= j < k ==> !(#[trigger] fetches[j - 1] matches Some(g) && normalized(g) == normalized(expected))),
    decreases retries + 1 - attempt,
{
    if !(attempt > retries || (attempt - 1) >= fetches.len()) {
        lemma_verify_first_match(attempt + 1, retries, fetches, expected);
    }
}

/// How many descriptions a check fetches from attempt `attempt` on, when
/// the fetches give `fetches` in turn: `verify_step` asks for a fetch while
/// `verify_continues` holds, and `verify_record` ends the check at the first
/// description that matches.
pub open spec fn verify_fetches(attempt: nat, retries: nat, fetches: Seq<Option<Seq<char>>>, expected: Seq<char>) -> nat
    decreases retries + 1 - attempt,
{
    if !verify_continues(attempt, retries) || attempt - 1 >= fetches.len() {
        0
    } else {
        match fetches[attempt - 1] {
            Some(got) => if normalized(got) == normalized(expected) {
                1
            } else {
                1 + verify_fetches(attempt + 1, retries, fetches, expected)
            },
            None => 1 + verify_fetches(attempt + 1, retries, fetches, expected),
        }
    }
}

proof fn lemma_verify_fetches_from(attempt: nat, retries: nat, fetches: Seq<Option<Seq<char>>>, expected: Seq<char>)
    requires
        1 <= attempt <= retries + 1,
        retries <= fetches.len(),
        retries < usize::MAX,
    ensures
        verify_run(attempt, retries, fetches, expected) matches Some(k)
            ==> verify_fetches(attempt, retries, fetches, expected) == k + 1 - attempt,
        verify_run(attempt, retries, fetches, expected) is None
            ==> verify_fetches(attempt, retries, fetches, expected) == retries + 1 - attempt,
    decreases retries + 1 - attempt,
{
    if attempt <= retries {
        lemma_verify_fetches_from(attempt + 1, retries, fetches, expected);
    }
}

/// A check allowed `retries` attempts, run from its start, fetches the
/// description exactly as many times as the attempt at which it verifies;
/// when no attempt verifies it fetches once per allowed attempt, so with no
/// attempts allowed it fetches nothing.
pub proof fn lemma_verify_fetch_count(retries: nat, fetches: Seq<Option<Seq<char>>>, expected: Seq<char>)
    requires
        retries <= fetches.len(),
        retries < usize::MAX,
    ensures
        verify_run(1, retries, fetches, expected) matches Some(k) ==> verify_fetches(1, retries, fetches, expected) == k,
        verify_run(1, retries, fetches, expected) is None ==> verify_fetches(1, retries, fetches, expected) == retries,
        retries == 0 ==> verify_run(1, retries, fetches, expected) is None && verify_fetches(1, retries, fetches, expected) == 0,
{
    lemma_verify_fetches_from(1, retries, fetches, expected);
}

} // verus!
