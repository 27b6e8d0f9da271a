//! Stored OAuth credentials and the checks made before they are reused.

use vstd::prelude::*;

verus! {

/// OAuth credentials as stored in a token file.
#[derive(Debug, Clone)]
pub struct Credentials {
    pub access_token: String,
    pub refresh_token: Option<String>,
    pub token_uri: String,
    pub scopes: Vec<String>,
    /// Expiry, in seconds since the Unix epoch.
    pub expires_at: i64,
}

/// How long credentials must stay valid to be reused, in seconds.
pub const VALIDITY_MARGIN_SECS: i64 = 600;

/// Credentials expiring at `expires_at` are still good at time `now` when
/// more than ten minutes remain.
pub open spec fn valid_at(expires_at: i64, now: int) -> bool {
    expires_at > now + VALIDITY_MARGIN_SECS
}

/// Every required scope is among the granted ones.
pub open spec fn scopes_cover(granted: Seq<Seq<char>>, required: Seq<Seq<char>>) -> bool {
    forall|i: int| 0 <= i < required.len() ==> granted.contains(#[trigger] required[i])
}

/// Granted scopes cover the required ones exactly when every scope that is
/// required, at whatever position, is granted; one required scope missing,
/// wherever it stands, means they do not cover.
pub proof fn lemma_scopes_cover_every_required(granted: Seq<Seq<char>>, required: Seq<Seq<char>>, i: int)
    ensures
        scopes_cover(granted, required) <==> (forall|s: Seq<char>| required.contains(s) ==> granted.contains(s)),
        0 <= i < required.len() && !granted.contains(required[i]) ==> !scopes_cover(granted, required),
{
    if scopes_cover(granted, required) {
        assert forall|s: Seq<char>| required.contains(s) implies granted.contains(s) by {
            let j = choose|j: int| 0 <= j < required.len() && required[j] == s;
            assert(granted.contains(required[j]));
        }
    }
    if forall|s: Seq<char>| required.contains(s) ==> granted.contains(s) {
        assert forall|j: int| 0 <= j < required.len() implies granted.contains(#[trigger] required[j]) by {
            assert(required.contains(required[j]));
        }
    }
}

/// The views of a slice of string slices.
pub open spec fn str_views(v: Seq<&str>) -> Seq<Seq<char>> {
    v.map_values(|x: &str| x@)
}

/// `std::time::SystemTime::now` measured from `UNIX_EPOCH`, in whole
/// seconds; `None` when the clock is set before the epoch. Nothing is
/// stated of the value: it is the time.
#[verifier::external_body]
pub(crate) fn unix_time_secs() -> (r: Option<u64>) {
    std::time::SystemTime::now().duration_since(std::time::UNIX_EPOCH).ok().map(|d| d.as_secs())
}

/// The current time in seconds since the epoch, when it fits an `i64`.
pub(crate) fn unix_now() -> (r: Option<i64>)
    ensures
        r matches Some(t) ==> t >= 0,
{
    match unix_time_secs() {
        Some(s) => {
            if s <= 9223372036854775807u64 {
                Some(s as i64)
            } else {
                None
            }
        },
        None => None,
    }
}

impl Credentials {
    /// Whether the credentials are still good at time `now` (seconds since
    /// the epoch): more than ten minutes remain.
    pub fn is_valid_at(&self, now: i64) -> (r: bool)
        ensures
            r == valid_at(self.expires_at, now as int),
    {
        (self.expires_at as i128) > (now as i128) + 600
    }

    /// Whether the credentials are still good now: more than ten minutes
    /// remain. A clock set before the epoch counts as expired credentials.
    pub fn is_valid(&self) -> (r: bool)
        ensures
            r ==> exists|now: int| now >= 0 && valid_at(self.expires_at, now),
    {
        match unix_now() {
            Some(now) => self.is_valid_at(now),
            None => false,
        }
    }

    /// Whether the credentials were granted every required scope.
    pub fn has_scopes(&self, scopes: &[&str]) -> (r: bool)
        ensures
            r == scopes_cover(crate::text::views(self.scopes@), str_views(scopes@)),
    {
        let mut i: usize = 0;
        while i < scopes.len()
            invariant
                i <= scopes@.len(),
                forall|k: int| 0 <= k < i ==> crate::text::views(self.scopes@).contains(#[trigger] str_views(scopes@)[k]),
            decreases scopes@.len() - i,
        {
            let want = scopes[i];
            let mut j: usize = 0;
            let mut found = false;
            while j < self.scopes.len()
                invariant
                    j <= self.scopes@.len(),
                    !found ==> forall|k: int| 0 <= k < j ==> self.scopes@[k]@ != want@,
                    found ==> crate::text::views(self.scopes@).contains(want@),
                decreases self.scopes@.len() - j,
            {
                if crate::text::str_eq(self.scopes[j].as_str(), want) {
                    found = true;
                    proof {
                        assert(crate::text::views(self.scopes@)[j as int] == want@);
                    }
                }
                j = j + 1;
            }
            if !found {
                proof {
                    assert(str_views(scopes@)[i as int] == want@);
                    assert forall|k: int| 0 <= k < crate::text::views(self.scopes@).len() implies crate::text::views(self.scopes@)[k] != want@ by {
                        assert(crate::text::views(self.scopes@)[k] == self.scopes@[k]@);
                    }
                }
                return false;
            }
            proof {
                assert(str_views(scopes@)[i as int] == want@);
            }
            i = i + 1;
        }
        true
    }
}

} // verus!
