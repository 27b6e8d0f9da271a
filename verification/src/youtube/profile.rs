//! Profile names and the credential / token file names derived from them.

use vstd::prelude::*;
use crate::text::{chars_vec, concat2, concat3, views};

verus! {

/// Why a profile name was refused.
#[derive(Debug, Clone, Copy, PartialEq, Eq, Structural)]
pub enum ProfileNameError {
    /// The profile name is empty.
    Empty,
    /// The profile name holds a character outside `a-z`, `A-Z`, `0-9`.
    InvalidCharacter,
}

impl ProfileNameError {
    /// The human-readable message for this error.
    pub fn message(&self) -> (s: String)
        ensures
            *self == ProfileNameError::Empty ==> s@ == "Profile name cannot be empty"@,
            *self == ProfileNameError::InvalidCharacter ==> s@
                == "Profile name must contain only alphanumeric characters (a-z, A-Z, 0-9), no spaces or special characters"@,
    {
        match self {
            ProfileNameError::Empty => String::from_str("Profile name cannot be empty"),
            ProfileNameError::InvalidCharacter => String::from_str(
                "Profile name must contain only alphanumeric characters (a-z, A-Z, 0-9), no spaces or special characters",
            ),
        }
    }
}

/// An ASCII letter or digit.
pub open spec fn is_ascii_alnum(c: char) -> bool {
    ('a' <= c && c <= 'z') || ('A' <= c && c <= 'Z') || ('0' <= c && c <= '9')
}

/// A profile name is non-empty and made of ASCII letters and digits only.
pub open spec fn valid_profile_name(p: Seq<char>) -> bool {
    p.len() > 0 && forall|i: int| 0 <= i < p.len() ==> is_ascii_alnum(#[trigger] p[i])
}

fn char_is_ascii_alnum(c: char) -> (r: bool)
    ensures
        r == is_ascii_alnum(c),
{
    ('a' <= c && c <= 'z') || ('A' <= c && c <= 'Z') || ('0' <= c && c <= '9')
}

/// Validate a profile name: only ASCII alphanumeric characters are allowed.
pub fn validate_profile_name(profile: &str) -> (r: Result<(), ProfileNameError>)
    ensures
        r is Ok <==> valid_profile_name(profile@),
        r == Err::<(), _>(ProfileNameError::Empty) <==> profile@.len() == 0,
        r == Err::<(), _>(ProfileNameError::InvalidCharacter) <==> (profile@.len() > 0
            && exists|i: int| 0 <= i < profile@.len() && !is_ascii_alnum(#[trigger] profile@[i])),
{
    let n = profile.unicode_len();
    if n == 0 {
        return Err(ProfileNameError::Empty);
    }
    let mut i: usize = 0;
    while i < n
        invariant
            n == profile@.len(),
            i <= n,
            forall|j: int| 0 <= j < i ==> is_ascii_alnum(#[trigger] profile@[j]),
        decreases n - i,
    {
        let c = profile.get_char(i);
        if !char_is_ascii_alnum(c) {
            return Err(ProfileNameError::InvalidCharacter);
        }
        i = i + 1;
    }
    Ok(())
}

/// The client secrets file of a profile.
pub open spec fn credentials_file(profile: Seq<char>) -> Seq<char> {
    "client_secret-"@ + profile + ".json"@
}

/// The token file of a profile.
pub open spec fn token_file(profile: Seq<char>) -> Seq<char> {
    "youtube-oauth2-"@ + profile + ".json"@
}

/// The error that profile-name validation gives for a profile name.
pub open spec fn profile_error(p: Seq<char>) -> ProfileNameError {
    if p.len() == 0 {
        ProfileNameError::Empty
    } else {
        ProfileNameError::InvalidCharacter
    }
}

/// Get the credentials path for a profile: `client_secret-{profile}.json`.
/// Fails exactly when the profile name is invalid.
pub fn credentials_path_for_profile(profile: &str) -> (r: Result<String, ProfileNameError>)
    ensures
        r is Ok <==> valid_profile_name(profile@),
        r matches Ok(p) ==> p@ == credentials_file(profile@),
        r matches Err(e) ==> e == profile_error(profile@),
{
    match validate_profile_name(profile) {
        Ok(()) => Ok(concat3("client_secret-", profile, ".json")),
        Err(e) => Err(e),
    }
}

/// Get the token path for a profile: `youtube-oauth2-{profile}.json`.
/// Fails exactly when the profile name is invalid.
pub fn token_path_for_profile(profile: &str) -> (r: Result<String, ProfileNameError>)
    ensures
        r is Ok <==> valid_profile_name(profile@),
        r matches Ok(p) ==> p@ == token_file(profile@),
        r matches Err(e) ==> e == profile_error(profile@),
{
    match validate_profile_name(profile) {
        Ok(()) => Ok(concat3("youtube-oauth2-", profile, ".json")),
        Err(e) => Err(e),
    }
}

/// `a` comes strictly before `b` in lexicographic character order.
pub open spec fn seq_lt(a: Seq<char>, b: Seq<char>) -> bool
    decreases a.len(),
{
    if a.len() == 0 {
        b.len() > 0
    } else if b.len() == 0 {
        false
    } else if a[0] != b[0] {
        a[0] < b[0]
    } else {
        seq_lt(a.drop_first(), b.drop_first())
    }
}

/// `a` comes before `b` or equals it.
pub open spec fn seq_le(a: Seq<char>, b: Seq<char>) -> bool {
    a == b || seq_lt(a, b)
}

/// `s` is in lexicographic order.
pub open spec fn sorted_names(s: Seq<Seq<char>>) -> bool {
    forall|i: int, j: int| 0 <= i < j < s.len() ==> seq_le(s[i], s[j])
}

proof fn lemma_lt_total(a: Seq<char>, b: Seq<char>)
    ensures
        seq_lt(a, b) || a == b || seq_lt(b, a),
        !(seq_lt(a, b) && seq_lt(b, a)),
        !seq_lt(a, a),
    decreases a.len(),
{
    if a.len() > 0 && b.len() > 0 && a[0] == b[0] {
        lemma_lt_total(a.drop_first(), b.drop_first());
        if a.drop_first() == b.drop_first() {
            assert forall|i: int| 0 <= i < a.len() implies a[i] == b[i] by {
                if i > 0 {
                    assert(a[i] == a.drop_first()[i - 1]);
                    assert(b[i] == b.drop_first()[i - 1]);
                }
            }
            assert(a =~= b);
        }
    } else if a.len() == 0 && b.len() == 0 {
        assert(a =~= b);
    }
    if a.len() > 0 {
        lemma_lt_total(a.drop_first(), a.drop_first());
    }
}

proof fn lemma_lt_trans(a: Seq<char>, b: Seq<char>, c: Seq<char>)
    requires
        seq_lt(a, b),
        seq_lt(b, c),
    ensures
        seq_lt(a, c),
    decreases a.len(),
{
    if a.len() > 0 && b.len() > 0 && c.len() > 0 && a[0] == b[0] && b[0] == c[0] {
        lemma_lt_trans(a.drop_first(), b.drop_first(), c.drop_first());
    }
}

/// Lexicographic comparison of two strings given as characters.
fn chars_lt(a: &Vec<char>, b: &Vec<char>) -> (r: bool)
    ensures
        r == seq_lt(a@, b@),
{
    let mut i: usize = 0;
    proof {
        assert(a@.skip(0) =~= a@);
        assert(b@.skip(0) =~= b@);
    }
    while i < a.len() && i < b.len()
        invariant
            i <= a@.len(),
            i <= b@.len(),
            a@.take(i as int) == b@.take(i as int),
            seq_lt(a@, b@) == seq_lt(a@.skip(i as int), b@.skip(i as int)),
        decreases a@.len() - i,
    {
        if a[i] != b[i] {
            return a[i] < b[i];
        }
        proof {
            assert(a@.skip(i as int).drop_first() =~= a@.skip(i + 1));
            assert(b@.skip(i as int).drop_first() =~= b@.skip(i + 1));
            assert(a@.take(i + 1) =~= a@.take(i as int).push(a@[i as int]));
            assert(b@.take(i + 1) =~= b@.take(i as int).push(b@[i as int]));
        }
        i = i + 1;
    }
    i < b.len()
}

/// The strings of `v` in lexicographic order (a permutation of `v`).
pub fn sort_names(v: Vec<String>) -> (r: Vec<String>)
    ensures
        sorted_names(views(r@)),
        views(r@).to_multiset() == views(v@).to_multiset(),
{
    let mut r: Vec<String> = Vec::new();
    let mut i: usize = 0;
    proof {
        broadcast use vstd::seq_lib::group_seq_properties;
        assert(views(r@) =~= Seq::<Seq<char>>::empty());
        assert(views(v@.take(0)) =~= Seq::<Seq<char>>::empty());
    }
    while i < v.len()
        invariant
            i <= v@.len(),
            sorted_names(views(r@)),
            views(r@).to_multiset() == views(v@.take(i as int)).to_multiset(),
        decreases v@.len() - i,
    {
        let x = v[i].clone();
        let xc = chars_vec(x.as_str());
        let mut pos: usize = 0;
        while pos < r.len() && !chars_lt(&xc, &chars_vec(r[pos].as_str()))
            invariant
                pos <= r@.len(),
                xc@ == x@,
                forall|k: int| 0 <= k < pos ==> seq_le(#[trigger] r@[k]@, x@),
            decreases r@.len() - pos,
        {
            proof {
                lemma_lt_total(x@, r@[pos as int]@);
            }
            pos = pos + 1;
        }
        let ghost before = r@;
        r.insert(pos, x);
        proof {
            assert(views(r@) =~= views(before).insert(pos as int, x@));
            views(before).to_multiset_ensures();
            vstd::seq_lib::to_multiset_insert(views(before), pos as int, x@);
            assert(views(v@.take(i + 1)) =~= views(v@.take(i as int)).push(v@[i as int]@));
            vstd::seq_lib::to_multiset_build(views(v@.take(i as int)), v@[i as int]@);
            assert forall|a: int, b: int| 0 <= a < b < views(r@).len() implies seq_le(
                views(r@)[a],
                views(r@)[b],
            ) by {
                let s = views(r@);
                if a < pos && b == pos {
                } else if a == pos && b > pos {
                    let y = before[b - 1]@;
                    if pos < before.len() {
                        lemma_lt_total(x@, before[pos as int]@);
                        if before[pos as int]@ != y {
                            assert(views(before)[pos as int] == before[pos as int]@);
                            assert(views(before)[b - 1] == y);
                            assert(seq_le(views(before)[pos as int], views(before)[b - 1]));
                            lemma_lt_trans(x@, before[pos as int]@, y);
                        }
                    }
                } else if a < pos && b > pos {
                    assert(s[a] == before[a]@ && s[b] == before[b - 1]@);
                } else if a > pos {
                    assert(s[a] == before[a - 1]@ && s[b] == before[b - 1]@);
                } else {
                    assert(s[a] == before[a]@ && s[b] == before[b]@);
                }
            }
        }
        i = i + 1;
    }
    proof {
        assert(v@.take(v@.len() as int) =~= v@);
    }
    r
}

/// `p` is a prefix of `s`.
pub open spec fn starts_with(s: Seq<char>, p: Seq<char>) -> bool {
    p.len() <= s.len() && s.take(p.len() as int) == p
}

/// `p` is a suffix of `s`.
pub open spec fn ends_with(s: Seq<char>, p: Seq<char>) -> bool {
    p.len() <= s.len() && s.skip(s.len() - p.len()) == p
}

/// `s.starts_with(p)`.
pub fn str_starts_with(s: &str, p: &str) -> (r: bool)
    ensures
        r == starts_with(s@, p@),
{
    let sv = chars_vec(s);
    let pv = chars_vec(p);
    if pv.len() > sv.len() {
        return false;
    }
    let mut i: usize = 0;
    while i < pv.len()
        invariant
            sv@ == s@,
            pv@ == p@,
            pv@.len() <= sv@.len(),
            i <= pv@.len(),
            forall|j: int| 0 <= j < i ==> sv@[j] == pv@[j],
        decreases pv@.len() - i,
    {
        if sv[i] != pv[i] {
            proof {
                assert(sv@.take(pv@.len() as int)[i as int] != pv@[i as int]);
            }
            return false;
        }
        i = i + 1;
    }
    proof {
        assert(sv@.take(pv@.len() as int) =~= pv@);
    }
    true
}

/// `s.ends_with(p)`.
pub fn str_ends_with(s: &str, p: &str) -> (r: bool)
    ensures
        r == ends_with(s@, p@),
{
    let sv = chars_vec(s);
    let pv = chars_vec(p);
    if pv.len() > sv.len() {
        return false;
    }
    let off = sv.len() - pv.len();
    let mut i: usize = 0;
    while i < pv.len()
        invariant
            sv@ == s@,
            pv@ == p@,
            sv@.len() == sv.len(),
            pv@.len() <= sv@.len(),
            off == sv@.len() - pv@.len(),
            i <= pv@.len(),
            forall|j: int| 0 <= j < i ==> sv@[off + j] == pv@[j],
        decreases pv@.len() - i,
    {
        if sv[off + i] != pv[i] {
            proof {
                assert(sv@.skip(off as int)[i as int] != pv@[i as int]);
            }
            return false;
        }
        i = i + 1;
    }
    proof {
        assert(sv@.skip(off as int) =~= pv@);
    }
    true
}

/// A directory entry that may be the client secrets file of some profile.
pub open spec fn is_secret_candidate(name: Seq<char>) -> bool {
    starts_with(name, "client_secret-"@) && ends_with(name, ".json"@)
}

/// The paths (`./name`) of the candidate entries, in directory order.
pub open spec fn secret_candidates(names: Seq<Seq<char>>) -> Seq<Seq<char>>
    decreases names.len(),
{
    if names.len() == 0 {
        Seq::empty()
    } else {
        let rest = secret_candidates(names.drop_last());
        let n = names[names.len() - 1];
        if is_secret_candidate(n) {
            rest.push("./"@ + n)
        } else {
            rest
        }
    }
}

/// Why no client secrets file was chosen for a profile.
#[derive(Debug, Clone)]
pub enum ResolveError {
    /// The profile name is invalid.
    InvalidProfile(ProfileNameError),
    /// Neither the profile's file, nor `client_secret.json`, nor any other
    /// `client_secret-*.json` exists; `expected` is the profile's file.
    NotFound { expected: String },
    /// The profile's file is missing and several other candidates exist
    /// (listed in sorted order).
    Ambiguous { expected: String, candidates: Vec<String> },
}

/// Choose the client secrets file for a profile, in this order: the
/// profile's own `client_secret-{profile}.json`, then `client_secret.json`,
/// then the only `client_secret-*.json` among the names in the current
/// directory (`dir_names`, in directory order).
pub fn choose_client_secret(
    profile: &str,
    profile_file_exists: bool,
    default_file_exists: bool,
    dir_names: &Vec<String>,
) -> (r: Result<String, ResolveError>)
    ensures
        !valid_profile_name(profile@) ==> (r matches Err(ResolveError::InvalidProfile(e)) && e == profile_error(profile@)),
        valid_profile_name(profile@) && profile_file_exists ==> (r matches Ok(p) && p@ == credentials_file(profile@)),
        valid_profile_name(profile@) && !profile_file_exists && default_file_exists ==> (r matches Ok(p) && p@ == "client_secret.json"@),
        valid_profile_name(profile@) && !profile_file_exists && !default_file_exists ==> ({
            let c = secret_candidates(views(dir_names@));
            &&& c.len() == 0 ==> (r matches Err(ResolveError::NotFound { expected }) && expected@ == credentials_file(profile@))
            &&& c.len() == 1 ==> (r matches Ok(p) && p@ == c[0])
            &&& c.len() > 1 ==> (r matches Err(ResolveError::Ambiguous { expected, candidates })
                && expected@ == credentials_file(profile@)
                && sorted_names(views(candidates@))
                && views(candidates@).to_multiset() == c.to_multiset())
        }),
{
    let expected = match credentials_path_for_profile(profile) {
        Ok(p) => p,
        Err(e) => {
            return Err(ResolveError::InvalidProfile(e));
        },
    };
    if profile_file_exists {
        return Ok(expected);
    }
    if default_file_exists {
        return Ok("client_secret.json".to_owned());
    }
    let mut found: Vec<String> = Vec::new();
    let mut i: usize = 0;
    while i < dir_names.len()
        invariant
            i <= dir_names@.len(),
            views(found@) == secret_candidates(views(dir_names@.take(i as int))),
        decreases dir_names@.len() - i,
    {
        let name = dir_names[i].as_str();
        proof {
            assert(views(dir_names@.take(i + 1)) =~= views(dir_names@.take(i as int)).push(dir_names@[i as int]@));
            assert(views(dir_names@.take(i + 1)).drop_last() =~= views(dir_names@.take(i as int)));
        }
        if str_starts_with(name, "client_secret-") && str_ends_with(name, ".json") {
            let p = concat2("./", name);
            let ghost before = found@;
            found.push(p);
            proof {
                assert(views(found@) =~= views(before).push(p@));
            }
        }
        i = i + 1;
    }
    proof {
        assert(dir_names@.take(dir_names@.len() as int) =~= dir_names@);
    }
    if found.len() == 0 {
        Err(ResolveError::NotFound { expected })
    } else if found.len() == 1 {
        let p = found[0].clone();
        Ok(p)
    } else {
        let candidates = sort_names(found);
        Err(ResolveError::Ambiguous { expected, candidates })
    }
}

} // verus!
