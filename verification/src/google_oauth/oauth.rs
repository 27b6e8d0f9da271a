//! The installed-app OAuth 2.0 flow with PKCE: its random parameters, the
//! authorization URL and token request bodies, how token responses become
//! credentials, and which way of authenticating is taken.

use vstd::prelude::*;
use vstd::utf8::encode_utf8;
use crate::google_oauth::credentials::{Credentials, scopes_cover, str_views, unix_now, valid_at};
use crate::text::{concat2, concat3, join, join_str, opt_view, str_eq, u64_to_decimal, decimal, views};
use crate::youtube::pair_views;

verus! {

/// An OAuth client of the "installed application" kind, as Google issues it.
#[derive(Debug, Clone)]
pub struct ClientSecret {
    pub installed: ClientSecretDetails,
}

/// The details of an installed-application OAuth client.
#[derive(Debug, Clone)]
pub struct ClientSecretDetails {
    pub client_id: String,
    pub project_id: String,
    pub auth_uri: String,
    pub token_uri: String,
    pub auth_provider_x509_cert_url: String,
    pub client_secret: String,
    pub redirect_uris: Vec<String>,
}

/// The characters allowed in a PKCE code verifier (RFC 7636).
pub const PKCE_CHARSET: &'static str = "ABCDEFGHIJKLMNOPQRSTUVWXYZabcdefghijklmnopqrstuvwxyz0123456789-._~";

/// The length of a code verifier (RFC 7636 allows 43 to 128).
pub const CODE_VERIFIER_LEN: usize = 128;

/// The length of the anti-forgery state.
pub const STATE_LEN: usize = 32;

/// `rand::rng()` and `RngExt::random_range(0..n)`: a random index below `n`.
/// Only the range is stated: the value is random.
#[verifier::external_body]
fn random_index(n: usize) -> (r: usize)
    requires
        n > 0,
    ensures
        r < n,
{
    rand::RngExt::random_range(&mut rand::rng(), 0..n)
}

/// `len` random characters of the PKCE character set.
fn random_pkce_string(len: usize) -> (r: String)
    ensures
        r@.len() == len,
        forall|i: int| 0 <= i < r@.len() ==> PKCE_CHARSET@.contains(#[trigger] r@[i]),
{
    proof {
        reveal_strlit("ABCDEFGHIJKLMNOPQRSTUVWXYZabcdefghijklmnopqrstuvwxyz0123456789-._~");
    }
    let n = PKCE_CHARSET.unicode_len();
    let mut r = String::new();
    let mut i: usize = 0;
    while i < len
        invariant
            i <= len,
            n == PKCE_CHARSET@.len(),
            n > 0,
            r@.len() == i,
            forall|k: int| 0 <= k < r@.len() ==> PKCE_CHARSET@.contains(#[trigger] r@[k]),
        decreases len - i,
    {
        let idx = random_index(n);
        let c = PKCE_CHARSET.get_char(idx);
        let ghost before = r@;
        crate::text::push_char(&mut r, c);
        proof {
            assert(PKCE_CHARSET@[idx as int] == c);
            assert forall|k: int| 0 <= k < r@.len() implies PKCE_CHARSET@.contains(#[trigger] r@[k]) by {
                if k < before.len() {
                    assert(r@[k] == before[k]);
                }
            }
        }
        i = i + 1;
    }
    r
}

/// What the SHA-256 digest of some bytes is.
pub uninterp spec fn sha256_of(data: Seq<u8>) -> Seq<u8>;

/// `sha2::Sha256::digest`: the SHA-256 digest of the bytes, 32 bytes long.
/// The contract names the digest; the hash function is not restated.
#[verifier::external_body]
fn sha256(data: &[u8]) -> (r: Vec<u8>)
    ensures
        r@ == sha256_of(data@),
        r@.len() == 32,
{
    <sha2::Sha256 as sha2::Digest>::digest(data).to_vec()
}

/// What the URL-safe, unpadded Base64 encoding of some bytes is.
pub uninterp spec fn base64_url_no_pad_of(data: Seq<u8>) -> Seq<char>;

/// `base64::engine::general_purpose::URL_SAFE_NO_PAD.encode`: URL-safe
/// Base64 without padding. The contract names the encoding; the alphabet
/// and grouping are not restated.
#[verifier::external_body]
fn base64_url_no_pad(data: &[u8]) -> (r: String)
    ensures
        r@ == base64_url_no_pad_of(data@),
{
    base64::Engine::encode(&base64::engine::general_purpose::URL_SAFE_NO_PAD, data)
}

/// The PKCE code challenge of a code verifier: the URL-safe, unpadded
/// Base64 form of the SHA-256 digest of its UTF-8 bytes (method `S256`).
pub open spec fn code_challenge_for(code_verifier: Seq<char>) -> Seq<char> {
    base64_url_no_pad_of(sha256_of(encode_utf8(code_verifier)))
}

/// Compute the PKCE code challenge of a code verifier.
pub fn code_challenge(code_verifier: &str) -> (r: String)
    ensures
        r@ == code_challenge_for(code_verifier@),
{
    let digest = sha256(code_verifier.as_bytes());
    base64_url_no_pad(digest.as_slice())
}

/// The PKCE parameters and the anti-forgery state of one authorization.
#[derive(Debug, Clone)]
pub struct OAuthFlow {
    code_verifier: String,
    code_challenge: String,
    state: String,
}

impl OAuthFlow {
    /// The code verifier.
    pub closed spec fn verifier_value(&self) -> Seq<char> {
        self.code_verifier@
    }

    /// The code challenge sent with the authorization request.
    pub closed spec fn challenge(&self) -> Seq<char> {
        self.code_challenge@
    }

    /// The anti-forgery state sent with the authorization request.
    pub closed spec fn state_value(&self) -> Seq<char> {
        self.state@
    }

    /// A flow with the given code verifier and state; the challenge is
    /// derived from the verifier.
    pub fn from_parts(code_verifier: &str, state: &str) -> (r: OAuthFlow)
        ensures
            r.verifier_value() == code_verifier@,
            r.challenge() == code_challenge_for(code_verifier@),
            r.state_value() == state@,
    {
        OAuthFlow {
            code_verifier: code_verifier.to_owned(),
            code_challenge: code_challenge(code_verifier),
            state: state.to_owned(),
        }
    }
}

impl Default for OAuthFlow {
    /// Fresh random parameters: a 128-character code verifier and a
    /// 32-character state, both over the PKCE character set, and the
    /// verifier's challenge.
    fn default() -> (r: OAuthFlow)
        ensures
            r.verifier_value().len() == CODE_VERIFIER_LEN,
            forall|i: int| 0 <= i < r.verifier_value().len() ==> PKCE_CHARSET@.contains(#[trigger] r.verifier_value()[i]),
            r.challenge() == code_challenge_for(r.verifier_value()),
            r.state_value().len() == STATE_LEN,
            forall|i: int| 0 <= i < r.state_value().len() ==> PKCE_CHARSET@.contains(#[trigger] r.state_value()[i]),
    {
        let code_verifier = random_pkce_string(CODE_VERIFIER_LEN);
        let state = random_pkce_string(STATE_LEN);
        OAuthFlow::from_parts(code_verifier.as_str(), state.as_str())
    }
}

/// A byte that form encoding leaves as it is: an ASCII letter or digit,
/// `-`, `.`, `_` or `~`.
pub open spec fn unreserved(b: u8) -> bool {
    (48 <= b <= 57) || (65 <= b <= 90) || (97 <= b <= 122) || b == 45 || b == 46 || b == 95 || b == 126
}

/// An uppercase hexadecimal digit.
pub open spec fn hex_digit(d: u8) -> char {
    if d < 10 {
        ((48 + d) as u8) as char
    } else {
        ((55 + d) as u8) as char
    }
}

/// Percent-encoding of bytes: every byte but the unreserved ones becomes
/// `%` and two uppercase hexadecimal digits.
pub open spec fn percent_encoded(bytes: Seq<u8>) -> Seq<char>
    decreases bytes.len(),
{
    if bytes.len() == 0 {
        Seq::empty()
    } else {
        let b = bytes.last();
        percent_encoded(bytes.drop_last()) + if unreserved(b) {
            seq![b as char]
        } else {
            seq!['%', hex_digit(b / 16), hex_digit(b % 16)]
        }
    }
}

/// `urlencoding::encode`: percent-encodes every byte of the UTF-8 form of
/// `s` except ASCII letters, digits, `-`, `_`, `.` and `~`, with uppercase
/// hexadecimal digits.
#[verifier::external_body]
fn url_encode(s: &str) -> (r: String)
    ensures
        r@ == percent_encoded(encode_utf8(s@)),
{
    urlencoding::encode(s).into_owned()
}

/// One field of a form body: the key as is, `=`, the encoded value.
pub open spec fn form_field(key: Seq<char>, value: Seq<char>) -> Seq<char> {
    key + "="@ + percent_encoded(encode_utf8(value))
}

/// A form body (`application/x-www-form-urlencoded`): the fields joined by `&`.
pub open spec fn form_encoded(pairs: Seq<(Seq<char>, Seq<char>)>) -> Seq<char> {
    join(pairs.map_values(|p: (Seq<char>, Seq<char>)| form_field(p.0, p.1)), "&"@)
}

/// Build a form body from key-value pairs; only the values are encoded.
pub fn form_body(pairs: &Vec<(String, String)>) -> (r: String)
    ensures
        r@ == form_encoded(pair_views(pairs@)),
{
    let mut fields: Vec<String> = Vec::new();
    let mut i: usize = 0;
    while i < pairs.len()
        invariant
            i <= pairs@.len(),
            views(fields@) == pair_views(pairs@).take(i as int).map_values(
                |p: (Seq<char>, Seq<char>)| form_field(p.0, p.1),
            ),
        decreases pairs@.len() - i,
    {
        let encoded = url_encode(pairs[i].1.as_str());
        let field = concat3(pairs[i].0.as_str(), "=", encoded.as_str());
        let ghost before = fields@;
        fields.push(field);
        proof {
            assert(views(fields@) =~= views(before).push(field@));
            assert(pair_views(pairs@).take(i + 1) =~= pair_views(pairs@).take(i as int).push(
                (pairs@[i as int].0@, pairs@[i as int].1@),
            ));
            assert(pair_views(pairs@).take(i + 1).map_values(|p: (Seq<char>, Seq<char>)| form_field(p.0, p.1))
                =~= pair_views(pairs@).take(i as int).map_values(|p: (Seq<char>, Seq<char>)| form_field(p.0, p.1)).push(
                form_field(pairs@[i as int].0@, pairs@[i as int].1@),
            ));
        }
        i = i + 1;
    }
    proof {
        assert(pair_views(pairs@).take(pairs@.len() as int) =~= pair_views(pairs@));
    }
    join_str(&fields, "&")
}

/// The query of the authorization URL.
pub open spec fn auth_query(
    client_id: Seq<char>,
    redirect_uri: Seq<char>,
    scopes: Seq<Seq<char>>,
    state: Seq<char>,
    challenge: Seq<char>,
) -> Seq<(Seq<char>, Seq<char>)> {
    seq![
        ("client_id"@, client_id),
        ("redirect_uri"@, redirect_uri),
        ("response_type"@, "code"@),
        ("scope"@, join(scopes, " "@)),
        ("access_type"@, "offline"@),
        ("state"@, state),
        ("code_challenge"@, challenge),
        ("code_challenge_method"@, "S256"@),
    ]
}

/// The body of the request that exchanges an authorization code.
pub open spec fn exchange_query(
    client_id: Seq<char>,
    client_secret: Seq<char>,
    code: Seq<char>,
    redirect_uri: Seq<char>,
    verifier: Seq<char>,
) -> Seq<(Seq<char>, Seq<char>)> {
    seq![
        ("client_id"@, client_id),
        ("client_secret"@, client_secret),
        ("code"@, code),
        ("grant_type"@, "authorization_code"@),
        ("redirect_uri"@, redirect_uri),
        ("code_verifier"@, verifier),
    ]
}

/// The body of the request that refreshes an access token.
pub open spec fn refresh_query(client_id: Seq<char>, client_secret: Seq<char>, refresh_token: Seq<char>) -> Seq<
    (Seq<char>, Seq<char>),
> {
    seq![
        ("client_id"@, client_id),
        ("client_secret"@, client_secret),
        ("refresh_token"@, refresh_token),
        ("grant_type"@, "refresh_token"@),
    ]
}

/// Owned copies of string slices.
fn owned_all(v: &[&str]) -> (r: Vec<String>)
    ensures
        views(r@) == str_views(v@),
{
    let mut r: Vec<String> = Vec::new();
    let mut i: usize = 0;
    while i < v.len()
        invariant
            i <= v@.len(),
            views(r@) == str_views(v@).take(i as int),
        decreases v@.len() - i,
    {
        let ghost before = r@;
        r.push(v[i].to_owned());
        proof {
            assert(views(r@) =~= views(before).push(v@[i as int]@));
            assert(str_views(v@).take(i + 1) =~= str_views(v@).take(i as int).push(v@[i as int]@));
        }
        i = i + 1;
    }
    proof {
        assert(str_views(v@).take(v@.len() as int) =~= str_views(v@));
    }
    r
}

/// A pair of owned strings.
fn pair(k: &str, v: &str) -> (r: (String, String))
    ensures
        r.0@ == k@,
        r.1@ == v@,
{
    (k.to_owned(), v.to_owned())
}

impl OAuthFlow {
    /// Build the authorization URL: the client's authorization endpoint, `?`,
    /// and the form-encoded request for an authorization code with offline
    /// access, the scopes joined by spaces, this flow's state and challenge.
    pub fn build_auth_uri(&self, app_secret: &ClientSecretDetails, scopes: &[&str], redirect_uri: &str) -> (r: String)
        ensures
            r@ == app_secret.auth_uri@ + "?"@ + form_encoded(
                auth_query(app_secret.client_id@, redirect_uri@, str_views(scopes@), self.state_value(), self.challenge()),
            ),
    {
        let scope_list = owned_all(scopes);
        let scopes_str = join_str(&scope_list, " ");
        let mut pairs: Vec<(String, String)> = Vec::new();
        pairs.push(pair("client_id", app_secret.client_id.as_str()));
        pairs.push(pair("redirect_uri", redirect_uri));
        pairs.push(pair("response_type", "code"));
        pairs.push(pair("scope", scopes_str.as_str()));
        pairs.push(pair("access_type", "offline"));
        pairs.push(pair("state", self.state.as_str()));
        pairs.push(pair("code_challenge", self.code_challenge.as_str()));
        pairs.push(pair("code_challenge_method", "S256"));
        proof {
            assert(pair_views(pairs@) =~= auth_query(
                app_secret.client_id@,
                redirect_uri@,
                str_views(scopes@),
                self.state_value(),
                self.challenge(),
            ));
        }
        let query = form_body(&pairs);
        concat3(app_secret.auth_uri.as_str(), "?", query.as_str())
    }

    /// The body of the request that exchanges an authorization code for
    /// tokens, proving possession of this flow's code verifier.
    pub fn exchange_body(&self, app_secret: &ClientSecretDetails, auth_code: &str, redirect_uri: &str) -> (r: String)
        ensures
            r@ == form_encoded(exchange_query(
                app_secret.client_id@,
                app_secret.client_secret@,
                auth_code@,
                redirect_uri@,
                self.verifier_value(),
            )),
    {
        let mut pairs: Vec<(String, String)> = Vec::new();
        pairs.push(pair("client_id", app_secret.client_id.as_str()));
        pairs.push(pair("client_secret", app_secret.client_secret.as_str()));
        pairs.push(pair("code", auth_code));
        pairs.push(pair("grant_type", "authorization_code"));
        pairs.push(pair("redirect_uri", redirect_uri));
        pairs.push(pair("code_verifier", self.code_verifier.as_str()));
        proof {
            assert(pair_views(pairs@) =~= exchange_query(
                app_secret.client_id@,
                app_secret.client_secret@,
                auth_code@,
                redirect_uri@,
                self.verifier_value(),
            ));
        }
        form_body(&pairs)
    }
}

/// The body of the request that refreshes an access token.
pub fn refresh_body(app_secret: &ClientSecretDetails, refresh_token: &str) -> (r: String)
    ensures
        r@ == form_encoded(refresh_query(app_secret.client_id@, app_secret.client_secret@, refresh_token@)),
{
    let mut pairs: Vec<(String, String)> = Vec::new();
    pairs.push(pair("client_id", app_secret.client_id.as_str()));
    pairs.push(pair("client_secret", app_secret.client_secret.as_str()));
    pairs.push(pair("refresh_token", refresh_token));
    pairs.push(pair("grant_type", "refresh_token"));
    proof {
        assert(pair_views(pairs@) =~= refresh_query(app_secret.client_id@, app_secret.client_secret@, refresh_token@));
    }
    form_body(&pairs)
}

/// The fields of a token endpoint response that the flow reads: a string
/// access token, an integer lifetime in seconds, and a string refresh token
/// (each `None` when missing or of another type).
#[derive(Debug, Clone)]
pub struct TokenFields {
    pub access_token: Option<String>,
    pub expires_in: Option<i64>,
    pub refresh_token: Option<String>,
}

/// How the tokens were granted.
#[derive(Debug, Clone)]
pub enum TokenGrant {
    /// For an authorization code: the response must hold a refresh token.
    AuthorizationCode,
    /// For this refresh token: it is kept when the response brings no new one.
    Refresh(String),
}

/// Why a token response does not give credentials.
#[derive(Debug, Clone, Copy, PartialEq, Eq, Structural)]
pub enum TokenError {
    MissingAccessToken,
    MissingExpiresIn,
    MissingRefreshToken,
    /// The expiry does not fit the clock's range.
    ExpiryOutOfRange,
}

impl TokenError {
    /// The human-readable message for this error.
    pub fn message(&self) -> (r: &'static str)
        ensures
            *self == TokenError::MissingAccessToken ==> r@ == "Missing access_token in response"@,
            *self == TokenError::MissingExpiresIn ==> r@ == "Missing expires_in in response"@,
            *self == TokenError::MissingRefreshToken ==> r@
                == "Missing refresh_token in response - ensure offline access is requested"@,
            *self == TokenError::ExpiryOutOfRange ==> r@ == "expires_in in response is out of range"@,
    {
        match self {
            TokenError::MissingAccessToken => "Missing access_token in response",
            TokenError::MissingExpiresIn => "Missing expires_in in response",
            TokenError::MissingRefreshToken => "Missing refresh_token in response - ensure offline access is requested",
            TokenError::ExpiryOutOfRange => "expires_in in response is out of range",
        }
    }
}

/// The outcome of a token response received at time `now`: the errors in
/// the order they are checked, then credentials for the requested scopes
/// expiring `expires_in` seconds after `now`.
pub open spec fn token_outcome_ok(
    grant: TokenGrant,
    fields: TokenFields,
    now: int,
    app_secret: ClientSecretDetails,
    scopes: Seq<Seq<char>>,
    c: Credentials,
) -> bool {
    &&& fields.access_token matches Some(a) && c.access_token@ == a@
    &&& fields.expires_in matches Some(e) && c.expires_at == now + e
    &&& opt_view(c.refresh_token) == match grant {
        TokenGrant::AuthorizationCode => opt_view(fields.refresh_token),
        TokenGrant::Refresh(old) => match fields.refresh_token {
            Some(n) => Some(n@),
            None => Some(old@),
        },
    }
    &&& c.token_uri@ == app_secret.token_uri@
    &&& views(c.scopes@) == scopes
}

/// Turn a token response received at time `now` into credentials.
pub fn credentials_at(
    grant: &TokenGrant,
    fields: &TokenFields,
    now: i64,
    app_secret: &ClientSecretDetails,
    scopes: &[&str],
) -> (r: Result<Credentials, TokenError>)
    ensures
        fields.access_token is None ==> r == Err::<Credentials, TokenError>(TokenError::MissingAccessToken),
        fields.access_token is Some ==> match fields.expires_in {
            None => r == Err::<Credentials, TokenError>(TokenError::MissingExpiresIn),
            Some(e) => if !(i64::MIN <= now + e <= i64::MAX) {
                r == Err::<Credentials, TokenError>(TokenError::ExpiryOutOfRange)
            } else if grant is AuthorizationCode && fields.refresh_token is None {
                r == Err::<Credentials, TokenError>(TokenError::MissingRefreshToken)
            } else {
                r matches Ok(c) && token_outcome_ok(*grant, *fields, now as int, *app_secret, str_views(scopes@), c)
            },
        },
{
    let access_token = match &fields.access_token {
        Some(a) => a.clone(),
        None => return Err(TokenError::MissingAccessToken),
    };
    let expires_in = match fields.expires_in {
        Some(e) => e,
        None => return Err(TokenError::MissingExpiresIn),
    };
    let expires_at = match now.checked_add(expires_in) {
        Some(t) => t,
        None => return Err(TokenError::ExpiryOutOfRange),
    };
    let refresh_token = match grant {
        TokenGrant::AuthorizationCode => match &fields.refresh_token {
            Some(t) => Some(t.clone()),
            None => return Err(TokenError::MissingRefreshToken),
        },
        TokenGrant::Refresh(old) => match &fields.refresh_token {
            Some(t) => Some(t.clone()),
            None => Some(old.clone()),
        },
    };
    Ok(Credentials {
        access_token,
        refresh_token,
        token_uri: app_secret.token_uri.clone(),
        scopes: owned_all(scopes),
        expires_at,
    })
}

/// Turn a token response received now into credentials (see
/// [`credentials_at`]); a clock outside the range of `i64` seconds after
/// the epoch counts as an expiry out of range.
pub fn credentials_from_response(
    grant: &TokenGrant,
    fields: &TokenFields,
    app_secret: &ClientSecretDetails,
    scopes: &[&str],
) -> (r: Result<Credentials, TokenError>)
    ensures
        r == Err::<Credentials, TokenError>(TokenError::MissingAccessToken) <==> fields.access_token is None,
        r == Err::<Credentials, TokenError>(TokenError::MissingExpiresIn) <==> (fields.access_token is Some
            && fields.expires_in is None),
        fields.access_token is Some && fields.expires_in is Some ==> (r is Ok
            || r == Err::<Credentials, TokenError>(TokenError::ExpiryOutOfRange)
            || (r == Err::<Credentials, TokenError>(TokenError::MissingRefreshToken)
                && grant is AuthorizationCode && fields.refresh_token is None)),
        r is Ok ==> !(grant is AuthorizationCode && fields.refresh_token is None),
        r matches Ok(c) ==> exists|now: int| now >= 0 && token_outcome_ok(*grant, *fields, now, *app_secret, str_views(scopes@), c),
{
    if fields.access_token.is_none() {
        return Err(TokenError::MissingAccessToken);
    }
    if fields.expires_in.is_none() {
        return Err(TokenError::MissingExpiresIn);
    }
    match unix_now() {
        Some(now) => credentials_at(grant, fields, now, app_secret, scopes),
        None => Err(TokenError::ExpiryOutOfRange),
    }
}

/// How to authenticate, given the credentials loaded from the token file.
#[derive(Debug, Clone, PartialEq, Eq)]
pub enum AuthStep {
    /// Reuse the stored credentials.
    UseExisting,
    /// Refresh the stored credentials with this refresh token.
    Refresh(String),
    /// Run the interactive flow.
    Interactive,
}

/// The choice at time `now`: stored credentials with every required scope
/// are reused while valid, refreshed when expired and refreshable; anything
/// else (no stored credentials, missing scopes, nothing to refresh with)
/// leads to the interactive flow.
pub open spec fn auth_step_spec(loaded: Option<Credentials>, scopes: Seq<Seq<char>>, now: int) -> AuthStep {
    match loaded {
        Some(c) => if !scopes_cover(views(c.scopes@), scopes) {
            AuthStep::Interactive
        } else if valid_at(c.expires_at, now) {
            AuthStep::UseExisting
        } else {
            match c.refresh_token {
                Some(t) => AuthStep::Refresh(t),
                None => AuthStep::Interactive,
            }
        },
        None => AuthStep::Interactive,
    }
}

/// Stored credentials that lack any required scope never stand in for a new
/// authorization: whatever the time, the interactive flow runs. Credentials
/// granted every required scope are reused while valid.
pub proof fn lemma_missing_scope_forces_interactive(c: Credentials, required: Seq<Seq<char>>, i: int, now: int)
    ensures
        0 <= i < required.len() && !views(c.scopes@).contains(required[i])
            ==> auth_step_spec(Some(c), required, now) == AuthStep::Interactive,
        (forall|j: int| 0 <= j < required.len() ==> views(c.scopes@).contains(#[trigger] required[j]))
            && valid_at(c.expires_at, now) ==> auth_step_spec(Some(c), required, now) == AuthStep::UseExisting,
{
    crate::google_oauth::credentials::lemma_scopes_cover_every_required(views(c.scopes@), required, i);
}

/// The stored credentials, if any, as a value.
pub open spec fn loaded_value(loaded: Option<&Credentials>) -> Option<Credentials> {
    match loaded {
        Some(c) => Some(*c),
        None => None,
    }
}

/// Decide how to authenticate at time `now`.
pub fn auth_step_at(loaded: Option<&Credentials>, scopes: &[&str], now: i64) -> (r: AuthStep)
    ensures
        r == auth_step_spec(loaded_value(loaded), str_views(scopes@), now as int),
        match r {
            AuthStep::Refresh(t) => match loaded {
                Some(c) => auth_step_spec(Some(*c), str_views(scopes@), now as int) matches AuthStep::Refresh(u) && u@ == t@,
                None => false,
            },
            _ => match loaded {
                Some(c) => r == auth_step_spec(Some(*c), str_views(scopes@), now as int),
                None => r == AuthStep::Interactive,
            },
        },
{
    match loaded {
        Some(c) => {
            if !c.has_scopes(scopes) {
                AuthStep::Interactive
            } else if c.is_valid_at(now) {
                AuthStep::UseExisting
            } else {
                match &c.refresh_token {
                    Some(t) => AuthStep::Refresh(t.clone()),
                    None => AuthStep::Interactive,
                }
            }
        },
        None => AuthStep::Interactive,
    }
}

/// Decide how to authenticate now (see [`auth_step_at`]); a clock outside
/// the range of `i64` seconds after the epoch counts as expired credentials.
pub fn auth_step(loaded: Option<&Credentials>, scopes: &[&str]) -> (r: AuthStep)
    ensures
        loaded is None ==> r == AuthStep::Interactive,
        loaded matches Some(c) && !scopes_cover(views(c.scopes@), str_views(scopes@)) ==> r == AuthStep::Interactive,
        r is UseExisting ==> (loaded matches Some(c) && scopes_cover(views(c.scopes@), str_views(scopes@))
            && exists|now: int| now >= 0 && valid_at(c.expires_at, now)),
        r matches AuthStep::Refresh(t) ==> (loaded matches Some(c) && scopes_cover(views(c.scopes@), str_views(scopes@))
            && opt_view(c.refresh_token) == Some(t@)),
        exists|now: int| now >= 0 && r == auth_step_spec(loaded_value(loaded), str_views(scopes@), now),
{
    match unix_now() {
        Some(now) => {
            let r = auth_step_at(loaded, scopes, now);
            proof {
                assert(now as int >= 0 && r == auth_step_spec(loaded_value(loaded), str_views(scopes@), now as int));
            }
            r
        },
        None => {
            match loaded {
                Some(c) => {
                    let ghost late: int = if c.expires_at - 600 >= 0 { c.expires_at - 600 } else { 0 };
                    proof {
                        assert(!valid_at(c.expires_at, late));
                    }
                    if !c.has_scopes(scopes) {
                        proof {
                            assert(AuthStep::Interactive == auth_step_spec(loaded_value(loaded), str_views(scopes@), 0));
                        }
                        AuthStep::Interactive
                    } else {
                        match &c.refresh_token {
                            Some(t) => {
                                let r = AuthStep::Refresh(t.clone());
                                proof {
                                    assert(late >= 0 && r == auth_step_spec(loaded_value(loaded), str_views(scopes@), late));
                                }
                                r
                            },
                            None => {
                                proof {
                                    assert(late >= 0 && AuthStep::Interactive == auth_step_spec(
                                        loaded_value(loaded),
                                        str_views(scopes@),
                                        late,
                                    ));
                                }
                                AuthStep::Interactive
                            },
                        }
                    }
                },
                None => {
                    proof {
                        assert(AuthStep::Interactive == auth_step_spec(loaded_value(loaded), str_views(scopes@), 0));
                    }
                    AuthStep::Interactive
                },
            }
        },
    }
}

/// The redirect URI of the local callback server on `port`.
pub fn redirect_uri_for(port: u16) -> (r: String)
    ensures
        r@ == "http://127.0.0.1:"@ + decimal(port as nat),
{
    let p = u64_to_decimal(port as u64);
    concat2("http://127.0.0.1:", p.as_str())
}

/// The part of an address after its last `:` (all of it when it has none).
pub open spec fn after_last_colon(s: Seq<char>) -> Seq<char>
    decreases s.len(),
{
    if s.len() == 0 {
        s
    } else if s.last() == ':' {
        Seq::empty()
    } else {
        after_last_colon(s.drop_last()).push(s.last())
    }
}

/// The value of a string of decimal digits.
pub open spec fn digits_value(s: Seq<char>) -> nat
    decreases s.len(),
{
    if s.len() == 0 {
        0
    } else {
        digits_value(s.drop_last()) * 10 + ((s.last() as u32) - 48) as nat
    }
}

/// Every character is an ASCII digit.
pub open spec fn all_digits(s: Seq<char>) -> bool {
    forall|i: int| 0 <= i < s.len() ==> '0' <= #[trigger] s[i] <= '9'
}

/// `str::parse::<u16>`: an optional `+`, then one or more ASCII digits whose
/// value fits 16 bits.
pub open spec fn parsed_u16(s: Seq<char>) -> Option<u16> {
    let d = if s.len() > 0 && s[0] == '+' { s.drop_first() } else { s };
    if d.len() > 0 && all_digits(d) && digits_value(d) <= 65535 {
        Some(digits_value(d) as u16)
    } else {
        None
    }
}

/// Adding a digit never lowers the value.
proof fn lemma_digits_value_grows(s: Seq<char>, k: int)
    requires
        0 <= k <= s.len(),
        all_digits(s),
    ensures
        digits_value(s.take(k)) <= digits_value(s),
    decreases s.len() - k,
{
    if k < s.len() {
        lemma_digits_value_grows(s, k + 1);
        assert(s.take(k + 1).drop_last() =~= s.take(k));
        assert(s.take(k + 1).last() == s[k]);
        assert('0' <= s[k] <= '9');
        assert(digits_value(s.take(k + 1)) == digits_value(s.take(k)) * 10 + ((s[k] as u32) - 48) as nat);
    } else {
        assert(s.take(k) =~= s);
    }
}

/// Parse a decimal 16-bit number as `str::parse::<u16>` does.
fn parse_u16(s: &Vec<char>, from: usize) -> (r: Option<u16>)
    requires
        from <= s@.len(),
    ensures
        r == parsed_u16(s@.skip(from as int)),
{
    let ghost t = s@.skip(from as int);
    let mut i = from;
    if i < s.len() && s[i] == '+' {
        i = i + 1;
    }
    let ghost d = s@.skip(i as int);
    proof {
        if from < s@.len() {
            assert(t[0] == s@[from as int]);
        }
        if t.len() > 0 && t[0] == '+' {
            assert(t.drop_first() =~= d);
        } else {
            assert(t =~= d);
        }
    }
    if i == s.len() {
        proof {
            assert(d.len() == 0);
        }
        return None;
    }
    let start = i;
    let mut value: u32 = 0;
    proof {
        assert(d.take(0) =~= Seq::<char>::empty());
    }
    while i < s.len()
        invariant
            start <= i <= s@.len(),
            start < s@.len(),
            t == s@.skip(from as int),
            d == s@.skip(start as int),
            value <= 65535,
            all_digits(d.take(i - start)),
            value == digits_value(d.take(i - start)),
            parsed_u16(t) == (if d.len() > 0 && all_digits(d) && digits_value(d) <= 65535 {
                Some(digits_value(d) as u16)
            } else {
                None
            }),
        decreases s@.len() - i,
    {
        let c = s[i];
        let ghost j = i - start;
        proof {
            assert(d[j] == c);
            assert(d.take(j + 1).drop_last() =~= d.take(j));
            assert(d.take(j + 1).last() == c);
        }
        if c < '0' || c > '9' {
            proof {
                assert(!('0' <= d[j] <= '9'));
                assert(!all_digits(d));
            }
            return None;
        }
        let digit = (c as u32) - 48;
        let next = value * 10 + digit;
        proof {
            assert(all_digits(d.take(j + 1))) by {
                assert forall|k: int| 0 <= k < j + 1 implies '0' <= #[trigger] d.take(j + 1)[k] <= '9' by {
                    if k < j {
                        assert(d.take(j + 1)[k] == d.take(j)[k]);
                    }
                }
            }
            assert(digits_value(d.take(j + 1)) == digits_value(d.take(j)) * 10 + ((c as u32) - 48) as nat);
        }
        if next > 65535 {
            proof {
                if all_digits(d) {
                    lemma_digits_value_grows(d, j + 1);
                }
            }
            return None;
        }
        value = next;
        i = i + 1;
    }
    proof {
        assert(d.take(i - start) =~= d);
    }
    Some(value as u16)
}

/// The port of a socket address written `host:port`: the part after the
/// last `:`, parsed as a 16-bit number.
pub fn port_from_address(address: &str) -> (r: Option<u16>)
    ensures
        r == parsed_u16(after_last_colon(address@)),
{
    let v = crate::text::chars_vec(address);
    let mut k = v.len();
    proof {
        assert(v@.take(k as int) =~= v@);
        assert(v@.skip(k as int) =~= Seq::<char>::empty());
        assert(after_last_colon(v@) + Seq::<char>::empty() =~= after_last_colon(v@));
    }
    while k > 0 && v[k - 1] != ':'
        invariant
            k <= v@.len(),
            v@ == address@,
            after_last_colon(address@) == after_last_colon(v@.take(k as int)) + v@.skip(k as int),
        decreases k,
    {
        proof {
            assert(v@.take(k as int).drop_last() =~= v@.take(k - 1));
            assert(v@.take(k as int).last() == v@[k - 1]);
            assert(v@.skip(k - 1) =~= seq![v@[k - 1]] + v@.skip(k as int));
        }
        k = k - 1;
    }
    proof {
        if k == 0 {
            assert(v@.take(0) =~= Seq::<char>::empty());
        } else {
            assert(v@.take(k as int).last() == ':');
        }
        assert(after_last_colon(address@) =~= v@.skip(k as int));
    }
    parse_u16(&v, k)
}

/// What the query pairs of a URL are: `None` when the URL does not parse.
pub uninterp spec fn query_pairs_of(url: Seq<char>) -> Option<Seq<(Seq<char>, Seq<char>)>>;

/// `url::Url::parse` and `Url::query_pairs`: the decoded key-value pairs of
/// the URL's query, in order. The contract names them; the URL standard
/// and form decoding are not restated.
#[verifier::external_body]
fn url_query_pairs(url: &str) -> (r: Option<Vec<(String, String)>>)
    ensures
        match r {
            Some(p) => query_pairs_of(url@) == Some(pair_views(p@)),
            None => query_pairs_of(url@) is None,
        },
{
    url::Url::parse(url).ok().map(|u| u.query_pairs().map(|(k, v)| (k.into_owned(), v.into_owned())).collect())
}

/// The value of the first pair with key `key`.
pub open spec fn first_value(pairs: Seq<(Seq<char>, Seq<char>)>, key: Seq<char>) -> Option<Seq<char>>
    decreases pairs.len(),
{
    if pairs.len() == 0 {
        None
    } else if pairs[0].0 == key {
        Some(pairs[0].1)
    } else {
        first_value(pairs.drop_first(), key)
    }
}

/// The authorization code in the path of the callback request: the first
/// `code` query parameter of `http://localhost` followed by the path.
pub open spec fn auth_code_in(path: Seq<char>) -> Option<Seq<char>> {
    match query_pairs_of("http://localhost"@ + path) {
        Some(pairs) => first_value(pairs, "code"@),
        None => None,
    }
}

/// Extract the authorization code from the path of the callback request.
pub fn auth_code_from_path(path: &str) -> (r: Option<String>)
    ensures
        opt_view(r) == auth_code_in(path@),
{
    let full = concat2("http://localhost", path);
    let pairs = match url_query_pairs(full.as_str()) {
        Some(p) => p,
        None => return None,
    };
    let ghost pv = pair_views(pairs@);
    let mut i: usize = 0;
    proof {
        assert(pv.skip(0) =~= pv);
    }
    while i < pairs.len()
        invariant
            i <= pairs@.len(),
            pv == pair_views(pairs@),
            query_pairs_of("http://localhost"@ + path@) == Some(pv),
            first_value(pv, "code"@) == first_value(pv.skip(i as int), "code"@),
        decreases pairs@.len() - i,
    {
        proof {
            assert(pv.skip(i as int)[0] == (pairs@[i as int].0@, pairs@[i as int].1@));
            assert(pv.skip(i as int).drop_first() =~= pv.skip(i + 1));
        }
        if str_eq(pairs[i].0.as_str(), "code") {
            return Some(pairs[i].1.clone());
        }
        i = i + 1;
    }
    proof {
        assert(pv.skip(i as int) =~= Seq::<(Seq<char>, Seq<char>)>::empty());
    }
    None
}

} // verus!
