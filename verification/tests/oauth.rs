use rust_yt_uploader::google_oauth::credentials::Credentials;
use rust_yt_uploader::google_oauth::google::{api_url, bearer_authorization};
use rust_yt_uploader::google_oauth::oauth::{
    auth_code_from_path, auth_step_at, code_challenge, credentials_at, form_body, port_from_address,
    redirect_uri_for, refresh_body, AuthStep, ClientSecretDetails, OAuthFlow, TokenError, TokenFields,
    TokenGrant, CODE_VERIFIER_LEN, PKCE_CHARSET, STATE_LEN,
};

fn code_from_request(request: &str) -> Option<String> {
    request
        .lines()
        .find(|line| line.starts_with("GET /?"))
        .and_then(|line| line.split_whitespace().nth(1).and_then(auth_code_from_path))
}

#[test]
fn test_extract_code_from_get_request() {
    let request = r#"GET /?state=IQ.Qd7z8NXE6Cy2wT&code=4/0ASc3gC3U0cJy3T5qlWBYKqRacVm&scope=https://www.googleapis.com/auth/youtube.upload%20https://www.googleapis.com/auth/youtube.readonly%20https://www.googleapis.com/auth/youtube HTTP/1.1
Host: 127.0.0.1:40345
User-Agent: Test"#;
    let auth_code = code_from_request(request);
    assert!(auth_code.is_some(), "Failed to extract authorization code");
    assert_eq!(auth_code.unwrap(), "4/0ASc3gC3U0cJy3T5qlWBYKqRacVm");
}

#[test]
fn test_extract_code_with_reordered_params() {
    let request = r#"GET /?code=test_code_123&state=IQ.Test HTTP/1.1"#;
    assert_eq!(code_from_request(request), Some("test_code_123".to_string()));
}

#[test]
fn test_extract_code_with_url_encoded_values() {
    let request = r#"GET /?code=4/0AS%20test&state=IQ.Test HTTP/1.1"#;
    assert_eq!(code_from_request(request), Some("4/0AS test".to_string()));
}

#[test]
fn auth_code_missing_or_first_taken() {
    assert_eq!(auth_code_from_path("/?state=x"), None);
    assert_eq!(auth_code_from_path("/?code=a&code=b"), Some("a".to_string()));
    assert_eq!(auth_code_from_path("/?code=a+b"), Some("a b".to_string()));
}

fn secret() -> ClientSecretDetails {
    ClientSecretDetails {
        client_id: "cid".to_string(),
        project_id: "proj".to_string(),
        auth_uri: "https://accounts.example/auth".to_string(),
        token_uri: "https://oauth.example/token".to_string(),
        auth_provider_x509_cert_url: "https://certs.example".to_string(),
        client_secret: "s&cret".to_string(),
        redirect_uris: vec!["http://localhost".to_string()],
    }
}

#[test]
fn form_body_encodes_values_only() {
    let pairs = vec![
        ("a".to_string(), "x y".to_string()),
        ("b".to_string(), "é&=".to_string()),
        ("c".to_string(), "AZaz09-._~".to_string()),
    ];
    assert_eq!(form_body(&pairs), "a=x%20y&b=%C3%A9%26%3D&c=AZaz09-._~");
    assert_eq!(form_body(&vec![]), "");
}

#[test]
fn code_challenge_is_s256() {
    let v = "abc-._~XYZ0123456789abcdefghijklmnopqrstuvwxyzABCDEFGHIJK";
    assert_eq!(code_challenge(v), "-yw6MVhlposNvr2LLgs2YDqeHkMDJyCHWbZAyt9raAs");
}

#[test]
fn auth_uri_holds_every_parameter() {
    let flow = OAuthFlow::from_parts("abc-._~XYZ0123456789abcdefghijklmnopqrstuvwxyzABCDEFGHIJK", "st4te");
    let uri = flow.build_auth_uri(&secret(), &["scope/one", "two"], "http://127.0.0.1:8080");
    assert_eq!(
        uri,
        "https://accounts.example/auth?client_id=cid&redirect_uri=http%3A%2F%2F127.0.0.1%3A8080\
&response_type=code&scope=scope%2Fone%20two&access_type=offline&state=st4te\
&code_challenge=-yw6MVhlposNvr2LLgs2YDqeHkMDJyCHWbZAyt9raAs&code_challenge_method=S256"
    );
    let body = flow.exchange_body(&secret(), "4/0A B", "http://127.0.0.1:8080");
    assert_eq!(
        body,
        "client_id=cid&client_secret=s%26cret&code=4%2F0A%20B&grant_type=authorization_code\
&redirect_uri=http%3A%2F%2F127.0.0.1%3A8080&code_verifier=abc-._~XYZ0123456789abcdefghijklmnopqrstuvwxyzABCDEFGHIJK"
    );
    assert_eq!(
        refresh_body(&secret(), "rt/1"),
        "client_id=cid&client_secret=s%26cret&refresh_token=rt%2F1&grant_type=refresh_token"
    );
}

#[test]
fn default_flow_has_fresh_pkce_parameters() {
    let a = OAuthFlow::default();
    let b = OAuthFlow::default();
    let ua = a.build_auth_uri(&secret(), &["s"], "r");
    let ub = b.build_auth_uri(&secret(), &["s"], "r");
    assert_ne!(ua, ub);
    let state = ua.split("state=").nth(1).unwrap().split('&').next().unwrap();
    assert_eq!(state.len(), STATE_LEN);
    assert!(state.chars().all(|c| PKCE_CHARSET.contains(c)));
    let body = a.exchange_body(&secret(), "c", "r");
    let verifier = body.split("code_verifier=").nth(1).unwrap();
    assert_eq!(verifier.len(), CODE_VERIFIER_LEN);
    let challenge = ua.split("code_challenge=").nth(1).unwrap().split('&').next().unwrap();
    assert_eq!(challenge, code_challenge(verifier));
}

#[test]
fn ports_are_parsed_like_u16() {
    assert_eq!(port_from_address("127.0.0.1:8080"), Some(8080));
    assert_eq!(port_from_address("[::1]:443"), Some(443));
    assert_eq!(port_from_address("127.0.0.1:65535"), Some(65535));
    assert_eq!(port_from_address("127.0.0.1:65536"), None);
    assert_eq!(port_from_address("127.0.0.1:+80"), Some(80));
    assert_eq!(port_from_address("127.0.0.1:"), None);
    assert_eq!(port_from_address("127.0.0.1:8a"), None);
    assert_eq!(port_from_address("1234"), Some(1234));
    assert_eq!(port_from_address("127.0.0.1:000000000080"), Some(80));
    assert_eq!(redirect_uri_for(40345), "http://127.0.0.1:40345");
}

fn creds(scopes: &[&str], expires_at: i64, refresh: Option<&str>) -> Credentials {
    Credentials {
        access_token: "at".to_string(),
        refresh_token: refresh.map(|s| s.to_string()),
        token_uri: "uri".to_string(),
        scopes: scopes.iter().map(|s| s.to_string()).collect(),
        expires_at,
    }
}

#[test]
fn credentials_validity_and_scopes() {
    let c = creds(&["a", "b"], 1_000, None);
    assert!(c.is_valid_at(399));
    assert!(!c.is_valid_at(400));
    assert!(c.has_scopes(&["b"]));
    assert!(c.has_scopes(&["a", "b", "a"]));
    assert!(c.has_scopes(&[]));
    assert!(!c.has_scopes(&["a", "c"]));
    assert!(!creds(&[], 0, None).is_valid());
    assert!(creds(&[], i64::MAX, None).is_valid());
}

#[test]
fn auth_step_choices() {
    let now = 1_000;
    assert_eq!(auth_step_at(None, &["a"], now), AuthStep::Interactive);
    let valid = creds(&["a"], now + 601, Some("r"));
    assert_eq!(auth_step_at(Some(&valid), &["a"], now), AuthStep::UseExisting);
    assert_eq!(auth_step_at(Some(&valid), &["a", "b"], now), AuthStep::Interactive);
    let expired = creds(&["a"], now + 600, Some("r"));
    assert_eq!(auth_step_at(Some(&expired), &["a"], now), AuthStep::Refresh("r".to_string()));
    let stuck = creds(&["a"], now, None);
    assert_eq!(auth_step_at(Some(&stuck), &["a"], now), AuthStep::Interactive);
}

#[test]
fn token_responses_become_credentials() {
    let fields = TokenFields {
        access_token: Some("new".to_string()),
        expires_in: Some(3599),
        refresh_token: None,
    };
    let grant = TokenGrant::Refresh("old".to_string());
    let c = credentials_at(&grant, &fields, 1_000, &secret(), &["s1", "s2"]).unwrap();
    assert_eq!(c.access_token, "new");
    assert_eq!(c.expires_at, 4_599);
    assert_eq!(c.refresh_token.as_deref(), Some("old"));
    assert_eq!(c.token_uri, "https://oauth.example/token");
    assert_eq!(c.scopes, vec!["s1".to_string(), "s2".to_string()]);

    let err = credentials_at(&TokenGrant::AuthorizationCode, &fields, 1_000, &secret(), &[]).unwrap_err();
    assert_eq!(err, TokenError::MissingRefreshToken);
    let with_refresh = TokenFields { refresh_token: Some("rt".to_string()), ..fields.clone() };
    let c = credentials_at(&TokenGrant::AuthorizationCode, &with_refresh, 0, &secret(), &[]).unwrap();
    assert_eq!(c.refresh_token.as_deref(), Some("rt"));
    let c = credentials_at(&grant, &with_refresh, 0, &secret(), &[]).unwrap();
    assert_eq!(c.refresh_token.as_deref(), Some("rt"));

    let no_access = TokenFields { access_token: None, ..fields.clone() };
    assert_eq!(credentials_at(&grant, &no_access, 0, &secret(), &[]).unwrap_err(), TokenError::MissingAccessToken);
    let no_expiry = TokenFields { expires_in: None, ..fields.clone() };
    assert_eq!(credentials_at(&grant, &no_expiry, 0, &secret(), &[]).unwrap_err(), TokenError::MissingExpiresIn);
    let huge = TokenFields { expires_in: Some(i64::MAX), ..fields.clone() };
    assert_eq!(credentials_at(&grant, &huge, 1, &secret(), &[]).unwrap_err(), TokenError::ExpiryOutOfRange);
}

#[test]
fn api_urls_and_headers() {
    assert_eq!(api_url("https://h/youtube/v3", "videos?id=1"), "https://h/youtube/v3/videos?id=1");
    assert_eq!(api_url("https://h/youtube/v3", "///videos"), "https://h/youtube/v3/videos");
    assert_eq!(api_url("b", ""), "b/");
    assert_eq!(bearer_authorization("tok"), "Bearer tok");
}
