use rust_yt_uploader::youtube::profile::{choose_client_secret, sort_names, ProfileNameError, ResolveError};
use rust_yt_uploader::{credentials_path_for_profile, token_path_for_profile, validate_profile_name};
use std::path::PathBuf;

#[test]
fn test_validate_profile_name_valid() {
    assert!(validate_profile_name("abc").is_ok());
    assert!(validate_profile_name("ABC").is_ok());
    assert!(validate_profile_name("123").is_ok());
    assert!(validate_profile_name("abc123").is_ok());
    assert!(validate_profile_name("ABC123").is_ok());
    assert!(validate_profile_name("a1B2c3").is_ok());
    assert!(validate_profile_name("profile1").is_ok());
    assert!(validate_profile_name("MyProfile").is_ok());
}

#[test]
fn test_validate_profile_name_invalid() {
    assert!(validate_profile_name("").is_err());
    assert!(validate_profile_name("my profile").is_err());
    assert!(validate_profile_name("my-profile").is_err());
    assert!(validate_profile_name("my_profile").is_err());
    assert!(validate_profile_name("my.profile").is_err());
    assert!(validate_profile_name("profile@1").is_err());
    assert!(validate_profile_name("profile#1").is_err());
    assert!(validate_profile_name("profile/1").is_err());
    assert!(validate_profile_name("profile\\1").is_err());
    assert!(validate_profile_name("プロファイル").is_err());
    assert!(validate_profile_name("配置文件").is_err());
}

#[test]
fn profile_name_errors_are_distinguished() {
    assert_eq!(validate_profile_name(""), Err(ProfileNameError::Empty));
    assert_eq!(validate_profile_name("a b"), Err(ProfileNameError::InvalidCharacter));
    assert_eq!(ProfileNameError::Empty.message(), "Profile name cannot be empty");
}

#[test]
fn test_token_path_for_profile() {
    let path = token_path_for_profile("work").unwrap();
    assert_eq!(PathBuf::from(path), PathBuf::from("youtube-oauth2-work.json"));

    let path = token_path_for_profile("Profile123").unwrap();
    assert_eq!(PathBuf::from(path), PathBuf::from("youtube-oauth2-Profile123.json"));

    assert!(token_path_for_profile("").is_err());
    assert!(token_path_for_profile("invalid-profile").is_err());
    assert!(token_path_for_profile("invalid profile").is_err());
}

#[test]
fn test_credentials_path_for_profile() {
    let path = credentials_path_for_profile("work").unwrap();
    assert_eq!(PathBuf::from(path), PathBuf::from("client_secret-work.json"));

    let path = credentials_path_for_profile("Profile123").unwrap();
    assert_eq!(PathBuf::from(path), PathBuf::from("client_secret-Profile123.json"));

    assert!(credentials_path_for_profile("").is_err());
    assert!(credentials_path_for_profile("invalid-profile").is_err());
    assert!(credentials_path_for_profile("invalid profile").is_err());
}

fn names(v: &[&str]) -> Vec<String> {
    v.iter().map(|s| s.to_string()).collect()
}

#[test]
fn client_secret_choice_order() {
    let dir = names(&["client_secret-b.json", "notes.txt", "client_secret-a.json"]);
    assert_eq!(choose_client_secret("work", true, true, &dir).unwrap(), "client_secret-work.json");
    assert_eq!(choose_client_secret("work", false, true, &dir).unwrap(), "client_secret.json");
    match choose_client_secret("work", false, false, &dir) {
        Err(ResolveError::Ambiguous { expected, candidates }) => {
            assert_eq!(expected, "client_secret-work.json");
            assert_eq!(candidates, names(&["./client_secret-a.json", "./client_secret-b.json"]));
        }
        other => panic!("unexpected: {:?}", other),
    }
    let one = names(&["client_secret-only.json", "x.json"]);
    assert_eq!(choose_client_secret("work", false, false, &one).unwrap(), "./client_secret-only.json");
    match choose_client_secret("work", false, false, &names(&["a.json"])) {
        Err(ResolveError::NotFound { expected }) => assert_eq!(expected, "client_secret-work.json"),
        other => panic!("unexpected: {:?}", other),
    }
    assert!(matches!(
        choose_client_secret("bad name", true, true, &dir),
        Err(ResolveError::InvalidProfile(ProfileNameError::InvalidCharacter))
    ));
}

#[test]
fn names_sort_like_strings() {
    let sorted = sort_names(names(&["b", "a", "ab", "B", ""]));
    assert_eq!(sorted, names(&["", "B", "a", "ab", "b"]));
}
