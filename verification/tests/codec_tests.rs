use tray_env_menu::codec::{decode, encode, is_safe_id, DecodeError, EncodeError};

#[test]
fn round_trip_basic() {
    let token = encode("p1", "/proj/.env", "g1").unwrap();
    assert_eq!(token, "tray-config-p1:/proj/.env:g1");
    let triple = decode(&token).unwrap();
    assert_eq!(triple.project_id, "p1");
    assert_eq!(triple.env_file_path, "/proj/.env");
    assert_eq!(triple.group_id, "g1");
}

#[test]
fn round_trip_ambiguous_path() {
    // The path holds the delimiter (after the drive letter) and platform
    // separators; it must still round-trip exactly.
    let path = "C:\\proj\\a-b\\.env";
    let token = encode("p1", path, "g1").unwrap();
    let triple = decode(&token).unwrap();
    assert_eq!(triple.project_id, "p1");
    assert_eq!(triple.env_file_path, path);
    assert_eq!(triple.group_id, "g1");
}

#[test]
fn round_trip_path_with_many_delimiters() {
    let path = "a:b:c::d";
    let token = encode("x-1_Y", path, "z_9").unwrap();
    let triple = decode(&token).unwrap();
    assert_eq!(triple.project_id, "x-1_Y");
    assert_eq!(triple.env_file_path, path);
    assert_eq!(triple.group_id, "z_9");
}

#[test]
fn round_trip_empty_fields() {
    let token = encode("", "", "").unwrap();
    assert_eq!(token, "tray-config-::");
    let triple = decode(&token).unwrap();
    assert_eq!(triple.project_id, "");
    assert_eq!(triple.env_file_path, "");
    assert_eq!(triple.group_id, "");
}

#[test]
fn unsafe_project_id_rejected() {
    assert!(matches!(encode("p:1", "/x", "g1"), Err(EncodeError::UnsafeIdentifier)));
}

#[test]
fn unsafe_group_id_rejected() {
    assert!(matches!(encode("p1", "/x", "g 1"), Err(EncodeError::UnsafeIdentifier)));
    assert!(matches!(encode("p1", "/x", "g#"), Err(EncodeError::UnsafeIdentifier)));
}

#[test]
fn safe_id_accepts_dash_underscore_alphanumerics() {
    assert!(is_safe_id("aZ0-9_"));
    assert!(!is_safe_id("a:b"));
    assert!(!is_safe_id("a b"));
    assert!(!is_safe_id("päth"));
}

#[test]
fn header_token_is_not_a_target() {
    assert!(matches!(decode("label-project-p1"), Err(DecodeError::NotATargetToken)));
    assert!(matches!(decode("label-env-p1-.env"), Err(DecodeError::NotATargetToken)));
    assert!(matches!(decode("quit-app"), Err(DecodeError::NotATargetToken)));
    assert!(matches!(decode(""), Err(DecodeError::NotATargetToken)));
}

#[test]
fn encoded_token_is_never_not_a_target() {
    let token = encode("p1", "anything: even this", "g1").unwrap();
    assert!(!matches!(decode(&token), Err(DecodeError::NotATargetToken)));
}

#[test]
fn prefixed_token_without_three_fields_is_malformed() {
    assert!(matches!(decode("tray-config-"), Err(DecodeError::Malformed)));
    assert!(matches!(decode("tray-config-abc"), Err(DecodeError::Malformed)));
    assert!(matches!(decode("tray-config-a:b"), Err(DecodeError::Malformed)));
}
