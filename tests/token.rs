use challenge_scoring::token::{
    generate_device_token, generate_friend_invite_token, generate_invite_token, is_valid_token_format,
    TOKEN_LENGTH,
};

#[test]
fn test_generate_token_format() {
    let token = generate_device_token();
    assert!(token.starts_with("fd_"));
    assert_eq!(token.len(), 3 + TOKEN_LENGTH);
}

#[test]
fn test_generate_token_uniqueness() {
    let token1 = generate_device_token();
    let token2 = generate_device_token();
    assert_ne!(token1, token2);
}

#[test]
fn test_is_valid_token_format() {
    assert!(is_valid_token_format("fd_abcdefghijklmnopqrstuvwxyz123456"));
    assert!(!is_valid_token_format("abc"));
    assert!(!is_valid_token_format("fd_short"));
    assert!(!is_valid_token_format("xx_abcdefghijklmnopqrstuvwxyz123456"));
}

#[test]
fn generated_device_token_passes_format_check() {
    for _ in 0..20 {
        assert!(is_valid_token_format(&generate_device_token()));
    }
}

#[test]
fn token_with_symbol_is_rejected() {
    assert!(!is_valid_token_format("fd_abcdefghijklmnopqrstuvwxyz12345!"));
    assert!(!is_valid_token_format("fd_abcdefghijklmnopqrstuvwxyz1234567"));
}

#[test]
fn invite_tokens_have_their_shapes() {
    let t = generate_invite_token();
    assert!(t.starts_with("inv_"));
    assert_eq!(t.len(), 28);
    assert!(t[4..].chars().all(|c| c.is_ascii_digit() || c.is_ascii_lowercase()));
    let f = generate_friend_invite_token();
    assert!(f.starts_with("inv_"));
    assert_eq!(f.len(), 28);
    assert!(f[4..].chars().all(|c| c.is_ascii_alphanumeric()));
    assert_ne!(generate_invite_token(), generate_invite_token());
}
