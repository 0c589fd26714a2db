use entropy_engine::crypto::CryptoOutput;
use entropy_engine::models::PasswordConfig;

#[test]
fn password_correct_length() {
    // Bytes that all pass rejection sampling for the default charset (62 + 23 = 85 chars).
    let bytes: Vec<u8> = (0..200).collect();
    let config = PasswordConfig {
        length: 20,
        ..Default::default()
    };
    let pw = CryptoOutput::generate_password(&bytes, &config).unwrap();
    assert_eq!(pw.len(), 20);
}

#[test]
fn password_uses_only_charset() {
    let bytes: Vec<u8> = (0..200).collect();
    let config = PasswordConfig {
        length: 50,
        uppercase: false,
        lowercase: true,
        digits: false,
        symbols: false,
    };
    let pw = CryptoOutput::generate_password(&bytes, &config).unwrap();
    assert!(pw.chars().all(|c| c.is_ascii_lowercase()));
}

#[test]
fn aes_key_is_32_bytes() {
    let bytes = [0xAB; 32];
    let key = CryptoOutput::generate_aes256_key(&bytes).unwrap();
    assert_eq!(key.len(), 32);
}

#[test]
fn session_token_is_hex() {
    let token = CryptoOutput::generate_session_token(&[0xDE, 0xAD, 0xBE, 0xEF]);
    assert_eq!(token, "deadbeef");
}

#[test]
fn rejects_empty_charset() {
    let config = PasswordConfig {
        length: 10,
        uppercase: false,
        lowercase: false,
        digits: false,
        symbols: false,
    };
    assert!(CryptoOutput::generate_password(&[0; 100], &config).is_err());
}

#[test]
fn password_maps_bytes_through_charset_in_order() {
    // Lower-case only: 26 characters, sampling limit 234; byte b gives 'a' + b % 26.
    let bytes: Vec<u8> = vec![0, 1, 25, 26, 27, 233];
    let config = PasswordConfig {
        length: 6,
        uppercase: false,
        lowercase: true,
        digits: false,
        symbols: false,
    };
    let pw = CryptoOutput::generate_password(&bytes, &config).unwrap();
    assert_eq!(pw, "abzabz");
}

#[test]
fn password_skips_bytes_above_sampling_limit() {
    // 26 characters: bytes 234..=255 are rejected to avoid modulo bias.
    let bytes: Vec<u8> = vec![234, 255, 1, 240, 2];
    let config = PasswordConfig {
        length: 2,
        uppercase: false,
        lowercase: true,
        digits: false,
        symbols: false,
    };
    let pw = CryptoOutput::generate_password(&bytes, &config).unwrap();
    assert_eq!(pw, "bc");
}

#[test]
fn password_fails_when_bytes_run_out() {
    let bytes: Vec<u8> = vec![250; 64];
    let config = PasswordConfig {
        length: 4,
        uppercase: false,
        lowercase: true,
        digits: false,
        symbols: false,
    };
    assert!(CryptoOutput::generate_password(&bytes, &config).is_err());
}

#[test]
fn aes_key_needs_32_bytes() {
    assert!(CryptoOutput::generate_aes256_key(&[1u8; 31]).is_err());
    let key = CryptoOutput::generate_aes256_key(&[7u8; 40]).unwrap();
    assert_eq!(key, [7u8; 32]);
}

#[test]
fn to_hex_is_lower_case() {
    assert_eq!(CryptoOutput::to_hex(&[0x00, 0x0F, 0xA0, 0xFF]), "000fa0ff");
    assert_eq!(CryptoOutput::to_hex(&[]), "");
}
