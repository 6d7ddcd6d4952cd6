use quicksupport::config::{assemble_config, build_config, BakedSettings, DeviceConfig, FreshValues};
use quicksupport::login::{
    alnum_from_draws, constant_eq, random_alnum, response_matches, verify_login, CHALLENGE_CHARS,
};
use sha2::{Digest, Sha256};

fn device(password: &'static str, salt: &str) -> DeviceConfig {
    let baked = BakedSettings {
        server: None,
        key: None,
        id: Some("1"),
        password: Some(password),
        socks5: None,
    };
    let fresh = FreshValues {
        id: None,
        password: None,
        salt: Some(salt.to_string()),
        keys: Some((vec![1; 64], vec![2; 32])),
        uuid: Some("x".to_string()),
    };
    assemble_config(&baked, None, fresh).config
}

fn sha256(a: &[u8], b: &[u8]) -> Vec<u8> {
    let mut all = a.to_vec();
    all.extend_from_slice(b);
    Sha256::digest(&all).to_vec()
}

#[test]
fn byte_strings_are_compared_whole() {
    assert!(constant_eq(&[], &[]));
    assert!(constant_eq(&[1, 2, 3], &[1, 2, 3]));
    assert!(!constant_eq(&[1, 2, 3], &[1, 2]));
    assert!(!constant_eq(&[1, 2, 3], &[1, 2, 4]));
    assert!(!constant_eq(&[0x80], &[0x00]));
    assert!(!constant_eq(&[1, 0], &[0, 1]));
}

#[test]
fn responses_must_match_and_not_be_empty() {
    assert!(response_matches(&[1, 2], &[1, 2]));
    assert!(!response_matches(&[1, 2], &[1, 3]));
    assert!(!response_matches(&[1, 2], &[]));
    assert!(!response_matches(&[], &[]));
}

#[test]
fn known_responses_are_accepted() {
    let cases = [
        ("abc", "", "", "4f8b42c22dd3729b519ba6f68d2da7cc5b2d606d05daed5ad5128cc03e6c6358"),
        ("hunter2", "00ff", "k3y9zz", "c245be1fe71f16ad88753043a6138d508f07ec599891368b581ad7d4f2a4205b"),
        (
            "p\u{e4}ssw\u{f6}rt",
            "a1",
            "000000",
            "24e9da1b41edee8516f79882638104feecc9132336b0a37fb753cdf943e4e9ee",
        ),
    ];
    for (password, salt, challenge, response) in cases {
        let config = device(password, "unused");
        let mut got = hex::decode(response).unwrap();
        assert!(verify_login(&config, salt, challenge, &got));
        assert!(!verify_login(&config, salt, "other", &got));
        assert!(!verify_login(&config, "other", challenge, &got));
        assert!(!verify_login(&device("other", "unused"), salt, challenge, &got));
        assert!(!verify_login(&config, salt, challenge, &got[..31]));
        assert!(!verify_login(&config, salt, challenge, &[]));
        got[0] ^= 1;
        assert!(!verify_login(&config, salt, challenge, &got));
    }
}

#[test]
fn remembered_password_validates_with_every_challenge() {
    let config = device("hunter2", "00ff");
    let remembered = sha256(b"hunter2", b"00ff");
    for challenge in ["abc123", "zzzzzz", ""] {
        let response = sha256(&remembered, challenge.as_bytes());
        assert!(verify_login(&config, &config.password_salt, challenge, &response));
    }
    assert!(!verify_login(&config, &config.password_salt, "abc123", &remembered));
}

#[test]
fn remembered_password_survives_restart() {
    let baked = BakedSettings {
        server: None,
        key: None,
        id: None,
        password: Some("hunter2"),
        socks5: None,
    };
    let first = build_config(&baked, None);
    let later = build_config(&baked, Some(&first.persist)).config;
    let remembered = sha256(b"hunter2", first.config.password_salt.as_bytes());
    let response = sha256(&remembered, b"q1w2e3");
    assert!(verify_login(&later, &later.password_salt, "q1w2e3", &response));
}

#[test]
fn challenges_are_digits_and_letters() {
    assert_eq!(alnum_from_draws(&[0, 9, 10, 35]), "09az");
    assert_eq!(alnum_from_draws(&[]), "");
    assert_eq!(random_alnum(0), "");
    for n in [1usize, CHALLENGE_CHARS, 50] {
        let s = random_alnum(n);
        assert_eq!(s.len(), n);
        assert!(s.chars().all(|c| c.is_ascii_digit() || c.is_ascii_lowercase()));
    }
    assert_ne!(random_alnum(30), random_alnum(30));
}
