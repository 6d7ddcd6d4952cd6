use quicksupport::config::{
    assemble_config, baked_str, build_config, direct_enabled, direct_port, generate_id,
    generate_password, get_id, get_password, load, parse_saved, password_from_draws, random_hex,
    render_identity, split_host_port, BakedSettings, BuiltConfig, DeviceConfig, FreshValues, CHARS,
    DEFAULT_RENDEZVOUS_SERVERS, DIRECT_PORT, RELAY_PORT, RENDEZVOUS_PORT,
};
use sodiumoxide::crypto::sign;

const NOTHING_BAKED: BakedSettings =
    BakedSettings { server: None, key: None, id: None, password: None, socks5: None };

fn fresh() -> FreshValues {
    let mut sk = vec![0xa5u8; 32];
    sk.extend(vec![0x0fu8; 32]);
    FreshValues {
        id: Some("123456789".to_string()),
        password: Some("abcd23".to_string()),
        salt: Some("00ff".to_string()),
        keys: Some((sk, vec![0x0f; 32])),
        uuid: Some("00112233-4455-4677-8899-aabbccddeeff".to_string()),
    }
}

fn identity_file() -> String {
    let mut text = "id=123456789\nsalt=00ff\nsk=".to_string();
    text.push_str(&"a5".repeat(32));
    text.push_str(&"0f".repeat(32));
    text.push_str("\npk=");
    text.push_str(&"0f".repeat(32));
    text.push_str("\nuuid=00112233-4455-4677-8899-aabbccddeeff\n");
    text
}

fn same_identity(a: &DeviceConfig, b: &DeviceConfig) -> bool {
    a.id == b.id
        && a.password_salt == b.password_salt
        && a.sign_sk == b.sign_sk
        && a.sign_pk == b.sign_pk
        && a.uuid == b.uuid
}

fn is_one_time_password(s: &str) -> bool {
    s.chars().count() == 6 && s.chars().all(|c| CHARS.contains(&c))
}

#[test]
fn host_and_port() {
    let split = |s: &str| split_host_port(s, 21116);
    assert_eq!(split("a:1"), ("a".to_string(), 1));
    assert_eq!(split("example.org"), ("example.org".to_string(), 21116));
    assert_eq!(split("example.org:443"), ("example.org".to_string(), 443));
    assert_eq!(split("a:b:7"), ("a:b".to_string(), 7));
    assert_eq!(split("a:"), ("a:".to_string(), 21116));
    assert_eq!(split("a:x"), ("a:x".to_string(), 21116));
    assert_eq!(split("a:65536"), ("a:65536".to_string(), 21116));
    assert_eq!(split("a:-1"), ("a:-1".to_string(), 21116));
    assert_eq!(split("a:+5"), ("a".to_string(), 5));
    assert_eq!(split(":9"), ("".to_string(), 9));
    assert_eq!(split(""), ("".to_string(), 21116));
    assert_eq!(split("a:0"), ("a".to_string(), 0));
}

#[test]
fn direct_access_switch() {
    assert!(direct_enabled(None));
    for on in ["", "  ", "Y", "y", "yes", "YES", "true", " TrUe ", "1", "\t1\n"] {
        assert!(direct_enabled(Some(on)), "{on:?}");
    }
    for off in ["N", "no", "0", "false", "on", "11", "y e s", "ye\u{17f}"] {
        assert!(!direct_enabled(Some(off)), "{off:?}");
    }
}

#[test]
fn direct_port_is_never_zero() {
    assert_eq!(DIRECT_PORT, 21118);
    assert_eq!(DIRECT_PORT, RELAY_PORT + 1);
    assert_eq!(RENDEZVOUS_PORT, 21116);
    assert_eq!(direct_port(None), 21118);
    assert_eq!(direct_port(Some("")), 21118);
    assert_eq!(direct_port(Some("0")), 21118);
    assert_eq!(direct_port(Some("000")), 21118);
    assert_eq!(direct_port(Some("70000")), 21118);
    assert_eq!(direct_port(Some("port")), 21118);
    assert_eq!(direct_port(Some(" 5000 ")), 5000);
    assert_eq!(direct_port(Some("65535")), 65535);
}

#[test]
fn empty_baked_value_counts_as_unset() {
    assert_eq!(baked_str(None), None);
    assert_eq!(baked_str(Some("")), None);
    assert_eq!(baked_str(Some(" ")), Some(" ".to_string()));
    assert_eq!(baked_str(Some("v")), Some("v".to_string()));
    let empty = BakedSettings {
        server: Some(""),
        key: Some(""),
        id: Some(""),
        password: Some(""),
        socks5: Some(""),
    };
    let a = assemble_config(&empty, None, fresh());
    let b = assemble_config(&NOTHING_BAKED, None, fresh());
    assert_eq!(a.persist, b.persist);
    assert!(same_identity(&a.config, &b.config));
    assert_eq!(a.config.password, b.config.password);
    assert_eq!(a.config.server, b.config.server);
    assert_eq!(a.config.licence_key, b.config.licence_key);
    assert_eq!(a.config.socks5, b.config.socks5);
}

#[test]
fn device_ids_have_nine_digits() {
    let mut seen = Vec::new();
    for _ in 0..200 {
        let id = generate_id();
        assert_eq!(id.len(), 9);
        assert!(id.chars().all(|c| c.is_ascii_digit()));
        assert_ne!(&id[..1], "0");
        seen.push(id);
    }
    seen.sort();
    seen.dedup();
    assert!(seen.len() > 150);
}

#[test]
fn passwords_are_drawn_from_their_alphabet() {
    assert_eq!(password_from_draws(&[]), "");
    assert_eq!(password_from_draws(&[0, 1, 7, 8, 18, 31]), "239akz");
    assert_eq!(password_from_draws(&[32, 33, 63, 64]), "23z2");
    assert_eq!(password_from_draws(&[usize::MAX]), "z");
    for c in ['0', '1', 'l', 'o'] {
        assert!(!CHARS.contains(&c));
    }
    let mut seen = Vec::new();
    for _ in 0..200 {
        let p = generate_password();
        assert!(is_one_time_password(&p), "{p}");
        seen.push(p);
    }
    seen.sort();
    seen.dedup();
    assert!(seen.len() > 150);
}

#[test]
fn random_hexadecimal_text() {
    assert_eq!(random_hex(0), "");
    for n in [1usize, 16, 40] {
        let s = random_hex(n);
        assert_eq!(s.len(), 2 * n);
        assert!(s.chars().all(|c| c.is_ascii_digit() || ('a'..='f').contains(&c)));
    }
    assert_ne!(random_hex(16), random_hex(16));
}

#[test]
fn identity_file_is_one_line_per_value() {
    assert_eq!(
        render_identity("1", "2", &[0x00, 0xab], &[0xff], "u"),
        "id=1\nsalt=2\nsk=00ab\npk=ff\nuuid=u\n"
    );
}

#[test]
fn identity_file_is_read_leniently() {
    let text = "# a comment\r\n id = 1 \nid=2\npassword=legacy\nsalt=a=b\nsk\n=x\nuuid= \nID=9\n";
    let saved = parse_saved(Some(text));
    assert_eq!(saved.id, "2");
    assert_eq!(saved.salt, "a=b");
    assert_eq!(saved.sk, "");
    assert_eq!(saved.pk, "");
    assert_eq!(saved.uuid, "");
    let none = parse_saved(None);
    assert!(none.id.is_empty() && none.salt.is_empty() && none.uuid.is_empty());
    assert_eq!(parse_saved(Some("id=1\nid=")).id, "");
}

#[test]
fn first_launch_keeps_what_was_drawn() {
    let BuiltConfig { config, persist } = assemble_config(&NOTHING_BAKED, None, fresh());
    assert_eq!(persist, identity_file());
    assert_eq!(config.id, "123456789");
    assert_eq!(config.password, "abcd23");
    assert_eq!(config.password_salt, "00ff");
    assert_eq!(config.server, "rs-ny.rustdesk.com");
    assert_eq!(config.server, DEFAULT_RENDEZVOUS_SERVERS[0]);
    assert_eq!(config.licence_key, "");
    assert_eq!(config.socks5, "");
    assert_eq!(config.sign_sk.len(), 64);
    assert_eq!(config.sign_pk, [0x0f; 32]);
    assert_eq!(
        config.uuid,
        [0, 0x11, 0x22, 0x33, 0x44, 0x55, 0x46, 0x77, 0x88, 0x99, 0xaa, 0xbb, 0xcc, 0xdd, 0xee, 0xff]
    );
    assert_eq!(get_id(&config), "123456789");
    assert_eq!(get_password(&config), "abcd23");
}

#[test]
fn baked_settings_win() {
    let baked = BakedSettings {
        server: Some("my.server:1"),
        key: Some("key"),
        id: Some("unattended"),
        password: Some("permanent"),
        socks5: Some("proxy"),
    };
    let file = identity_file();
    let none = FreshValues { id: None, password: None, salt: None, keys: None, uuid: None };
    let BuiltConfig { config, persist } = assemble_config(&baked, Some(&file), none);
    assert_eq!(config.server, "my.server:1");
    assert_eq!(config.licence_key, "key");
    assert_eq!(config.id, "unattended");
    assert_eq!(config.password, "permanent");
    assert_eq!(config.socks5, "proxy");
    assert_eq!(config.password_salt, "00ff");
    assert!(persist.starts_with("id=unattended\nsalt=00ff\n"));
    assert!(!persist.contains("permanent"));
}

#[test]
fn identity_survives_restart() {
    let first = build_config(&NOTHING_BAKED, None);
    let later = build_config(&NOTHING_BAKED, Some(&first.persist));
    assert!(same_identity(&first.config, &later.config));
    assert_eq!(first.persist, later.persist);
    assert_eq!(first.config.uuid.len(), 16);
    assert_eq!(first.config.password_salt.len(), 32);
    let windows = first.persist.replace('\n', "\r\n");
    let again = build_config(&NOTHING_BAKED, Some(&windows));
    assert!(same_identity(&first.config, &again.config));
    assert_eq!(again.persist, first.persist);
}

#[test]
fn a_baked_id_is_kept_by_a_later_launch_without_one() {
    let baked =
        BakedSettings { server: None, key: None, id: Some("unattended"), password: None, socks5: None };
    let first = build_config(&baked, None);
    let later = build_config(&NOTHING_BAKED, Some(&first.persist));
    assert_eq!(later.config.id, "unattended");
    assert_eq!(later.persist, first.persist);
}

#[test]
fn missing_values_count_as_empty() {
    let none = FreshValues { id: None, password: None, salt: None, keys: None, uuid: None };
    let built = assemble_config(&NOTHING_BAKED, None, none);
    assert_eq!(built.persist, "id=\nsalt=\nsk=\npk=\nuuid=\n");
    assert!(built.config.password.is_empty() && built.config.sign_sk.is_empty());
}

#[test]
fn password_is_neither_kept_nor_read_back() {
    let a = build_config(&NOTHING_BAKED, None);
    assert!(is_one_time_password(&a.config.password));
    assert!(!a.persist.contains("password"));
    let mut legacy = a.persist.clone();
    legacy.push_str("password=open-sesame\n");
    let b = build_config(&NOTHING_BAKED, Some(&legacy));
    assert!(is_one_time_password(&b.config.password));
    assert_eq!(b.persist, a.persist);
}

#[test]
fn drawn_keys_sign_and_verify() {
    let config = build_config(&NOTHING_BAKED, None).config;
    let sk = sign::SecretKey::from_slice(&config.sign_sk).unwrap();
    let pk = sign::PublicKey::from_slice(&config.sign_pk).unwrap();
    assert_eq!(sk.public_key(), pk);
    assert_eq!(&config.sign_sk[32..], &config.sign_pk[..]);
    assert_eq!(sign::verify(&sign::sign(b"m", &sk), &pk), Ok(b"m".to_vec()));
    let other = build_config(&NOTHING_BAKED, None).config;
    assert_ne!(config.sign_pk, other.sign_pk);
    assert_ne!(config.uuid, other.uuid);
}

#[test]
fn unusable_saved_keys_are_replaced() {
    let good = identity_file();
    let kept = build_config(&NOTHING_BAKED, Some(&good)).config;
    assert_eq!(kept.sign_pk, [0x0f; 32]);
    let upper = good.replace("a5", "A5");
    assert_eq!(build_config(&NOTHING_BAKED, Some(&upper)).config.sign_sk, kept.sign_sk);
    let bad = [
        good.replace("pk=0f", "pk="),
        good.replace("pk=0f", "pk=0"),
        good.replace("pk=0f", "pk=0g"),
        good.replace("sk=a5", "sk=a5a5"),
        good.replace("sk=", "key="),
    ];
    for text in bad {
        let built = build_config(&NOTHING_BAKED, Some(&text));
        assert_ne!(built.config.sign_sk, kept.sign_sk);
        assert_eq!(built.config.sign_sk.len(), 64);
        assert_eq!(built.config.sign_pk.len(), 32);
        assert_eq!(built.config.id, "123456789");
        assert_eq!(built.config.password_salt, "00ff");
    }
}

#[test]
fn uuid_forms() {
    let bytes = |uuid: &str| {
        let text = format!("id=1\nsalt=2\nuuid={uuid}\n");
        build_config(&NOTHING_BAKED, Some(&text)).config.uuid
    };
    let want: Vec<u8> = (0..16).map(|i| i * 0x11).collect();
    assert_eq!(bytes("00112233-4455-6677-8899-aabbccddeeff"), want);
    assert_eq!(bytes("00112233445566778899AABBCCDDEEFF"), want);
    assert_eq!(bytes("{00112233-4455-6677-8899-aabbccddeeff}"), want);
    assert_eq!(bytes("urn:uuid:00112233-4455-6677-8899-aabbccddeeff"), want);
    for wrong in ["x", "00112233-4455-6677-8899-aabbccddeef", "0011223344556677-8899-aabbccddeeff-00"] {
        assert!(bytes(wrong).is_empty(), "{wrong}");
    }
}

#[test]
fn configuration_is_built_once() {
    let mut slot = None;
    let persist = load(&mut slot, &NOTHING_BAKED, None).unwrap();
    let first = slot.clone().unwrap();
    assert_eq!(build_config(&NOTHING_BAKED, Some(&persist)).config.id, first.id);
    assert_eq!(load(&mut slot, &NOTHING_BAKED, Some(&identity_file())), None);
    let second = slot.unwrap();
    assert!(same_identity(&first, &second));
    assert_eq!(first.password, second.password);
}
