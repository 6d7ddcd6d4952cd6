use quicksupport::baking::{bake_env_config, bake_line, baked_value, BAKED_KEYS};

const KEY: &str = "RUSTDESK_SERVER";

#[test]
fn env_file_lines() {
    let value = |text: &str| baked_value(KEY, Some(text), None);
    assert_eq!(value("RUSTDESK_SERVER=a.b:1"), Some("a.b:1".to_string()));
    assert_eq!(value("  RUSTDESK_SERVER =  x y  \n"), Some("x y".to_string()));
    assert_eq!(value("RUSTDESK_SERVER=\"q\""), Some("q".to_string()));
    assert_eq!(value("RUSTDESK_SERVER='q'"), Some("q".to_string()));
    assert_eq!(value("RUSTDESK_SERVER=\"'q'\""), Some("q".to_string()));
    assert_eq!(value("RUSTDESK_SERVER='\"q\"'"), Some("\"q\"".to_string()));
    assert_eq!(value("RUSTDESK_SERVER=\"\"\"q\"\""), Some("q".to_string()));
    assert_eq!(value("RUSTDESK_SERVER=\"\"\""), Some(String::new()));
    assert_eq!(value("RUSTDESK_SERVER=\" q \""), Some(" q ".to_string()));
    assert_eq!(value("RUSTDESK_SERVER=a=b"), Some("a=b".to_string()));
    assert_eq!(value("RUSTDESK_SERVER="), Some(String::new()));
    assert_eq!(value("# RUSTDESK_SERVER=a"), None);
    assert_eq!(value("  #RUSTDESK_SERVER=a"), None);
    assert_eq!(value("RUSTDESK_SERVER"), None);
    assert_eq!(value("rustdesk_server=a"), None);
    assert_eq!(value("\n\n"), None);
    assert_eq!(value(""), None);
}

#[test]
fn the_last_line_of_an_env_file_counts() {
    let text = "RUSTDESK_SERVER=first\r\nRUSTDESK_KEY=k\r\nRUSTDESK_SERVER=last\r\n";
    assert_eq!(baked_value(KEY, Some(text), None), Some("last".to_string()));
    assert_eq!(baked_value("RUSTDESK_KEY", Some(text), None), Some("k".to_string()));
}

#[test]
fn environment_overrides_the_file() {
    let text = Some("RUSTDESK_SERVER=file");
    assert_eq!(baked_value(KEY, text, Some("process")), Some("process".to_string()));
    assert_eq!(baked_value(KEY, text, Some("")), Some("file".to_string()));
    assert_eq!(baked_value(KEY, text, None), Some("file".to_string()));
    assert_eq!(baked_value(KEY, None, Some(" spaced ")), Some(" spaced ".to_string()));
    assert_eq!(baked_value(KEY, None, Some("")), None);
    assert_eq!(baked_value(KEY, None, None), None);
}

#[test]
fn every_setting_with_a_value_is_baked() {
    assert_eq!(bake_line("K", "v"), "cargo:rustc-env=K=v");
    let text = "RUSTDESK_DIRECT=N\nRUSTDESK_ID=\nOTHER=1\n";
    let process = [None, Some("secret"), None, None, Some(""), Some("Y"), None];
    assert_eq!(
        bake_env_config(Some(text), &process),
        [
            "cargo:rustc-env=RUSTDESK_KEY=secret",
            "cargo:rustc-env=RUSTDESK_ID=",
            "cargo:rustc-env=RUSTDESK_DIRECT=Y",
        ]
    );
    assert!(bake_env_config(None, &[None; 7]).is_empty());
    assert_eq!(BAKED_KEYS.len(), 7);
}
