use std::io::{Read, Write};

use clashup::config::{load_contents, ClashPath, Config, LoadError};

#[test]
fn default_values() {
    let c = Config::default();
    assert_eq!(c, Config { clash_path: ClashPath::Local, update_url: "fake url".to_string() });
}

#[test]
fn render_default_exact() {
    let c = Config::default();
    assert_eq!(c.to_toml(), "clash_path = \"Local\"\nupdate_url = \"fake url\"\n");
}

#[test]
fn render_system_exact() {
    let c = Config { clash_path: ClashPath::System, update_url: "u".to_string() };
    assert_eq!(c.to_toml(), "clash_path = \"System\"\nupdate_url = \"u\"\n");
}

#[test]
fn round_trip_plain() {
    let c = Config {
        clash_path: ClashPath::System,
        update_url: "https://example.com/clash".to_string(),
    };
    let r = Config::from_toml(&c.to_toml()).expect("round trip");
    assert_eq!(r, c);
}

#[test]
fn round_trip_empty_url() {
    let c = Config { clash_path: ClashPath::Local, update_url: String::new() };
    let r = Config::from_toml(&c.to_toml()).expect("round trip");
    assert_eq!(r, c);
}

#[test]
fn round_trip_escaped() {
    let c = Config { clash_path: ClashPath::Local, update_url: "a\"b\\c\nd\re".to_string() };
    let s = c.to_toml();
    assert!(s.contains("\\\""));
    assert!(s.contains("\\\\"));
    assert!(s.contains("\\n"));
    assert!(s.contains("\\r"));
    let r = Config::from_toml(&s).expect("round trip");
    assert_eq!(r, c);
}

#[test]
fn bogus_tag_is_load_error() {
    let r = Config::from_toml("clash_path = \"Bogus\"\nupdate_url = \"x\"\n");
    assert_eq!(r, Err(LoadError::Malformed));
}

#[test]
fn missing_field_is_load_error() {
    assert_eq!(Config::from_toml("clash_path = \"Local\"\n"), Err(LoadError::Malformed));
}

#[test]
fn wrong_type_is_load_error() {
    assert_eq!(
        Config::from_toml("clash_path = 3\nupdate_url = \"x\"\n"),
        Err(LoadError::Malformed)
    );
}

#[test]
fn empty_text_is_load_error() {
    assert_eq!(Config::from_toml(""), Err(LoadError::Malformed));
}

#[test]
fn unterminated_value_is_load_error() {
    assert_eq!(
        Config::from_toml("clash_path = \"Local\"\nupdate_url = \"x"),
        Err(LoadError::Malformed)
    );
}

#[test]
fn trailing_text_is_load_error() {
    assert_eq!(
        Config::from_toml("clash_path = \"Local\"\nupdate_url = \"x\"\nextra"),
        Err(LoadError::Malformed)
    );
}

#[test]
fn unknown_escape_is_load_error() {
    assert_eq!(
        Config::from_toml("clash_path = \"Local\"\nupdate_url = \"\\z\"\n"),
        Err(LoadError::Malformed)
    );
}

#[test]
fn absent_file_gives_default() {
    let c = load_contents(None).expect("default");
    assert_eq!(c, Config::default());
}

#[test]
fn present_file_parses() {
    let c = load_contents(Some("clash_path = \"System\"\nupdate_url = \"u\"\n")).expect("load");
    assert_eq!(c, Config { clash_path: ClashPath::System, update_url: "u".to_string() });
}

#[test]
fn config_dump() {
    let mut tmp_config_file = tempfile::NamedTempFile::new().unwrap();
    let dummy_conf = Config { clash_path: ClashPath::Local, update_url: "dummp".into() };
    tmp_config_file.write_all(dummy_conf.to_toml().as_bytes()).expect("error store");
    tmp_config_file.flush().expect("error store");
    let mut text = String::new();
    tmp_config_file.reopen().expect("error load").read_to_string(&mut text).expect("error load");
    let read_conf: Config = Config::from_toml(&text).expect("error load");
    assert_eq!(dummy_conf, read_conf);
}
