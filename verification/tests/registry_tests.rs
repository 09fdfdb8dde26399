use se_button::player::BGMType;
use se_button::registry::{parse_bgm_type, parse_cue_id, parse_volume, ConfigError, CueRegistry};

fn row(id: &str, title: &str, source: &str, volume: &str, class: &str) -> Vec<String> {
    vec![
        id.to_string(),
        title.to_string(),
        source.to_string(),
        volume.to_string(),
        class.to_string(),
    ]
}

#[test]
fn cue_id_parses_plain_decimals() {
    assert_eq!(parse_cue_id("60"), Some(60));
    assert_eq!(parse_cue_id("0"), Some(0));
    assert_eq!(parse_cue_id("255"), Some(255));
    assert_eq!(parse_cue_id("007"), Some(7));
}

#[test]
fn cue_id_rejects_junk_and_overflow() {
    assert_eq!(parse_cue_id(""), None);
    assert_eq!(parse_cue_id("6a"), None);
    assert_eq!(parse_cue_id("-1"), None);
    assert_eq!(parse_cue_id("256"), None);
    assert_eq!(parse_cue_id("99999999999999999999"), None);
}

#[test]
fn volume_parses_decimals_into_hundredths() {
    assert_eq!(parse_volume("0.5"), Ok(50));
    assert_eq!(parse_volume("1"), Ok(100));
    assert_eq!(parse_volume("1.0"), Ok(100));
    assert_eq!(parse_volume("0.05"), Ok(5));
    assert_eq!(parse_volume("0.01"), Ok(1));
    assert_eq!(parse_volume(".5"), Ok(50));
    assert_eq!(parse_volume("1."), Ok(100));
}

#[test]
fn volume_truncates_beyond_hundredths() {
    assert_eq!(parse_volume("0.075"), Ok(7));
    assert_eq!(parse_volume("0.999"), Ok(99));
}

#[test]
fn volume_rejects_non_numerals() {
    assert_eq!(parse_volume(""), Err(ConfigError::BadVolume));
    assert_eq!(parse_volume("."), Err(ConfigError::BadVolume));
    assert_eq!(parse_volume("abc"), Err(ConfigError::BadVolume));
    assert_eq!(parse_volume("0.5x"), Err(ConfigError::BadVolume));
    assert_eq!(parse_volume("1.2.3"), Err(ConfigError::BadVolume));
    assert_eq!(parse_volume("-0.5"), Err(ConfigError::BadVolume));
}

#[test]
fn volume_rejects_values_outside_unit_range() {
    assert_eq!(parse_volume("0"), Err(ConfigError::VolumeOutOfRange));
    assert_eq!(parse_volume("0.0"), Err(ConfigError::VolumeOutOfRange));
    assert_eq!(parse_volume("0.005"), Err(ConfigError::VolumeOutOfRange));
    assert_eq!(parse_volume("1.3"), Err(ConfigError::VolumeOutOfRange));
    assert_eq!(parse_volume("2"), Err(ConfigError::VolumeOutOfRange));
    assert_eq!(parse_volume("999999999999999999"), Err(ConfigError::VolumeOutOfRange));
}

#[test]
fn class_tags_parse_exactly() {
    assert_eq!(parse_bgm_type("BGM"), Ok(BGMType::BGM));
    assert_eq!(parse_bgm_type("ShortSE"), Ok(BGMType::ShortSE));
    assert_eq!(parse_bgm_type("LongSE"), Ok(BGMType::LongSE));
    assert_eq!(parse_bgm_type("bgm"), Err(ConfigError::BadClass));
    assert_eq!(parse_bgm_type(""), Err(ConfigError::BadClass));
    assert_eq!(parse_bgm_type("LongSE "), Err(ConfigError::BadClass));
}

#[test]
fn registry_loads_rows() {
    let rows = vec![
        row("60", "Opening", "a.mp3", "0.5", "BGM"),
        row("62", "Drum", "b.mp3", "1", "LongSE"),
        row("63", "Chime", "c.mp3", "0.25", "ShortSE"),
    ];
    let reg = CueRegistry::from_rows(&rows).unwrap();
    assert_eq!(reg.len(), 3);
    let cue = reg.lookup(62).unwrap();
    assert_eq!(cue.id, 62);
    assert_eq!(cue.title, "Drum");
    assert_eq!(cue.source, "b.mp3");
    assert_eq!(cue.volume, 100);
    assert_eq!(cue.class, BGMType::LongSE);
    assert!(reg.lookup(64).is_none());
}

#[test]
fn registry_skips_short_rows() {
    let rows = vec![
        vec!["60".to_string(), "Opening".to_string()],
        row("61", "Full", "a.mp3", "0.5", "BGM"),
    ];
    let reg = CueRegistry::from_rows(&rows).unwrap();
    assert_eq!(reg.len(), 1);
    assert!(reg.lookup(60).is_none());
    assert!(reg.lookup(61).is_some());
}

#[test]
fn registry_replaces_duplicate_ids() {
    let rows = vec![
        row("60", "First", "a.mp3", "0.5", "BGM"),
        row("61", "Other", "b.mp3", "0.5", "ShortSE"),
        row("60", "Second", "c.mp3", "0.75", "LongSE"),
    ];
    let reg = CueRegistry::from_rows(&rows).unwrap();
    assert_eq!(reg.len(), 2);
    let cue = reg.lookup(60).unwrap();
    assert_eq!(cue.title, "Second");
    assert_eq!(cue.volume, 75);
    assert_eq!(cue.class, BGMType::LongSE);
}

#[test]
fn registry_fails_on_bad_id() {
    let rows = vec![row("6x", "Opening", "a.mp3", "0.5", "BGM")];
    assert!(matches!(CueRegistry::from_rows(&rows), Err(ConfigError::BadCueId)));
}

#[test]
fn registry_fails_on_bad_volume() {
    let rows = vec![row("60", "Opening", "a.mp3", "loud", "BGM")];
    assert!(matches!(CueRegistry::from_rows(&rows), Err(ConfigError::BadVolume)));
    let rows = vec![row("60", "Opening", "a.mp3", "1.5", "BGM")];
    assert!(matches!(CueRegistry::from_rows(&rows), Err(ConfigError::VolumeOutOfRange)));
}

#[test]
fn registry_fails_on_bad_class() {
    let rows = vec![row("60", "Opening", "a.mp3", "0.5", "Loop")];
    assert!(matches!(CueRegistry::from_rows(&rows), Err(ConfigError::BadClass)));
}
