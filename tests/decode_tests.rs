use eleven_labs::credential::{key_validity, text_contains};
use eleven_labs::store::{
    decode_audio_row, labels_or_empty, metadata_or_empty, new_record_id, speech_record, timestamp_now,
    CharacterVoiceDb,
};
use eleven_labs::types::AudioType;

fn is_uuid_form(s: &str) -> bool {
    s.len() == 36
        && s.chars().enumerate().all(|(i, c)| {
            if [8, 13, 18, 23].contains(&i) {
                c == '-'
            } else {
                c.is_ascii_digit() || ('a'..='f').contains(&c)
            }
        })
}

#[test]
fn record_ids_are_hyphenated_lowercase_uuids() {
    let a = new_record_id();
    let b = new_record_id();
    assert!(is_uuid_form(&a), "{}", a);
    assert!(is_uuid_form(&b), "{}", b);
    assert_ne!(a, b);
}

#[test]
fn timestamps_are_utc_rfc3339() {
    let t = timestamp_now();
    assert!(t.len() >= 25, "{}", t);
    assert!(t.ends_with("+00:00"), "{}", t);
    assert_eq!(&t[4..5], "-");
    assert_eq!(&t[10..11], "T");
}

#[test]
fn assigned_mappings_carry_uuid_and_utc_time() {
    let mut db = CharacterVoiceDb::new();
    let m = db.assign_voice("Alice", "v1", "Rachel", None).unwrap();
    assert!(is_uuid_form(&m.id));
    assert!(m.created_at.ends_with("+00:00"));
    assert_eq!(m.project_id, None);
}

#[test]
fn malformed_metadata_reads_as_empty_object() {
    assert_eq!(metadata_or_empty("{\"voice_id\":\"v1\"}".to_string()), "{\"voice_id\":\"v1\"}");
    assert_eq!(metadata_or_empty("not json {".to_string()), "{}");
    assert_eq!(metadata_or_empty(String::new()), "{}");
}

#[test]
fn malformed_labels_read_as_empty_object() {
    assert_eq!(labels_or_empty(Some("{\"a\":1}".to_string())).as_deref(), Some("{\"a\":1}"));
    assert_eq!(labels_or_empty(Some("{oops".to_string())).as_deref(), Some("{}"));
    assert_eq!(labels_or_empty(None), None);
}

#[test]
fn stored_rows_decode_with_fallbacks() {
    let r = decode_audio_row(
        "id1".to_string(),
        &"\"weird\"".to_string(),
        "p".to_string(),
        2.0f32.to_bits(),
        "/c/tts/id1.mp3".to_string(),
        None,
        "][".to_string(),
        "2024-01-01T00:00:00+00:00".to_string(),
    );
    assert_eq!(r.audio_type, AudioType::Tts);
    assert_eq!(r.metadata, "{}");
    assert_eq!(r.id, "id1");
    assert_eq!(r.local_path, "/c/tts/id1.mp3");
    let r = decode_audio_row(
        "id2".to_string(),
        &"\"music\"".to_string(),
        "p".to_string(),
        0,
        "/c/music/id2.mp3".to_string(),
        Some("https://x".to_string()),
        "{\"k\":2}".to_string(),
        "t".to_string(),
    );
    assert_eq!(r.audio_type, AudioType::Music);
    assert_eq!(r.metadata, "{\"k\":2}");
    assert_eq!(r.supabase_url.as_deref(), Some("https://x"));
}

#[test]
fn credential_outcomes() {
    assert_eq!(key_validity(None), Ok(true));
    assert_eq!(key_validity(Some("API error 401 Unauthorized: bad key".to_string())), Ok(false));
    assert_eq!(
        key_validity(Some("API error 500 Internal Server Error: x".to_string())),
        Err("API error 500 Internal Server Error: x".to_string())
    );
}

#[test]
fn substring_search() {
    assert!(text_contains("abc401", "401"));
    assert!(text_contains("401", "401"));
    assert!(!text_contains("40", "401"));
    assert!(!text_contains("4 0 1", "401"));
    assert!(text_contains("anything", ""));
}

#[test]
fn voice_metadata_escapes_control_characters() {
    let rec = speech_record("x".to_string(), "t".to_string(), "a\nb\u{1}\\", 0, "/p".to_string(), "now".to_string());
    assert_eq!(rec.metadata, "{\"voice_id\":\"a\\nb\\u0001\\\\\"}");
}

#[test]
fn column_values_decode_as_json_strings() {
    assert_eq!(AudioType::from_column(&" \"sfx\" ".to_string()), AudioType::Sfx);
    assert_eq!(AudioType::from_column(&"\"mu\\u0073ic\"".to_string()), AudioType::Music);
    assert_eq!(AudioType::from_column(&"\"SFX\"".to_string()), AudioType::Tts);
    assert_eq!(AudioType::from_column(&"42".to_string()), AudioType::Tts);
}

#[test]
fn assignment_adds_a_row_and_keeps_the_others() {
    let mut db = CharacterVoiceDb::new();
    db.assign_voice_as("fixed".to_string(), "t0".to_string(), "Bob", "v0", "Old", Some("p1"));
    let m = db.assign_voice("Bob", "v1", "New", Some("p1")).unwrap();
    assert_ne!(m.id, "fixed");
    let rows = db.get_character_voices(Some("p1"));
    assert_eq!(rows.len(), 2);
    assert!(rows.iter().any(|r| r.id == "fixed" && r.voice_name == "Old"));
    assert!(rows.iter().any(|r| r.id == m.id && r.voice_name == "New"));
}
