use eleven_labs::cache::AudioCache;
use eleven_labs::store::{
    new_record_id, sound_effect_record, speech_record, timestamp_now, AudioCacheDb,
    CharacterVoiceDb, SettingsDb, VoiceProfileDb,
};
use eleven_labs::types::{AudioType, GeneratedAudio, VoiceProfile, VoiceSettings};

fn record(id: &str, t: AudioType, prompt: &str, created_at: &str) -> GeneratedAudio {
    GeneratedAudio {
        id: id.to_string(),
        audio_type: t,
        prompt: prompt.to_string(),
        duration_seconds_bits: 1.5f32.to_bits(),
        local_path: format!("/c/{}.mp3", id),
        supabase_url: None,
        metadata: "{}".to_string(),
        created_at: created_at.to_string(),
    }
}

fn profile(id: &str, name: &str) -> VoiceProfile {
    VoiceProfile {
        voice_id: id.to_string(),
        name: name.to_string(),
        description: None,
        category: "premade".to_string(),
        labels: None,
        preview_url: None,
        settings: VoiceSettings::default(),
    }
}

#[test]
fn replacing_a_record_keeps_one_row() {
    let mut db = AudioCacheDb::new();
    db.save_audio_record(record("a", AudioType::Tts, "first", "2024-01-01T00:00:00+00:00"));
    db.save_audio_record(record("a", AudioType::Tts, "second", "2024-01-02T00:00:00+00:00"));
    let all = db.get_audio_records(AudioType::Tts);
    assert_eq!(all.len(), 1);
    assert_eq!(all[0].prompt, "second");
    assert_eq!(db.get_audio_record(&"a".to_string()).unwrap().prompt, "second");
}

#[test]
fn records_by_type_newest_first() {
    let mut db = AudioCacheDb::new();
    db.save_audio_record(record("a", AudioType::Tts, "a", "2024-01-01T00:00:00+00:00"));
    db.save_audio_record(record("b", AudioType::Sfx, "b", "2024-01-05T00:00:00+00:00"));
    db.save_audio_record(record("c", AudioType::Tts, "c", "2024-01-03T00:00:00+00:00"));
    db.save_audio_record(record("d", AudioType::Tts, "d", "2024-01-02T00:00:00+00:00"));
    let ids: Vec<String> = db.get_audio_records(AudioType::Tts).into_iter().map(|r| r.id).collect();
    assert_eq!(ids, vec!["c", "d", "a"]);
    let sfx = db.get_audio_records(AudioType::Sfx);
    assert_eq!(sfx.len(), 1);
    assert_eq!(sfx[0].id, "b");
    assert!(db.get_audio_records(AudioType::Music).is_empty());
}

#[test]
fn deleting_a_missing_record_changes_nothing() {
    let mut db = AudioCacheDb::new();
    db.save_audio_record(record("a", AudioType::Music, "a", "2024-01-01T00:00:00+00:00"));
    db.delete_audio_record(&"zzz".to_string());
    assert_eq!(db.get_audio_records(AudioType::Music).len(), 1);
    db.delete_audio_record(&"a".to_string());
    assert!(db.get_audio_record(&"a".to_string()).is_none());
    assert!(db.get_audio_records(AudioType::Music).is_empty());
}

#[test]
fn profiles_by_name_and_replaced_by_id() {
    let mut db = VoiceProfileDb::new();
    db.save_voice_profile(profile("v2", "Zed"));
    db.save_voice_profile(profile("v1", "Adam"));
    db.save_voice_profile(profile("v3", "Mia"));
    let names: Vec<String> = db.get_voice_profiles().into_iter().map(|p| p.name).collect();
    assert_eq!(names, vec!["Adam", "Mia", "Zed"]);
    db.save_voice_profile(profile("v2", "Bella"));
    let names: Vec<String> = db.get_voice_profiles().into_iter().map(|p| p.name).collect();
    assert_eq!(names, vec!["Adam", "Bella", "Mia"]);
    assert_eq!(db.get_voice_profile(&"v2".to_string()).unwrap().name, "Bella");
    db.delete_voice_profile(&"v1".to_string());
    db.delete_voice_profile(&"nope".to_string());
    assert_eq!(db.get_voice_profiles().len(), 2);
}

#[test]
fn assigning_twice_yields_two_rows() {
    let mut db = CharacterVoiceDb::new();
    let a = db.assign_voice("Alice", "v1", "Rachel", Some("p1")).unwrap();
    let b = db.assign_voice("Alice", "v2", "Adam", Some("p1")).unwrap();
    assert_ne!(a.id, b.id);
    let rows = db.get_character_voices(Some("p1"));
    assert_eq!(rows.len(), 2);
    assert!(rows.iter().all(|m| m.character_name == "Alice"));
    assert_eq!(a.voice_name, "Rachel");
    assert_eq!(a.project_id.as_deref(), Some("p1"));
}

#[test]
fn mappings_filtered_by_project_and_sorted() {
    let mut db = CharacterVoiceDb::new();
    db.assign_voice_as("1".to_string(), "t1".to_string(), "Zoe", "v1", "Rachel", Some("p1"));
    db.assign_voice_as("2".to_string(), "t2".to_string(), "Bob", "v2", "Adam", None);
    db.assign_voice_as("3".to_string(), "t3".to_string(), "Ann", "v3", "Mia", Some("p1"));
    db.assign_voice_as("4".to_string(), "t4".to_string(), "Cid", "v3", "Mia", Some("p2"));
    let p1: Vec<String> = db.get_character_voices(Some("p1")).into_iter().map(|m| m.character_name).collect();
    assert_eq!(p1, vec!["Ann", "Zoe"]);
    let all: Vec<String> = db.get_character_voices(None).into_iter().map(|m| m.character_name).collect();
    assert_eq!(all, vec!["Ann", "Bob", "Cid", "Zoe"]);
    db.remove_mapping(&"3".to_string());
    assert_eq!(db.get_character_voices(Some("p1")).len(), 1);
    assert!(db.get_character_voices(Some("p9")).is_empty());
}

#[test]
fn credential_round_trip() {
    let mut db = SettingsDb::new();
    assert_eq!(db.get_api_key(), None);
    db.save_api_key("key-1");
    assert_eq!(db.get_api_key().as_deref(), Some("key-1"));
    db.save_api_key("key-2");
    assert_eq!(db.get_api_key().as_deref(), Some("key-2"));
    db.remove_api_key();
    assert_eq!(db.get_api_key(), None);
}

#[test]
fn speech_synthesis_records_file_and_voice() {
    let cache = AudioCache::new("/cache/opcode/audio".to_string());
    let path = cache.new_file_path(AudioType::Tts, "mp3");
    assert!(path.starts_with("/cache/opcode/audio/tts/"));
    assert!(path.ends_with(".mp3"));
    let id = new_record_id();
    assert_eq!(id.len(), 36);
    let rec = speech_record(id.clone(), "Hello world".to_string(), "v1", 0, path.clone(), timestamp_now());
    assert_eq!(rec.audio_type, AudioType::Tts);
    assert_eq!(rec.prompt, "Hello world");
    assert_eq!(rec.local_path, path);
    assert_eq!(rec.metadata, "{\"voice_id\":\"v1\"}");
    let mut db = AudioCacheDb::new();
    db.save_audio_record(rec);
    let all = db.get_audio_records(AudioType::Tts);
    assert_eq!(all.len(), 1);
    assert_eq!(all[0].id, id);
    assert_eq!(all[0].local_path, path);
}

#[test]
fn voice_metadata_escapes_the_id() {
    let rec = speech_record("x".to_string(), "t".to_string(), "a\"b", 0, "/p".to_string(), "now".to_string());
    assert_eq!(rec.metadata, "{\"voice_id\":\"a\\\"b\"}");
}

#[test]
fn sound_effect_records_have_empty_metadata() {
    let rec = sound_effect_record("s".to_string(), "boom".to_string(), 3.0f32.to_bits(), "/c/sfx/s.mp3".to_string(), "t".to_string());
    assert_eq!(rec.audio_type, AudioType::Sfx);
    assert_eq!(rec.metadata, "{}");
    assert_eq!(f32::from_bits(rec.duration_seconds_bits), 3.0);
}

#[test]
fn deleting_cached_audio_whose_file_is_gone() {
    let mut db = AudioCacheDb::new();
    db.save_audio_record(record("gone", AudioType::Tts, "x", "2024-01-01T00:00:00+00:00"));
    let path = db.take_record_path(&"gone".to_string());
    assert_eq!(path.as_deref(), Some("/c/gone.mp3"));
    assert!(db.get_audio_record(&"gone".to_string()).is_none());
    assert_eq!(db.take_record_path(&"gone".to_string()), None);
}
