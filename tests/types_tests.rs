use eleven_labs::types::{
    default_model_id, default_output_format, AudioType, ElevenLabsVoice, ElevenLabsVoiceSettings,
    SubscriptionInfo, TtsRequest, UsageInfo, VoiceProfile, VoiceSettings,
};

#[test]
fn subdirs_are_fixed() {
    assert_eq!(AudioType::Tts.subdir(), "tts");
    assert_eq!(AudioType::Sfx.subdir(), "sfx");
    assert_eq!(AudioType::Music.subdir(), "music");
}

#[test]
fn column_values_are_json_strings() {
    assert_eq!(AudioType::Tts.column_value(), "\"tts\"");
    assert_eq!(AudioType::Sfx.column_value(), "\"sfx\"");
    assert_eq!(AudioType::Music.column_value(), "\"music\"");
}

#[test]
fn column_round_trip() {
    for t in [AudioType::Tts, AudioType::Sfx, AudioType::Music] {
        assert_eq!(AudioType::from_column(&t.column_value()), t);
    }
}

#[test]
fn malformed_column_falls_back_to_speech() {
    assert_eq!(AudioType::from_column(&"garbage".to_string()), AudioType::Tts);
    assert_eq!(AudioType::from_column(&"sfx".to_string()), AudioType::Tts);
    assert_eq!(AudioType::from_column(&String::new()), AudioType::Tts);
}

#[test]
fn names_parse_in_any_case() {
    assert_eq!(AudioType::from_name("tts"), Some(AudioType::Tts));
    assert_eq!(AudioType::from_name("SFX"), Some(AudioType::Sfx));
    assert_eq!(AudioType::from_name("Music"), Some(AudioType::Music));
    assert_eq!(AudioType::from_name("speech"), None);
    assert_eq!(AudioType::from_name(""), None);
}

#[test]
fn lowered_names() {
    assert_eq!(AudioType::from_lowered(&"music".to_string()), Some(AudioType::Music));
    assert_eq!(AudioType::from_lowered(&"MUSIC".to_string()), None);
}

#[test]
fn voice_settings_default() {
    let s = VoiceSettings::default();
    assert_eq!(f32::from_bits(s.stability_bits), 0.5);
    assert_eq!(f32::from_bits(s.similarity_boost_bits), 0.75);
    assert_eq!(f32::from_bits(s.style_bits), 0.0);
    assert!(s.use_speaker_boost);
}

fn bare_voice() -> ElevenLabsVoice {
    ElevenLabsVoice {
        voice_id: "v1".to_string(),
        name: "Rachel".to_string(),
        description: None,
        category: None,
        labels: None,
        preview_url: None,
        settings: None,
    }
}

#[test]
fn profile_from_bare_voice_takes_defaults() {
    let p = VoiceProfile::from_voice(bare_voice());
    assert_eq!(p.voice_id, "v1");
    assert_eq!(p.name, "Rachel");
    assert_eq!(p.category, "premade");
    assert_eq!(p.description, None);
    assert_eq!(p.settings.stability_bits, 0.5f32.to_bits());
    assert_eq!(p.settings.similarity_boost_bits, 0.75f32.to_bits());
    assert_eq!(p.settings.style_bits, 0.0f32.to_bits());
    assert!(p.settings.use_speaker_boost);
}

#[test]
fn profile_from_voice_keeps_reported_values() {
    let mut v = bare_voice();
    v.category = Some("cloned".to_string());
    v.description = Some("warm".to_string());
    v.labels = Some("{\"accent\":\"american\"}".to_string());
    v.settings = Some(ElevenLabsVoiceSettings {
        stability_bits: Some(0.25f32.to_bits()),
        similarity_boost_bits: None,
        style_bits: Some(0.5f32.to_bits()),
        use_speaker_boost: Some(false),
    });
    let p = VoiceProfile::from_voice(v);
    assert_eq!(p.category, "cloned");
    assert_eq!(p.description.as_deref(), Some("warm"));
    assert_eq!(p.labels.as_deref(), Some("{\"accent\":\"american\"}"));
    assert_eq!(f32::from_bits(p.settings.stability_bits), 0.25);
    assert_eq!(f32::from_bits(p.settings.similarity_boost_bits), 0.75);
    assert_eq!(f32::from_bits(p.settings.style_bits), 0.5);
    assert!(!p.settings.use_speaker_boost);
}

#[test]
fn usage_from_subscription() {
    let sub = SubscriptionInfo {
        character_count: 1200,
        character_limit: 10000,
        can_extend_character_limit: true,
        allowed_to_extend_character_limit: false,
        next_character_count_reset_unix: 1_700_000_000,
        voice_limit: 10,
        professional_voice_limit: 1,
        can_extend_voice_limit: false,
        can_use_instant_voice_cloning: true,
        can_use_professional_voice_cloning: false,
    };
    let u = UsageInfo::from(sub);
    assert_eq!(u.character_count, 1200);
    assert_eq!(u.character_limit, 10000);
    assert!(u.can_extend_character_limit);
    assert!(!u.allowed_to_extend_character_limit);
    assert_eq!(u.next_character_count_reset_unix, 1_700_000_000);
    assert_eq!(u.voice_limit, 10);
    assert_eq!(u.professional_voice_limit, 1);
    assert!(u.can_use_instant_voice_cloning);
}

#[test]
fn request_defaults() {
    assert_eq!(default_model_id(), "eleven_monolingual_v1");
    assert_eq!(default_output_format(), "mp3_44100_128");
    let r = TtsRequest::new("Hi".to_string(), "v1".to_string(), None, None);
    assert_eq!(r.model_id, "eleven_monolingual_v1");
    assert_eq!(r.output_format, "mp3_44100_128");
    let r = TtsRequest::new("Hi".to_string(), "v1".to_string(), Some("m2".to_string()), None);
    assert_eq!(r.model_id, "m2");
    assert_eq!(r.text, "Hi");
    assert_eq!(r.voice_id, "v1");
}
