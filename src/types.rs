use vstd::prelude::*;
use crate::order::text_key;
use crate::rows::Row;
use crate::wrappers::{decode_json_string, json_string_value, lower_of, lowercase};

verus! {

/// The category of a generated audio artifact.
#[derive(Clone, Copy, Debug, PartialEq, Eq, Structural)]
pub enum AudioType {
    Tts,
    Sfx,
    Music,
}

/// The cache subdirectory of a category; part of the on-disk format.
pub open spec fn subdir_of(t: AudioType) -> Seq<char> {
    match t {
        AudioType::Tts => "tts"@,
        AudioType::Sfx => "sfx"@,
        AudioType::Music => "music"@,
    }
}

/// How a category is stored in a metadata column: its lowercase name as a
/// JSON string, quotes included.
pub open spec fn column_of(t: AudioType) -> Seq<char> {
    match t {
        AudioType::Tts => "\"tts\""@,
        AudioType::Sfx => "\"sfx\""@,
        AudioType::Music => "\"music\""@,
    }
}

/// The category that a stored column value names: a JSON string holding
/// a category's name. Anything malformed falls back to speech.
pub open spec fn category_of_column(s: Seq<char>) -> AudioType {
    match json_string_value(s) {
        Some(v) => match category_named(v) {
            Some(t) => t,
            None => AudioType::Tts,
        },
        None => AudioType::Tts,
    }
}

/// The category that a lowercase name selects, if any.
pub open spec fn category_named(s: Seq<char>) -> Option<AudioType> {
    if s == "tts"@ {
        Some(AudioType::Tts)
    } else if s == "sfx"@ {
        Some(AudioType::Sfx)
    } else if s == "music"@ {
        Some(AudioType::Music)
    } else {
        None
    }
}

impl AudioType {
    /// The category that an already lowercased name selects.
    pub fn from_lowered(s: &String) -> (r: Option<AudioType>)
        ensures
            r == category_named(s@),
    {
        if s.eq(&String::from_str("tts")) {
            Some(AudioType::Tts)
        } else if s.eq(&String::from_str("sfx")) {
            Some(AudioType::Sfx)
        } else if s.eq(&String::from_str("music")) {
            Some(AudioType::Music)
        } else {
            None
        }
    }

    /// The category that a name selects, in any letter case; `None` for an
    /// unknown name.
    pub fn from_name(name: &str) -> (r: Option<AudioType>)
        ensures
            r == category_named(lower_of(name@)),
    {
        let lowered = lowercase(name);
        AudioType::from_lowered(&lowered)
    }

    /// The name of the cache subdirectory for this category.
    pub fn subdir(&self) -> (r: String)
        ensures
            r@ == subdir_of(*self),
    {
        match *self {
            AudioType::Tts => {
                let lit = "tts";
                let r = String::from_str(lit);
                r
            },
            AudioType::Sfx => {
                let lit = "sfx";
                let r = String::from_str(lit);
                r
            },
            AudioType::Music => {
                let lit = "music";
                let r = String::from_str(lit);
                r
            },
        }
    }

    /// The value stored in the metadata store's `audio_type` column.
    pub fn column_value(&self) -> (r: String)
        ensures
            r@ == column_of(*self),
    {
        match *self {
            AudioType::Tts => {
                let lit = "\"tts\"";
                let r = String::from_str(lit);
                r
            },
            AudioType::Sfx => {
                let lit = "\"sfx\"";
                let r = String::from_str(lit);
                r
            },
            AudioType::Music => {
                let lit = "\"music\"";
                let r = String::from_str(lit);
                r
            },
        }
    }

    /// Reads a stored `audio_type` column, tolerating malformed values by
    /// falling back to speech.
    pub fn from_column(s: &String) -> (r: AudioType)
        ensures
            r == category_of_column(s@),
    {
        match decode_json_string(s.as_str()) {
            Some(v) => match AudioType::from_lowered(&v) {
                Some(t) => t,
                None => AudioType::Tts,
            },
            None => AudioType::Tts,
        }
    }
}

/// A copy of an optional text value.
pub fn copy_text(o: &Option<String>) -> (r: Option<String>)
    ensures
        r == *o,
{
    match o {
        Some(t) => Some(t.clone()),
        None => None,
    }
}

/// Voice settings for speech synthesis. Each level is kept as the bit
/// pattern of an IEEE-754 single-precision number.
#[derive(Clone, Copy, Debug)]
pub struct VoiceSettings {
    pub stability_bits: u32,
    pub similarity_boost_bits: u32,
    pub style_bits: u32,
    pub use_speaker_boost: bool,
}

/// Bit pattern of 0.5.
pub const HALF_BITS: u32 = 0x3f00_0000;

/// Bit pattern of 0.75.
pub const THREE_QUARTERS_BITS: u32 = 0x3f40_0000;

/// Bit pattern of 0.0.
pub const ZERO_BITS: u32 = 0;

impl Default for VoiceSettings {
    /// Stability 0.5, similarity boost 0.75, style 0.0, speaker boost on.
    fn default() -> (r: Self)
        ensures
            r.stability_bits == HALF_BITS,
            r.similarity_boost_bits == THREE_QUARTERS_BITS,
            r.style_bits == ZERO_BITS,
            r.use_speaker_boost,
    {
        VoiceSettings {
            stability_bits: HALF_BITS,
            similarity_boost_bits: THREE_QUARTERS_BITS,
            style_bits: ZERO_BITS,
            use_speaker_boost: true,
        }
    }
}

/// A cached mirror of a remote voice definition. `labels` holds JSON text.
#[derive(Clone, Debug)]
pub struct VoiceProfile {
    pub voice_id: String,
    pub name: String,
    pub description: Option<String>,
    pub category: String,
    pub labels: Option<String>,
    pub preview_url: Option<String>,
    pub settings: VoiceSettings,
}

/// Voice settings as the remote service reports them, each part optional.
#[derive(Clone, Copy, Debug)]
pub struct ElevenLabsVoiceSettings {
    pub stability_bits: Option<u32>,
    pub similarity_boost_bits: Option<u32>,
    pub style_bits: Option<u32>,
    pub use_speaker_boost: Option<bool>,
}

/// A voice as the remote service reports it. `labels` holds JSON text.
#[derive(Clone, Debug)]
pub struct ElevenLabsVoice {
    pub voice_id: String,
    pub name: String,
    pub description: Option<String>,
    pub category: Option<String>,
    pub labels: Option<String>,
    pub preview_url: Option<String>,
    pub settings: Option<ElevenLabsVoiceSettings>,
}

/// The list of voices that the remote service reports.
#[derive(Clone, Debug)]
pub struct VoicesResponse {
    pub voices: Vec<ElevenLabsVoice>,
}

/// The settings that a reported voice stands for: each missing part takes
/// its default, and missing settings are the defaults.
pub open spec fn settings_of(s: Option<ElevenLabsVoiceSettings>) -> VoiceSettings {
    match s {
        Some(s) => VoiceSettings {
            stability_bits: match s.stability_bits { Some(b) => b, None => HALF_BITS },
            similarity_boost_bits: match s.similarity_boost_bits {
                Some(b) => b,
                None => THREE_QUARTERS_BITS,
            },
            style_bits: match s.style_bits { Some(b) => b, None => ZERO_BITS },
            use_speaker_boost: match s.use_speaker_boost { Some(b) => b, None => true },
        },
        None => VoiceSettings {
            stability_bits: HALF_BITS,
            similarity_boost_bits: THREE_QUARTERS_BITS,
            style_bits: ZERO_BITS,
            use_speaker_boost: true,
        },
    }
}

/// The category given to a voice that reports none.
pub open spec fn default_category() -> Seq<char> {
    "premade"@
}

impl VoiceProfile {
    /// The profile of a reported voice: fields carried over, a missing
    /// category read as "premade", settings completed with defaults.
    pub fn from_voice(voice: ElevenLabsVoice) -> (r: VoiceProfile)
        ensures
            r.voice_id == voice.voice_id,
            r.name == voice.name,
            r.description == voice.description,
            r.category@ == (match voice.category {
                Some(c) => c@,
                None => default_category(),
            }),
            r.labels == voice.labels,
            r.preview_url == voice.preview_url,
            r.settings == settings_of(voice.settings),
    {
        let settings = match voice.settings {
            Some(s) => VoiceSettings {
                stability_bits: match s.stability_bits { Some(b) => b, None => HALF_BITS },
                similarity_boost_bits: match s.similarity_boost_bits {
                    Some(b) => b,
                    None => THREE_QUARTERS_BITS,
                },
                style_bits: match s.style_bits { Some(b) => b, None => ZERO_BITS },
                use_speaker_boost: match s.use_speaker_boost { Some(b) => b, None => true },
            },
            None => VoiceSettings::default(),
        };
        let category = match voice.category {
            Some(c) => c,
            None => String::from_str("premade"),
        };
        VoiceProfile {
            voice_id: voice.voice_id,
            name: voice.name,
            description: voice.description,
            category,
            labels: voice.labels,
            preview_url: voice.preview_url,
            settings,
        }
    }
}

impl Row for VoiceProfile {
    open spec fn id_view(&self) -> Seq<char> {
        self.voice_id@
    }

    open spec fn sort_key(&self) -> Seq<u8> {
        text_key(self.name@)
    }

    open spec fn descending() -> bool {
        false
    }

    fn duplicate(&self) -> (r: Self) {
        VoiceProfile {
            voice_id: self.voice_id.clone(),
            name: self.name.clone(),
            description: copy_text(&self.description),
            category: self.category.clone(),
            labels: copy_text(&self.labels),
            preview_url: copy_text(&self.preview_url),
            settings: self.settings,
        }
    }

    fn row_id(&self) -> (r: &String) {
        &self.voice_id
    }

    fn sort_text(&self) -> (r: &String) {
        &self.name
    }

    fn is_descending() -> (r: bool) {
        false
    }
}

/// Binds a character name to a voice, optionally within a project.
#[derive(Clone, Debug)]
pub struct CharacterVoice {
    pub id: String,
    pub character_name: String,
    pub voice_id: String,
    pub voice_name: String,
    pub project_id: Option<String>,
    pub created_at: String,
}

impl Row for CharacterVoice {
    open spec fn id_view(&self) -> Seq<char> {
        self.id@
    }

    open spec fn sort_key(&self) -> Seq<u8> {
        text_key(self.character_name@)
    }

    open spec fn descending() -> bool {
        false
    }

    fn duplicate(&self) -> (r: Self) {
        CharacterVoice {
            id: self.id.clone(),
            character_name: self.character_name.clone(),
            voice_id: self.voice_id.clone(),
            voice_name: self.voice_name.clone(),
            project_id: copy_text(&self.project_id),
            created_at: self.created_at.clone(),
        }
    }

    fn row_id(&self) -> (r: &String) {
        &self.id
    }

    fn sort_text(&self) -> (r: &String) {
        &self.character_name
    }

    fn is_descending() -> (r: bool) {
        false
    }
}

/// One generated audio artifact. The estimated duration is kept as the bit
/// pattern of an IEEE-754 single-precision number; `metadata` holds JSON
/// text; `created_at` is an RFC 3339 timestamp.
#[derive(Clone, Debug)]
pub struct GeneratedAudio {
    pub id: String,
    pub audio_type: AudioType,
    pub prompt: String,
    pub duration_seconds_bits: u32,
    pub local_path: String,
    pub supabase_url: Option<String>,
    pub metadata: String,
    pub created_at: String,
}

impl Row for GeneratedAudio {
    open spec fn id_view(&self) -> Seq<char> {
        self.id@
    }

    open spec fn sort_key(&self) -> Seq<u8> {
        text_key(self.created_at@)
    }

    open spec fn descending() -> bool {
        true
    }

    fn duplicate(&self) -> (r: Self) {
        GeneratedAudio {
            id: self.id.clone(),
            audio_type: self.audio_type,
            prompt: self.prompt.clone(),
            duration_seconds_bits: self.duration_seconds_bits,
            local_path: self.local_path.clone(),
            supabase_url: copy_text(&self.supabase_url),
            metadata: self.metadata.clone(),
            created_at: self.created_at.clone(),
        }
    }

    fn row_id(&self) -> (r: &String) {
        &self.id
    }

    fn sort_text(&self) -> (r: &String) {
        &self.created_at
    }

    fn is_descending() -> (r: bool) {
        true
    }
}

/// The model used for speech when a request names none.
pub fn default_model_id() -> (r: String)
    ensures
        r@ == "eleven_monolingual_v1"@,
{
    String::from_str("eleven_monolingual_v1")
}

/// The output format requested for speech: mp3 at 44.1 kHz and 128 kbps.
pub fn default_output_format() -> (r: String)
    ensures
        r@ == "mp3_44100_128"@,
{
    String::from_str("mp3_44100_128")
}

/// A speech synthesis request.
#[derive(Clone, Debug)]
pub struct TtsRequest {
    pub text: String,
    pub voice_id: String,
    pub model_id: String,
    pub voice_settings: Option<VoiceSettings>,
    pub output_format: String,
}

impl TtsRequest {
    /// A request for `text` in `voice_id`, with the default model where
    /// none is given and the default output format.
    pub fn new(text: String, voice_id: String, model_id: Option<String>, voice_settings: Option<
        VoiceSettings,
    >) -> (r: TtsRequest)
        ensures
            r.text == text,
            r.voice_id == voice_id,
            r.model_id@ == (match model_id {
                Some(m) => m@,
                None => "eleven_monolingual_v1"@,
            }),
            r.voice_settings == voice_settings,
            r.output_format@ == "mp3_44100_128"@,
    {
        let model_id = match model_id {
            Some(m) => m,
            None => default_model_id(),
        };
        TtsRequest { text, voice_id, model_id, voice_settings, output_format: default_output_format() }
    }
}

/// Usage and quota of the remote account.
#[derive(Clone, Copy, Debug, PartialEq, Eq, Structural)]
pub struct UsageInfo {
    pub character_count: i64,
    pub character_limit: i64,
    pub can_extend_character_limit: bool,
    pub allowed_to_extend_character_limit: bool,
    pub next_character_count_reset_unix: i64,
    pub voice_limit: i32,
    pub professional_voice_limit: i32,
    pub can_extend_voice_limit: bool,
    pub can_use_instant_voice_cloning: bool,
    pub can_use_professional_voice_cloning: bool,
}

/// The subscription record that the remote service reports.
#[derive(Clone, Copy, Debug, PartialEq, Eq, Structural)]
pub struct SubscriptionInfo {
    pub character_count: i64,
    pub character_limit: i64,
    pub can_extend_character_limit: bool,
    pub allowed_to_extend_character_limit: bool,
    pub next_character_count_reset_unix: i64,
    pub voice_limit: i32,
    pub professional_voice_limit: i32,
    pub can_extend_voice_limit: bool,
    pub can_use_instant_voice_cloning: bool,
    pub can_use_professional_voice_cloning: bool,
}

/// The usage that a subscription record reports, field for field.
pub open spec fn usage_of(sub: SubscriptionInfo) -> UsageInfo {
    UsageInfo {
        character_count: sub.character_count,
        character_limit: sub.character_limit,
        can_extend_character_limit: sub.can_extend_character_limit,
        allowed_to_extend_character_limit: sub.allowed_to_extend_character_limit,
        next_character_count_reset_unix: sub.next_character_count_reset_unix,
        voice_limit: sub.voice_limit,
        professional_voice_limit: sub.professional_voice_limit,
        can_extend_voice_limit: sub.can_extend_voice_limit,
        can_use_instant_voice_cloning: sub.can_use_instant_voice_cloning,
        can_use_professional_voice_cloning: sub.can_use_professional_voice_cloning,
    }
}

impl From<SubscriptionInfo> for UsageInfo {
    fn from(sub: SubscriptionInfo) -> (r: UsageInfo) {
        UsageInfo {
            character_count: sub.character_count,
            character_limit: sub.character_limit,
            can_extend_character_limit: sub.can_extend_character_limit,
            allowed_to_extend_character_limit: sub.allowed_to_extend_character_limit,
            next_character_count_reset_unix: sub.next_character_count_reset_unix,
            voice_limit: sub.voice_limit,
            professional_voice_limit: sub.professional_voice_limit,
            can_extend_voice_limit: sub.can_extend_voice_limit,
            can_use_instant_voice_cloning: sub.can_use_instant_voice_cloning,
            can_use_professional_voice_cloning: sub.can_use_professional_voice_cloning,
        }
    }
}

impl vstd::std_specs::convert::FromSpecImpl<SubscriptionInfo> for UsageInfo {
    open spec fn obeys_from_spec() -> bool {
        true
    }

    open spec fn from_spec(sub: SubscriptionInfo) -> UsageInfo {
        usage_of(sub)
    }
}

/// The outcome of a sync with a remote store.
#[derive(Clone, Debug)]
pub struct SyncResult {
    pub success: bool,
    pub voices_synced: i32,
    pub audio_synced: i32,
    pub errors: Vec<String>,
}

} // verus!
