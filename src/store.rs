use vstd::prelude::*;
use crate::wrappers::{
    is_json, is_utc_timestamp, is_uuid_text, json_string, json_text_of, new_uuid, now_rfc3339,
    parses_as_json,
};
use crate::rows::{
    delete_row, find, find_row, id_of, inserted, kept, key_of, lemma_upsert_absent, lemma_upserted,
    lemma_without, table_wf, upsert_row, upserted, without, Row,
};
use crate::types::{category_of_column, AudioType, CharacterVoice, GeneratedAudio, VoiceProfile};

verus! {

/// Holds of the audio records of category `t`.
pub open spec fn of_type(t: AudioType) -> spec_fn(GeneratedAudio) -> bool {
    |a: GeneratedAudio| a.audio_type == t
}

/// Holds of the mappings that a project filter selects: those of the
/// project when one is given, else all.
pub open spec fn in_project(p: Option<Seq<char>>) -> spec_fn(CharacterVoice) -> bool {
    |m: CharacterVoice|
        match p {
            Some(q) => match m.project_id {
                Some(x) => x@ == q,
                None => false,
            },
            None => true,
        }
}

/// The metadata of a speech record: the voice that spoke it.
pub open spec fn voice_metadata(voice_id: Seq<char>) -> Seq<char> {
    "{\"voice_id\":"@ + json_text_of(voice_id) + "}"@
}

/// Generated-audio records, keyed by id and kept newest first.
pub struct AudioCacheDb {
    rows: Vec<GeneratedAudio>,
}

impl AudioCacheDb {
    /// The records, newest first.
    pub closed spec fn records(&self) -> Seq<GeneratedAudio> {
        self.rows@
    }

    pub closed spec fn wf(&self) -> bool {
        table_wf(self.rows@)
    }

    /// A well-formed table is sorted by its column, with unique ids.
    pub proof fn lemma_wf(&self)
        requires
            self.wf(),
        ensures
            table_wf(self.records()),
    {
    }

    pub fn new() -> (r: AudioCacheDb)
        ensures
            r.wf(),
            r.records() == Seq::<GeneratedAudio>::empty(),
    {
        AudioCacheDb { rows: Vec::new() }
    }

    /// Insert-or-replace of a record by its id.
    pub fn save_audio_record(&mut self, audio: GeneratedAudio)
        requires
            old(self).wf(),
            old(self).records().len() < usize::MAX,
        ensures
            final(self).wf(),
            final(self).records() == upserted(old(self).records(), audio),
    {
        proof {
            lemma_upserted(self.rows@, audio);
        }
        upsert_row(&mut self.rows, audio);
    }

    /// The records of category `audio_type`, newest first.
    pub fn get_audio_records(&self, audio_type: AudioType) -> (r: Vec<GeneratedAudio>)
        ensures
            r@ == kept(self.records(), of_type(audio_type)),
    {
        let mut r: Vec<GeneratedAudio> = Vec::new();
        let mut i: usize = 0;
        assert(self.rows@.take(0) =~= Seq::<GeneratedAudio>::empty());
        while i < self.rows.len()
            invariant
                i <= self.rows@.len(),
                r@ == kept(self.rows@.take(i as int), of_type(audio_type)),
            decreases self.rows@.len() - i,
        {
            assert(self.rows@.take(i + 1).drop_last() =~= self.rows@.take(i as int));
            assert(self.rows@.take(i + 1).last() == self.rows@[i as int]);
            if self.rows[i].audio_type == audio_type {
                r.push(self.rows[i].duplicate());
            }
            i = i + 1;
        }
        assert(self.rows@.take(i as int) =~= self.rows@);
        r
    }

    /// Deletes the record with this id; nothing happens if there is none.
    pub fn delete_audio_record(&mut self, id: &String)
        requires
            old(self).wf(),
        ensures
            final(self).wf(),
            final(self).records() == without(old(self).records(), id_of::<GeneratedAudio>(), id@),
    {
        proof {
            lemma_without(self.rows@, id@);
        }
        delete_row(&mut self.rows, id);
    }

    /// The record with this id, if any.
    pub fn get_audio_record(&self, id: &String) -> (r: Option<GeneratedAudio>)
        ensures
            r == find(self.records(), id_of::<GeneratedAudio>(), id@),
    {
        find_row(&self.rows, id)
    }

    /// Removes the record with this id and hands back the cached file that
    /// it pointed at, for the caller to delete; `None` if there was none.
    pub fn take_record_path(&mut self, id: &String) -> (r: Option<String>)
        requires
            old(self).wf(),
        ensures
            final(self).wf(),
            final(self).records() == without(old(self).records(), id_of::<GeneratedAudio>(), id@),
            r == (match find(old(self).records(), id_of::<GeneratedAudio>(), id@) {
                Some(a) => Some(a.local_path),
                None => None,
            }),
    {
        let found = self.get_audio_record(id);
        self.delete_audio_record(id);
        match found {
            Some(a) => Some(a.local_path),
            None => None,
        }
    }
}

/// The record of a speech synthesis: category speech, the spoken text as
/// prompt, the cached file's path, and the voice in its metadata.
pub fn speech_record(
    id: String,
    text: String,
    voice_id: &str,
    duration_seconds_bits: u32,
    local_path: String,
    created_at: String,
) -> (r: GeneratedAudio)
    ensures
        r.id == id,
        r.audio_type == AudioType::Tts,
        r.prompt == text,
        r.duration_seconds_bits == duration_seconds_bits,
        r.local_path == local_path,
        r.supabase_url.is_none(),
        r.metadata@ == voice_metadata(voice_id@),
        r.created_at == created_at,
{
    let mut metadata = String::from_str("{\"voice_id\":");
    let v = json_string(voice_id);
    metadata.append(v.as_str());
    metadata.append("}");
    GeneratedAudio {
        id,
        audio_type: AudioType::Tts,
        prompt: text,
        duration_seconds_bits,
        local_path,
        supabase_url: None,
        metadata,
        created_at,
    }
}

/// The record of a sound-effect generation: category sound effect, the
/// prompt, the cached file's path, and empty metadata.
pub fn sound_effect_record(
    id: String,
    text: String,
    duration_seconds_bits: u32,
    local_path: String,
    created_at: String,
) -> (r: GeneratedAudio)
    ensures
        r.id == id,
        r.audio_type == AudioType::Sfx,
        r.prompt == text,
        r.duration_seconds_bits == duration_seconds_bits,
        r.local_path == local_path,
        r.supabase_url.is_none(),
        r.metadata@ == "{}"@,
        r.created_at == created_at,
{
    GeneratedAudio {
        id,
        audio_type: AudioType::Sfx,
        prompt: text,
        duration_seconds_bits,
        local_path,
        supabase_url: None,
        metadata: String::from_str("{}"),
        created_at,
    }
}

/// A fresh record id: a UUID in hyphenated lowercase form.
pub fn new_record_id() -> (r: String)
    ensures
        is_uuid_text(r@),
{
    new_uuid()
}

/// The current time as an RFC 3339 timestamp in UTC.
pub fn timestamp_now() -> (r: String)
    ensures
        is_utc_timestamp(r@),
{
    now_rfc3339()
}

/// What a stored metadata text reads as: itself when it is JSON, else
/// the empty object.
pub open spec fn metadata_read(text: Seq<char>) -> Seq<char> {
    if parses_as_json(text) {
        text
    } else {
        "{}"@
    }
}

/// Reads a stored metadata text, tolerating malformed JSON by falling back
/// to the empty object.
pub fn metadata_or_empty(text: String) -> (r: String)
    ensures
        r@ == metadata_read(text@),
{
    if is_json(text.as_str()) {
        text
    } else {
        String::from_str("{}")
    }
}

/// Reads stored voice labels: absent labels stay absent, and labels that
/// are not JSON fall back to the empty object.
pub fn labels_or_empty(labels: Option<String>) -> (r: Option<String>)
    ensures
        r.is_some() == labels.is_some(),
        labels.is_some() ==> r.unwrap()@ == metadata_read(labels.unwrap()@),
{
    match labels {
        Some(l) => Some(metadata_or_empty(l)),
        None => None,
    }
}

/// Decodes a stored audio row: a malformed type reads as speech and
/// malformed metadata as the empty object; the other columns as stored.
pub fn decode_audio_row(
    id: String,
    audio_type_column: &String,
    prompt: String,
    duration_seconds_bits: u32,
    local_path: String,
    supabase_url: Option<String>,
    metadata_column: String,
    created_at: String,
) -> (r: GeneratedAudio)
    ensures
        r.id == id,
        r.audio_type == category_of_column(audio_type_column@),
        r.prompt == prompt,
        r.duration_seconds_bits == duration_seconds_bits,
        r.local_path == local_path,
        r.supabase_url == supabase_url,
        r.metadata@ == metadata_read(metadata_column@),
        r.created_at == created_at,
{
    GeneratedAudio {
        id,
        audio_type: AudioType::from_column(audio_type_column),
        prompt,
        duration_seconds_bits,
        local_path,
        supabase_url,
        metadata: metadata_or_empty(metadata_column),
        created_at,
    }
}

/// Cached voice profiles, keyed by voice id and kept in order of name.
pub struct VoiceProfileDb {
    rows: Vec<VoiceProfile>,
}

impl VoiceProfileDb {
    /// The profiles, in ascending order of name.
    pub closed spec fn profiles(&self) -> Seq<VoiceProfile> {
        self.rows@
    }

    pub closed spec fn wf(&self) -> bool {
        table_wf(self.rows@)
    }

    /// A well-formed table is sorted by its column, with unique ids.
    pub proof fn lemma_wf(&self)
        requires
            self.wf(),
        ensures
            table_wf(self.profiles()),
    {
    }

    pub fn new() -> (r: VoiceProfileDb)
        ensures
            r.wf(),
            r.profiles() == Seq::<VoiceProfile>::empty(),
    {
        VoiceProfileDb { rows: Vec::new() }
    }

    /// Insert-or-replace of a profile by its voice id.
    pub fn save_voice_profile(&mut self, voice: VoiceProfile)
        requires
            old(self).wf(),
            old(self).profiles().len() < usize::MAX,
        ensures
            final(self).wf(),
            final(self).profiles() == upserted(old(self).profiles(), voice),
    {
        proof {
            lemma_upserted(self.rows@, voice);
        }
        upsert_row(&mut self.rows, voice);
    }

    /// All profiles, in ascending order of name.
    pub fn get_voice_profiles(&self) -> (r: Vec<VoiceProfile>)
        ensures
            r@ == self.profiles(),
    {
        let mut r: Vec<VoiceProfile> = Vec::new();
        let mut i: usize = 0;
        while i < self.rows.len()
            invariant
                i <= self.rows@.len(),
                r@ == self.rows@.take(i as int),
            decreases self.rows@.len() - i,
        {
            r.push(self.rows[i].duplicate());
            assert(r@ =~= self.rows@.take(i + 1));
            i = i + 1;
        }
        assert(self.rows@.take(i as int) =~= self.rows@);
        r
    }

    /// Deletes the profile with this voice id, if any.
    pub fn delete_voice_profile(&mut self, voice_id: &String)
        requires
            old(self).wf(),
        ensures
            final(self).wf(),
            final(self).profiles() == without(old(self).profiles(), id_of::<VoiceProfile>(), voice_id@),
    {
        proof {
            lemma_without(self.rows@, voice_id@);
        }
        delete_row(&mut self.rows, voice_id);
    }

    /// The profile with this voice id, if any.
    pub fn get_voice_profile(&self, voice_id: &String) -> (r: Option<VoiceProfile>)
        ensures
            r == find(self.profiles(), id_of::<VoiceProfile>(), voice_id@),
    {
        find_row(&self.rows, voice_id)
    }
}

/// Character-to-voice mappings, keyed by mapping id and kept in order of
/// character name.
pub struct CharacterVoiceDb {
    rows: Vec<CharacterVoice>,
}

impl CharacterVoiceDb {
    /// The mappings, in ascending order of character name.
    pub closed spec fn mappings(&self) -> Seq<CharacterVoice> {
        self.rows@
    }

    pub closed spec fn wf(&self) -> bool {
        table_wf(self.rows@)
    }

    /// A well-formed table is sorted by its column, with unique ids.
    pub proof fn lemma_wf(&self)
        requires
            self.wf(),
        ensures
            table_wf(self.mappings()),
    {
    }

    pub fn new() -> (r: CharacterVoiceDb)
        ensures
            r.wf(),
            r.mappings() == Seq::<CharacterVoice>::empty(),
    {
        CharacterVoiceDb { rows: Vec::new() }
    }

    /// Stores a mapping under the given id and creation time, replacing a
    /// mapping with that id; a mapping of the same character under another
    /// id stays.
    pub fn assign_voice_as(
        &mut self,
        id: String,
        created_at: String,
        character_name: &str,
        voice_id: &str,
        voice_name: &str,
        project_id: Option<&str>,
    ) -> (r: CharacterVoice)
        requires
            old(self).wf(),
            old(self).mappings().len() < usize::MAX,
        ensures
            r.id == id,
            r.created_at == created_at,
            r.character_name@ == character_name@,
            r.voice_id@ == voice_id@,
            r.voice_name@ == voice_name@,
            r.project_id.is_some() == project_id.is_some(),
            project_id.is_some() ==> r.project_id.unwrap()@ == project_id.unwrap()@,
            final(self).wf(),
            final(self).mappings() == upserted(old(self).mappings(), r),
    {
        let project_id = match project_id {
            Some(p) => Some(p.to_string()),
            None => None,
        };
        let mapping = CharacterVoice {
            id,
            character_name: character_name.to_string(),
            voice_id: voice_id.to_string(),
            voice_name: voice_name.to_string(),
            project_id,
            created_at,
        };
        let r = mapping.duplicate();
        proof {
            lemma_upserted(self.rows@, mapping);
        }
        upsert_row(&mut self.rows, mapping);
        r
    }

    /// Assigns a voice to a character under a fresh id and the current
    /// time. Each call adds a new row: an earlier mapping of the same
    /// character and project is not replaced. `None`, with the table
    /// unchanged, if the drawn id is already in use.
    pub fn assign_voice(
        &mut self,
        character_name: &str,
        voice_id: &str,
        voice_name: &str,
        project_id: Option<&str>,
    ) -> (r: Option<CharacterVoice>)
        requires
            old(self).wf(),
            old(self).mappings().len() < usize::MAX,
        ensures
            final(self).wf(),
            match r {
                Some(m) => {
                    &&& is_uuid_text(m.id@)
                    &&& is_utc_timestamp(m.created_at@)
                    &&& m.character_name@ == character_name@
                    &&& m.voice_id@ == voice_id@
                    &&& m.voice_name@ == voice_name@
                    &&& m.project_id.is_some() == project_id.is_some()
                    &&& project_id.is_some() ==> m.project_id.unwrap()@ == project_id.unwrap()@
                    &&& find(old(self).mappings(), id_of::<CharacterVoice>(), m.id@) == None::<
                        CharacterVoice,
                    >
                    &&& final(self).mappings() == inserted(
                        old(self).mappings(),
                        m,
                        key_of::<CharacterVoice>(),
                        false,
                    )
                },
                None => final(self).mappings() == old(self).mappings(),
            },
    {
        let id = new_uuid();
        if find_row(&self.rows, &id).is_some() {
            return None;
        }
        let created_at = now_rfc3339();
        let m = self.assign_voice_as(id, created_at, character_name, voice_id, voice_name, project_id);
        proof {
            lemma_upsert_absent(old(self).mappings(), m);
        }
        Some(m)
    }

    /// The mappings of a project, or all when none is given, in ascending
    /// order of character name.
    pub fn get_character_voices(&self, project_id: Option<&str>) -> (r: Vec<CharacterVoice>)
        ensures
            r@ == kept(
                self.mappings(),
                in_project(
                    match project_id {
                        Some(p) => Some(p@),
                        None => None,
                    },
                ),
            ),
    {
        let ghost sel = in_project(
            match project_id {
                Some(p) => Some(p@),
                None => None,
            },
        );
        let mut r: Vec<CharacterVoice> = Vec::new();
        let mut i: usize = 0;
        assert(self.rows@.take(0) =~= Seq::<CharacterVoice>::empty());
        while i < self.rows.len()
            invariant
                i <= self.rows@.len(),
                sel == in_project(
                    match project_id {
                        Some(p) => Some(p@),
                        None => None,
                    },
                ),
                r@ == kept(self.rows@.take(i as int), sel),
            decreases self.rows@.len() - i,
        {
            assert(self.rows@.take(i + 1).drop_last() =~= self.rows@.take(i as int));
            assert(self.rows@.take(i + 1).last() == self.rows@[i as int]);
            assert(sel(self.rows@[i as int]) == (match project_id {
                Some(p) => match self.rows@[i as int].project_id {
                    Some(x) => x@ == p@,
                    None => false,
                },
                None => true,
            }));
            let keep = match project_id {
                Some(p) => match &self.rows[i].project_id {
                    Some(x) => x.eq(&String::from_str(p)),
                    None => false,
                },
                None => true,
            };
            if keep {
                r.push(self.rows[i].duplicate());
            }
            i = i + 1;
        }
        assert(self.rows@.take(i as int) =~= self.rows@);
        r
    }

    /// Removes the mapping with this id, if any.
    pub fn remove_mapping(&mut self, id: &String)
        requires
            old(self).wf(),
        ensures
            final(self).wf(),
            final(self).mappings() == without(old(self).mappings(), id_of::<CharacterVoice>(), id@),
    {
        proof {
            lemma_without(self.rows@, id@);
        }
        delete_row(&mut self.rows, id);
    }
}

/// The stored credential of the remote service: absent until first set.
pub struct SettingsDb {
    api_key: Option<String>,
}

impl SettingsDb {
    /// The stored credential.
    pub closed spec fn credential(&self) -> Option<Seq<char>> {
        match self.api_key {
            Some(k) => Some(k@),
            None => None,
        }
    }

    pub fn new() -> (r: SettingsDb)
        ensures
            r.credential() == None::<Seq<char>>,
    {
        SettingsDb { api_key: None }
    }

    /// Stores the credential, replacing any earlier one.
    pub fn save_api_key(&mut self, api_key: &str)
        ensures
            final(self).credential() == Some(api_key@),
    {
        self.api_key = Some(api_key.to_string());
    }

    /// The stored credential, if any.
    pub fn get_api_key(&self) -> (r: Option<String>)
        ensures
            r.is_some() == self.credential().is_some(),
            r.is_some() ==> Some(r.unwrap()@) == self.credential(),
    {
        match &self.api_key {
            Some(k) => Some(k.clone()),
            None => None,
        }
    }

    /// Removes the credential.
    pub fn remove_api_key(&mut self)
        ensures
            final(self).credential() == None::<Seq<char>>,
    {
        self.api_key = None;
    }
}

} // verus!
