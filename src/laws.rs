use vstd::prelude::*;
use crate::order::{text_key, text_lt};
use crate::rows::{
    find, id_of, insert_pos, inserted, kept, key_of, lemma_find_none_absent, lemma_insert_pos,
    lemma_kept_all, lemma_kept_from, lemma_kept_ordered, lemma_upserted, other_id, table_wf,
    upserted, without, Row,
};
use crate::store::{of_type, AudioCacheDb, CharacterVoiceDb, VoiceProfileDb};
use crate::types::{AudioType, CharacterVoice, GeneratedAudio, VoiceProfile};

verus! {

/// Replacing an audio record by its id never leaves two records with one
/// id, and a lookup by that id then returns the latest record.
pub proof fn audio_replace_keeps_one(db: AudioCacheDb, audio: GeneratedAudio)
    requires
        db.wf(),
    ensures
        table_wf(upserted(db.records(), audio)),
        find(upserted(db.records(), audio), id_of::<GeneratedAudio>(), audio.id@) == Some(audio),
{
    db.lemma_wf();
    lemma_upserted(db.records(), audio);
}

/// Replacing a voice profile by its voice id never leaves two profiles
/// with one id, and a lookup by that id then returns the latest profile.
pub proof fn voice_replace_keeps_one(db: VoiceProfileDb, voice: VoiceProfile)
    requires
        db.wf(),
    ensures
        table_wf(upserted(db.profiles(), voice)),
        find(upserted(db.profiles(), voice), id_of::<VoiceProfile>(), voice.voice_id@) == Some(
            voice,
        ),
{
    db.lemma_wf();
    lemma_upserted(db.profiles(), voice);
}

/// The records listed for a category are all of that category, newest
/// first.
pub proof fn records_of_type_newest_first(db: AudioCacheDb, t: AudioType)
    requires
        db.wf(),
    ensures
        forall|i: int|
            0 <= i < kept(db.records(), of_type(t)).len() ==> (#[trigger] kept(
                db.records(),
                of_type(t),
            )[i]).audio_type == t,
        forall|i: int, j: int|
            0 <= i < j < kept(db.records(), of_type(t)).len() ==> !text_lt(
                text_key((#[trigger] kept(db.records(), of_type(t))[i]).created_at@),
                text_key((#[trigger] kept(db.records(), of_type(t))[j]).created_at@),
            ),
{
    let s = kept(db.records(), of_type(t));
    db.lemma_wf();
    lemma_kept_from(db.records(), of_type(t));
    lemma_kept_ordered(db.records(), of_type(t), key_of::<GeneratedAudio>(), true);
    assert forall|i: int| 0 <= i < s.len() implies (#[trigger] s[i]).audio_type == t by {
        assert(of_type(t)(s[i]));
    }
    assert forall|i: int, j: int| 0 <= i < j < s.len() implies !text_lt(
        text_key((#[trigger] s[i]).created_at@),
        text_key((#[trigger] s[j]).created_at@),
    ) by {
        assert(key_of::<GeneratedAudio>()(s[i]) == text_key(s[i].created_at@));
        assert(key_of::<GeneratedAudio>()(s[j]) == text_key(s[j].created_at@));
    }
}

/// Two successful voice assignments, for the same character and project
/// or not, leave two rows with different ids: the second does not replace
/// the first, and the table grows by two.
pub proof fn assign_twice_adds_two_rows(db: CharacterVoiceDb, first: CharacterVoice, second: CharacterVoice)
    requires
        find(db.mappings(), id_of::<CharacterVoice>(), first.id@) == None::<CharacterVoice>,
        find(
            inserted(db.mappings(), first, key_of::<CharacterVoice>(), false),
            id_of::<CharacterVoice>(),
            second.id@,
        ) == None::<CharacterVoice>,
    ensures
        first.id@ != second.id@,
        inserted(
            inserted(db.mappings(), first, key_of::<CharacterVoice>(), false),
            second,
            key_of::<CharacterVoice>(),
            false,
        ).contains(first),
        inserted(
            inserted(db.mappings(), first, key_of::<CharacterVoice>(), false),
            second,
            key_of::<CharacterVoice>(),
            false,
        ).contains(second),
        inserted(
            inserted(db.mappings(), first, key_of::<CharacterVoice>(), false),
            second,
            key_of::<CharacterVoice>(),
            false,
        ).len() == db.mappings().len() + 2,
{
    let key = key_of::<CharacterVoice>();
    let s = db.mappings();
    let once = inserted(s, first, key, false);
    let p = insert_pos(s, key(first), key, false) as int;
    lemma_insert_pos(s, key(first), key, false);
    assert(once[p] == first);
    lemma_find_none_absent(once, id_of::<CharacterVoice>(), second.id@);
    assert(id_of::<CharacterVoice>()(once[p]) != second.id@);
    let twice = inserted(once, second, key, false);
    let q = insert_pos(once, key(second), key, false) as int;
    lemma_insert_pos(once, key(second), key, false);
    assert(twice[q] == second);
    if p < q {
        assert(twice[p] == first);
    } else {
        assert(twice[p + 1] == first);
    }
}

/// Deleting an audio record whose id is not present is no error and
/// leaves the records as they were.
pub proof fn delete_absent_record_changes_nothing(db: AudioCacheDb, id: Seq<char>)
    requires
        find(db.records(), id_of::<GeneratedAudio>(), id) == None::<GeneratedAudio>,
    ensures
        without(db.records(), id_of::<GeneratedAudio>(), id) == db.records(),
{
    lemma_find_none_absent(db.records(), id_of::<GeneratedAudio>(), id);
    let keep = other_id(id_of::<GeneratedAudio>(), id);
    assert forall|i: int| 0 <= i < db.records().len() implies keep(#[trigger] db.records()[i]) by {
        assert(id_of::<GeneratedAudio>()(db.records()[i]) != id);
    }
    lemma_kept_all(db.records(), keep);
}

} // verus!
