use vstd::prelude::*;

verus! {

/// The names of the operations that the host application registers.
pub open spec fn command_names() -> Seq<Seq<char>> {
    seq![
        "eleven_labs_set_api_key"@,
        "eleven_labs_has_api_key"@,
        "eleven_labs_list_voices"@,
        "eleven_labs_clone_voice"@,
        "eleven_labs_delete_voice"@,
        "eleven_labs_tts"@,
        "eleven_labs_generate_sfx"@,
        "eleven_labs_get_usage"@,
        "assign_voice_to_character"@,
        "list_character_voices"@,
        "get_cached_audio"@,
        "delete_cached_audio"@,
    ]
}

/// The names of all operations, for registration with the host
/// application.
pub fn get_commands() -> (r: Vec<&'static str>)
    ensures
        r@.map_values(|s: &'static str| s@) == command_names(),
{
    let mut r: Vec<&'static str> = Vec::new();
    r.push("eleven_labs_set_api_key");
    r.push("eleven_labs_has_api_key");
    r.push("eleven_labs_list_voices");
    r.push("eleven_labs_clone_voice");
    r.push("eleven_labs_delete_voice");
    r.push("eleven_labs_tts");
    r.push("eleven_labs_generate_sfx");
    r.push("eleven_labs_get_usage");
    r.push("assign_voice_to_character");
    r.push("list_character_voices");
    r.push("get_cached_audio");
    r.push("delete_cached_audio");
    assert(r@.map_values(|s: &'static str| s@) =~= command_names());
    r
}

} // verus!
