use eleven_labs::cache::{join_path, select_files, total_size, AudioCache};
use eleven_labs::commands::get_commands;
use eleven_labs::order::text_less;
use eleven_labs::types::AudioType;

#[test]
fn joins_with_one_separator() {
    assert_eq!(join_path("/tmp/audio", "tts"), "/tmp/audio/tts");
    assert_eq!(join_path("/tmp/audio/", "tts"), "/tmp/audio/tts");
    assert_eq!(join_path("", "tts"), "tts");
}

#[test]
fn category_directories() {
    let c = AudioCache::new("/cache/opcode/audio".to_string());
    assert_eq!(c.cache_dir(), "/cache/opcode/audio");
    assert_eq!(c.category_dir(AudioType::Tts), "/cache/opcode/audio/tts");
    assert_eq!(c.category_dir(AudioType::Sfx), "/cache/opcode/audio/sfx");
    assert_eq!(c.category_dir(AudioType::Music), "/cache/opcode/audio/music");
}

#[test]
fn file_paths() {
    let c = AudioCache::new("/c".to_string());
    assert_eq!(c.file_path(AudioType::Sfx, "abc", "mp3"), "/c/sfx/abc.mp3");
}

#[test]
fn fresh_paths_differ_and_sit_in_category() {
    let c = AudioCache::new("/c".to_string());
    let a = c.new_file_path(AudioType::Tts, "mp3");
    let b = c.new_file_path(AudioType::Tts, "mp3");
    assert_ne!(a, b);
    assert!(a.starts_with("/c/tts/"));
    assert!(a.ends_with(".mp3"));
    assert_eq!(a.len(), "/c/tts/".len() + 36 + ".mp3".len());
}

#[test]
fn listing_keeps_regular_files_only() {
    let entries = vec![
        ("/c/tts/a.mp3".to_string(), true),
        ("/c/tts/sub".to_string(), false),
        ("/c/tts/b.mp3".to_string(), true),
    ];
    assert_eq!(select_files(&entries), vec!["/c/tts/a.mp3".to_string(), "/c/tts/b.mp3".to_string()]);
    assert!(select_files(&vec![]).is_empty());
}

#[test]
fn size_skips_vanished_files() {
    assert_eq!(total_size(&vec![Some(10), None, Some(32)]), Some(42));
    assert_eq!(total_size(&vec![]), Some(0));
}

#[test]
fn size_grows_by_saved_length() {
    let mut sizes = vec![Some(100), Some(5)];
    let before = total_size(&sizes).unwrap();
    sizes.push(Some(2048));
    assert_eq!(total_size(&sizes).unwrap(), before + 2048);
}

#[test]
fn size_overflow_is_reported() {
    assert_eq!(total_size(&vec![Some(u64::MAX), Some(1)]), None);
    assert_eq!(total_size(&vec![Some(u64::MAX), None]), Some(u64::MAX));
}

#[test]
fn text_order_is_bytewise() {
    assert!(text_less("2024-01-01", "2024-01-02"));
    assert!(!text_less("b", "a"));
    assert!(text_less("a", "ab"));
    assert!(!text_less("a", "a"));
    assert!(text_less("Z", "a"));
}

#[test]
fn command_list() {
    let c = get_commands();
    assert_eq!(c.len(), 12);
    assert_eq!(c[0], "eleven_labs_set_api_key");
    assert_eq!(c[5], "eleven_labs_tts");
    assert_eq!(c[11], "delete_cached_audio");
}
