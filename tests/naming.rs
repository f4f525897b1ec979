use expodify2::{destination_name, extension, resolve_collision, tagged_name, TagTitle};

#[test]
fn extension_of_plain_name() {
    assert_eq!(extension("song.mp3"), Some("mp3".to_string()));
}

#[test]
fn extension_takes_last_period() {
    assert_eq!(extension("a.b.flac"), Some("flac".to_string()));
}

#[test]
fn extension_absent_without_period() {
    assert_eq!(extension("ABCD"), None);
}

#[test]
fn extension_absent_for_hidden_name() {
    assert_eq!(extension(".mp3"), None);
    assert_eq!(extension(".."), None);
    assert_eq!(extension(""), None);
}

#[test]
fn extension_empty_after_trailing_period() {
    assert_eq!(extension("song."), Some(String::new()));
}

#[test]
fn titled_file_takes_title_and_extension() {
    let tag = TagTitle::Title("Blue Monday".to_string());
    assert_eq!(destination_name("ABCD.m4a", &tag), "Blue Monday.m4a");
}

#[test]
fn titled_file_without_extension_keeps_trailing_period() {
    let tag = TagTitle::Title("Intro".to_string());
    assert_eq!(destination_name("ABCD", &tag), "Intro.");
}

#[test]
fn unreadable_tags_keep_original_name() {
    assert_eq!(destination_name("XKCD.mp3", &TagTitle::Unreadable), "XKCD.mp3");
}

#[test]
fn untitled_tags_keep_original_name() {
    assert_eq!(destination_name("XKCD.mp3", &TagTitle::Untitled), "XKCD.mp3");
}

#[test]
fn empty_title_keeps_original_name() {
    let tag = TagTitle::Title(String::new());
    assert_eq!(destination_name("XKCD.mp3", &tag), "XKCD.mp3");
}

#[test]
fn tagged_name_joins_with_underscore() {
    assert_eq!(tagged_name("aB3x9", "song.mp3"), "aB3x9_song.mp3");
}

#[test]
fn free_name_is_kept() {
    assert_eq!(resolve_collision("song.mp3", false), "song.mp3");
}

#[test]
fn taken_name_gets_random_tag() {
    let r = resolve_collision("song.mp3", true);
    assert_ne!(r, "song.mp3");
    assert_eq!(r.len(), "song.mp3".len() + 6);
    assert!(r.ends_with("_song.mp3"));
    assert!(r[..5].chars().all(|c| c.is_ascii_alphanumeric()));
}

#[test]
fn two_files_for_one_name_both_stay() {
    let name = destination_name("F00.mp3", &TagTitle::Title("Song".to_string()));
    let first = resolve_collision(&name, false);
    let second = resolve_collision(&name, true);
    assert_eq!(first, "Song.mp3");
    assert_ne!(first, second);
    assert!(second.ends_with("_Song.mp3"));
}
