use astromech_control::audio_manager::{is_playable, AudioFile, AudioManager};
use astromech_control::config::{default_buffer_size, AudioConfig};
use astromech_control::errors::HardwareError;

fn manager() -> AudioManager {
    AudioManager::new(AudioConfig { audio_directory: "/srv/audio".to_string(), buffer_size: 32768 })
        .unwrap()
}

fn names(list: &[&[u8]]) -> Vec<Vec<u8>> {
    list.iter().map(|n| n.to_vec()).collect()
}

#[test]
fn single_beep_is_listed() {
    let m = manager();
    let files = m.list_audio_files(&names(&[b"beep.mp3"])).unwrap();
    assert_eq!(
        files,
        vec![AudioFile { name: "beep.mp3".to_string(), path: "/audio/beep.mp3".to_string() }]
    );
}

#[test]
fn only_mp3_files_are_listed_in_order() {
    let m = manager();
    let files = m
        .list_audio_files(&names(&[b"b.mp3", b"notes.txt", b".mp3", b"mp3", b"a.wav", b"a.mp3", b"x.MP3", b"c.mp3.bak"]))
        .unwrap();
    let listed: Vec<&str> = files.iter().map(|f| f.name.as_str()).collect();
    assert_eq!(listed, vec!["b.mp3", "a.mp3"]);
    assert_eq!(files[1].path, "/audio/a.mp3");
}

#[test]
fn empty_directory_lists_nothing() {
    assert!(manager().list_audio_files(&Vec::new()).unwrap().is_empty());
}

#[test]
fn non_utf8_playable_name_is_an_error() {
    let m = manager();
    let r = m.list_audio_files(&names(&[b"ok.mp3", b"\xff\xfe.mp3"]));
    assert!(matches!(r, Err(HardwareError::Other(_))));
}

#[test]
fn non_utf8_other_name_is_skipped() {
    let m = manager();
    let files = m.list_audio_files(&names(&[b"\xff.txt", b"tune.mp3"])).unwrap();
    assert_eq!(files.len(), 1);
    assert_eq!(files[0].name, "tune.mp3");
}

#[test]
fn unicode_names_are_kept() {
    let m = manager();
    let files = m.list_audio_files(&names(&["réveil.mp3".as_bytes()])).unwrap();
    assert_eq!(files[0].name, "réveil.mp3");
    assert_eq!(files[0].path, "/audio/réveil.mp3");
}

#[test]
fn playable_extension() {
    assert!(is_playable(&b"a.mp3".to_vec()));
    assert!(!is_playable(&b".mp3".to_vec()));
    assert!(!is_playable(&b"a.mp4".to_vec()));
}

#[test]
fn play_then_status_is_playing() {
    let mut m = manager();
    let id = m.play_audio("beep.mp3", true).unwrap();
    let status = m.get_status(id).unwrap();
    assert_eq!(status.id, id);
    assert!(status.playing);
    assert_eq!(status.file_name, "beep.mp3");
    assert_eq!(m.list_active_playbacks(), vec![id]);
}

#[test]
fn play_missing_file_is_not_found() {
    let mut m = manager();
    let r = m.play_audio("missing.mp3", false);
    assert!(matches!(r, Err(HardwareError::NotFound(_))));
    assert!(m.list_active_playbacks().is_empty());
}

#[test]
fn playbacks_get_distinct_ids() {
    let mut m = manager();
    let a = m.play_audio("a.mp3", true).unwrap();
    let b = m.play_audio("b.mp3", true).unwrap();
    let c = m.play_audio("a.mp3", true).unwrap();
    assert!(a != b && b != c && a != c);
    assert_eq!(m.list_active_playbacks().len(), 3);
}

#[test]
fn colliding_candidate_takes_next_free_id() {
    let mut m = manager();
    assert_eq!(m.start_session("a.mp3", 7), 7);
    assert_eq!(m.start_session("b.mp3", 8), 8);
    assert_eq!(m.start_session("c.mp3", 7), 9);
    assert_eq!(m.get_status(9).unwrap().file_name, "c.mp3");
}

#[test]
fn probing_wraps_past_the_largest_id() {
    let mut m = manager();
    assert_eq!(m.start_session("a.mp3", u128::MAX), u128::MAX);
    assert_eq!(m.start_session("b.mp3", u128::MAX), 0);
}

#[test]
fn finished_playback_is_not_found() {
    let mut m = manager();
    let id = m.play_audio("beep.mp3", true).unwrap();
    let other = m.play_audio("boop.mp3", true).unwrap();
    m.finish_playback(id);
    assert!(m.get_status(id).is_none());
    assert!(m.get_status(other).is_some());
    m.finish_playback(id);
    assert_eq!(m.list_active_playbacks(), vec![other]);
}

#[test]
fn stop_active_and_unknown() {
    let mut m = manager();
    let id = m.play_audio("beep.mp3", true).unwrap();
    assert!(m.stop_audio(id).is_ok());
    assert!(m.get_status(id).is_none());
    assert!(matches!(m.stop_audio(id), Err(HardwareError::NotFound(_))));
    assert!(matches!(m.stop_audio(12345), Err(HardwareError::NotFound(_))));
}

#[test]
fn stop_all_clears_every_session() {
    let mut m = manager();
    let a = m.play_audio("a.mp3", true).unwrap();
    let b = m.play_audio("b.mp3", true).unwrap();
    m.stop_all();
    assert!(m.get_status(a).is_none());
    assert!(m.get_status(b).is_none());
    assert!(m.list_active_playbacks().is_empty());
    assert_eq!(m.config().audio_directory, "/srv/audio");
}

#[test]
fn default_buffer_size_is_32768() {
    assert_eq!(default_buffer_size(), 32768);
}
