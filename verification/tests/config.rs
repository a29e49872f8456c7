use theremin::config::{
    find_audio_file, AUDIO_PATHS, DEFAULT_PITCH, MAX_PITCH, MIN_PITCH, VIDEO_PATHS,
};

#[test]
fn the_paths_are_as_listed() {
    assert_eq!(
        AUDIO_PATHS,
        ["audio.mp3", "audio.wav", "sound.mp3", "assets/audio.mp3", "assets/sound.mp3"]
    );
    assert_eq!(
        VIDEO_PATHS,
        ["hand_video.mp4", "videos/hand_video.mp4", "test_video.mp4", "video.mp4", "assets/video.mp4"]
    );
}

#[test]
fn the_pitch_range_spans_two_octaves_each_way() {
    assert_eq!(MIN_PITCH, 250_000);
    assert_eq!(MAX_PITCH, 4_000_000);
    assert_eq!(DEFAULT_PITCH, 1_000_000);
}

#[test]
fn no_file_there_finds_none() {
    assert_eq!(find_audio_file(|_path: &str| false), None);
}

#[test]
fn the_first_file_there_is_found() {
    assert_eq!(find_audio_file(|_path: &str| true), Some(String::from("audio.mp3")));
    assert_eq!(
        find_audio_file(|path: &str| path.starts_with("assets/")),
        Some(String::from("assets/audio.mp3"))
    );
    assert_eq!(
        find_audio_file(|path: &str| path == "sound.mp3" || path == "assets/sound.mp3"),
        Some(String::from("sound.mp3"))
    );
    assert_eq!(
        find_audio_file(|path: &str| path == "assets/sound.mp3"),
        Some(String::from("assets/sound.mp3"))
    );
}

#[test]
fn a_file_not_listed_is_not_found() {
    assert_eq!(find_audio_file(|path: &str| path == "music.ogg"), None);
}

#[test]
fn paths_are_asked_in_order_and_no_further() {
    let asked = std::cell::RefCell::new(Vec::new());
    let found = find_audio_file(|path: &str| {
        asked.borrow_mut().push(path.to_string());
        path == "sound.mp3"
    });
    assert_eq!(found, Some(String::from("sound.mp3")));
    assert_eq!(*asked.borrow(), vec!["audio.mp3", "audio.wav", "sound.mp3"]);
}
