//! Fixed settings: where media files are looked for, and the pitch range.

use vstd::prelude::*;

verus! {

/// Video files to fall back on when no camera is there, in the order tried.
pub const VIDEO_PATHS: [&'static str; 5] = [
    "hand_video.mp4",
    "videos/hand_video.mp4",
    "test_video.mp4",
    "video.mp4",
    "assets/video.mp4",
];

/// Audio files to play, in the order tried.
pub const AUDIO_PATHS: [&'static str; 5] = [
    "audio.mp3",
    "audio.wav",
    "sound.mp3",
    "assets/audio.mp3",
    "assets/sound.mp3",
];

/// Lowest pitch factor: two octaves down.
pub const MIN_PITCH: i64 = 250_000;

/// Highest pitch factor: two octaves up.
pub const MAX_PITCH: i64 = 4_000_000;

/// The pitch factor of unchanged playback.
pub const DEFAULT_PITCH: i64 = 1_000_000;

/// Whether `present` said of every audio path before the one at `k` that it
/// is not there.
pub open spec fn absent_before<F: Fn(&str) -> bool>(present: F, k: int) -> bool {
    forall|j: int| 0 <= j < k ==> #[trigger] present.ensures((AUDIO_PATHS[j],), false)
}

/// Whether the audio path at `k` is the first that `present` said is there.
pub open spec fn first_present<F: Fn(&str) -> bool>(present: F, k: int) -> bool {
    0 <= k < 5 && absent_before(present, k) && present.ensures((AUDIO_PATHS[k],), true)
}

/// The first of [`AUDIO_PATHS`] that `present` says is there, or `None` when
/// it says so of none. `present` is asked about each path in turn, up to and
/// including the one returned, and about no other.
pub fn find_audio_file<F: Fn(&str) -> bool>(present: F) -> (r: Option<String>)
    requires
        forall|path: &str| present.requires((path,)),
    ensures
        match r {
            Some(found) => exists|k: int|
                #[trigger] first_present(present, k) && found@ == AUDIO_PATHS[k]@,
            None => absent_before(present, 5),
        },
{
    let mut i: usize = 0;
    while i < 5
        invariant
            i <= 5,
            forall|path: &str| present.requires((path,)),
            absent_before(present, i as int),
        decreases 5 - i,
    {
        let path: &str = AUDIO_PATHS[i];
        if present(path) {
            assert(first_present(present, i as int));
            return Some(path.to_owned());
        }
        i += 1;
    }
    None
}

} // verus!
