//! Where frames come from: the camera, or else a video file that is played
//! round and round.
//!
//! Opening, reading and rewinding are the caller's; what is decided here is
//! the order in which sources are tried and what an empty frame means.

use vstd::prelude::*;
use crate::config::VIDEO_PATHS;

verus! {

/// The number of sources: the camera and the five video files.
pub const SOURCES: usize = 6;

/// A source of frames.
#[derive(Clone, Copy, Debug, PartialEq, Eq, Structural)]
pub enum CaptureSource {
    /// The first camera of the machine.
    Camera,
    /// The video file at this index of the list of video paths.
    Video(usize),
}

/// Why no source was chosen.
#[derive(Debug)]
pub enum CaptureError<E> {
    /// Neither the camera nor any video file opened.
    NoSource,
    /// Trying a source failed.
    Failed(E),
}

/// The sources in the order tried: the camera, then the video files in the
/// order of their list.
pub open spec fn source_at(k: int) -> CaptureSource {
    if k == 0 {
        CaptureSource::Camera
    } else {
        CaptureSource::Video((k - 1) as usize)
    }
}

impl CaptureSource {
    /// The path of the video file that this source is; none for the camera
    /// and for an index beyond the list of video paths.
    pub fn path(&self) -> (r: Option<&'static str>)
        ensures
            match *self {
                CaptureSource::Video(index) if index < 5 => r.is_some() && r.unwrap()@
                    == VIDEO_PATHS[index as int]@,
                _ => r.is_none(),
            },
    {
        match self {
            CaptureSource::Camera => None,
            CaptureSource::Video(index) => {
                if *index < 5 {
                    Some(VIDEO_PATHS[*index])
                } else {
                    None
                }
            },
        }
    }

    /// Whether this is the camera.
    pub fn is_camera(&self) -> (r: bool)
        ensures
            r == (*self == CaptureSource::Camera),
    {
        match self {
            CaptureSource::Camera => true,
            CaptureSource::Video(_) => false,
        }
    }
}

/// Whether `opens` found every source before the one at `k` closed.
pub open spec fn closed_before<E, F: Fn(CaptureSource) -> Result<bool, E>>(
    opens: F,
    k: int,
) -> bool {
    forall|j: int| 0 <= j < k ==> #[trigger] opens.ensures((source_at(j),), Ok(false))
}

/// Whether the search ended at the source at `k` with `outcome`: every
/// source before it was found closed, and trying it gave `outcome`.
pub open spec fn ended_at<E, F: Fn(CaptureSource) -> Result<bool, E>>(
    opens: F,
    k: int,
    outcome: Result<bool, E>,
) -> bool {
    0 <= k < SOURCES && closed_before(opens, k) && opens.ensures((source_at(k),), outcome)
}

/// Chooses the first source that opens. `opens` tries to open the source it
/// is given and tells whether it is open; the sources are tried in order,
/// and the first failure ends the search.
pub fn initialize_capture<E, F: Fn(CaptureSource) -> Result<bool, E>>(opens: F) -> (r: Result<
    CaptureSource,
    CaptureError<E>,
>)
    requires
        forall|source: CaptureSource| opens.requires((source,)),
    ensures
        match r {
            Ok(source) => exists|k: int|
                #[trigger] ended_at(opens, k, Ok(true)) && source == source_at(k),
            Err(CaptureError::NoSource) => closed_before(opens, SOURCES as int),
            Err(CaptureError::Failed(error)) => exists|k: int|
                #[trigger] ended_at(opens, k, Err(error)),
        },
{
    let mut k: usize = 0;
    while k < SOURCES
        invariant
            k <= SOURCES,
            forall|source: CaptureSource| opens.requires((source,)),
            closed_before(opens, k as int),
        decreases SOURCES - k,
    {
        let source = if k == 0 {
            CaptureSource::Camera
        } else {
            CaptureSource::Video(k - 1)
        };
        let outcome = opens(source);
        assert(ended_at(opens, k as int, outcome));
        match outcome {
            Ok(true) => {
                return Ok(source);
            },
            Ok(false) => {},
            Err(error) => {
                let failed: Result<CaptureSource, CaptureError<E>> = Err(
                    CaptureError::Failed(error),
                );
                assert(failed matches Err(CaptureError::Failed(cause)) && ended_at(
                    opens,
                    k as int,
                    Err::<bool, E>(cause),
                ));
                return failed;
            },
        }
        k += 1;
    }
    Err(CaptureError::NoSource)
}

/// Whether a frame that came back like this calls for rewinding: it is empty
/// and comes from a video file, which is then over.
pub open spec fn rewinds<E>(is_camera: bool, first: Result<bool, E>) -> bool {
    first matches Ok(empty) && empty && !is_camera
}

/// What reading a frame comes to when the first read gives `first` and,
/// where they take place, the rewinding gives `set_back` and the second read
/// `second`. An empty frame from the camera is handed on as it is. After an
/// empty frame from a video file the file is rewound and read again, and
/// only if that frame is empty too is there nothing to hand on. The first
/// failure is passed on.
pub open spec fn frame_outcome<E>(
    is_camera: bool,
    first: Result<bool, E>,
    set_back: Result<(), E>,
    second: Result<bool, E>,
) -> Result<bool, E> {
    match first {
        Err(error) => Err(error),
        Ok(empty) => if !rewinds(is_camera, first) {
            Ok(true)
        } else {
            match set_back {
                Err(error) => Err(error),
                Ok(_) => match second {
                    Err(error) => Err(error),
                    Ok(still_empty) => Ok(!still_empty),
                },
            }
        },
    }
}

/// Reads the next frame. `read` reads a frame and tells whether it is empty;
/// `rewind` sets a video file back to its first frame. The result is whether
/// there is a frame to hand on: see [`frame_outcome`]. The file is rewound
/// only after an empty frame from a video file, and read a second time only
/// after it was rewound.
pub fn read_frame<E, R: Fn() -> Result<bool, E>, W: Fn() -> Result<(), E>>(
    read: R,
    rewind: W,
    is_camera: bool,
) -> (r: Result<bool, E>)
    requires
        read.requires(()),
        rewind.requires(()),
    ensures
        exists|first: Result<bool, E>, set_back: Result<(), E>, second: Result<bool, E>|
            {
                &&& r == #[trigger] frame_outcome(is_camera, first, set_back, second)
                &&& read.ensures((), first)
                &&& rewinds(is_camera, first) ==> rewind.ensures((), set_back)
                &&& rewinds(is_camera, first) && set_back.is_ok() ==> read.ensures((), second)
            },
{
    let first = read();
    let ghost unused_rewind: Result<(), E> = Ok(());
    let ghost unused_read: Result<bool, E> = Ok(true);
    match first {
        Err(error) => {
            let failed: Result<bool, E> = Err(error);
            assert(failed == frame_outcome(is_camera, first, unused_rewind, unused_read));
            failed
        },
        Ok(empty) => {
            if empty && !is_camera {
                let set_back = rewind();
                match set_back {
                    Err(error) => {
                        let failed: Result<bool, E> = Err(error);
                        assert(failed == frame_outcome(is_camera, first, set_back, unused_read));
                        failed
                    },
                    Ok(_) => {
                        let second = read();
                        match second {
                            Err(error) => {
                                let failed: Result<bool, E> = Err(error);
                                assert(failed == frame_outcome(is_camera, first, set_back, second));
                                failed
                            },
                            Ok(still_empty) => {
                                let r: Result<bool, E> = Ok(!still_empty);
                                assert(r == frame_outcome(is_camera, first, set_back, second));
                                r
                            },
                        }
                    },
                }
            } else {
                let r: Result<bool, E> = Ok(true);
                assert(r == frame_outcome(is_camera, first, unused_rewind, unused_read));
                r
            }
        },
    }
}

} // verus!
