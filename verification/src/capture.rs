//! The capture policy: which of the frames that the camera hands over is the
//! picture, and under which name it is uploaded.

use crate::bytes::{ascii, push_ascii};
use crate::clock::{timestamp_text, SyncedClock};
use vstd::prelude::*;

verus! {

/// Frames that the sensor delivers after an idle period before one is fresh.
/// They are requested and thrown away.
pub const WARMUP_FRAMES: usize = 1;

/// Frames to request from the camera for one capture: the warm-up frames and
/// the picture.
pub const FRAMES_PER_CAPTURE: usize = WARMUP_FRAMES + 1;

/// One picture, ready for upload.
#[derive(Clone, Debug, PartialEq, Eq)]
pub struct CaptureEvent {
    pub timestamp: SyncedClock,
    pub image_bytes: Vec<u8>,
    pub filename: Vec<u8>,
}

/// The file name of a picture taken at the instant written as `label`.
pub open spec fn capture_filename(label: Seq<u8>) -> Seq<u8> {
    label + ascii(".jpg"@)
}

/// The picture among the frames of one capture, in the order in which the
/// camera was asked: the one after the warm-up frames, if the camera gave it.
pub open spec fn spec_select_frame(frames: Seq<Option<Vec<u8>>>) -> Option<Seq<u8>> {
    if frames.len() > WARMUP_FRAMES {
        match frames[WARMUP_FRAMES as int] {
            Some(frame) => Some(frame@),
            None => None,
        }
    } else {
        None
    }
}

/// Picks the picture out of the frames of one capture. The warm-up frames
/// are dropped whatever they hold; so is anything after the picture.
pub fn select_frame(frames: Vec<Option<Vec<u8>>>) -> (picture: Option<Vec<u8>>)
    ensures
        match picture {
            Some(p) => spec_select_frame(frames@) == Some(p@),
            None => spec_select_frame(frames@) is None,
        },
{
    let mut frames = frames;
    if frames.len() > WARMUP_FRAMES {
        frames.swap_remove(WARMUP_FRAMES)
    } else {
        None
    }
}

impl CaptureEvent {
    /// Names a picture after the written form of its instant. Without a
    /// written form there is no event.
    pub fn with_label(timestamp: SyncedClock, label: Option<Vec<u8>>, image: Vec<u8>) -> (event:
        Option<CaptureEvent>)
        ensures
            event is Some <==> label is Some,
            event matches Some(e) ==> e.timestamp == timestamp && e.image_bytes@ == image@
                && e.filename@ == capture_filename(label->0@),
    {
        match label {
            None => None,
            Some(text) => {
                let mut filename = text;
                proof {
                    reveal_strlit(".jpg");
                }
                push_ascii(&mut filename, ".jpg");
                Some(CaptureEvent { timestamp, image_bytes: image, filename })
            },
        }
    }

    /// The event for a picture taken at `timestamp`: its file name is the
    /// instant to the second, as `YYYY-MM-DDTHH:MM:SS.jpg`. There is none
    /// where the instant has no written form.
    pub fn new(timestamp: SyncedClock, image: Vec<u8>) -> (event: Option<CaptureEvent>)
        ensures
            event is Some <==> timestamp_text(timestamp@) is Some,
            event matches Some(e) ==> e.timestamp == timestamp && e.image_bytes@ == image@
                && e.filename@ == capture_filename(timestamp_text(timestamp@)->0),
    {
        let label = timestamp.label();
        CaptureEvent::with_label(timestamp, label, image)
    }
}

/// One capture: the picture among `frames`, named after `timestamp`. `None`
/// where the camera gave no picture or the instant has no written form.
pub fn capture(timestamp: SyncedClock, frames: Vec<Option<Vec<u8>>>) -> (event: Option<
    CaptureEvent,
>)
    ensures
        event is Some <==> spec_select_frame(frames@) is Some && timestamp_text(timestamp@)
            is Some,
        event matches Some(e) ==> e.timestamp == timestamp && Some(e.image_bytes@)
            == spec_select_frame(frames@) && e.filename@ == capture_filename(
            timestamp_text(timestamp@)->0,
        ),
{
    match select_frame(frames) {
        None => None,
        Some(image) => CaptureEvent::new(timestamp, image),
    }
}

} // verus!
