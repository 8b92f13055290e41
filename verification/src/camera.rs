//! Camera collaborator logic the core owns: following the player and
//! clamped zooming. The camera itself (projection, viewport) belongs to
//! the presentation collaborator; the core only keeps its position on
//! the player and its zoom scale inside the allowed bounds.

use vstd::prelude::*;

use crate::consts::{CAMERA_ZOOM_MAX, CAMERA_ZOOM_MIN};
use crate::input::CameraEvent;
use crate::math::{clamped, V2};

verus! {

/// Moves the camera onto the player.
pub fn camera_follow(camera_pos: &mut V2, player_pos: &V2)
    ensures
        *final(camera_pos) == *player_pos,
{
    *camera_pos = *player_pos;
}

/// The zoom scale after one zoom intent: the delta is subtracted and
/// the result clamped into the allowed zoom interval.
pub open spec fn zoom_step(scale: int, e: CameraEvent) -> int {
    match e {
        CameraEvent::Zoom(delta) => clamped(
            scale - delta,
            CAMERA_ZOOM_MIN as int,
            CAMERA_ZOOM_MAX as int,
        ),
    }
}

/// The zoom scale after a whole tick's zoom intents, applied in order.
pub open spec fn zoom_fold(scale: int, events: Seq<CameraEvent>) -> int
    decreases events.len(),
{
    if events.len() == 0 {
        scale
    } else {
        zoom_step(zoom_fold(scale, events.drop_last()), events.last())
    }
}

/// Applies the tick's zoom intents to the camera's zoom scale, clamping
/// after each one.
pub fn camera_zoom(scale: &mut i64, events: &Vec<CameraEvent>)
    requires
        -1_000_000_000 <= *old(scale) <= 1_000_000_000,
        forall|i: int|
            0 <= i < events@.len() ==> ((#[trigger] events@[i]) matches CameraEvent::Zoom(d)
                ==> -1_000_000_000 <= d <= 1_000_000_000),
    ensures
        *final(scale) == zoom_fold(*old(scale) as int, events@),
        events@.len() > 0 ==> CAMERA_ZOOM_MIN <= *final(scale) <= CAMERA_ZOOM_MAX,
{
    let mut i: usize = 0;
    while i < events.len()
        invariant
            0 <= i <= events@.len(),
            *scale as int == zoom_fold(*old(scale) as int, events@.take(i as int)),
            i > 0 ==> CAMERA_ZOOM_MIN <= *scale <= CAMERA_ZOOM_MAX,
            i == 0 ==> -1_000_000_000 <= *scale <= 1_000_000_000,
            forall|j: int|
                0 <= j < events@.len() ==> ((#[trigger] events@[j]) matches CameraEvent::Zoom(d)
                    ==> -1_000_000_000 <= d <= 1_000_000_000),
        decreases events@.len() - i,
    {
        proof {
            assert(events@.take(i + 1int).drop_last() =~= events@.take(i as int));
            assert(events@.take(i + 1int).last() == events@[i as int]);
        }
        let e = events[i];
        match e {
            CameraEvent::Zoom(delta) => {
                let lowered: i64 = *scale - delta;
                *scale = crate::math::clamp(lowered, CAMERA_ZOOM_MIN, CAMERA_ZOOM_MAX);
            },
        }
        i = i + 1;
    }
    proof {
        assert(events@.take(events@.len() as int) =~= events@);
    }
}

} // verus!
