//! The loading screen, and the frames of the pictures that move.

use vstd::prelude::*;

use crate::timer::{Countdown, CountdownView};
use crate::AppState;

verus! {

/// The time the loading screen stays, in nanoseconds: four seconds.
pub const LOADING_NANOS: u64 = 4_000_000_000;

/// The countdown of the loading screen.
#[derive(Debug, Clone, Copy, PartialEq, Eq)]
pub struct LoadingTimer {
    pub loading_timer: Countdown,
}

impl Default for LoadingTimer {
    fn default() -> (timer: LoadingTimer)
        ensures
            timer.loading_timer@ == (CountdownView {
                duration: LOADING_NANOS as nat,
                elapsed: 0,
                finished: false,
                paused: false,
            }),
    {
        LoadingTimer { loading_timer: Countdown::from_nanos(LOADING_NANOS) }
    }
}

/// Shows the loading screen for `delta` more nanoseconds. Once its time is up
/// the main menu follows, on this step and on every later one.
pub fn tick_loading(delta: u64, timer: &mut LoadingTimer) -> (next: Option<AppState>)
    ensures
        final(timer).loading_timer@ == old(timer).loading_timer@.tick(delta as nat),
        next == if final(timer).loading_timer@.finished {
            Some(AppState::MainMenu)
        } else {
            None
        },
{
    timer.loading_timer.tick(delta);
    if timer.loading_timer.finished() {
        Some(AppState::MainMenu)
    } else {
        None
    }
}

/// The frames of a moving picture: the first and the last place on its sheet.
#[derive(Debug, Clone, Copy, PartialEq, Eq, Hash, Structural)]
pub struct AnimationIndices {
    pub first: usize,
    pub last: usize,
}

impl AnimationIndices {
    /// The frame that follows `index`: the next place on the sheet, and the
    /// first frame again after the last.
    pub open spec fn spec_following(self, index: usize) -> int {
        if index == self.last {
            self.first as int
        } else {
            index + 1
        }
    }

    /// The frame that follows `index`.
    pub fn following(&self, index: usize) -> (next: usize)
        requires
            index == self.last || index < usize::MAX,
        ensures
            next == self.spec_following(index),
    {
        if index == self.last {
            self.first
        } else {
            index + 1
        }
    }
}

/// Moves a picture on by one frame when its time has come, and leaves it
/// where it is otherwise. `just_finished` says whether the picture's own
/// clock has come round on this step.
pub fn animate_background_and_load(
    indices: &AnimationIndices,
    just_finished: bool,
    index: usize,
) -> (next: usize)
    requires
        !just_finished || index == indices.last || index < usize::MAX,
    ensures
        next == if just_finished {
            indices.spec_following(index)
        } else {
            index as int
        },
{
    if just_finished {
        indices.following(index)
    } else {
        index
    }
}

} // verus!
