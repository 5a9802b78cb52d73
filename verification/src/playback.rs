//! What is playing: the index of the current track and its length.

use vstd::prelude::*;
use crate::time::Duration;

verus! {

/// The track that playback is on, by its index in the track list, and that
/// track's length.
pub struct PlaybackState {
    pub index: usize,
    pub duration: Duration,
}

impl PlaybackState {
    /// Playback on the first track, of no length yet.
    pub fn new() -> (s: PlaybackState)
        ensures
            s.index == 0,
            s.duration@ == 0,
    {
        PlaybackState { index: 0, duration: Duration::zero() }
    }
}

} // verus!
