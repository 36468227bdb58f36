//! Shared-memory pool sizing for frame uploads.

use vstd::prelude::*;

verus! {

/// Pool sizes are whole pages of 4096 bytes.
pub const POOL_PAGE: usize = 4096;

/// `usize::next_multiple_of(4096)`: the smallest multiple of 4096 not
/// below `need`.
pub open spec fn spec_pool_size(need: usize) -> int {
    ((need + 4095) / 4096) * 4096
}

pub fn pool_size_for(need: usize) -> (r: usize)
    requires
        need <= usize::MAX - 4095,
    ensures
        r == spec_pool_size(need),
        r >= need,
        r % 4096 == 0,
        r < need + 4096,
{
    let r = ((need + 4095) / 4096) * 4096;
    r
}

/// Whether a new pool is needed for a frame of `need` bytes, given the
/// size of the current pool if there is one.
pub fn needs_new_pool(current: Option<usize>, need: usize) -> (r: bool)
    ensures
        r == match current {
            None => true,
            Some(size) => size < need,
        },
{
    match current {
        None => true,
        Some(size) => size < need,
    }
}

/// Checks that a frame of `len` bytes fits a pool of `size` bytes.
pub fn check_fits_pool(len: usize, size: usize) -> (r: Result<(), String>)
    ensures
        len > size ==> (r matches Err(e) && e@ == "frame larger than shm pool"@),
        len <= size ==> r is Ok,
{
    if len > size {
        return Err(String::from_str("frame larger than shm pool"));
    }
    Ok(())
}

/// What a player thread does next.
#[derive(Debug, Clone, Copy, PartialEq, Eq, Structural)]
pub enum PlaybackAction {
    /// The player was stopped: leave the loop.
    Stop,
    /// Playback is paused: report not playing and wait.
    Wait,
    /// Decode and publish the next frame.
    Advance,
}

/// The next step of a player loop: stopping wins over pausing.
pub fn playback_action(stop: bool, paused: bool) -> (r: PlaybackAction)
    ensures
        stop ==> r == PlaybackAction::Stop,
        !stop && paused ==> r == PlaybackAction::Wait,
        !stop && !paused ==> r == PlaybackAction::Advance,
{
    if stop {
        PlaybackAction::Stop
    } else if paused {
        PlaybackAction::Wait
    } else {
        PlaybackAction::Advance
    }
}

} // verus!
