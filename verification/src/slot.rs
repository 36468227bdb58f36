//! The state a media player shares with the display thread: the latest
//! frame under a generation counter, and what the player reports about
//! itself.

use std::sync::Arc;
use vstd::prelude::*;

use crate::frame::DecodePath;
use crate::types::WallpaperKind;

verus! {

/// `Arc::clone`: another handle to the same value.
#[verifier::external_body]
pub(crate) fn arc_clone<T>(a: &Arc<T>) -> (r: Arc<T>)
    ensures
        r == *a,
{
    Arc::clone(a)
}

/// What a player publishes; `F` is the frame type.
#[derive(Debug)]
pub struct SlotState<F> {
    pub path: Option<String>,
    pub kind: Option<WallpaperKind>,
    /// Bumped (wrapping) on every new frame.
    pub generation: u64,
    pub latest: Option<Arc<F>>,
    pub decode_path: DecodePath,
    pub warning: Option<String>,
    pub playing: bool,
}

/// `new` is `old` with `frame` published under the next generation.
pub open spec fn published<F>(new: SlotState<F>, old: SlotState<F>, frame: F, path: DecodePath) -> bool {
    &&& new.generation == (if old.generation == u64::MAX {
        0
    } else {
        old.generation + 1
    })
    &&& new.latest == Some(Arc::new(frame))
    &&& new.decode_path == path
    &&& new.playing
    &&& new.path == old.path
    &&& new.kind == old.kind
    &&& new.warning == old.warning
}

/// A reader at generation `g0` asked for a newer frame, moved to `g1` and
/// got `r`: the latest frame when it was behind, nothing otherwise.
pub open spec fn read_newer<F>(s: SlotState<F>, g0: u64, g1: u64, r: Option<Arc<F>>) -> bool {
    if g0 != s.generation {
        g1 == s.generation && r == s.latest
    } else {
        g1 == g0 && r is None
    }
}

/// A reader at generation `g0`, offered what a slot published (generation
/// `p.0`, frame `p.1`), moved to `g1` and got `r`: the published frame when
/// it was behind, nothing otherwise.
pub open spec fn takes_published<F>(p: (u64, Option<Arc<F>>), g0: u64, g1: u64, r: Option<Arc<F>>) -> bool {
    if g0 != p.0 {
        g1 == p.0 && r == p.1
    } else {
        g1 == g0 && r is None
    }
}

impl<F> SlotState<F> {
    /// An empty slot: no source, no frame, generation 0.
    pub fn new() -> (r: Self)
        ensures
            r.path is None && r.kind is None && r.generation == 0 && r.latest is None,
            r.decode_path == DecodePath::Idle && r.warning is None && !r.playing,
    {
        SlotState {
            path: None,
            kind: None,
            generation: 0,
            latest: None,
            decode_path: DecodePath::Idle,
            warning: None,
            playing: false,
        }
    }

    /// Publishes a new frame.
    pub fn set_frame(&mut self, frame: F, path: DecodePath)
        ensures
            published(*final(self), *old(self), frame, path),
    {
        self.generation = self.generation.wrapping_add(1);
        self.latest = Some(Arc::new(frame));
        self.decode_path = path;
        self.playing = true;
    }

    /// The latest frame if `last_gen` is behind, bringing `last_gen` up to
    /// date.
    pub fn frame_if_newer(&self, last_gen: &mut u64) -> (r: Option<Arc<F>>)
        ensures
            read_newer(*self, *old(last_gen), *final(last_gen), r),
    {
        if self.generation != *last_gen {
            *last_gen = self.generation;
            match &self.latest {
                Some(f) => Some(arc_clone(f)),
                None => None,
            }
        } else {
            None
        }
    }

    /// What the slot has published: its generation and latest frame.
    pub fn published_frame(&self) -> (r: (u64, Option<Arc<F>>))
        ensures
            r.0 == self.generation,
            r.1 == self.latest,
    {
        let latest = match &self.latest {
            Some(f) => Some(arc_clone(f)),
            None => None,
        };
        (self.generation, latest)
    }

    pub fn set_source(&mut self, path: String, kind: WallpaperKind)
        ensures
            final(self).path == Some(path),
            final(self).kind == Some(kind),
            final(self).generation == old(self).generation,
            final(self).latest == old(self).latest,
            final(self).decode_path == old(self).decode_path,
            final(self).warning == old(self).warning,
            final(self).playing == old(self).playing,
    {
        self.path = Some(path);
        self.kind = Some(kind);
    }
}

/// A reader that was up to date sees a newly published frame once, and
/// nothing more until the next one.
pub proof fn new_frame_seen_once<F>(
    s0: SlotState<F>,
    s1: SlotState<F>,
    frame: F,
    path: DecodePath,
    g1: u64,
    r1: Option<Arc<F>>,
    g2: u64,
    r2: Option<Arc<F>>,
)
    requires
        published(s1, s0, frame, path),
        read_newer(s1, s0.generation, g1, r1),
        read_newer(s1, g1, g2, r2),
    ensures
        r1 == Some(Arc::new(frame)),
        r2 is None,
        g2 == s1.generation,
{
}

} // verus!
