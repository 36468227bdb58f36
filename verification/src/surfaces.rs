//! The display thread's book of outputs: one background surface per output,
//! what it shows, and which of them are due for a new frame.

use std::sync::Arc;
use vstd::prelude::*;

use crate::config::{is_all, names_all};
use crate::ipc::OutputStatus;
use crate::slot::{arc_clone, read_newer, takes_published, SlotState};
use crate::types::{spec_kind_of, ScaleMode, WallpaperKind};

verus! {

/// The bookkeeping of one output's surface; `S` is the shared media slot.
#[derive(Debug)]
pub struct Surface<S> {
    pub name: String,
    pub width: u32,
    pub height: u32,
    pub refresh_mhz: i32,
    pub mode: ScaleMode,
    pub slot: Option<Arc<S>>,
    pub path: Option<String>,
    pub kind: Option<WallpaperKind>,
    pub configured: bool,
    pub last_frame_gen: u64,
}

/// All surfaces, one per output name.
#[derive(Debug)]
pub struct Surfaces<S> {
    pub list: Vec<Surface<S>>,
}

/// Whether a command for `output` addresses the surface named `name`.
pub open spec fn addresses(output: Seq<char>, name: Seq<char>) -> bool {
    is_all(output) || name == output
}

/// `a` and `b` are the same surface apart from what it shows.
pub open spec fn same_surface<S>(a: Surface<S>, b: Surface<S>) -> bool {
    &&& a.name == b.name
    &&& a.width == b.width
    &&& a.height == b.height
    &&& a.refresh_mhz == b.refresh_mhz
    &&& a.configured == b.configured
    &&& a.last_frame_gen == b.last_frame_gen
}

/// The non-negative part of a mode dimension.
pub open spec fn clamp_dim(v: i32) -> u32 {
    if v < 0 {
        0
    } else {
        v as u32
    }
}

fn clamp_nonneg(v: i32) -> (r: u32)
    ensures
        r == clamp_dim(v),
{
    if v < 0 {
        0
    } else {
        v as u32
    }
}

fn clone_opt_string(s: &Option<String>) -> (r: Option<String>)
    ensures
        r == *s,
{
    match s {
        Some(x) => Some(x.clone()),
        None => None,
    }
}

fn clone_opt_arc<S>(s: &Option<Arc<S>>) -> (r: Option<Arc<S>>)
    ensures
        r == *s,
{
    match s {
        Some(x) => Some(arc_clone(x)),
        None => None,
    }
}

/// Whether a surface is due to show frames: configured, with a size, and
/// with a slot to take them from.
pub open spec fn presentable<S>(s: Surface<S>) -> bool {
    s.configured && s.width > 0 && s.height > 0 && s.slot is Some
}

impl<S> Surfaces<S> {
    /// Names are distinct.
    pub open spec fn wf(&self) -> bool {
        forall|i: int, j: int|
            0 <= i < j < self.list@.len() ==> self.list@[i].name@ != self.list@[j].name@
    }

    pub fn new() -> (r: Self)
        ensures
            r.wf(),
            r.list@.len() == 0,
    {
        Surfaces { list: Vec::new() }
    }

    /// Index of the surface named `name`, if any.
    pub fn index_of(&self, name: &str) -> (r: Option<usize>)
        ensures
            match r {
                Some(i) => i < self.list@.len() && self.list@[i as int].name@ == name@,
                None => forall|i: int|
                    0 <= i < self.list@.len() ==> #[trigger] self.list@[i].name@ != name@,
            },
    {
        let key = name.to_owned();
        let mut i: usize = 0;
        while i < self.list.len()
            invariant
                i <= self.list@.len(),
                key@ == name@,
                forall|j: int| 0 <= j < i ==> #[trigger] self.list@[j].name@ != name@,
            decreases self.list@.len() - i,
        {
            if self.list[i].name == key {
                return Some(i);
            }
            i = i + 1;
        }
        None
    }

    /// Shows `path` in `mode` from `slot` on the addressed surfaces. Returns
    /// whether a named output was unknown.
    pub fn set_wallpaper(&mut self, output: &str, path: &str, mode: ScaleMode, slot: &Arc<S>) -> (unknown: bool)
        requires
            old(self).wf(),
        ensures
            final(self).wf(),
            final(self).list@.len() == old(self).list@.len(),
            unknown == (!is_all(output@) && forall|i: int|
                0 <= i < old(self).list@.len() ==> #[trigger] old(self).list@[i].name@ != output@),
            forall|i: int|
                0 <= i < final(self).list@.len() ==> {
                    let a = #[trigger] final(self).list@[i];
                    let b = old(self).list@[i];
                    &&& same_surface(a, b)
                    &&& if addresses(output@, b.name@) {
                        &&& a.mode == mode
                        &&& a.path matches Some(p) && p@ == path@
                        &&& a.kind == Some(spec_kind_of(path@))
                        &&& a.slot == Some(*slot)
                    } else {
                        &&& a.mode == b.mode
                        &&& a.path == b.path
                        &&& a.kind == b.kind
                        &&& a.slot == b.slot
                    }
                },
    {
        let all = names_all(output);
        let kind = WallpaperKind::from_path(path);
        let key = output.to_owned();
        let ghost old_list = self.list@;
        let mut found = false;
        let mut i: usize = 0;
        while i < self.list.len()
            invariant
                i <= self.list@.len(),
                self.list@.len() == old_list.len(),
                key@ == output@,
                all == is_all(output@),
                kind == spec_kind_of(path@),
                found == exists|j: int| 0 <= j < i && #[trigger] old_list[j].name@ == output@,
                forall|j: int| 0 <= j < old_list.len() ==> #[trigger] self.list@[j].name == old_list[j].name,
                forall|j: int|
                    i <= j < old_list.len() ==> #[trigger] self.list@[j] == old_list[j],
                forall|j: int|
                    0 <= j < i ==> {
                        let a = #[trigger] self.list@[j];
                        let b = old_list[j];
                        &&& same_surface(a, b)
                        &&& if addresses(output@, b.name@) {
                            &&& a.mode == mode
                            &&& a.path matches Some(p) && p@ == path@
                            &&& a.kind == Some(spec_kind_of(path@))
                            &&& a.slot == Some(*slot)
                        } else {
                            &&& a.mode == b.mode
                            &&& a.path == b.path
                            &&& a.kind == b.kind
                            &&& a.slot == b.slot
                        }
                    },
            decreases self.list@.len() - i,
        {
            let hit = self.list[i].name == key;
            if hit {
                found = true;
            }
            if all || hit {
                let s = Surface {
                    name: self.list[i].name.clone(),
                    width: self.list[i].width,
                    height: self.list[i].height,
                    refresh_mhz: self.list[i].refresh_mhz,
                    mode,
                    slot: Some(arc_clone(slot)),
                    path: Some(String::from_str(path)),
                    kind: Some(kind),
                    configured: self.list[i].configured,
                    last_frame_gen: self.list[i].last_frame_gen,
                };
                self.list.set(i, s);
            }
            i = i + 1;
        }
        assert(self.wf()) by {
            assert forall|a: int, b: int| 0 <= a < b < self.list@.len() implies self.list@[a].name@
                != self.list@[b].name@ by {
                assert(self.list@[a].name == old_list[a].name);
                assert(self.list@[b].name == old_list[b].name);
            }
        }
        proof {
            if !found {
                assert forall|j: int| 0 <= j < old_list.len() implies #[trigger] old_list[j].name@ != output@ by {
                    if old_list[j].name@ == output@ {
                        assert(exists|k: int| 0 <= k < i && #[trigger] old_list[k].name@ == output@);
                    }
                }
            }
        }
        !all && !found
    }

    /// Stops showing anything on the addressed surfaces.
    pub fn clear(&mut self, output: &str)
        requires
            old(self).wf(),
        ensures
            final(self).wf(),
            final(self).list@.len() == old(self).list@.len(),
            forall|i: int|
                0 <= i < final(self).list@.len() ==> {
                    let a = #[trigger] final(self).list@[i];
                    let b = old(self).list@[i];
                    &&& same_surface(a, b)
                    &&& a.mode == b.mode
                    &&& if addresses(output@, b.name@) {
                        a.slot is None && a.path is None && a.kind is None
                    } else {
                        a.path == b.path && a.kind == b.kind && a.slot == b.slot
                    }
                },
    {
        let all = names_all(output);
        let key = output.to_owned();
        let ghost old_list = self.list@;
        let mut i: usize = 0;
        while i < self.list.len()
            invariant
                i <= self.list@.len(),
                self.list@.len() == old_list.len(),
                key@ == output@,
                all == is_all(output@),
                forall|j: int| 0 <= j < old_list.len() ==> #[trigger] self.list@[j].name == old_list[j].name,
                forall|j: int| i <= j < old_list.len() ==> #[trigger] self.list@[j] == old_list[j],
                forall|j: int|
                    0 <= j < i ==> {
                        let a = #[trigger] self.list@[j];
                        let b = old_list[j];
                        &&& same_surface(a, b)
                        &&& a.mode == b.mode
                        &&& if addresses(output@, b.name@) {
                            a.slot is None && a.path is None && a.kind is None
                        } else {
                            a.path == b.path && a.kind == b.kind && a.slot == b.slot
                        }
                    },
            decreases self.list@.len() - i,
        {
            if all || self.list[i].name == key {
                let s = Surface {
                    name: self.list[i].name.clone(),
                    width: self.list[i].width,
                    height: self.list[i].height,
                    refresh_mhz: self.list[i].refresh_mhz,
                    mode: self.list[i].mode,
                    slot: None,
                    path: None,
                    kind: None,
                    configured: self.list[i].configured,
                    last_frame_gen: self.list[i].last_frame_gen,
                };
                self.list.set(i, s);
            }
            i = i + 1;
        }
        assert(self.wf()) by {
            assert forall|a: int, b: int| 0 <= a < b < self.list@.len() implies self.list@[a].name@
                != self.list@[b].name@ by {
                assert(self.list@[a].name == old_list[a].name);
                assert(self.list@[b].name == old_list[b].name);
            }
        }
    }

    /// Changes the scale mode of the surface named `output` (exactly).
    pub fn set_scale_mode(&mut self, output: &str, mode: ScaleMode)
        requires
            old(self).wf(),
        ensures
            final(self).wf(),
            final(self).list@.len() == old(self).list@.len(),
            forall|i: int|
                0 <= i < final(self).list@.len() ==> {
                    let a = #[trigger] final(self).list@[i];
                    let b = old(self).list@[i];
                    &&& same_surface(a, b)
                    &&& a.path == b.path && a.kind == b.kind && a.slot == b.slot
                    &&& a.mode == (if b.name@ == output@ {
                        mode
                    } else {
                        b.mode
                    })
                },
    {
        match self.index_of(output) {
            Some(i) => {
                let s = Surface {
                    name: self.list[i].name.clone(),
                    width: self.list[i].width,
                    height: self.list[i].height,
                    refresh_mhz: self.list[i].refresh_mhz,
                    mode,
                    slot: clone_opt_arc(&self.list[i].slot),
                    path: clone_opt_string(&self.list[i].path),
                    kind: self.list[i].kind,
                    configured: self.list[i].configured,
                    last_frame_gen: self.list[i].last_frame_gen,
                };
                let ghost old_list = self.list@;
                self.list.set(i, s);
                proof {
                    assert forall|j: int| 0 <= j < self.list@.len() && j != i implies #[trigger] self.list@[j] == old_list[j] by {}
                    assert forall|j: int| 0 <= j < self.list@.len() && j != i implies #[trigger] old_list[j].name@ != output@ by {
                        if j < i {
                            assert(old_list[j].name@ != old_list[i as int].name@);
                        } else {
                            assert(old_list[i as int].name@ != old_list[j].name@);
                        }
                    }
                    assert forall|a: int, b: int| 0 <= a < b < self.list@.len() implies self.list@[a].name@
                        != self.list@[b].name@ by {
                        assert(self.list@[a].name == old_list[a].name);
                        assert(self.list@[b].name == old_list[b].name);
                    }
                }
            },
            None => {},
        }
    }

    /// Makes sure the output `name` has a surface of the given mode size.
    /// An existing surface takes the new size and refresh rate; otherwise a
    /// new one is added (showing nothing, scaled to fill, not yet
    /// configured) and `true` is returned so that the caller creates it on
    /// the compositor.
    pub fn ensure(&mut self, name: &str, width: i32, height: i32, refresh: i32) -> (created: bool)
        requires
            old(self).wf(),
        ensures
            final(self).wf(),
            created == (forall|i: int|
                0 <= i < old(self).list@.len() ==> #[trigger] old(self).list@[i].name@ != name@),
            !created ==> final(self).list@.len() == old(self).list@.len() && forall|i: int|
                0 <= i < final(self).list@.len() ==> {
                    let a = #[trigger] final(self).list@[i];
                    let b = old(self).list@[i];
                    if b.name@ == name@ {
                        &&& a.width == clamp_dim(width)
                        &&& a.height == clamp_dim(height)
                        &&& a.refresh_mhz == refresh
                        &&& a.name == b.name && a.mode == b.mode && a.slot == b.slot
                        &&& a.path == b.path && a.kind == b.kind && a.configured == b.configured
                        &&& a.last_frame_gen == b.last_frame_gen
                    } else {
                        a == b
                    }
                },
            created ==> final(self).list@ == old(self).list@.push(final(self).list@.last()) && ({
                let a = final(self).list@.last();
                &&& a.name@ == name@
                &&& a.width == clamp_dim(width)
                &&& a.height == clamp_dim(height)
                &&& a.refresh_mhz == refresh
                &&& a.mode == ScaleMode::Fill
                &&& a.slot is None && a.path is None && a.kind is None
                &&& !a.configured && a.last_frame_gen == 0
            }),
    {
        let ghost old_list = self.list@;
        match self.index_of(name) {
            Some(i) => {
                let s = Surface {
                    name: self.list[i].name.clone(),
                    width: clamp_nonneg(width),
                    height: clamp_nonneg(height),
                    refresh_mhz: refresh,
                    mode: self.list[i].mode,
                    slot: clone_opt_arc(&self.list[i].slot),
                    path: clone_opt_string(&self.list[i].path),
                    kind: self.list[i].kind,
                    configured: self.list[i].configured,
                    last_frame_gen: self.list[i].last_frame_gen,
                };
                self.list.set(i, s);
                proof {
                    assert forall|j: int| 0 <= j < self.list@.len() && j != i implies #[trigger] old_list[j].name@ != name@ by {
                        if j < i {
                            assert(old_list[j].name@ != old_list[i as int].name@);
                        } else {
                            assert(old_list[i as int].name@ != old_list[j].name@);
                        }
                    }
                    assert forall|a: int, b: int| 0 <= a < b < self.list@.len() implies self.list@[a].name@
                        != self.list@[b].name@ by {
                        assert(self.list@[a].name == old_list[a].name);
                        assert(self.list@[b].name == old_list[b].name);
                    }
                    assert(!(forall|j: int| 0 <= j < old_list.len() ==> #[trigger] old_list[j].name@ != name@));
                }
                false
            },
            None => {
                self.list.push(
                    Surface {
                        name: String::from_str(name),
                        width: clamp_nonneg(width),
                        height: clamp_nonneg(height),
                        refresh_mhz: refresh,
                        mode: ScaleMode::Fill,
                        slot: None,
                        path: None,
                        kind: None,
                        configured: false,
                        last_frame_gen: 0,
                    },
                );
                proof {
                    assert(self.list@ =~= old_list.push(self.list@.last()));
                    assert forall|a: int, b: int| 0 <= a < b < self.list@.len() implies self.list@[a].name@
                        != self.list@[b].name@ by {
                        if b == old_list.len() {
                            assert(old_list[a].name@ != name@);
                        } else {
                            assert(old_list[a].name@ != old_list[b].name@);
                        }
                    }
                }
                true
            },
        }
    }

    /// Forgets the surface named `name`, if there is one.
    pub fn remove(&mut self, name: &str)
        requires
            old(self).wf(),
        ensures
            final(self).wf(),
            match old(self).index_of_spec(name@) {
                Some(i) => final(self).list@ == old(self).list@.remove(i),
                None => final(self).list@ == old(self).list@,
            },
    {
        match self.index_of(name) {
            Some(i) => {
                let ghost old_list = self.list@;
                proof {
                    self.lemma_index_of_spec(name@, i as int);
                }
                self.list.remove(i);
                proof {
                    assert forall|a: int, b: int| 0 <= a < b < self.list@.len() implies self.list@[a].name@
                        != self.list@[b].name@ by {
                        let a0 = if a < i { a } else { a + 1 };
                        let b0 = if b < i { b } else { b + 1 };
                        assert(self.list@[a] == old_list[a0] && self.list@[b] == old_list[b0]);
                    }
                }
            },
            None => {
                proof {
                    if self.index_of_spec(name@) is Some {
                        let k = choose|k: int| 0 <= k < self.list@.len() && self.list@[k].name@ == name@;
                        assert(self.list@[k].name@ != name@);
                    }
                }
            },
        }
    }

    /// The index of the surface named `name`.
    pub open spec fn index_of_spec(&self, name: Seq<char>) -> Option<int> {
        if exists|k: int| 0 <= k < self.list@.len() && self.list@[k].name@ == name {
            Some(choose|k: int| 0 <= k < self.list@.len() && self.list@[k].name@ == name)
        } else {
            None
        }
    }

    proof fn lemma_index_of_spec(&self, name: Seq<char>, i: int)
        requires
            self.wf(),
            0 <= i < self.list@.len(),
            self.list@[i].name@ == name,
        ensures
            self.index_of_spec(name) == Some(i),
    {
        let k = choose|k: int| 0 <= k < self.list@.len() && self.list@[k].name@ == name;
        if k != i {
            if k < i {
                assert(self.list@[k].name@ != self.list@[i].name@);
            } else {
                assert(self.list@[i].name@ != self.list@[k].name@);
            }
        }
    }

    /// The compositor configured the surface named `name`: non-zero
    /// dimensions are taken over and the surface may now show frames.
    pub fn configure(&mut self, name: &str, new_width: u32, new_height: u32)
        requires
            old(self).wf(),
        ensures
            final(self).wf(),
            final(self).list@.len() == old(self).list@.len(),
            forall|i: int|
                0 <= i < final(self).list@.len() ==> {
                    let a = #[trigger] final(self).list@[i];
                    let b = old(self).list@[i];
                    if b.name@ == name@ {
                        &&& a.width == (if new_width > 0 {
                            new_width
                        } else {
                            b.width
                        })
                        &&& a.height == (if new_height > 0 {
                            new_height
                        } else {
                            b.height
                        })
                        &&& a.configured
                        &&& a.name == b.name && a.mode == b.mode && a.slot == b.slot
                        &&& a.path == b.path && a.kind == b.kind && a.refresh_mhz == b.refresh_mhz
                        &&& a.last_frame_gen == b.last_frame_gen
                    } else {
                        a == b
                    }
                },
    {
        match self.index_of(name) {
            Some(i) => {
                let w = if new_width > 0 {
                    new_width
                } else {
                    self.list[i].width
                };
                let h = if new_height > 0 {
                    new_height
                } else {
                    self.list[i].height
                };
                let s = Surface {
                    name: self.list[i].name.clone(),
                    width: w,
                    height: h,
                    refresh_mhz: self.list[i].refresh_mhz,
                    mode: self.list[i].mode,
                    slot: clone_opt_arc(&self.list[i].slot),
                    path: clone_opt_string(&self.list[i].path),
                    kind: self.list[i].kind,
                    configured: true,
                    last_frame_gen: self.list[i].last_frame_gen,
                };
                let ghost old_list = self.list@;
                self.list.set(i, s);
                proof {
                    assert forall|j: int| 0 <= j < self.list@.len() && j != i implies #[trigger] old_list[j].name@ != name@ by {
                        if j < i {
                            assert(old_list[j].name@ != old_list[i as int].name@);
                        } else {
                            assert(old_list[i as int].name@ != old_list[j].name@);
                        }
                    }
                    assert forall|a: int, b: int| 0 <= a < b < self.list@.len() implies self.list@[a].name@
                        != self.list@[b].name@ by {
                        assert(self.list@[a].name == old_list[a].name);
                        assert(self.list@[b].name == old_list[b].name);
                    }
                }
            },
            None => {},
        }
    }

    /// Indices of the surfaces due to show frames, in order.
    pub fn presentable_indices(&self) -> (r: Vec<usize>)
        ensures
            forall|k: int| 0 <= k < r@.len() ==> #[trigger] r@[k] < self.list@.len() && presentable(self.list@[r@[k] as int]),
            forall|k1: int, k2: int| 0 <= k1 < k2 < r@.len() ==> r@[k1] < r@[k2],
            forall|i: int| 0 <= i < self.list@.len() && presentable(#[trigger] self.list@[i]) ==> r@.contains(i as usize),
    {
        let mut r: Vec<usize> = Vec::new();
        let mut i: usize = 0;
        while i < self.list.len()
            invariant
                i <= self.list@.len(),
                forall|k: int| 0 <= k < r@.len() ==> #[trigger] r@[k] < i && presentable(self.list@[r@[k] as int]),
                forall|k1: int, k2: int| 0 <= k1 < k2 < r@.len() ==> r@[k1] < r@[k2],
                forall|j: int| 0 <= j < i && presentable(#[trigger] self.list@[j]) ==> r@.contains(j as usize),
            decreases self.list@.len() - i,
        {
            let s = &self.list[i];
            if s.configured && s.width > 0 && s.height > 0 && s.slot.is_some() {
                let ghost before = r@;
                r.push(i);
                assert forall|j: int| 0 <= j < i && presentable(#[trigger] self.list@[j]) implies r@.contains(j as usize) by {
                    let k = choose|k: int| 0 <= k < before.len() && before[k] == j as usize;
                    assert(r@[k] == j as usize);
                }
                assert(r@[r@.len() - 1] == i);
            }
            i = i + 1;
        }
        r
    }

    /// Moves surface `i` to frame generation `g`, changing nothing else.
    fn set_frame_gen(&mut self, i: usize, g: u64)
        requires
            old(self).wf(),
            i < old(self).list@.len(),
        ensures
            final(self).wf(),
            final(self).list@.len() == old(self).list@.len(),
            final(self).list@[i as int] == (Surface { last_frame_gen: g, ..old(self).list@[i as int] }),
            forall|j: int| 0 <= j < final(self).list@.len() && j != i ==> #[trigger] final(self).list@[j] == old(self).list@[j],
    {
        let s = Surface {
            name: self.list[i].name.clone(),
            width: self.list[i].width,
            height: self.list[i].height,
            refresh_mhz: self.list[i].refresh_mhz,
            mode: self.list[i].mode,
            slot: clone_opt_arc(&self.list[i].slot),
            path: clone_opt_string(&self.list[i].path),
            kind: self.list[i].kind,
            configured: self.list[i].configured,
            last_frame_gen: g,
        };
        let ghost old_list = self.list@;
        self.list.set(i, s);
        proof {
            assert forall|a: int, b: int| 0 <= a < b < self.list@.len() implies self.list@[a].name@
                != self.list@[b].name@ by {
                assert(self.list@[a].name == old_list[a].name);
                assert(self.list@[b].name == old_list[b].name);
            }
        }
    }

    /// Each due surface takes its own slot's frame: `offered[k]` is what the
    /// slot of surface `due[k]` has published, and `r[k]` is the frame that
    /// surface is to show, if it has not shown it yet. `due` lists surfaces
    /// in increasing order, as `presentable_indices` gives them.
    pub fn take_due_frames<F>(&mut self, due: &Vec<usize>, offered: &Vec<(u64, Option<Arc<F>>)>) -> (r: Vec<Option<Arc<F>>>)
        requires
            old(self).wf(),
            offered@.len() == due@.len(),
            forall|k: int| 0 <= k < due@.len() ==> #[trigger] due@[k] < old(self).list@.len(),
            forall|a: int, b: int| 0 <= a < b < due@.len() ==> due@[a] < due@[b],
        ensures
            final(self).wf(),
            final(self).list@.len() == old(self).list@.len(),
            r@.len() == due@.len(),
            forall|k: int| 0 <= k < due@.len() ==> takes_published(
                #[trigger] offered@[k],
                old(self).list@[due@[k] as int].last_frame_gen,
                final(self).list@[due@[k] as int].last_frame_gen,
                r@[k],
            ),
            forall|j: int| 0 <= j < final(self).list@.len() ==> #[trigger] final(self).list@[j] == (Surface {
                last_frame_gen: final(self).list@[j].last_frame_gen,
                ..old(self).list@[j]
            }),
            forall|j: int| 0 <= j < final(self).list@.len() && !due@.contains(j as usize) ==> #[trigger] final(self).list@[j] == old(self).list@[j],
    {
        let ghost old_list = self.list@;
        let mut r: Vec<Option<Arc<F>>> = Vec::new();
        let mut k: usize = 0;
        while k < due.len()
            invariant
                k <= due@.len(),
                offered@.len() == due@.len(),
                self.wf(),
                self.list@.len() == old_list.len(),
                r@.len() == k,
                forall|m: int| 0 <= m < due@.len() ==> #[trigger] due@[m] < old_list.len(),
                forall|a: int, b: int| 0 <= a < b < due@.len() ==> due@[a] < due@[b],
                forall|m: int| 0 <= m < k ==> takes_published(
                    #[trigger] offered@[m],
                    old_list[due@[m] as int].last_frame_gen,
                    self.list@[due@[m] as int].last_frame_gen,
                    r@[m],
                ),
                forall|j: int| 0 <= j < self.list@.len() ==> #[trigger] self.list@[j] == (Surface {
                    last_frame_gen: self.list@[j].last_frame_gen,
                    ..old_list[j]
                }),
                forall|j: int| 0 <= j < self.list@.len() && !due@.take(k as int).contains(j as usize) ==> #[trigger] self.list@[j] == old_list[j],
            decreases due@.len() - k,
        {
            let i = due[k];
            let ghost before = self.list@;
            assert(!due@.take(k as int).contains(i)) by {
                if due@.take(k as int).contains(i) {
                    let m = choose|m: int| 0 <= m < k && due@.take(k as int)[m] == i;
                    assert(due@[m] < due@[k as int]);
                }
            }
            assert(self.list@[i as int] == old_list[i as int]);
            let g = offered[k].0;
            let taken = if g != self.list[i].last_frame_gen {
                self.set_frame_gen(i, g);
                match &offered[k].1 {
                    Some(f) => Some(arc_clone(f)),
                    None => None,
                }
            } else {
                None
            };
            r.push(taken);
            proof {
                assert forall|m: int| 0 <= m < k implies due@[m] != i by {
                    assert(due@[m] < due@[k as int]);
                }
                assert forall|m: int| 0 <= m < k + 1 implies takes_published(
                    #[trigger] offered@[m],
                    old_list[due@[m] as int].last_frame_gen,
                    self.list@[due@[m] as int].last_frame_gen,
                    r@[m],
                ) by {
                    if m < k {
                        assert(due@[m] != i);
                        assert(self.list@[due@[m] as int] == before[due@[m] as int]);
                    }
                }
                assert forall|j: int| 0 <= j < self.list@.len() && !due@.take(k + 1).contains(j as usize) implies #[trigger] self.list@[j] == old_list[j] by {
                    if due@.take(k as int).contains(j as usize) {
                        let m = choose|m: int| 0 <= m < k && due@.take(k as int)[m] == j as usize;
                        assert(due@.take(k + 1)[m] == j as usize);
                    }
                    if j == i {
                        assert(due@.take(k + 1)[k as int] == i);
                    }
                }
            }
            k = k + 1;
        }
        proof {
            assert(due@.take(k as int) =~= due@);
        }
        r
    }

    /// Takes the slot's latest frame for surface `i` if that surface has not
    /// seen it yet.
    pub fn take_new_frame<F>(&mut self, i: usize, state: &SlotState<F>) -> (r: Option<Arc<F>>)
        requires
            old(self).wf(),
            i < old(self).list@.len(),
        ensures
            final(self).wf(),
            final(self).list@.len() == old(self).list@.len(),
            read_newer(*state, old(self).list@[i as int].last_frame_gen, final(self).list@[i as int].last_frame_gen, r),
            forall|j: int| 0 <= j < final(self).list@.len() ==> {
                let a = #[trigger] final(self).list@[j];
                let b = old(self).list@[j];
                if j == i {
                    a == Surface { last_frame_gen: a.last_frame_gen, ..b }
                } else {
                    a == b
                }
            },
    {
        let mut g = self.list[i].last_frame_gen;
        let r = state.frame_if_newer(&mut g);
        let s = Surface {
            name: self.list[i].name.clone(),
            width: self.list[i].width,
            height: self.list[i].height,
            refresh_mhz: self.list[i].refresh_mhz,
            mode: self.list[i].mode,
            slot: clone_opt_arc(&self.list[i].slot),
            path: clone_opt_string(&self.list[i].path),
            kind: self.list[i].kind,
            configured: self.list[i].configured,
            last_frame_gen: g,
        };
        let ghost old_list = self.list@;
        self.list.set(i, s);
        proof {
            assert forall|a: int, b: int| 0 <= a < b < self.list@.len() implies self.list@[a].name@
                != self.list@[b].name@ by {
                assert(self.list@[a].name == old_list[a].name);
                assert(self.list@[b].name == old_list[b].name);
            }
        }
        r
    }

    /// The status of every output; `playing[i]` says whether the slot of
    /// surface `i` reports playback.
    pub fn status(&self, playing: &Vec<bool>) -> (r: Vec<OutputStatus>)
        requires
            playing@.len() == self.list@.len(),
        ensures
            r@.len() == self.list@.len(),
            forall|i: int| 0 <= i < r@.len() ==> {
                let o = #[trigger] r@[i];
                let s = self.list@[i];
                &&& o.name == s.name
                &&& o.width == s.width as i32
                &&& o.height == s.height as i32
                &&& o.refresh_mhz == s.refresh_mhz
                &&& o.path == s.path
                &&& o.kind == s.kind
                &&& o.mode == s.mode
                &&& o.playing == (s.slot is Some && playing@[i])
            },
    {
        let mut r: Vec<OutputStatus> = Vec::new();
        let mut i: usize = 0;
        while i < self.list.len()
            invariant
                i <= self.list@.len(),
                playing@.len() == self.list@.len(),
                r@.len() == i,
                forall|j: int| 0 <= j < i ==> {
                    let o = #[trigger] r@[j];
                    let s = self.list@[j];
                    &&& o.name == s.name
                    &&& o.width == s.width as i32
                    &&& o.height == s.height as i32
                    &&& o.refresh_mhz == s.refresh_mhz
                    &&& o.path == s.path
                    &&& o.kind == s.kind
                    &&& o.mode == s.mode
                    &&& o.playing == (s.slot is Some && playing@[j])
                },
            decreases self.list@.len() - i,
        {
            let s = &self.list[i];
            #[verifier::truncate]
            let w: i32 = s.width as i32;
            #[verifier::truncate]
            let h: i32 = s.height as i32;
            r.push(OutputStatus {
                name: s.name.clone(),
                width: w,
                height: h,
                refresh_mhz: s.refresh_mhz,
                path: clone_opt_string(&s.path),
                kind: s.kind,
                mode: s.mode,
                playing: s.slot.is_some() && playing[i],
            });
            i = i + 1;
        }
        r
    }
}

} // verus!
