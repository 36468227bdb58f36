//! Render node selection for VA-API on machines with one or more GPUs.

use vstd::prelude::*;

use crate::text::{chars_of, eq_lit, has_prefix_at, vec_eq};

verus! {

/// Which DRM render node VA-API should use; prefers an integrated GPU.
#[derive(Debug, Clone)]
pub struct GpuPolicy {
    pub preferred_drm_dev: Option<(u32, u32)>,
    pub render_node: Option<String>,
}

/// A `/dev/dri` entry with the kernel driver behind it, if known.
#[derive(Debug, Clone)]
pub struct DriEntry {
    pub path: String,
    pub file_name: String,
    pub driver: Option<String>,
}

/// Render nodes are the entries named `renderD…`.
pub open spec fn is_render_node(e: DriEntry) -> bool {
    e.file_name@.len() >= 7 && e.file_name@.take(7) == "renderD"@
}

/// Preference of a driver (lower is better): integrated GPUs first, unknown
/// drivers next, then nouveau, then the NVIDIA driver.
pub open spec fn spec_score(driver: Option<Seq<char>>) -> i32 {
    match driver {
        Some(d) => if d == "i915"@ || d == "xe"@ || d == "amdgpu"@ || d == "radeon"@ {
            0
        } else if d == "nvidia"@ || d == "nvidia_drm"@ {
            50
        } else if d == "nouveau"@ {
            40
        } else {
            20
        },
        None => 20,
    }
}

pub open spec fn driver_text(d: Option<String>) -> Option<Seq<char>> {
    match d {
        Some(s) => Some(s@),
        None => None,
    }
}

/// The score of a render node served by `driver`.
pub fn score_render_node(driver: Option<&str>) -> (r: i32)
    ensures
        r == spec_score(match driver {
            Some(d) => Some(d@),
            None => None,
        }),
{
    match driver {
        Some(d) => {
            let v = chars_of(d);
            if eq_lit(&v, "i915") || eq_lit(&v, "xe") || eq_lit(&v, "amdgpu") || eq_lit(&v, "radeon") {
                0
            } else if eq_lit(&v, "nvidia") || eq_lit(&v, "nvidia_drm") {
                50
            } else if eq_lit(&v, "nouveau") {
                40
            } else {
                20
            }
        },
        None => 20,
    }
}

fn render_named(e: &DriEntry) -> (r: bool)
    ensures
        r == is_render_node(*e),
{
    let v = chars_of(e.file_name.as_str());
    proof {
        reveal_strlit("renderD");
    }
    let r = has_prefix_at(&v, 0, v.len(), "renderD");
    proof {
        if v@.len() >= 7 {
            assert(v@.subrange(0, 7) =~= v@.take(7));
        }
    }
    r
}

/// Two render nodes are served by different known drivers.
pub open spec fn spec_is_hybrid(entries: Seq<DriEntry>) -> bool {
    exists|i: int, j: int|
        0 <= i < entries.len() && 0 <= j < entries.len() && is_render_node(#[trigger] entries[i])
            && is_render_node(#[trigger] entries[j]) && entries[i].driver is Some
            && entries[j].driver is Some && entries[i].driver->0@ != entries[j].driver->0@
}

/// True when more than one GPU driver serves a render node (e.g. Intel +
/// NVIDIA): DMA-BUF from the iGPU will not show on a dGPU-wired output.
pub fn is_hybrid(entries: &Vec<DriEntry>) -> (r: bool)
    ensures
        r == spec_is_hybrid(entries@),
{
    let mut first: Option<usize> = None;
    let mut i: usize = 0;
    while i < entries.len()
        invariant
            i <= entries@.len(),
            match first {
                None => forall|j: int|
                    0 <= j < i ==> !(is_render_node(#[trigger] entries@[j]) && entries@[j].driver is Some),
                Some(f) => f < i && is_render_node(entries@[f as int]) && entries@[f as int].driver is Some
                    && forall|j: int|
                    0 <= j < i && is_render_node(#[trigger] entries@[j]) && entries@[j].driver is Some
                        ==> entries@[j].driver->0@ == entries@[f as int].driver->0@,
            },
        decreases entries@.len() - i,
    {
        if render_named(&entries[i]) {
            match &entries[i].driver {
                Some(d) => {
                    match first {
                        None => {
                            first = Some(i);
                        },
                        Some(f) => {
                            match &entries[f].driver {
                                Some(d0) => {
                                    if !vec_eq(&chars_of(d.as_str()), &chars_of(d0.as_str())) {
                                        assert(is_render_node(entries@[i as int]) && is_render_node(entries@[f as int]));
                                        return true;
                                    }
                                },
                                None => {},
                            }
                        },
                    }
                },
                None => {},
            }
        }
        i = i + 1;
    }
    proof {
        if spec_is_hybrid(entries@) {
            let (a, b) = choose|a: int, b: int|
                0 <= a < entries@.len() && 0 <= b < entries@.len() && is_render_node(
                    #[trigger] entries@[a],
                ) && is_render_node(#[trigger] entries@[b]) && entries@[a].driver is Some
                    && entries@[b].driver is Some && entries@[a].driver->0@
                    != entries@[b].driver->0@;
            assert(is_render_node(entries@[a]) && is_render_node(entries@[b]));
        }
    }
    false
}

/// The render node chosen among `entries`: a node with the best score,
/// the first such.
pub open spec fn best_node(entries: Seq<DriEntry>, k: int) -> bool {
    &&& 0 <= k < entries.len()
    &&& is_render_node(entries[k])
    &&& forall|j: int|
        0 <= j < entries.len() && is_render_node(#[trigger] entries[j]) ==> spec_score(
            driver_text(entries[k].driver),
        ) <= spec_score(driver_text(entries[j].driver))
    &&& forall|j: int|
        0 <= j < k && is_render_node(#[trigger] entries[j]) ==> spec_score(
            driver_text(entries[k].driver),
        ) < spec_score(driver_text(entries[j].driver))
}

impl GpuPolicy {
    /// A policy with an optional render node forced by the user.
    pub fn new(render_node: Option<String>) -> (r: Self)
        ensures
            r.render_node == render_node,
            r.preferred_drm_dev is None,
    {
        GpuPolicy { preferred_drm_dev: None, render_node }
    }

    /// The VA-API device: the forced node if any; else, when `/dev/dri`
    /// could be listed, its best render node (see `best_node`).
    pub fn vaapi_device_path(&self, entries: Option<&Vec<DriEntry>>) -> (r: Option<String>)
        ensures
            match self.render_node {
                Some(n) => r == Some(n),
                None => match entries {
                    None => r is None,
                    Some(es) => match r {
                        None => forall|j: int| 0 <= j < es@.len() ==> !is_render_node(#[trigger] es@[j]),
                        Some(p) => exists|k: int| best_node(es@, k) && p == es@[k].path,
                    },
                },
            },
    {
        match &self.render_node {
            Some(n) => {
                return Some(n.clone());
            },
            None => {},
        }
        let es = match entries {
            Some(es) => es,
            None => {
                return None;
            },
        };
        let mut best: Option<(usize, i32)> = None;
        let mut i: usize = 0;
        while i < es.len()
            invariant
                i <= es@.len(),
                match best {
                    None => forall|j: int| 0 <= j < i ==> !is_render_node(#[trigger] es@[j]),
                    Some((k, sc)) => k < i && is_render_node(es@[k as int]) && sc == spec_score(
                        driver_text(es@[k as int].driver),
                    ) && (forall|j: int|
                        0 <= j < i && is_render_node(#[trigger] es@[j]) ==> sc <= spec_score(
                            driver_text(es@[j].driver),
                        )) && (forall|j: int|
                        0 <= j < k && is_render_node(#[trigger] es@[j]) ==> sc < spec_score(
                            driver_text(es@[j].driver),
                        )),
                },
            decreases es@.len() - i,
        {
            if render_named(&es[i]) {
                let sc = match &es[i].driver {
                    Some(d) => score_render_node(Some(d.as_str())),
                    None => score_render_node(None),
                };
                match best {
                    None => {
                        best = Some((i, sc));
                    },
                    Some((k, s0)) => {
                        if sc < s0 {
                            best = Some((i, sc));
                        }
                    },
                }
            }
            i = i + 1;
        }
        match best {
            None => None,
            Some((k, _)) => {
                assert(best_node(es@, k as int));
                Some(es[k].path.clone())
            },
        }
    }
}

/// Drivers of integrated GPUs.
pub open spec fn integrated_driver(d: Option<Seq<char>>) -> bool {
    d == Some("i915"@) || d == Some("xe"@) || d == Some("amdgpu"@) || d == Some("radeon"@)
}

/// Drivers of NVIDIA GPUs: the proprietary driver, then nouveau.
pub open spec fn nvidia_driver(d: Option<Seq<char>>) -> bool {
    d == Some("nvidia"@) || d == Some("nvidia_drm"@)
}

pub open spec fn nouveau_driver(d: Option<Seq<char>>) -> bool {
    d == Some("nouveau"@)
}

/// The chosen render node follows the driver preference: an integrated
/// GPU (i915, xe, amdgpu, radeon) whenever there is one, else a node of an
/// unknown or other driver before a nouveau one, and nouveau before the
/// NVIDIA driver.
pub proof fn render_node_preference(entries: Seq<DriEntry>, k: int, i: int)
    requires
        best_node(entries, k),
        0 <= i < entries.len(),
        is_render_node(entries[i]),
    ensures
        integrated_driver(driver_text(entries[i].driver)) ==> integrated_driver(driver_text(entries[k].driver)),
        !nvidia_driver(driver_text(entries[i].driver)) && !nouveau_driver(driver_text(entries[i].driver))
            ==> !nvidia_driver(driver_text(entries[k].driver)) && !nouveau_driver(driver_text(entries[k].driver)),
        !nvidia_driver(driver_text(entries[i].driver)) ==> !nvidia_driver(driver_text(entries[k].driver)),
{
    reveal_strlit("i915");
    reveal_strlit("xe");
    reveal_strlit("amdgpu");
    reveal_strlit("radeon");
    reveal_strlit("nvidia");
    reveal_strlit("nvidia_drm");
    reveal_strlit("nouveau");
    assert("nvidia"@ != "i915"@ && "nvidia"@ != "xe"@) by {
        assert("nvidia"@.len() != "i915"@.len() && "nvidia"@.len() != "xe"@.len());
    }
    assert("nvidia"@ != "amdgpu"@ && "nvidia"@ != "radeon"@) by {
        assert("nvidia"@[0] != "amdgpu"@[0] && "nvidia"@[0] != "radeon"@[0]);
    }
    assert("nvidia_drm"@ != "i915"@ && "nvidia_drm"@ != "xe"@ && "nvidia_drm"@ != "amdgpu"@
        && "nvidia_drm"@ != "radeon"@) by {
        assert("nvidia_drm"@.len() == 10);
    }
    assert("nouveau"@ != "i915"@ && "nouveau"@ != "xe"@ && "nouveau"@ != "amdgpu"@ && "nouveau"@ != "radeon"@
        && "nouveau"@ != "nvidia"@ && "nouveau"@ != "nvidia_drm"@) by {
        assert("nouveau"@.len() == 7);
    }
    assert(spec_score(driver_text(entries[k].driver)) <= spec_score(driver_text(entries[i].driver)));
}

} // verus!
