//! Decisions of the control client: option parsing, which file of a folder
//! to show next, and the systemd unit that starts the daemon.

use vstd::prelude::*;

use crate::config::{is_all, names_all};
use vstd::arithmetic::div_mod::{lemma_mod_add_multiples_vanish, lemma_mod_self_0, lemma_small_mod};
use crate::ipc::OutputStatus;
use crate::text::{
    eq_lit, extension_of, join, join_path, lower_seq, lower_vec, path_components, path_extension, path_less,
    path_lt, same_path, lemma_comps_lt_irreflexive, lemma_comps_lt_transitive,
};
use crate::types::{
    spec_hwdec_name, spec_parse_hwdec, spec_parse_scale_mode, HwDecPreference, ScaleMode,
};

verus! {

/// Parses a `--mode` value.
pub fn parse_mode(s: &str) -> (r: Result<ScaleMode, String>)
    ensures
        match spec_parse_scale_mode(s@) {
            Some(m) => r == Ok::<ScaleMode, String>(m),
            None => r matches Err(e) && e@ == "invalid scale mode: "@ + s@,
        },
{
    match ScaleMode::parse(s) {
        Some(m) => Ok(m),
        None => {
            let mut e = String::from_str("invalid scale mode: ");
            e.append(s);
            Err(e)
        },
    }
}

/// Parses a `--hwdec` value.
pub fn parse_hwdec(s: &str) -> (r: Result<HwDecPreference, String>)
    ensures
        match spec_parse_hwdec(s@) {
            Some(h) => r == Ok::<HwDecPreference, String>(h),
            None => r matches Err(e) && e@ == "invalid hwdec: "@ + s@,
        },
{
    match HwDecPreference::parse(s) {
        Some(h) => Ok(h),
        None => {
            let mut e = String::from_str("invalid hwdec: ");
            e.append(s);
            Err(e)
        },
    }
}

/// The index of the first output with a wallpaper, if any.
pub open spec fn first_with_path(o: Seq<OutputStatus>) -> int
    decreases o.len(),
{
    if o.len() == 0 {
        -1
    } else if o[0].path is Some {
        0
    } else {
        let k = first_with_path(o.drop_first());
        if k < 0 { -1 } else { k + 1 }
    }
}

/// The index of the first output named `name`, if any.
pub open spec fn first_named(o: Seq<OutputStatus>, name: Seq<char>) -> int
    decreases o.len(),
{
    if o.len() == 0 {
        -1
    } else if o[0].name@ == name {
        0
    } else {
        let k = first_named(o.drop_first(), name);
        if k < 0 { -1 } else { k + 1 }
    }
}

/// The wallpaper shown on `output` (for `ALL`, on the first output that
/// shows one).
pub open spec fn spec_current_path(output: Seq<char>, o: Seq<OutputStatus>) -> Option<String> {
    if is_all(output) {
        let k = first_with_path(o);
        if k < 0 { None } else { o[k].path }
    } else {
        let k = first_named(o, output);
        if k < 0 { None } else { o[k].path }
    }
}

fn clone_opt_string(s: &Option<String>) -> (r: Option<String>)
    ensures
        r == *s,
{
    match s {
        Some(x) => Some(x.clone()),
        None => None,
    }
}

/// The wallpaper currently shown on `output`, from the daemon's status if
/// it could be fetched.
pub fn current_path(output: &str, outputs: Option<&Vec<OutputStatus>>) -> (r: Option<String>)
    ensures
        match outputs {
            None => r is None,
            Some(o) => r == spec_current_path(output@, o@),
        },
{
    let o = match outputs {
        Some(o) => o,
        None => {
            return None;
        },
    };
    let all = names_all(output);
    let key = output.to_owned();
    let mut i: usize = 0;
    assert(o@.skip(0) =~= o@);
    while i < o.len()
        invariant
            i <= o@.len(),
            outputs == Some(o),
            key@ == output@,
            all == is_all(output@),
            all ==> first_with_path(o@) == (if first_with_path(o@.skip(i as int)) < 0 {
                -1
            } else {
                first_with_path(o@.skip(i as int)) + i
            }),
            !all ==> first_named(o@, output@) == (if first_named(o@.skip(i as int), output@) < 0 {
                -1
            } else {
                first_named(o@.skip(i as int), output@) + i
            }),
        decreases o@.len() - i,
    {
        assert(o@.skip(i as int).drop_first() =~= o@.skip(i + 1));
        assert(o@.skip(i as int)[0] == o@[i as int]);
        if all {
            if o[i].path.is_some() {
                return clone_opt_string(&o[i].path);
            }
        } else {
            if o[i].name == key {
                return clone_opt_string(&o[i].path);
            }
        }
        i = i + 1;
    }
    assert(o@.skip(i as int) =~= Seq::<OutputStatus>::empty());
    None
}

/// Position of the first file equal to `cur` as a path (component by
/// component), or -1.
pub open spec fn position(files: Seq<String>, cur: Seq<char>) -> int
    decreases files.len(),
{
    if files.len() == 0 {
        -1
    } else if path_components(files[0]@) == path_components(cur) {
        0
    } else {
        let k = position(files.drop_first(), cur);
        if k < 0 { -1 } else { k + 1 }
    }
}

proof fn lemma_position(files: Seq<String>, cur: Seq<char>)
    ensures
        -1 <= position(files, cur) < files.len(),
        position(files, cur) >= 0 ==> path_components(files[position(files, cur)]@) == path_components(cur),
    decreases files.len(),
{
    if files.len() > 0 {
        lemma_position(files.drop_first(), cur);
    }
}

fn find_file(files: &Vec<String>, cur: &String) -> (r: Option<usize>)
    ensures
        match r {
            Some(i) => i == position(files@, cur@),
            None => position(files@, cur@) == -1,
        },
{
    let mut i: usize = 0;
    assert(files@.skip(0) =~= files@);
    while i < files.len()
        invariant
            i <= files@.len(),
            position(files@, cur@) == (if position(files@.skip(i as int), cur@) < 0 {
                -1
            } else {
                position(files@.skip(i as int), cur@) + i
            }),
        decreases files@.len() - i,
    {
        assert(files@.skip(i as int).drop_first() =~= files@.skip(i + 1));
        assert(files@.skip(i as int)[0] == files@[i as int]);
        if same_path(files[i].as_str(), cur.as_str()) {
            return Some(i);
        }
        i = i + 1;
    }
    assert(files@.skip(i as int) =~= Seq::<String>::empty());
    None
}

/// The next (or previous) file after the one shown, wrapping around; the
/// first file when the one shown is not in the list.
pub open spec fn spec_cycle_index(files: Seq<String>, cur: Option<String>, forward: bool) -> int {
    let n = files.len() as int;
    let p = match cur {
        Some(c) => position(files, c@),
        None => -1,
    };
    if p < 0 {
        0
    } else if forward {
        (p + 1) % n
    } else {
        (p + n - 1) % n
    }
}

pub fn cycle_index(files: &Vec<String>, current: &Option<String>, forward: bool) -> (r: usize)
    requires
        files@.len() > 0,
    ensures
        r == spec_cycle_index(files@, *current, forward),
        r < files@.len(),
{
    let n = files.len();
    let p = match current {
        Some(c) => find_file(files, c),
        None => None,
    };
    match p {
        None => 0,
        Some(i) => {
            proof {
                lemma_position(files@, current->0@);
            }
            if forward {
                if i + 1 < n {
                    proof {
                        lemma_small_mod((i + 1) as nat, n as nat);
                    }
                    i + 1
                } else {
                    proof {
                        lemma_mod_self_0(n as int);
                    }
                    0
                }
            } else {
                if i == 0 {
                    proof {
                        lemma_small_mod((n - 1) as nat, n as nat);
                    }
                    n - 1
                } else {
                    proof {
                        lemma_mod_add_multiples_vanish(i - 1, n as int);
                        lemma_small_mod((i - 1) as nat, n as nat);
                    }
                    i - 1
                }
            }
        },
    }
}

/// A pick from `seed`, moved on by one when it would repeat the file shown
/// (the same path, component by component), if there is another.
pub open spec fn spec_random_index(files: Seq<String>, seed: usize, cur: Option<String>) -> int {
    let n = files.len() as int;
    let idx = seed as int % n;
    if n > 1 && cur is Some && path_components(files[idx]@) == path_components(cur->0@) {
        (idx + 1) % n
    } else {
        idx
    }
}

pub fn random_index(files: &Vec<String>, seed: usize, current: &Option<String>) -> (r: usize)
    requires
        files@.len() > 0,
    ensures
        r == spec_random_index(files@, seed, *current),
        r < files@.len(),
{
    let n = files.len();
    let idx = seed % n;
    assert(idx == seed as int % n as int);
    if n > 1 {
        match current {
            Some(c) => {
                if same_path(files[idx].as_str(), c.as_str()) {
                    if idx + 1 < n {
                        proof {
                            lemma_small_mod((idx + 1) as nat, n as nat);
                        }
                        return idx + 1;
                    } else {
                        proof {
                            lemma_mod_self_0(n as int);
                        }
                        return 0;
                    }
                }
            },
            None => {},
        }
    }
    idx
}

/// What the client reports for a folder `dir` with no media files in it.
pub open spec fn no_media_message(dir: Seq<char>) -> Seq<char> {
    "no media files found in "@ + dir
}

fn no_media(dir: &str) -> (r: String)
    ensures
        r@ == no_media_message(dir@),
{
    let mut m = String::from_str("no media files found in ");
    m.append(dir);
    m
}

/// The file of folder `dir` to step to from the one shown; an error when
/// the folder has no media files.
pub fn cycle_pick(dir: &str, files: &Vec<String>, current: &Option<String>, forward: bool) -> (r: Result<usize, String>)
    ensures
        files@.len() == 0 ==> (r matches Err(e) && e@ == no_media_message(dir@)),
        files@.len() > 0 ==> (r matches Ok(i) && i == spec_cycle_index(files@, *current, forward) && i < files@.len()),
{
    if files.len() == 0 {
        return Err(no_media(dir));
    }
    Ok(cycle_index(files, current, forward))
}

/// A random file of folder `dir` from `seed`, avoiding the one shown when
/// there is another; an error when the folder has no media files.
pub fn random_pick(dir: &str, files: &Vec<String>, seed: usize, current: &Option<String>) -> (r: Result<usize, String>)
    ensures
        files@.len() == 0 ==> (r matches Err(e) && e@ == no_media_message(dir@)),
        files@.len() > 0 ==> (r matches Ok(i) && i == spec_random_index(files@, seed, *current) && i < files@.len()),
{
    if files.len() == 0 {
        return Err(no_media(dir));
    }
    Ok(random_index(files, seed, current))
}

/// Never shows the same file twice in a row when the folder has another.
pub proof fn random_avoids_repeat(files: Seq<String>, seed: usize, cur: String)
    requires
        files.len() > 1,
        forall|i: int, j: int| 0 <= i < j < files.len() ==> path_components(files[i]@) != path_components(files[j]@),
    ensures
        path_components(files[spec_random_index(files, seed, Some(cur))]@) != path_components(cur@),
{
    let n = files.len() as int;
    let idx = seed as int % n;
    if path_components(files[idx]@) == path_components(cur@) {
        let k = (idx + 1) % n;
        if idx + 1 < n {
            lemma_small_mod((idx + 1) as nat, n as nat);
        } else {
            lemma_mod_self_0(n);
        }
        assert(k != idx);
        if k < idx {
            assert(path_components(files[k]@) != path_components(files[idx]@));
        } else {
            assert(path_components(files[idx]@) != path_components(files[k]@));
        }
    }
}

/// Stepping forward and then back returns to the file shown.
pub proof fn cycle_forward_then_back(files: Seq<String>, p: int)
    requires
        0 <= p < files.len(),
        forall|i: int, j: int| 0 <= i < j < files.len() ==> path_components(files[i]@) != path_components(files[j]@),
    ensures
        ({
            let n = files.len() as int;
            let q = (p + 1) % n;
            (q + n - 1) % n == p
        }),
{
    let n = files.len() as int;
    if p + 1 < n {
        lemma_small_mod((p + 1) as nat, n as nat);
        lemma_mod_add_multiples_vanish(p, n);
        lemma_small_mod(p as nat, n as nat);
    } else {
        lemma_mod_self_0(n);
        lemma_small_mod((n - 1) as nat, n as nat);
    }
}

/// The files of `s` whose path has the components `k`, in their order in
/// `s`.
pub open spec fn with_components(s: Seq<String>, k: Seq<Seq<char>>) -> Seq<String>
    decreases s.len(),
{
    if s.len() == 0 {
        Seq::empty()
    } else {
        let rest = with_components(s.drop_last(), k);
        if path_components(s.last()@) == k {
            rest.push(s.last())
        } else {
            rest
        }
    }
}

proof fn lemma_with_components_add(a: Seq<String>, b: Seq<String>, k: Seq<Seq<char>>)
    ensures
        with_components(a + b, k) == with_components(a, k) + with_components(b, k),
    decreases b.len(),
{
    if b.len() == 0 {
        assert(a + b =~= a);
        assert(with_components(a, k) + with_components(b, k) =~= with_components(a, k));
    } else {
        assert((a + b).drop_last() =~= a + b.drop_last());
        assert((a + b).last() == b.last());
        lemma_with_components_add(a, b.drop_last(), k);
        if path_components(b.last()@) == k {
            assert(with_components(a, k) + with_components(b, k) =~= (with_components(a, k)
                + with_components(b.drop_last(), k)).push(b.last()));
        }
    }
}

proof fn lemma_with_components_none(b: Seq<String>, k: Seq<Seq<char>>)
    requires
        forall|i: int| 0 <= i < b.len() ==> path_components(#[trigger] b[i]@) != k,
    ensures
        with_components(b, k) == Seq::<String>::empty(),
    decreases b.len(),
{
    if b.len() > 0 {
        assert(b.last() == b[b.len() - 1]);
        lemma_with_components_none(b.drop_last(), k);
    }
}

proof fn lemma_with_components_one(e: String, k: Seq<Seq<char>>)
    ensures
        with_components(seq![e], k) == (if path_components(e@) == k {
            seq![e]
        } else {
            Seq::<String>::empty()
        }),
{
    let one = seq![e];
    assert(one.len() == 1);
    assert(one.drop_last() =~= Seq::<String>::empty());
    assert(one.last() == e);
    assert(with_components(one.drop_last(), k) == Seq::<String>::empty());
    if path_components(e@) == k {
        assert(Seq::<String>::empty().push(e) =~= one);
    }
}

/// `files` in non-decreasing `Path` order.
pub open spec fn paths_sorted(files: Seq<String>) -> bool {
    forall|i: int, j: int| 0 <= i < j < files.len() ==> !path_lt(#[trigger] files[j]@, #[trigger] files[i]@)
}

/// The files of a folder sorted by path, as the client lists them for
/// cycling: the same files, in `Path` order; files that are equal as paths
/// keep their order (the sort is stable).
pub fn sort_paths(files: Vec<String>) -> (r: Vec<String>)
    ensures
        r@.to_multiset() == files@.to_multiset(),
        paths_sorted(r@),
        forall|k: Seq<Seq<char>>| #[trigger] with_components(r@, k) == with_components(files@, k),
{
    let ghost all = files@;
    let mut rest = files;
    let mut r: Vec<String> = Vec::new();
    let ghost taken: Seq<String> = Seq::empty();
    while rest.len() > 0
        invariant
            all == taken + rest@,
            r@.to_multiset() == taken.to_multiset(),
            paths_sorted(r@),
            forall|k: Seq<Seq<char>>| #[trigger] with_components(r@, k) == with_components(taken, k),
        decreases rest@.len(),
    {
        let ghost rest0 = rest@;
        let e = rest.remove(0);
        proof {
            assert(rest0 =~= seq![e] + rest@);
            assert(all =~= taken.push(e) + rest@);
        }
        let mut p: usize = 0;
        while p < r.len() && !path_less(e.as_str(), r[p].as_str())
            invariant
                p <= r@.len(),
                forall|k: int| 0 <= k < p ==> !path_lt(e@, #[trigger] r@[k]@),
            decreases r@.len() - p,
        {
            p = p + 1;
        }
        let ghost r0 = r@;
        r.insert(p, e);
        proof {
            assert(r@ == r0.insert(p as int, e));
            assert forall|i: int, j: int| 0 <= i < j < r@.len() implies !path_lt(#[trigger] r@[j]@, #[trigger] r@[i]@) by {
                let pi = p as int;
                if j < pi {
                    assert(r@[i] == r0[i] && r@[j] == r0[j]);
                } else if j == pi {
                    assert(r@[i] == r0[i]);
                    assert(!path_lt(e@, r0[i]@));
                } else if i > pi {
                    assert(r@[i] == r0[i - 1] && r@[j] == r0[j - 1]);
                } else if i == pi {
                    // e before r0[j - 1]: p stopped where e orders before r0[p]
                    assert(r@[j] == r0[j - 1]);
                    assert(path_lt(e@, r0[pi]@));
                    lemma_comps_lt_irreflexive(path_components(e@));
                    if path_lt(r0[j - 1]@, e@) {
                        lemma_comps_lt_transitive(path_components(r0[j - 1]@), path_components(e@), path_components(r0[pi]@));
                        if j - 1 > pi {
                            assert(!path_lt(r0[j - 1]@, r0[pi]@));
                        } else {
                            lemma_comps_lt_irreflexive(path_components(r0[pi]@));
                        }
                    }
                } else {
                    // i < p < j
                    assert(r@[i] == r0[i] && r@[j] == r0[j - 1]);
                }
            }
            let pi = p as int;
            let ke = path_components(e@);
            assert forall|m: int| pi <= m < r0.len() implies path_components(#[trigger] r0[m]@) != ke by {
                assert(path_lt(e@, r0[pi]@));
                if path_components(r0[m]@) == ke {
                    if m == pi {
                        lemma_comps_lt_irreflexive(ke);
                    } else {
                        assert(!path_lt(r0[m]@, r0[pi]@));
                    }
                }
            }
            assert forall|k: Seq<Seq<char>>| #[trigger] with_components(r@, k) == with_components(taken.push(e), k) by {
                let front = r0.take(pi);
                let back = r0.skip(pi);
                assert(r0 =~= front + back);
                assert(r@ =~= front + seq![e] + back);
                lemma_with_components_add(front, back, k);
                lemma_with_components_add(front + seq![e], back, k);
                lemma_with_components_add(front, seq![e], k);
                lemma_with_components_one(e, k);
                assert(taken.push(e).drop_last() =~= taken);
                if k == ke {
                    assert forall|i: int| 0 <= i < back.len() implies path_components(#[trigger] back[i]@) != k by {
                        assert(back[i] == r0[pi + i]);
                    }
                    lemma_with_components_none(back, k);
                    assert(with_components(back, k) + Seq::<String>::empty() =~= with_components(back, k));
                    assert(with_components(front, k) + Seq::<String>::empty() =~= with_components(front, k));
                    assert(with_components(r@, k) =~= with_components(front, k).push(e));
                } else {
                    assert(with_components(front, k) + Seq::<String>::empty() =~= with_components(front, k));
                }
            }
            vstd::seq_lib::to_multiset_insert(r0, p as int, e);
            vstd::seq_lib::to_multiset_build(taken, e);
            taken = taken.push(e);
        }
    }
    proof {
        assert(rest@ =~= Seq::<String>::empty());
        assert(all =~= taken);
    }
    r
}

/// Extensions (lower case) of the files the client picks from a folder.
pub open spec fn is_media_ext(e: Seq<char>) -> bool {
    e == "png"@ || e == "jpg"@ || e == "jpeg"@ || e == "webp"@ || e == "gif"@ || e == "bmp"@
        || e == "mp4"@ || e == "mkv"@ || e == "webm"@ || e == "mov"@ || e == "avi"@ || e
        == "m4v"@ || e == "ts"@
}

/// Whether a file can be shown, judged by its (case-insensitive) extension.
pub fn is_media_path(path: &str) -> (r: bool)
    ensures
        r == is_media_ext(
            match path_extension(path@) {
                Some(e) => lower_seq(e),
                None => Seq::empty(),
            },
        ),
{
    let e = match extension_of(path) {
        Some(x) => lower_vec(&x),
        None => Vec::new(),
    };
    eq_lit(&e, "png") || eq_lit(&e, "jpg") || eq_lit(&e, "jpeg") || eq_lit(&e, "webp") || eq_lit(
        &e,
        "gif",
    ) || eq_lit(&e, "bmp") || eq_lit(&e, "mp4") || eq_lit(&e, "mkv") || eq_lit(&e, "webm")
        || eq_lit(&e, "mov") || eq_lit(&e, "avi") || eq_lit(&e, "m4v") || eq_lit(&e, "ts")
}

/// The directory of systemd user units: `$XDG_CONFIG_HOME/systemd/user`
/// when that is set and not empty, else `$HOME/.config/systemd/user`.
pub open spec fn spec_systemd_user_dir(xdg: Option<Seq<char>>, home: Option<Seq<char>>) -> Option<Seq<char>> {
    match xdg {
        Some(x) if x.len() > 0 => Some(join_path(x, "systemd/user"@)),
        _ => match home {
            Some(h) => Some(join_path(h, ".config/systemd/user"@)),
            None => None,
        },
    }
}

pub open spec fn opt_text(o: Option<String>) -> Option<Seq<char>> {
    match o {
        Some(s) => Some(s@),
        None => None,
    }
}

pub fn systemd_user_dir(xdg_config_home: Option<String>, home: Option<String>) -> (r: Result<String, String>)
    ensures
        match spec_systemd_user_dir(opt_text(xdg_config_home), opt_text(home)) {
            Some(d) => r matches Ok(p) && p@ == d,
            None => r matches Err(e) && e@ == "HOME is not set"@,
        },
{
    match &xdg_config_home {
        Some(x) => {
            if !x.as_str().is_empty() {
                return Ok(join(x.as_str(), "systemd/user"));
            }
        },
        None => {},
    }
    match &home {
        Some(h) => Ok(join(h.as_str(), ".config/systemd/user")),
        None => Err(String::from_str("HOME is not set")),
    }
}

/// The unit file's path.
pub fn unit_path(dir: &str) -> (r: String)
    ensures
        r@ == join_path(dir@, "livewall.service"@),
{
    join(dir, "livewall.service")
}

pub open spec fn unit_head() -> Seq<char> {
    "[Unit]\nDescription=livewall Wayland wallpaper daemon\nDocumentation=https://github.com/r3ktline/livewall\nPartOf=graphical-session.target\nAfter=graphical-session.target\n\n[Service]\nType=simple\nExecStart="@
}

pub open spec fn unit_tail() -> Seq<char> {
    "\nExecReload=/bin/kill -HUP $MAINPID\nRestart=on-failure\nRestartSec=2\n\n[Install]\nWantedBy=graphical-session.target\n"@
}

/// The systemd user unit that starts the daemon `bin` with a decode
/// preference.
pub fn unit_contents(bin: &str, hwdec: HwDecPreference) -> (r: String)
    ensures
        r@ == unit_head() + bin@ + " --hwdec "@ + spec_hwdec_name(hwdec) + unit_tail(),
{
    let mut s = String::from_str(
        "[Unit]\nDescription=livewall Wayland wallpaper daemon\nDocumentation=https://github.com/r3ktline/livewall\nPartOf=graphical-session.target\nAfter=graphical-session.target\n\n[Service]\nType=simple\nExecStart=",
    );
    s.append(bin);
    s.append(" --hwdec ");
    s.append(hwdec.as_str());
    s.append(
        "\nExecReload=/bin/kill -HUP $MAINPID\nRestart=on-failure\nRestartSec=2\n\n[Install]\nWantedBy=graphical-session.target\n",
    );
    s
}

} // verus!
