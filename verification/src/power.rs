//! Power hints: whether a battery is discharging, and whether the
//! compositor reports a fullscreen window.

use vstd::prelude::*;

use crate::text::{
    join, join_path, chars_of, eq_ignore_case, eq_ignore_case_lit, has_prefix_at, line_end, lines_from, nl_from,
    range_eq_lit, strip_cr, sub_vec, trim, trim_range,
};

verus! {

/// A power supply, as its `type` and `status` files read (empty when
/// unreadable), names a battery that is discharging.
pub open spec fn discharging_battery(kind: Seq<char>, status: Seq<char>) -> bool {
    eq_ignore_case(trim(kind), "Battery"@) && eq_ignore_case(trim(status), "Discharging"@)
}

fn trimmed(s: &str) -> (r: Vec<char>)
    ensures
        r@ == trim(s@),
{
    let v = chars_of(s);
    let (a, b) = trim_range(&v, 0, v.len());
    assert(v@.subrange(0, v@.len() as int) =~= v@);
    sub_vec(&v, a, b)
}

/// Whether some power supply is a discharging battery.
pub fn battery_discharging(supplies: &Vec<(String, String)>) -> (r: bool)
    ensures
        r == exists|i: int|
            0 <= i < supplies@.len() && discharging_battery(
                #[trigger] supplies@[i].0@,
                supplies@[i].1@,
            ),
{
    let mut i: usize = 0;
    while i < supplies.len()
        invariant
            i <= supplies@.len(),
            forall|j: int|
                0 <= j < i ==> !discharging_battery(#[trigger] supplies@[j].0@, supplies@[j].1@),
        decreases supplies@.len() - i,
    {
        let kind = trimmed(supplies[i].0.as_str());
        if eq_ignore_case_lit(&kind, "Battery") {
            let status = trimmed(supplies[i].1.as_str());
            if eq_ignore_case_lit(&status, "Discharging") {
                return true;
            }
        }
        i = i + 1;
    }
    false
}

/// The fullscreen flag a `fullscreen:` line carries: anything but `0` or
/// `false` (after trimming) counts as fullscreen.
pub open spec fn fullscreen_flag(line: Seq<char>) -> bool {
    let rest = trim(line.skip(11));
    !(rest == "0"@ || rest == "false"@)
}

/// Whether a line starts with `fullscreen:`.
pub open spec fn is_fullscreen_line(line: Seq<char>) -> bool {
    line.len() >= 11 && line.take(11) == "fullscreen:"@
}

/// The flag of the first `fullscreen:` line, false when there is none.
pub open spec fn fullscreen_in(lines: Seq<Seq<char>>) -> bool
    decreases lines.len(),
{
    if lines.len() == 0 {
        false
    } else if is_fullscreen_line(lines[0]) {
        fullscreen_flag(lines[0])
    } else {
        fullscreen_in(lines.drop_first())
    }
}

/// Reads the compositor's `activewindow` reply: the flag of its first
/// `fullscreen:` line, false when there is none.
pub fn fullscreen_from_reply(reply: &str) -> (r: bool)
    ensures
        r == fullscreen_in(lines_from(reply@, 0)),
{
    proof {
        reveal_strlit("fullscreen:");
    }
    let v = chars_of(reply);
    let n = v.len();
    let mut p: usize = 0;
    while p < n
        invariant
            p <= n,
            n == v@.len(),
            v@ == reply@,
            fullscreen_in(lines_from(v@, 0)) == fullscreen_in(lines_from(v@, p as int)),
        decreases n - p,
    {
        let e = line_end(&v, p);
        let mut le = e;
        if e < n && e > p && v[e - 1] == '\r' {
            le = e - 1;
        }
        let ghost line = if e < n {
            strip_cr(v@.subrange(p as int, e as int))
        } else {
            v@.subrange(p as int, e as int)
        };
        proof {
            if e < n && e > p && v@[e - 1] == '\r' {
                assert(v@.subrange(p as int, e as int).drop_last() =~= v@.subrange(p as int, le as int));
            }
            assert(line == v@.subrange(p as int, le as int));
            let ls = lines_from(v@, p as int);
            assert(ls[0] == line);
            assert(ls.drop_first() =~= lines_from(v@, e + 1));
        }
        proof {
            reveal_strlit("fullscreen:");
        }
        if has_prefix_at(&v, p, le, "fullscreen:") {
            assert(line.take(11) =~= v@.subrange(p as int, p + 11));
            let (a, b) = trim_range(&v, p + 11, le);
            assert(line.skip(11) =~= v@.subrange(p + 11, le as int));
            let zero = range_eq_lit(&v, a, b, "0");
            let no = range_eq_lit(&v, a, b, "false");
            return !(zero || no);
        }
        proof {
            if is_fullscreen_line(line) {
                assert(line.take(11) =~= v@.subrange(p as int, p + 11));
            }
        }
        if e >= n {
            proof {
                let ls = lines_from(v@, p as int);
                assert(ls.drop_first() =~= Seq::<Seq<char>>::empty());
                assert(!is_fullscreen_line(ls[0]));
                assert(fullscreen_in(ls) == fullscreen_in(ls.drop_first()));
            }
            return false;
        }
        p = e + 1;
    }
    proof {
        assert(lines_from(v@, p as int) =~= Seq::<Seq<char>>::empty());
    }
    false
}

/// Where the compositor's IPC socket may be, under the runtime directory
/// (`/tmp` when none is set) for the instance signature `sig`.
pub fn hyprland_socket_candidates(runtime_dir: Option<String>, sig: &str) -> (r: (String, String))
    ensures
        ({
            let rt = match runtime_dir {
                Some(d) => d@,
                None => "/tmp"@,
            };
            &&& r.0@ == join_path(join_path(join_path(rt, "hypr"@), sig@), ".socket.sock"@)
            &&& r.1@ == join_path(rt, "hypr/"@ + sig@ + "/.socket.sock"@)
        }),
{
    let rt = match runtime_dir {
        Some(d) => d,
        None => String::from_str("/tmp"),
    };
    let a = join(rt.as_str(), "hypr");
    let b = join(a.as_str(), sig);
    let first = join(b.as_str(), ".socket.sock");
    let mut rel = String::from_str("hypr/");
    rel.append(sig);
    rel.append("/.socket.sock");
    let second = join(rt.as_str(), rel.as_str());
    (first, second)
}

} // verus!
