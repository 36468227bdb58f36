//! The daemon's decisions: what each request does to its state and what it
//! answers, when playback is paused automatically, and how a new wallpaper
//! assignment is planned and recorded. The caller performs the outside work
//! (probing power state, spawning players, talking to the compositor) and
//! hands the results back.

use vstd::prelude::*;

use crate::config::{
    entries_view, is_all, names_all, set_output_entry, Config, ConfigView, OutputConfig,
    OutputConfigView, PauseRules,
};
use crate::keyed::{
    find_key, keys_distinct, lemma_find_key, lemma_upsert_remove, remove_key, upsert_key,
};
use crate::frame::DecodePath;
use crate::ipc::{Reply, Request};
use crate::types::{spec_hwdec_name, HwDecPreference, ScaleMode};

verus! {

/// A wallpaper currently assigned to an output (or to `ALL`).
#[derive(Debug, Clone)]
pub struct Assignment {
    pub output: String,
    pub path: String,
    pub mode: ScaleMode,
}

/// Outside work a handled request asks of the caller.
#[derive(Debug, Clone)]
pub enum Effect {
    Nothing,
    /// Stop the display thread.
    ShutdownDisplay,
    /// Blank the named output (or every output for `ALL`).
    ClearDisplay { output: String },
    /// Write the configuration file.
    PersistConfig,
}

/// What the caller does next with a request.
#[derive(Debug, Clone)]
pub enum Step {
    /// The request is handled: send the reply, perform the effect.
    Done { reply: Reply, effect: Effect },
    /// A wallpaper is to be set: continue with `plan_set`.
    SetWallpaper { output: String, path: String, mode: Option<ScaleMode>, save: bool },
    /// The status is to be reported: continue with `status_summary`.
    Status,
}

/// The daemon's state.
#[derive(Debug)]
pub struct Daemon {
    pub cfg: Config,
    /// Live assignments; output names are distinct.
    pub assignments: Vec<Assignment>,
    pub paused: bool,
    /// Whether the current pause was made by the power policy.
    pub auto_paused: bool,
    pub decode_path: DecodePath,
    pub warning: Option<String>,
    pub exit: bool,
}

impl View for Assignment {
    type V = (Seq<char>, (Seq<char>, ScaleMode));

    open spec fn view(&self) -> (Seq<char>, (Seq<char>, ScaleMode)) {
        (self.output@, (self.path@, self.mode))
    }
}

/// The model of the assignments: output name with path and mode.
pub open spec fn registry(a: Seq<Assignment>) -> Seq<(Seq<char>, (Seq<char>, ScaleMode))> {
    a.map_values(|x: Assignment| x@)
}

/// Index of the assignment for `name`, if any.
fn assignment_index(a: &Vec<Assignment>, name: &str) -> (r: Option<usize>)
    ensures
        match r {
            Some(i) => i == find_key(registry(a@), name@),
            None => find_key(registry(a@), name@) == -1,
        },
{
    let ghost v = registry(a@);
    let mut i: usize = a.len();
    proof {
        assert(v.take(i as int) =~= v);
    }
    let key = name.to_owned();
    while i > 0
        invariant
            i <= a@.len(),
            v == registry(a@),
            key@ == name@,
            find_key(v, name@) == find_key(v.take(i as int), name@),
        decreases i,
    {
        let ghost t = v.take(i as int);
        assert(t.drop_last() =~= v.take(i - 1));
        if a[i - 1].output == key {
            return Some(i - 1);
        }
        i = i - 1;
    }
    None
}

/// Puts `x` in place of the assignment for its output, or adds it.
fn put_assignment(a: &mut Vec<Assignment>, x: Assignment)
    requires
        keys_distinct(registry(old(a)@)),
    ensures
        registry(final(a)@) == upsert_key(registry(old(a)@), x.output@, (x.path@, x.mode)),
        keys_distinct(registry(final(a)@)),
        all_entry_named_all(registry(old(a)@)) && !is_all(x.output@) ==> all_entry_named_all(
            registry(final(a)@),
        ),
{
    proof {
        if all_entry_named_all(registry(a@)) {
            lemma_all_named_preserved(registry(a@), x.output@, (x.path@, x.mode));
        }
    }
    let ghost v = registry(a@);
    let ghost xv = x@;
    proof {
        lemma_find_key(v, x.output@);
        lemma_upsert_remove(v, x.output@, (x.path@, x.mode));
    }
    match assignment_index(a, x.output.as_str()) {
        Some(i) => {
            a.set(i, x);
            assert(registry(a@) =~= v.update(i as int, xv));
        },
        None => {
            a.push(x);
            assert(registry(a@) =~= v.push(xv));
        },
    }
}

/// Drops the assignment for `name`, if there is one.
fn drop_assignment(a: &mut Vec<Assignment>, name: &str)
    requires
        keys_distinct(registry(old(a)@)),
    ensures
        registry(final(a)@) == remove_key(registry(old(a)@), name@),
        keys_distinct(registry(final(a)@)),
        all_entry_named_all(registry(old(a)@)) ==> all_entry_named_all(registry(final(a)@)),
{
    proof {
        if all_entry_named_all(registry(a@)) {
            lemma_all_named_preserved(registry(a@), name@, (Seq::<char>::empty(), ScaleMode::Fill));
        }
    }
    let ghost v = registry(a@);
    proof {
        lemma_find_key(v, name@);
        lemma_upsert_remove(v, name@, (Seq::<char>::empty(), ScaleMode::Fill));
    }
    match assignment_index(a, name) {
        Some(i) => {
            a.remove(i);
            assert(registry(a@) =~= v.remove(i as int));
        },
        None => {},
    }
}

/// An assignment for every output is kept under the name `ALL` itself.
pub open spec fn all_entry_named_all(r: Seq<(Seq<char>, (Seq<char>, ScaleMode))>) -> bool {
    forall|i: int| 0 <= i < r.len() && is_all(#[trigger] r[i].0) ==> r[i].0 == "ALL"@
}

/// Whether the power policy should pause playback now.
pub open spec fn auto_pause_condition(rules: PauseRules, fullscreen: bool, outputs_empty: bool) -> bool {
    (rules.on_fullscreen && fullscreen) || (rules.on_dpms && outputs_empty)
}

/// The configuration with an assignment recorded so that it is restored on
/// the next start: for `ALL` as the default wallpaper, otherwise as the
/// output's entry.
pub open spec fn recorded(c: ConfigView, output: Seq<char>, path: Seq<char>, mode: ScaleMode) -> ConfigView {
    if is_all(output) {
        ConfigView { default_path: Some(path), default_mode: mode, ..c }
    } else {
        ConfigView {
            outputs: upsert_key(
                c.outputs,
                output,
                OutputConfigView { path: Some(path), mode: Some(mode) },
            ),
            ..c
        }
    }
}

/// The configuration with every assignment recorded, in order.
pub open spec fn saved(c: ConfigView, a: Seq<(Seq<char>, (Seq<char>, ScaleMode))>) -> ConfigView
    decreases a.len(),
{
    if a.len() == 0 {
        c
    } else {
        let x = a.last();
        recorded(saved(c, a.drop_last()), x.0, x.1.0, x.1.1)
    }
}

/// The frame-rate cap a new player gets: on battery (when halving is on) an
/// uncapped rate becomes 30 and a cap is halved, but not below 1.
pub open spec fn spec_effective_max_fps(max_fps: u32, half_on_battery: bool, on_battery: bool) -> u32 {
    if half_on_battery && on_battery {
        if max_fps == 0 {
            30
        } else if max_fps / 2 >= 1 {
            max_fps / 2
        } else {
            1
        }
    } else {
        max_fps
    }
}

pub fn effective_max_fps(max_fps: u32, half_on_battery: bool, on_battery: bool) -> (r: u32)
    ensures
        r == spec_effective_max_fps(max_fps, half_on_battery, on_battery),
{
    if half_on_battery && on_battery {
        if max_fps == 0 {
            30
        } else {
            let h = max_fps / 2;
            if h >= 1 {
                h
            } else {
                1
            }
        }
    } else {
        max_fps
    }
}

fn text(s: &str) -> (r: String)
    ensures
        r@ == s@,
{
    String::from_str(s)
}

fn ok_reply(s: &str) -> (r: Reply)
    ensures
        r matches Reply::Ack { message: Some(m) } && m@ == s@,
{
    Reply::Ack { message: Some(text(s)) }
}

fn clone_opt_string(s: &Option<String>) -> (r: Option<String>)
    ensures
        r == *s,
{
    match s {
        Some(x) => Some(x.clone()),
        None => None,
    }
}

/// `new` is `old` after one round of the power policy: a pause the user
/// made is left alone; otherwise playback is paused, by the policy, exactly
/// when an auto-pause condition holds.
pub open spec fn power_ticked(new: Daemon, old: Daemon, fullscreen: bool, outputs_empty: bool) -> bool {
    &&& new.cfg == old.cfg
    &&& new.assignments == old.assignments
    &&& new.decode_path == old.decode_path
    &&& new.warning == old.warning
    &&& new.exit == old.exit
    &&& if old.paused && !old.auto_paused {
        new.paused == old.paused && new.auto_paused == old.auto_paused
    } else {
        &&& new.paused == auto_pause_condition(old.cfg.pause, fullscreen, outputs_empty)
        &&& new.auto_paused == new.paused
    }
}

impl Daemon {
    /// The state's invariant: configuration entries and assignments are
    /// keyed by distinct output names.
    pub open spec fn wf(&self) -> bool {
        keys_distinct(self.cfg@.outputs) && keys_distinct(registry(self.assignments@))
            && all_entry_named_all(registry(self.assignments@))
    }

    /// A daemon started with `cfg`: playing, nothing assigned yet.
    pub fn new(cfg: Config) -> (r: Self)
        requires
            keys_distinct(cfg@.outputs),
        ensures
            r.wf(),
            r.cfg == cfg,
            r.assignments@.len() == 0,
            !r.paused && !r.auto_paused && !r.exit,
            r.decode_path == DecodePath::Idle,
            r.warning is None,
    {
        Daemon {
            cfg,
            assignments: Vec::new(),
            paused: false,
            auto_paused: false,
            decode_path: DecodePath::Idle,
            warning: None,
            exit: false,
        }
    }

    /// The user paused playback; the power policy leaves such a pause alone.
    pub open spec fn manually_paused(&self) -> bool {
        self.paused && !self.auto_paused
    }

    /// Whether the power policy needs fresh probes (it does nothing while the
    /// user has paused playback).
    pub fn power_probe_needed(&self) -> (r: bool)
        ensures
            r == !self.manually_paused(),
    {
        !(self.paused && !self.auto_paused)
    }

    /// One round of the power policy, given whether a fullscreen window is
    /// focused and whether no output is known.
    pub fn tick_power_policy(&mut self, fullscreen: bool, outputs_empty: bool)
        ensures
            power_ticked(*final(self), *old(self), fullscreen, outputs_empty),
    {
        if self.paused && !self.auto_paused {
            return;
        }
        let rules = self.cfg.pause;
        let mut auto = false;
        if rules.on_fullscreen && fullscreen {
            auto = true;
        }
        if rules.on_dpms && outputs_empty {
            auto = true;
        }
        if auto {
            if !self.paused {
                self.paused = true;
                self.auto_paused = true;
            }
        } else if self.auto_paused {
            self.paused = false;
            self.auto_paused = false;
        }
    }

    /// Handles a request as far as it needs no outside work.
    pub fn dispatch(&mut self, req: Request) -> (step: Step)
        requires
            old(self).wf(),
        ensures
            final(self).wf(),
            match req {
                Request::Ping => step matches Step::Done { reply: Reply::Pong, effect: Effect::Nothing }
                    && *final(self) == *old(self),
                Request::Shutdown => step matches Step::Done {
                    reply: Reply::Ack { message: Some(m) },
                    effect: Effect::ShutdownDisplay,
                } && m@ == "shutting down"@ && *final(self) == (Daemon { exit: true, ..*old(self) }),
                Request::Pause => step matches Step::Done {
                    reply: Reply::Ack { message: Some(m) },
                    effect: Effect::Nothing,
                } && m@ == "paused"@ && *final(self) == (Daemon {
                    paused: true,
                    auto_paused: false,
                    ..*old(self)
                }),
                Request::Resume => step matches Step::Done {
                    reply: Reply::Ack { message: Some(m) },
                    effect: Effect::Nothing,
                } && m@ == "resumed"@ && *final(self) == (Daemon {
                    paused: false,
                    auto_paused: false,
                    ..*old(self)
                }),
                Request::SetHwdec { hwdec } => step matches Step::Done {
                    reply: Reply::Ack { message: Some(m) },
                    effect: Effect::Nothing,
                } && m@ == "hwdec set to "@ + spec_hwdec_name(hwdec) && final(self).cfg@ == (
                ConfigView { hwdec, ..old(self).cfg@ }) && final(self).assignments
                    == old(self).assignments && final(self).paused == old(self).paused
                    && final(self).auto_paused == old(self).auto_paused && final(self).exit
                    == old(self).exit && final(self).decode_path == old(self).decode_path
                    && final(self).warning == old(self).warning,
                Request::Clear { output } => step matches Step::Done {
                    reply: Reply::Ack { message: Some(m) },
                    effect: Effect::ClearDisplay { output: o },
                } && m@ == "cleared"@ && o@ == output@ && registry(final(self).assignments@) == (
                if is_all(output@) {
                    Seq::empty()
                } else {
                    remove_key(registry(old(self).assignments@), output@)
                }) && final(self).cfg == old(self).cfg && final(self).paused == old(self).paused
                    && final(self).auto_paused == old(self).auto_paused && final(self).exit
                    == old(self).exit && final(self).decode_path == old(self).decode_path
                    && final(self).warning == old(self).warning,
                Request::Save => step matches Step::Done {
                    reply: Reply::Ack { message: Some(m) },
                    effect: Effect::PersistConfig,
                } && m@ == "saved"@ && final(self).cfg@ == saved(
                    old(self).cfg@,
                    registry(old(self).assignments@),
                ) && final(self).assignments == old(self).assignments && final(self).paused
                    == old(self).paused && final(self).auto_paused == old(self).auto_paused
                    && final(self).exit == old(self).exit && final(self).decode_path
                    == old(self).decode_path && final(self).warning == old(self).warning,
                Request::SetWallpaper { output, path, mode, save } => step matches Step::SetWallpaper {
                    output: o,
                    path: p,
                    mode: md,
                    save: sv,
                } && o == output && p == path && md == mode && sv == save && *final(self)
                    == *old(self),
                Request::Status => step matches Step::Status && *final(self) == *old(self),
            },
    {
        match req {
            Request::Ping => Step::Done { reply: Reply::Pong, effect: Effect::Nothing },
            Request::Shutdown => {
                self.exit = true;
                Step::Done { reply: ok_reply("shutting down"), effect: Effect::ShutdownDisplay }
            },
            Request::Pause => {
                self.paused = true;
                self.auto_paused = false;
                Step::Done { reply: ok_reply("paused"), effect: Effect::Nothing }
            },
            Request::Resume => {
                self.paused = false;
                self.auto_paused = false;
                Step::Done { reply: ok_reply("resumed"), effect: Effect::Nothing }
            },
            Request::SetHwdec { hwdec } => {
                self.cfg.hwdec = hwdec;
                let mut m = text("hwdec set to ");
                m.append(hwdec.as_str());
                Step::Done { reply: Reply::Ack { message: Some(m) }, effect: Effect::Nothing }
            },
            Request::Clear { output } => {
                if names_all(output.as_str()) {
                    self.assignments = Vec::new();
                    assert(registry(self.assignments@) =~= Seq::empty());
                } else {
                    drop_assignment(&mut self.assignments, output.as_str());
                }
                Step::Done { reply: ok_reply("cleared"), effect: Effect::ClearDisplay { output } }
            },
            Request::Save => {
                self.save_assignments();
                Step::Done { reply: ok_reply("saved"), effect: Effect::PersistConfig }
            },
            Request::SetWallpaper { output, path, mode, save } => Step::SetWallpaper {
                output,
                path,
                mode,
                save,
            },
            Request::Status => Step::Status,
        }
    }

    /// Records every assignment in the configuration, in order.
    fn save_assignments(&mut self)
        requires
            old(self).wf(),
        ensures
            final(self).wf(),
            final(self).cfg@ == saved(old(self).cfg@, registry(old(self).assignments@)),
            final(self).assignments == old(self).assignments,
            final(self).paused == old(self).paused,
            final(self).auto_paused == old(self).auto_paused,
            final(self).exit == old(self).exit,
            final(self).decode_path == old(self).decode_path,
            final(self).warning == old(self).warning,
    {
        let ghost c0 = self.cfg@;
        let ghost d0 = *self;
        let ghost r = registry(self.assignments@);
        let mut i: usize = 0;
        assert(r.take(0) =~= Seq::<(Seq<char>, (Seq<char>, ScaleMode))>::empty());
        while i < self.assignments.len()
            invariant
                i <= self.assignments@.len(),
                r == registry(self.assignments@),
                self.wf(),
                self.cfg@ == saved(c0, r.take(i as int)),
                self.assignments == d0.assignments,
                self.paused == d0.paused,
                self.auto_paused == d0.auto_paused,
                self.exit == d0.exit,
                self.decode_path == d0.decode_path,
                self.warning == d0.warning,
            decreases self.assignments@.len() - i,
        {
            let output = self.assignments[i].output.clone();
            let path = self.assignments[i].path.clone();
            let mode = self.assignments[i].mode;
            record_assignment(&mut self.cfg, output, path, mode);
            assert(r.take(i + 1).drop_last() =~= r.take(i as int));
            i = i + 1;
        }
        assert(r.take(i as int) =~= r);
    }
}

/// The reply to a set request: "ok" once the wallpaper is set, else an
/// error carrying why it was not (such as the message `plan_set` refused
/// it with); a failed set is never answered "ok".
pub fn set_reply(outcome: Result<(), String>) -> (r: Reply)
    ensures
        match outcome {
            Ok(()) => r matches Reply::Ack { message: Some(m) } && m@ == "ok"@,
            Err(e) => r == (Reply::Error { message: e }),
        },
{
    match outcome {
        Ok(()) => Reply::Ack { message: Some(String::from_str("ok")) },
        Err(e) => Reply::Error { message: e },
    }
}

/// Records an assignment in the configuration.
pub fn record_assignment(cfg: &mut Config, output: String, path: String, mode: ScaleMode)
    requires
        keys_distinct(old(cfg)@.outputs),
    ensures
        final(cfg)@ == recorded(old(cfg)@, output@, path@, mode),
        keys_distinct(final(cfg)@.outputs),
{
    if names_all(output.as_str()) {
        cfg.default_path = Some(path);
        cfg.default_mode = mode;
    } else {
        set_output_entry(&mut cfg.outputs, output, OutputConfig { path: Some(path), mode: Some(mode) });
    }
}

/// The error for a wallpaper path that is missing or not a regular file.
pub open spec fn spec_path_error(path: Seq<char>, exists: bool, is_file: bool) -> Option<Seq<char>> {
    if !exists {
        Some("path does not exist: "@ + path)
    } else if !is_file {
        Some("path is not a file: "@ + path)
    } else {
        None
    }
}

/// Accepts a wallpaper path that exists and is a regular file, as the file
/// system reported it.
pub fn validate_path(path: &str, exists: bool, is_file: bool) -> (r: Result<(), String>)
    ensures
        match spec_path_error(path@, exists, is_file) {
            Some(m) => r matches Err(e) && e@ == m,
            None => r is Ok,
        },
{
    if !exists {
        let mut m = text("path does not exist: ");
        m.append(path);
        return Err(m);
    }
    if !is_file {
        let mut m = text("path is not a file: ");
        m.append(path);
        return Err(m);
    }
    Ok(())
}

/// How a new player is to be started.
#[derive(Debug, Clone)]
pub struct PlayerPlan {
    /// The output the player serves, `ALL` for every output.
    pub key: String,
    pub mode: ScaleMode,
    pub max_fps: u32,
    pub hwdec: HwDecPreference,
    pub efficiency_mode: bool,
}

/// The message of a set request that came before any output was known.
pub open spec fn no_outputs_message() -> Seq<char> {
    "no outputs yet; saved as default and will apply shortly"@
}

/// Last decode path among the slots that is not idle, else `dflt`.
pub open spec fn last_active_path(s: Seq<(DecodePath, Option<String>)>, dflt: DecodePath) -> DecodePath
    decreases s.len(),
{
    if s.len() == 0 {
        dflt
    } else if s.last().0 != DecodePath::Idle {
        s.last().0
    } else {
        last_active_path(s.drop_last(), dflt)
    }
}

/// Last warning among the slots, else `dflt`.
pub open spec fn last_warning(s: Seq<(DecodePath, Option<String>)>, dflt: Option<String>) -> Option<String>
    decreases s.len(),
{
    if s.len() == 0 {
        dflt
    } else if s.last().1 is Some {
        s.last().1
    } else {
        last_warning(s.drop_last(), dflt)
    }
}

/// The daemon's status apart from frame rate, memory and outputs.
#[derive(Debug, Clone)]
pub struct StatusSummary {
    pub paused: bool,
    pub hwdec: String,
    pub decode_path: String,
    pub efficiency_warning: Option<String>,
}

/// The wallpapers the configuration asks for at start-up: the default for
/// `ALL`, then each output entry that names a path.
pub open spec fn spec_default_assignments(c: ConfigView) -> Seq<(Seq<char>, Seq<char>, ScaleMode)> {
    let head: Seq<(Seq<char>, Seq<char>, ScaleMode)> = match c.default_path {
        Some(p) => seq![("ALL"@, p, c.default_mode)],
        None => Seq::empty(),
    };
    head + entry_assignments(c.outputs, c.default_mode)
}

/// The entries that name a path, each with its mode or the default one.
pub open spec fn entry_assignments(o: Seq<(Seq<char>, OutputConfigView)>, dflt: ScaleMode) -> Seq<(Seq<char>, Seq<char>, ScaleMode)>
    decreases o.len(),
{
    if o.len() == 0 {
        Seq::empty()
    } else {
        let rest = entry_assignments(o.drop_last(), dflt);
        let e = o.last();
        match e.1.path {
            Some(p) => rest.push((e.0, p, match e.1.mode {
                Some(m) => m,
                None => dflt,
            })),
            None => rest,
        }
    }
}

/// The model of a planned start-up assignment.
pub open spec fn triple_view(t: (String, String, ScaleMode)) -> (Seq<char>, Seq<char>, ScaleMode) {
    (t.0@, t.1@, t.2)
}

/// The start-up assignments of a configuration.
pub fn default_assignments(cfg: &Config) -> (r: Vec<(String, String, ScaleMode)>)
    ensures
        r@.map_values(|t: (String, String, ScaleMode)| triple_view(t)) == spec_default_assignments(cfg@),
{
    let mut r: Vec<(String, String, ScaleMode)> = Vec::new();
    match &cfg.default_path {
        Some(p) => {
            r.push((text("ALL"), p.clone(), cfg.default_mode));
        },
        None => {},
    }
    let ghost head = r@.map_values(|t: (String, String, ScaleMode)| triple_view(t));
    let ghost o = cfg@.outputs;
    let mut i: usize = 0;
    assert(o.take(0) =~= Seq::<(Seq<char>, OutputConfigView)>::empty());
    assert(head + entry_assignments(o.take(0), cfg.default_mode) =~= head);
    while i < cfg.outputs.len()
        invariant
            i <= cfg.outputs@.len(),
            o == cfg@.outputs,
            o.len() == cfg.outputs@.len(),
            r@.map_values(|t: (String, String, ScaleMode)| triple_view(t)) == head
                + entry_assignments(o.take(i as int), cfg.default_mode),
        decreases cfg.outputs@.len() - i,
    {
        let ghost before = r@.map_values(|t: (String, String, ScaleMode)| triple_view(t));
        assert(o.take(i + 1).drop_last() =~= o.take(i as int));
        assert(o[i as int] == (cfg.outputs@[i as int].0@, cfg.outputs@[i as int].1@));
        match &cfg.outputs[i].1.path {
            Some(p) => {
                let m = match cfg.outputs[i].1.mode {
                    Some(m) => m,
                    None => cfg.default_mode,
                };
                r.push((cfg.outputs[i].0.clone(), p.clone(), m));
                assert(r@.map_values(|t: (String, String, ScaleMode)| triple_view(t)) =~= before.push(
                    triple_view(r@.last()),
                ));
            },
            None => {},
        }
        i = i + 1;
    }
    assert(o.take(i as int) =~= o);
    r
}

impl Daemon {
    /// Whether planning a set request needs to know if the machine runs on
    /// battery.
    pub fn battery_probe_needed(&self) -> (r: bool)
        ensures
            r == self.cfg.pause.half_fps_on_battery,
    {
        self.cfg.pause.half_fps_on_battery
    }

    /// Plans a set request from what the caller found out: whether the path
    /// exists and is a file, whether the machine runs on battery, and how
    /// many outputs are known. A request for `ALL` before any output is known
    /// makes the wallpaper the default and is refused.
    pub fn plan_set(
        &mut self,
        output: &str,
        path: &str,
        mode: Option<ScaleMode>,
        exists: bool,
        is_file: bool,
        on_battery: bool,
        outputs_known: usize,
    ) -> (r: Result<PlayerPlan, String>)
        requires
            old(self).wf(),
        ensures
            final(self).wf(),
            final(self).assignments == old(self).assignments,
            final(self).paused == old(self).paused,
            final(self).auto_paused == old(self).auto_paused,
            final(self).exit == old(self).exit,
            final(self).decode_path == old(self).decode_path,
            final(self).warning == old(self).warning,
            ({
                let m = match mode {
                    Some(m) => m,
                    None => old(self).cfg.default_mode,
                };
                match spec_path_error(path@, exists, is_file) {
                    Some(e) => r matches Err(x) && x@ == e && final(self).cfg == old(self).cfg,
                    None => if is_all(output@) && outputs_known == 0 {
                        r matches Err(x) && x@ == no_outputs_message() && final(self).cfg@ == (
                        ConfigView { default_path: Some(path@), default_mode: m, ..old(self).cfg@ })
                    } else {
                        r matches Ok(plan) && final(self).cfg == old(self).cfg && plan.key@ == (
                        if is_all(output@) {
                            "ALL"@
                        } else {
                            output@
                        }) && plan.mode == m && plan.max_fps == spec_effective_max_fps(
                            old(self).cfg.max_fps,
                            old(self).cfg.pause.half_fps_on_battery,
                            on_battery,
                        ) && plan.hwdec == old(self).cfg.hwdec && plan.efficiency_mode
                            == old(self).cfg.efficiency_mode
                    },
                }
            }),
    {
        match validate_path(path, exists, is_file) {
            Err(e) => {
                return Err(e);
            },
            Ok(()) => {},
        }
        let m = match mode {
            Some(m) => m,
            None => self.cfg.default_mode,
        };
        let max_fps = effective_max_fps(self.cfg.max_fps, self.cfg.pause.half_fps_on_battery, on_battery);
        let all = names_all(output);
        if all && outputs_known == 0 {
            self.cfg.default_path = Some(text(path));
            self.cfg.default_mode = m;
            return Err(text("no outputs yet; saved as default and will apply shortly"));
        }
        let key = if all {
            text("ALL")
        } else {
            text(output)
        };
        Ok(PlayerPlan {
            key,
            mode: m,
            max_fps,
            hwdec: self.cfg.hwdec,
            efficiency_mode: self.cfg.efficiency_mode,
        })
    }

    /// Records a player that was started for `output`, with the decode path
    /// and warning it reported; with `save`, the assignment is also recorded
    /// in the configuration, to be written out.
    pub fn commit_set(
        &mut self,
        output: &str,
        path: String,
        mode: ScaleMode,
        decode_path: DecodePath,
        warning: Option<String>,
        save: bool,
    ) -> (r: (Reply, Effect))
        requires
            old(self).wf(),
        ensures
            final(self).wf(),
            r.0 matches Reply::Ack { message: Some(m) } && m@ == "ok"@,
            if is_all(output@) {
                registry(final(self).assignments@) == seq![("ALL"@, (path@, mode))]
            } else {
                registry(final(self).assignments@) == upsert_key(
                    registry(old(self).assignments@),
                    output@,
                    (path@, mode),
                )
            },
            final(self).decode_path == decode_path,
            final(self).warning == warning,
            final(self).paused == old(self).paused,
            final(self).auto_paused == old(self).auto_paused,
            final(self).exit == old(self).exit,
            save ==> final(self).cfg@ == recorded(old(self).cfg@, output@, path@, mode)
                && r.1 matches Effect::PersistConfig,
            !save ==> final(self).cfg == old(self).cfg && r.1 matches Effect::Nothing,
    {
        let record_path = path.clone();
        if names_all(output) {
            let mut a: Vec<Assignment> = Vec::new();
            a.push(Assignment { output: text("ALL"), path, mode });
            self.assignments = a;
            assert(registry(self.assignments@) =~= seq![("ALL"@, (record_path@, mode))]);
            assert(all_entry_named_all(registry(self.assignments@)));
        } else {
            put_assignment(&mut self.assignments, Assignment { output: text(output), path, mode });
        }
        self.decode_path = decode_path;
        self.warning = warning;
        let effect = if save {
            record_assignment(&mut self.cfg, text(output), record_path, mode);
            Effect::PersistConfig
        } else {
            Effect::Nothing
        };
        (ok_reply("ok"), effect)
    }

    /// The status fields the daemon decides: the decode path is the last one
    /// a slot reports that is not idle (else the daemon's own), the warning
    /// the last one a slot reports (else the daemon's own).
    pub fn status_summary(&self, slots: &Vec<(DecodePath, Option<String>)>) -> (r: StatusSummary)
        ensures
            r.paused == self.paused,
            r.hwdec@ == spec_hwdec_name(self.cfg.hwdec),
            r.decode_path@ == crate::frame::spec_decode_path_name(
                last_active_path(slots@, self.decode_path),
            ),
            r.efficiency_warning == last_warning(slots@, self.warning),
    {
        let mut decode = DecodePath::Idle;
        let mut warn = clone_opt_string(&self.warning);
        let mut i: usize = 0;
        while i < slots.len()
            invariant
                i <= slots@.len(),
                last_active_path(slots@.take(i as int), self.decode_path) == (if decode
                    == DecodePath::Idle {
                    self.decode_path
                } else {
                    decode
                }),
                warn == last_warning(slots@.take(i as int), self.warning),
            decreases slots@.len() - i,
        {
            assert(slots@.take(i + 1).drop_last() =~= slots@.take(i as int));
            if slots[i].0 != DecodePath::Idle {
                decode = slots[i].0;
            }
            match &slots[i].1 {
                Some(w) => {
                    warn = Some(w.clone());
                },
                None => {},
            }
            i = i + 1;
        }
        assert(slots@.take(i as int) =~= slots@);
        if decode == DecodePath::Idle {
            decode = self.decode_path;
        }
        StatusSummary {
            paused: self.paused,
            hwdec: text(self.cfg.hwdec.as_str()),
            decode_path: text(decode.as_str()),
            efficiency_warning: warn,
        }
    }
}

// ---------------------------------------------------------------------
// Laws

/// A pause the user made survives any number of power-policy rounds.
pub proof fn manual_pause_wins(d0: Daemon, d1: Daemon, fullscreen: bool, outputs_empty: bool)
    requires
        d0.paused && !d0.auto_paused,
        power_ticked(d1, d0, fullscreen, outputs_empty),
    ensures
        d1.paused && !d1.auto_paused,
{
}

/// After a pause request, whatever the power policy sees next, playback
/// stays paused.
pub proof fn pause_then_tick_stays_paused(d0: Daemon, d1: Daemon, d2: Daemon, fullscreen: bool, outputs_empty: bool)
    requires
        d1 == (Daemon { paused: true, auto_paused: false, ..d0 }),
        power_ticked(d2, d1, fullscreen, outputs_empty),
    ensures
        d2.paused,
{
}

/// A pause the policy made is lifted as soon as no auto-pause condition
/// holds; a resume request followed by a policy round pauses again only if a
/// condition holds.
pub proof fn auto_pause_follows_conditions(d0: Daemon, d1: Daemon, d2: Daemon, fullscreen: bool, outputs_empty: bool)
    requires
        d1 == (Daemon { paused: false, auto_paused: false, ..d0 }),
        power_ticked(d2, d1, fullscreen, outputs_empty),
    ensures
        d2.paused == auto_pause_condition(d0.cfg.pause, fullscreen, outputs_empty),
        d2.paused ==> d2.auto_paused,
{
}

/// The power policy is settled after one round: a second round with the
/// same observations changes nothing.
pub proof fn power_policy_idempotent(d0: Daemon, d1: Daemon, d2: Daemon, fullscreen: bool, outputs_empty: bool)
    requires
        power_ticked(d1, d0, fullscreen, outputs_empty),
        power_ticked(d2, d1, fullscreen, outputs_empty),
    ensures
        d2.paused == d1.paused,
        d2.auto_paused == d1.auto_paused,
{
}

proof fn lemma_all_named_preserved(
    r: Seq<(Seq<char>, (Seq<char>, ScaleMode))>,
    name: Seq<char>,
    v: (Seq<char>, ScaleMode),
)
    requires
        all_entry_named_all(r),
    ensures
        all_entry_named_all(remove_key(r, name)),
        !is_all(name) ==> all_entry_named_all(upsert_key(r, name, v)),
{
    lemma_find_key(r, name);
    let i = find_key(r, name);
    let rm = remove_key(r, name);
    assert forall|k: int| 0 <= k < rm.len() && is_all(#[trigger] rm[k].0) implies rm[k].0 == "ALL"@ by {
        if i >= 0 {
            let k0 = if k < i { k } else { k + 1 };
            assert(rm[k] == r[k0]);
        }
    }
    if !is_all(name) {
        let u = upsert_key(r, name, v);
        assert forall|k: int| 0 <= k < u.len() && is_all(#[trigger] u[k].0) implies u[k].0 == "ALL"@ by {
            if k < r.len() && k != i {
                assert(u[k] == r[k]);
            }
        }
    }
}

proof fn lemma_saved_distinct(c: ConfigView, r: Seq<(Seq<char>, (Seq<char>, ScaleMode))>)
    requires
        keys_distinct(c.outputs),
    ensures
        keys_distinct(saved(c, r).outputs),
    decreases r.len(),
{
    if r.len() > 0 {
        lemma_saved_distinct(c, r.drop_last());
        let x = r.last();
        lemma_upsert_remove(
            saved(c, r.drop_last()).outputs,
            x.0,
            OutputConfigView { path: Some(x.1.0), mode: Some(x.1.1) },
        );
    }
}

proof fn lemma_distinct_drop_last<V>(r: Seq<(Seq<char>, V)>)
    requires
        keys_distinct(r),
        r.len() > 0,
    ensures
        keys_distinct(r.drop_last()),
        forall|i: int| 0 <= i < r.len() - 1 ==> #[trigger] r[i].0 != r.last().0,
{
    assert forall|i: int| 0 <= i < r.len() - 1 implies #[trigger] r[i].0 != r.last().0 by {
        assert(r[i].0 != r[r.len() - 1].0);
    }
    assert forall|a: int, b: int| 0 <= a < b < r.drop_last().len() implies r.drop_last()[a].0
        != r.drop_last()[b].0 by {
        assert(r[a].0 != r[b].0);
    }
}

proof fn lemma_saved_lookup(c: ConfigView, r: Seq<(Seq<char>, (Seq<char>, ScaleMode))>, j: int)
    requires
        keys_distinct(c.outputs),
        keys_distinct(r),
        0 <= j < r.len(),
        !is_all(r[j].0),
    ensures
        crate::keyed::lookup_key(saved(c, r).outputs, r[j].0) == Some(
            OutputConfigView { path: Some(r[j].1.0), mode: Some(r[j].1.1) },
        ),
    decreases r.len(),
{
    let d = r.drop_last();
    let x = r.last();
    lemma_saved_distinct(c, d);
    lemma_distinct_drop_last(r);
    let v = OutputConfigView { path: Some(x.1.0), mode: Some(x.1.1) };
    lemma_upsert_remove(saved(c, d).outputs, x.0, v);
    if j < r.len() - 1 {
        assert(d[j] == r[j]);
        lemma_saved_lookup(c, d, j);
        if !is_all(x.0) {
            crate::keyed::lemma_lookup_other(saved(c, d).outputs, x.0, v, r[j].0);
        }
    }
}

proof fn lemma_saved_default(c: ConfigView, r: Seq<(Seq<char>, (Seq<char>, ScaleMode))>, j: int)
    requires
        keys_distinct(r),
        all_entry_named_all(r),
        0 <= j < r.len(),
        r[j].0 == "ALL"@,
    ensures
        saved(c, r).default_path == Some(r[j].1.0),
        saved(c, r).default_mode == r[j].1.1,
    decreases r.len(),
{
    let d = r.drop_last();
    let x = r.last();
    lemma_distinct_drop_last(r);
    assert(is_all("ALL"@));
    if j < r.len() - 1 {
        assert(d[j] == r[j]);
        assert(all_entry_named_all(d)) by {
            assert forall|i: int| 0 <= i < d.len() && is_all(#[trigger] d[i].0) implies d[i].0 == "ALL"@ by {
                assert(d[i] == r[i]);
            }
        }
        lemma_saved_default(c, d, j);
        assert(x.0 != r[j].0);
        assert(!is_all(x.0)) by {
            if is_all(x.0) {
                assert(r[r.len() - 1].0 == "ALL"@);
            }
        }
    }
}

proof fn lemma_entries_contain(
    o: Seq<(Seq<char>, OutputConfigView)>,
    dm: ScaleMode,
    k: Seq<char>,
    p: Seq<char>,
    m: ScaleMode,
)
    requires
        crate::keyed::lookup_key(o, k) == Some(OutputConfigView { path: Some(p), mode: Some(m) }),
    ensures
        entry_assignments(o, dm).contains((k, p, m)),
    decreases o.len(),
{
    lemma_find_key(o, k);
    let i = find_key(o, k);
    let rest = entry_assignments(o.drop_last(), dm);
    if i == o.len() - 1 {
        assert(entry_assignments(o, dm) == rest.push((k, p, m)));
        assert(entry_assignments(o, dm)[rest.len() as int] == (k, p, m));
    } else {
        assert(find_key(o.drop_last(), k) == i);
        lemma_entries_contain(o.drop_last(), dm, k, p, m);
        let t = choose|t: int| 0 <= t < rest.len() && rest[t] == (k, p, m);
        let e = o.last();
        match e.1.path {
            Some(q) => {
                assert(entry_assignments(o, dm)[t] == rest[t]);
            },
            None => {},
        }
    }
}

/// Saving the assignments makes each of them come back on the next start:
/// the start-up assignments of the saved configuration include every
/// assignment live at the time of saving (`ALL` as the default wallpaper).
pub proof fn saved_assignments_restored(
    c: ConfigView,
    r: Seq<(Seq<char>, (Seq<char>, ScaleMode))>,
    j: int,
)
    requires
        keys_distinct(c.outputs),
        keys_distinct(r),
        all_entry_named_all(r),
        0 <= j < r.len(),
    ensures
        spec_default_assignments(saved(c, r)).contains((r[j].0, r[j].1.0, r[j].1.1)),
{
    let s = saved(c, r);
    let head: Seq<(Seq<char>, Seq<char>, ScaleMode)> = match s.default_path {
        Some(p) => seq![("ALL"@, p, s.default_mode)],
        None => Seq::empty(),
    };
    let tail = entry_assignments(s.outputs, s.default_mode);
    assert(spec_default_assignments(s) == head + tail);
    if r[j].0 == "ALL"@ {
        lemma_saved_default(c, r, j);
        assert((head + tail)[0] == (r[j].0, r[j].1.0, r[j].1.1));
    } else {
        assert(!is_all(r[j].0));
        lemma_saved_lookup(c, r, j);
        lemma_entries_contain(s.outputs, s.default_mode, r[j].0, r[j].1.0, r[j].1.1);
        let t = choose|t: int| 0 <= t < tail.len() && tail[t] == (r[j].0, r[j].1.0, r[j].1.1);
        assert((head + tail)[head.len() + t] == tail[t]);
    }
}

/// What the power policy does to a daemon the user has not paused: it
/// pauses playback when no output is on and `on_dpms` is set, or when a
/// fullscreen window is focused and `on_fullscreen` is set, each whatever
/// the other rule says; otherwise playback runs.
pub proof fn power_policy_pause_rules(d0: Daemon, d1: Daemon, fullscreen: bool, outputs_empty: bool)
    requires
        power_ticked(d1, d0, fullscreen, outputs_empty),
        !(d0.paused && !d0.auto_paused),
    ensures
        d0.cfg.pause.on_dpms && outputs_empty ==> d1.paused && d1.auto_paused,
        d0.cfg.pause.on_fullscreen && fullscreen ==> d1.paused && d1.auto_paused,
        !(d0.cfg.pause.on_dpms && outputs_empty) && !(d0.cfg.pause.on_fullscreen && fullscreen) ==> !d1.paused
            && !d1.auto_paused,
{
}

} // verus!
