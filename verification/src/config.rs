//! Daemon configuration: defaults, the persisted per-output assignments and
//! the locations of the configuration file and the IPC socket.

use vstd::prelude::*;

use crate::keyed::{find_key, keys_distinct, lemma_find_key, lemma_upsert_remove, upsert_key};
use crate::text::{join, join_path, str_eq_ignore_case};
use crate::types::{HwDecPreference, ScaleMode};

verus! {

/// Pause behaviour of the daemon.
#[derive(Debug, Clone, Copy)]
pub struct PauseRules {
    pub on_dpms: bool,
    pub on_fullscreen: bool,
    /// Halve FPS when on battery.
    pub half_fps_on_battery: bool,
}

/// Per-output wallpaper entry of the configuration.
#[derive(Debug, Clone)]
pub struct OutputConfig {
    pub path: Option<String>,
    pub mode: Option<ScaleMode>,
}

/// Daemon configuration.
#[derive(Debug, Clone)]
pub struct Config {
    /// Default wallpaper applied to outputs without a specific entry.
    pub default_path: Option<String>,
    pub default_mode: ScaleMode,
    pub hwdec: HwDecPreference,
    /// Mute video audio (always recommended for wallpapers).
    pub mute: bool,
    /// Fail instead of falling back to software decode when hwdec is required.
    pub efficiency_mode: bool,
    /// Cap decode FPS (0 = match source / output refresh).
    pub max_fps: u32,
    pub pause: PauseRules,
    /// Output name and its entry; names are distinct.
    pub outputs: Vec<(String, OutputConfig)>,
}

impl Default for PauseRules {
    fn default() -> (r: Self)
        ensures
            r.on_dpms && r.on_fullscreen && r.half_fps_on_battery,
    {
        PauseRules { on_dpms: true, on_fullscreen: true, half_fps_on_battery: true }
    }
}

impl Default for OutputConfig {
    fn default() -> (r: Self)
        ensures
            r.path is None,
            r.mode is None,
    {
        OutputConfig { path: None, mode: None }
    }
}

impl Default for Config {
    fn default() -> (r: Self)
        ensures
            r.default_path is None,
            r.default_mode == ScaleMode::Fill,
            r.hwdec == HwDecPreference::Auto,
            r.mute,
            !r.efficiency_mode,
            r.max_fps == 0,
            r.pause.on_dpms && r.pause.on_fullscreen && r.pause.half_fps_on_battery,
            r.outputs@.len() == 0,
    {
        Config {
            default_path: None,
            default_mode: ScaleMode::Fill,
            hwdec: HwDecPreference::Auto,
            mute: true,
            efficiency_mode: false,
            max_fps: 0,
            pause: PauseRules::default(),
            outputs: Vec::new(),
        }
    }
}

/// The model of an output entry.
pub struct OutputConfigView {
    pub path: Option<Seq<char>>,
    pub mode: Option<ScaleMode>,
}

/// The model of a configuration; `outputs` lists names with their entries.
pub struct ConfigView {
    pub default_path: Option<Seq<char>>,
    pub default_mode: ScaleMode,
    pub hwdec: HwDecPreference,
    pub mute: bool,
    pub efficiency_mode: bool,
    pub max_fps: u32,
    pub pause: PauseRules,
    pub outputs: Seq<(Seq<char>, OutputConfigView)>,
}

/// The text of an optional string.
pub open spec fn opt_text(o: Option<String>) -> Option<Seq<char>> {
    match o {
        Some(s) => Some(s@),
        None => None,
    }
}

impl View for OutputConfig {
    type V = OutputConfigView;

    open spec fn view(&self) -> OutputConfigView {
        OutputConfigView { path: opt_text(self.path), mode: self.mode }
    }
}

/// The model of a list of named entries.
pub open spec fn entries_view(o: Seq<(String, OutputConfig)>) -> Seq<(Seq<char>, OutputConfigView)> {
    o.map_values(|e: (String, OutputConfig)| (e.0@, e.1@))
}

impl View for Config {
    type V = ConfigView;

    open spec fn view(&self) -> ConfigView {
        ConfigView {
            default_path: opt_text(self.default_path),
            default_mode: self.default_mode,
            hwdec: self.hwdec,
            mute: self.mute,
            efficiency_mode: self.efficiency_mode,
            max_fps: self.max_fps,
            pause: self.pause,
            outputs: entries_view(self.outputs@),
        }
    }
}

/// Index of the entry for `name`, if any.
pub fn output_index(outputs: &Vec<(String, OutputConfig)>, name: &str) -> (r: Option<usize>)
    ensures
        match r {
            Some(i) => i == find_key(entries_view(outputs@), name@),
            None => find_key(entries_view(outputs@), name@) == -1,
        },
{
    let ghost v = entries_view(outputs@);
    let mut i: usize = outputs.len();
    proof {
        assert(v.take(i as int) =~= v);
    }
    let key = name.to_owned();
    while i > 0
        invariant
            i <= outputs@.len(),
            v == entries_view(outputs@),
            key@ == name@,
            find_key(v, name@) == find_key(v.take(i as int), name@),
        decreases i,
    {
        let ghost t = v.take(i as int);
        assert(t.drop_last() =~= v.take(i - 1));
        if outputs[i - 1].0 == key {
            return Some(i - 1);
        }
        i = i - 1;
    }
    None
}

/// Replaces or adds the configuration entry for `name`.
pub fn set_output_entry(outputs: &mut Vec<(String, OutputConfig)>, name: String, entry: OutputConfig)
    requires
        keys_distinct(entries_view(old(outputs)@)),
    ensures
        entries_view(final(outputs)@) == upsert_key(entries_view(old(outputs)@), name@, entry@),
        keys_distinct(entries_view(final(outputs)@)),
{
    let ghost v = entries_view(outputs@);
    proof {
        lemma_find_key(v, name@);
        lemma_upsert_remove(v, name@, entry@);
    }
    let ghost n = name@;
    let ghost ev = entry@;
    match output_index(outputs, name.as_str()) {
        Some(i) => {
            outputs.set(i, (name, entry));
            assert(entries_view(outputs@) =~= v.update(i as int, (n, ev)));
        },
        None => {
            outputs.push((name, entry));
            assert(entries_view(outputs@) =~= v.push((n, ev)));
        },
    }
}

// ---------------------------------------------------------------------
// Locations

/// Name of the IPC socket file under the runtime directory.
pub const SOCKET_NAME: &'static str = "walld.sock";

/// Name of the configuration file inside the configuration directory.
pub const CONFIG_FILE_NAME: &'static str = "config.toml";

/// Why no configuration path could be formed.
#[derive(Debug, Clone, Copy, PartialEq, Eq, Structural)]
pub enum ConfigError {
    /// The platform configuration directory could not be resolved.
    NoConfigDir,
}

/// `ProjectDirs::from(qualifier, organization, application)` followed by
/// `config_dir()`, as text. Whether a directory is found, and the directory
/// it lies in, depend on the environment (the home directory and
/// `XDG_CONFIG_HOME`), so neither is stated. What is stated is the last
/// component on Linux, the platform of this Wayland daemon: there the
/// project path is the application name trimmed and lower-cased (an
/// application name of lower-case letters stays as it is), joined onto the
/// configuration home.
#[verifier::external_body]
fn project_config_dir(qualifier: &str, organization: &str, application: &str) -> (r: Option<String>)
    ensures
        application@.len() > 0 && (forall|i: int| 0 <= i < application@.len() ==> 'a' <= #[trigger] application@[i] <= 'z')
            ==> (r matches Some(d) ==> exists|base: Seq<char>| d@ == join_path(base, application@)),
{
    match directories::ProjectDirs::from(qualifier, organization, application) {
        Some(d) => Some(d.config_dir().to_string_lossy().into_owned()),
        None => None,
    }
}

/// The name of livewall's directory inside the configuration home.
pub open spec fn app_dir_name() -> Seq<char> {
    "livewall"@
}

/// The configuration directory of livewall: a directory named `livewall`
/// inside the configuration home, when the home can be found.
pub fn config_dir() -> (r: Result<String, ConfigError>)
    ensures
        r matches Ok(d) ==> exists|base: Seq<char>| d@ == join_path(base, app_dir_name()),
{
    proof {
        reveal_strlit("livewall");
        assert("livewall"@ =~= seq!['l', 'i', 'v', 'e', 'w', 'a', 'l', 'l']);
        assert forall|i: int| 0 <= i < "livewall"@.len() implies 'a' <= #[trigger] "livewall"@[i] <= 'z' by {
            assert(0 <= i < 8);
        }
    }
    let found = project_config_dir("dev", "livewall", "livewall");
    match found {
        Some(d) => {
            proof {
                let base = choose|base: Seq<char>| d@ == join_path(base, "livewall"@);
                assert(d@ == join_path(base, app_dir_name()));
            }
            Ok(d)
        },
        None => Err(ConfigError::NoConfigDir),
    }
}

/// The configuration file path inside an already resolved directory.
pub fn config_path_in(dir: Result<String, ConfigError>) -> (r: Result<String, ConfigError>)
    ensures
        match dir {
            Ok(d) => r matches Ok(p) && p@ == join_path(d@, CONFIG_FILE_NAME@),
            Err(e) => r == Err::<String, ConfigError>(e),
        },
{
    match dir {
        Ok(d) => Ok(join(d.as_str(), CONFIG_FILE_NAME)),
        Err(e) => Err(e),
    }
}

/// `config.toml` inside the configuration directory.
pub fn config_path() -> (r: Result<String, ConfigError>)
    ensures
        r matches Ok(p) ==> exists|base: Seq<char>| p@ == join_path(join_path(base, app_dir_name()), CONFIG_FILE_NAME@),
{
    let dir = config_dir();
    let r = config_path_in(dir);
    proof {
        if r is Ok {
            let base = choose|base: Seq<char>| dir->Ok_0@ == join_path(base, app_dir_name());
            assert(r->Ok_0@ == join_path(join_path(base, app_dir_name()), CONFIG_FILE_NAME@));
        }
    }
    r
}

/// The IPC socket path: under `XDG_RUNTIME_DIR` when it is set, else under
/// the temporary directory.
pub fn socket_path_from(runtime_dir: Option<String>, temp_dir: &str) -> (r: String)
    ensures
        r@ == join_path(
            match runtime_dir {
                Some(d) => d@,
                None => temp_dir@,
            },
            SOCKET_NAME@,
        ),
{
    match runtime_dir {
        Some(d) => join(d.as_str(), SOCKET_NAME),
        None => join(temp_dir, SOCKET_NAME),
    }
}

/// Whether an output name addresses every output (`ALL`, any case).
pub open spec fn is_all(output: Seq<char>) -> bool {
    crate::text::eq_ignore_case(output, "ALL"@)
}

pub fn names_all(output: &str) -> (r: bool)
    ensures
        r == is_all(output@),
{
    str_eq_ignore_case(output, "ALL")
}

} // verus!
