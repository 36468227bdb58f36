//! Verified core of the livewall wallpaper daemon and its control client:
//! option parsing, configuration defaults, IPC framing, frame conversion,
//! decode-path and GPU selection policy, power policy and the daemon's
//! request handling state machine.

pub mod text;
pub mod keyed;
pub mod decimal;
pub mod types;
pub mod config;
pub mod frame;
pub mod slot;
pub mod surfaces;
pub mod video;
pub mod power;
pub mod metrics;
pub mod gpu;
pub mod ctl;
pub mod image_player;
pub mod present;
pub mod ipc;
pub mod daemon;

