//! Verified core of the health sonification daemon: severity and
//! probe-result classification, thread supervision and play-thread
//! policy, the source registry and the remote connector's state
//! machine, the patch library's editing operations, the browser
//! protocol, configuration validation, and export formatting.

pub mod text;
pub mod severity;
pub mod scale;
pub mod timing;
pub mod supervision;
pub mod sources;
pub mod config;
pub mod oidc;
pub mod nix;
pub mod lock_util;
pub mod probe;
pub mod check;
pub mod heartbeat_config;
pub mod web;
pub mod mixer;
pub mod named_map;
pub mod library;
pub mod remote;
pub mod protocol;
pub mod print_format;
pub mod audio_device;
pub mod play;
pub mod poll;
pub mod param_order;
