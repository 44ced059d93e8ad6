//! Mutes the default audio output while a target application shows a window
//! with a known title, and unmutes it again when the window is gone.
//!
//! The library decides; it performs no system call itself. A host
//! enumerates the desktop's windows and hands them in as [`RawWindow`]s,
//! together with three functions that read, write and acquire the audio
//! endpoint. [`Monitor::check_and_apply`] is one tick: it scans the windows
//! ([`snapshot`]), decides whether the trigger shows ([`evaluate`]) and has
//! the [`AudioController`] bring the endpoint to the matching mute state.
//!
//! A host that cannot hand in functions drives the controller itself: it
//! carries out each [`Action`] that the controller asks for and reports
//! what came of it as an [`Event`].

pub mod audio;
pub mod error;
pub mod inspector;
pub mod monitor;
pub mod settings;
pub mod text;
pub mod trigger;

pub use audio::{Action, Applied, AudioController, Event, InitError, Step, SuppressError};
pub use error::{Error, ErrorKind};
pub use inspector::{snapshot, RawWindow, WindowEntry};
pub use monitor::{scan, Monitor, Tick};
pub use settings::Settings;
pub use trigger::{evaluate, TriggerConfig};
