//! The mute controller: brings the default audio endpoint to a wanted mute
//! state, writing only when the endpoint is in the other state, and
//! replacing an endpoint handle that has gone stale.
//!
//! The controller performs no system call. It asks for one [`Action`] at a
//! time and is told what came of it as an [`Event`]; the action is carried
//! out on [`AudioController::endpoint`], by the functions handed to
//! [`AudioController::set_mute`] or by a caller that takes the steps itself
//! with [`AudioController::begin`] and [`AudioController::advance`]. One
//! operation is
//!
//! 1. read the endpoint's mute state; on failure acquire a fresh endpoint
//!    and read once more;
//! 2. stop if the state is the wanted one;
//! 3. else write the wanted state; on failure acquire a fresh endpoint and
//!    write once more.
//!
//! A failed acquisition, or a second failure of the same attempt, ends the
//! operation with [`SuppressError::DeviceUnavailable`]. The controller keeps
//! the endpoint it last held and starts afresh on the next operation.
//!
//! A controller is not for sharing between threads: an endpoint belongs to
//! the thread that acquired it, so the controller is to be made, and every
//! operation run, on that one thread.

pub mod controller;
pub mod machine;
pub mod operation;
pub mod steady;

pub use controller::AudioController;
pub use machine::{Action, Applied, ControllerState, Event, InitError, Phase, Step, SuppressError};
