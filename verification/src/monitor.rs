//! One tick of the monitor: scan the windows, evaluate the trigger, and
//! bring the audio endpoint to the mute state that the trigger calls for.
//!
//! A tick neither sleeps nor loops. Its caller decides how often to tick and
//! hands in the windows it has enumerated, together with the functions that
//! work on the endpoint.

use crate::audio::machine::at_rest;
use crate::audio::operation::carried_out;
use crate::audio::{Applied, AudioController, ControllerState, InitError, SuppressError};
use crate::inspector::{snapshot, snapshot_of, RawWindow};
use crate::trigger::{evaluate, trigger_active, Trigger, TriggerConfig, TARGET_BIN, TRIGGER_TITLE};
use vstd::prelude::*;

verus! {

/// A trigger together with the mute controller that follows it.
#[derive(Debug)]
pub struct Monitor<H> {
    config: TriggerConfig,
    audio: AudioController<H>,
}

/// What a [`Monitor`] stands for in contracts.
pub struct MonitorState<H> {
    /// The trigger watched for.
    pub trigger: Trigger,
    /// The mute controller.
    pub audio: ControllerState<H>,
}

/// What one tick found and did.
#[derive(Clone, Copy, PartialEq, Eq, Debug)]
pub struct Tick {
    /// Whether the trigger was active on the windows of this tick.
    pub active: bool,
    /// How the attempt to mute or unmute the endpoint ended.
    pub applied: Result<Applied, SuppressError>,
}

impl<H> View for Monitor<H> {
    type V = MonitorState<H>;

    closed spec fn view(&self) -> MonitorState<H> {
        MonitorState { trigger: self.config@, audio: self.audio@ }
    }
}

impl<H> Monitor<H> {
    /// A monitor for `config` on the endpoint that was acquired for it.
    /// Without an endpoint there is no monitor: the failure is handed back
    /// for the caller to deal with, and nothing is tried again.
    pub fn new(config: TriggerConfig, acquired: Option<H>) -> (made: Result<Monitor<H>, InitError>)
        ensures
            match acquired {
                Some(endpoint) => made is Ok && made->Ok_0@ == (MonitorState {
                    trigger: config@,
                    audio: at_rest(endpoint),
                }),
                None => made == Err::<Monitor<H>, InitError>(InitError::NoEndpoint),
            },
    {
        match AudioController::new(acquired) {
            Ok(audio) => Ok(Monitor { config, audio }),
            Err(error) => Err(error),
        }
    }

    /// The trigger that this monitor watches for.
    pub fn config(&self) -> (config: &TriggerConfig)
        ensures
            config@ == self@.trigger,
    {
        &self.config
    }

    /// The endpoint handle held by the mute controller.
    pub fn endpoint(&self) -> (endpoint: &H)
        ensures
            *endpoint == self@.audio.endpoint,
    {
        self.audio.endpoint()
    }

    /// One tick: tells whether the trigger is active on `windows`, and
    /// mutes the endpoint if it is, unmutes it if it is not, with `read`,
    /// `write` and `acquire` doing the work on the endpoint as in
    /// [`AudioController::set_mute`]. Whether the trigger is active is told
    /// however the attempt on the endpoint ends.
    pub fn check_and_apply<R, W, A>(
        &mut self,
        windows: &Vec<RawWindow>,
        read: &R,
        write: &W,
        acquire: &A,
    ) -> (tick: Tick) where
        R: Fn(&H) -> Option<bool>,
        W: Fn(&H, bool) -> bool,
        A: Fn() -> Option<H>,

        requires
            forall|endpoint: &H| #[trigger] read.requires((endpoint,)),
            forall|endpoint: &H, value: bool| #[trigger] write.requires((endpoint, value)),
            acquire.requires(()),
        ensures
            tick.active == trigger_active(snapshot_of(windows.deep_view()), old(self)@.trigger),
            final(self)@.trigger == old(self)@.trigger,
            carried_out(
                old(self)@.audio,
                tick.active,
                read,
                write,
                acquire,
                final(self)@.audio,
                tick.applied,
            ),
    {
        let entries = snapshot(windows);
        let active = evaluate(&entries, &self.config);
        let applied = self.audio.set_mute(active, read, write, acquire);
        Tick { active, applied }
    }
}

/// One tick on a bare controller, for the trigger on [`TARGET_BIN`] and
/// [`TRIGGER_TITLE`]: mutes the endpoint if that trigger is active on
/// `windows` and unmutes it if not, as [`AudioController::set_mute`] does.
pub fn scan<H, R, W, A>(
    audio_controller: &mut AudioController<H>,
    windows: &Vec<RawWindow>,
    read: &R,
    write: &W,
    acquire: &A,
) -> (applied: Result<Applied, SuppressError>) where
    R: Fn(&H) -> Option<bool>,
    W: Fn(&H, bool) -> bool,
    A: Fn() -> Option<H>,

    requires
        forall|endpoint: &H| #[trigger] read.requires((endpoint,)),
        forall|endpoint: &H, value: bool| #[trigger] write.requires((endpoint, value)),
        acquire.requires(()),
    ensures
        carried_out(
            old(audio_controller)@,
            trigger_active(
                snapshot_of(windows.deep_view()),
                Trigger { target: TARGET_BIN@, title: TRIGGER_TITLE@ },
            ),
            read,
            write,
            acquire,
            final(audio_controller)@,
            applied,
        ),
{
    let config = TriggerConfig::default();
    let entries = snapshot(windows);
    let found = evaluate(&entries, &config);
    audio_controller.set_mute(found, read, write, acquire)
}

} // verus!
