//! The enforcer: the enforcement loop's decisions in executable form.
//!
//! The enforcer performs nothing itself. It names the action to perform,
//! and is told the outcome as an event together with the cancellation flag
//! as it stands at that moment:
//!
//! 1. take the first action from `pending_action`;
//! 2. perform it, unless it is `Exit`, which ends the run;
//! 3. hand the outcome to `step`, log the notice if there is one, and go on
//!    with the action that it returns.

use crate::config::EnforcementConfig;
use crate::controller::correct_if_below_target;
use crate::matcher::{resolve_alternates, Candidate};
use crate::model::{
    lemma_initial_is_wf, lemma_next_preserves_wf, stage_after_device, stage_after_slice, stage_at_candidate,
    stage_at_sleep_start, stage_at_tick_start, EnforcerModel,
};
use crate::protocol::{
    Action, DeviceLabel, Directive, EnforcementError, Event, Notice, Phase, Stage, EXIT_CLEAN,
    EXIT_FATAL, SLEEP_SLICE_MILLIS,
};
use vstd::prelude::*;

verus! {

/// One run of the enforcement loop.
#[derive(Debug)]
pub struct Enforcer {
    config: EnforcementConfig,
    stage: Stage,
    cancelled: bool,
    candidates: Vec<Candidate>,
    devices: Vec<DeviceLabel>,
}

impl View for Enforcer {
    type V = EnforcerModel;

    closed spec fn view(&self) -> EnforcerModel {
        EnforcerModel {
            target: self.config.target(),
            interval: self.config.interval(),
            fragments: self.config.fragments(),
            stage: self.stage,
            cancelled: self.cancelled,
            candidates: self.candidates@,
            devices: self.devices@,
        }
    }
}

/// The stage at the top of a tick.
fn tick_start(cancelled: bool) -> (stage: Stage)
    ensures
        stage == stage_at_tick_start(cancelled),
{
    if cancelled {
        Stage::Releasing
    } else {
        Stage::Reading { slot: 0 }
    }
}

/// The stage when the wait between ticks begins.
fn sleep_start(cancelled: bool, interval: u64) -> (stage: Stage)
    requires
        interval >= 1,
    ensures
        stage == stage_at_sleep_start(cancelled, interval),
{
    if cancelled {
        Stage::Releasing
    } else {
        Stage::Sleeping { remaining: interval - 1 }
    }
}

/// The stage once a slice has been slept.
fn after_slice(cancelled: bool, remaining: u64) -> (stage: Stage)
    ensures
        stage == stage_after_slice(cancelled, remaining),
{
    if cancelled {
        Stage::Releasing
    } else if remaining > 0 {
        Stage::Sleeping { remaining: remaining - 1 }
    } else {
        Stage::Reading { slot: 0 }
    }
}

/// The stage once the device in `slot` is done with.
fn after_device(slot: usize, devices: usize, cancelled: bool, interval: u64) -> (stage: Stage)
    requires
        slot < devices,
        interval >= 1,
    ensures
        stage == stage_after_device(slot, devices as nat, cancelled, interval),
{
    if slot + 1 < devices {
        Stage::Reading { slot: slot + 1 }
    } else {
        sleep_start(cancelled, interval)
    }
}

/// The stage when candidate `next` is up.
fn at_candidate(next: usize, candidates: usize, cancelled: bool) -> (stage: Stage)
    ensures
        stage == stage_at_candidate(next as int, candidates as nat, cancelled),
{
    if next < candidates {
        Stage::ActivatingAlternate { next }
    } else {
        tick_start(cancelled)
    }
}

impl Enforcer {
    #[verifier::type_invariant]
    spec fn well_formed(self) -> bool {
        self@.wf()
    }

    /// A run that has not begun: it waits for the cancellation handler to
    /// be installed.
    pub fn new(config: EnforcementConfig) -> (enforcer: Enforcer)
        ensures
            enforcer@ == EnforcerModel::initial(
                config.target(),
                config.interval(),
                config.fragments(),
            ),
            enforcer@.wf(),
    {
        let interval = config.poll_interval_seconds();
        let fragments = config.alternate_name_fragments().len();
        proof {
            assert(config.fragments().len() == fragments);
            lemma_initial_is_wf(config.target(), config.interval(), config.fragments());
        }
        Enforcer {
            config,
            stage: Stage::InstallingCancellation,
            cancelled: false,
            candidates: Vec::new(),
            devices: Vec::new(),
        }
    }

    /// The settings of the run.
    pub fn config(&self) -> (config: &EnforcementConfig)
        ensures
            config.target() == self@.target,
            config.interval() == self@.interval,
            config.fragments() == self@.fragments,
    {
        &self.config
    }

    /// Where the run stands.
    pub fn stage(&self) -> (stage: Stage)
        ensures
            stage == self@.stage,
    {
        self.stage
    }

    /// The phase of the run.
    pub fn phase(&self) -> (phase: Phase)
        ensures
            phase == self@.phase(),
    {
        self.stage.phase()
    }

    /// Whether the run has seen cancellation.
    pub fn is_cancelled(&self) -> (cancelled: bool)
        ensures
            cancelled == self@.cancelled,
    {
        self.cancelled
    }

    /// The target device set, slot by slot.
    pub fn devices(&self) -> (devices: &Vec<DeviceLabel>)
        ensures
            devices@ == self@.devices,
    {
        &self.devices
    }

    /// The action whose outcome the run waits for.
    pub fn pending_action(&self) -> (action: Action)
        ensures
            action == self@.pending(),
    {
        proof {
            use_type_invariant(self);
        }
        match self.stage {
            Stage::InstallingCancellation => Action::InstallCancellation,
            Stage::OpeningPlatform => Action::OpenPlatform,
            Stage::ResolvingDefault => Action::ResolveDefault,
            Stage::ActivatingDefault => Action::ActivateDefault,
            Stage::ListingDevices => Action::ListDevices,
            Stage::ActivatingAlternate { next } => Action::ActivateAlternate {
                endpoint: self.candidates[next].endpoint,
            },
            Stage::Reading { slot } => Action::ReadLevel { slot },
            Stage::Writing { slot } => Action::WriteLevel { slot, level: self.config.target_level() },
            Stage::Sleeping { .. } => Action::Sleep { millis: SLEEP_SLICE_MILLIS },
            Stage::Releasing => Action::Release,
            Stage::Stopped { code } => Action::Exit { code },
        }
    }

    /// Takes in the outcome of the pending action, with the cancellation
    /// flag as it stands, and hands back the run in its next state, the
    /// line for the log if the outcome calls for one, and the action to
    /// perform next. An event that does not answer the pending action
    /// leaves the run where it is and asks for that action again.
    pub fn step(self, event: Event, cancelled: bool) -> (out: (Enforcer, Directive))
        ensures
            out.0@ == self@.next(event, cancelled).0,
            out.1.notice == self@.next(event, cancelled).1,
            out.1.action == out.0@.pending(),
            out.0@.wf(),
    {
        proof {
            use_type_invariant(&self);
            lemma_next_preserves_wf(self@, event, cancelled);
        }
        let ghost before = self@;
        let Enforcer { config, stage, cancelled: seen_before, candidates, devices } = self;
        let mut candidates = candidates;
        let mut devices = devices;
        let seen = seen_before || cancelled;
        let interval = config.poll_interval_seconds();
        let mut onward = stage;
        let mut notice: Option<Notice> = None;
        match (stage, &event) {
            (Stage::InstallingCancellation, Event::CancellationInstalled { ok }) => {
                if *ok {
                    onward = Stage::OpeningPlatform;
                } else {
                    onward = Stage::Stopped { code: EXIT_FATAL };
                    notice = Some(
                        Notice::StartupFailed { error: EnforcementError::CancellationInstallFailed },
                    );
                }
            },
            (Stage::OpeningPlatform, Event::PlatformOpened { ok }) => {
                if *ok {
                    onward = Stage::ResolvingDefault;
                } else {
                    onward = Stage::Stopped { code: EXIT_FATAL };
                    notice = Some(Notice::StartupFailed { error: EnforcementError::PlatformUnavailable });
                }
            },
            (Stage::ResolvingDefault, Event::DefaultResolved { ok }) => {
                if *ok {
                    onward = Stage::ActivatingDefault;
                } else {
                    onward = Stage::Stopped { code: EXIT_FATAL };
                    notice = Some(Notice::StartupFailed { error: EnforcementError::PlatformUnavailable });
                }
            },
            (Stage::ActivatingDefault, Event::DefaultActivated { ok }) => {
                if *ok {
                    devices.push(DeviceLabel::Default);
                    assert(devices@ =~= seq![DeviceLabel::Default]);
                    if config.alternate_name_fragments().len() > 0 {
                        onward = Stage::ListingDevices;
                    } else {
                        onward = tick_start(seen);
                    }
                } else {
                    onward = Stage::Stopped { code: EXIT_FATAL };
                    notice = Some(Notice::StartupFailed { error: EnforcementError::ActivationFailed });
                }
            },
            (Stage::ListingDevices, Event::DevicesListed { names }) => {
                match names {
                    Some(names) => {
                        candidates = resolve_alternates(names, config.alternate_name_fragments());
                        onward = at_candidate(0, candidates.len(), seen);
                    },
                    None => {
                        onward = tick_start(seen);
                        notice = Some(
                            Notice::AlternatesUnavailable {
                                error: EnforcementError::PlatformUnavailable,
                            },
                        );
                    },
                }
            },
            (Stage::ActivatingAlternate { next }, Event::AlternateActivated { ok }) => {
                let candidate = candidates[next];
                onward = at_candidate(next + 1, candidates.len(), seen);
                if *ok {
                    devices.push(
                        DeviceLabel::Alternate {
                            fragment: candidate.fragment,
                            endpoint: candidate.endpoint,
                        },
                    );
                } else {
                    notice = Some(
                        Notice::AlternateDropped {
                            fragment: candidate.fragment,
                            endpoint: candidate.endpoint,
                            error: EnforcementError::ActivationFailed,
                        },
                    );
                }
            },
            (Stage::Reading { slot }, Event::LevelRead { level }) => {
                match level {
                    Some(current) => {
                        if correct_if_below_target(*current, config.target_level()).is_some() {
                            onward = Stage::Writing { slot };
                        } else {
                            onward = after_device(slot, devices.len(), seen, interval);
                        }
                    },
                    None => {
                        onward = after_device(slot, devices.len(), seen, interval);
                        notice = Some(
                            Notice::CorrectionSkipped {
                                device: devices[slot],
                                error: EnforcementError::VolumeReadFailed,
                            },
                        );
                    },
                }
            },
            (Stage::Writing { slot }, Event::LevelWritten { ok }) => {
                onward = after_device(slot, devices.len(), seen, interval);
                if *ok {
                    notice = Some(Notice::VolumeSet { device: devices[slot] });
                } else {
                    notice = Some(
                        Notice::CorrectionSkipped {
                            device: devices[slot],
                            error: EnforcementError::VolumeWriteFailed,
                        },
                    );
                }
            },
            (Stage::Sleeping { remaining }, Event::SliceElapsed) => {
                onward = after_slice(seen, remaining);
            },
            (Stage::Releasing, Event::Released) => {
                onward = Stage::Stopped { code: EXIT_CLEAN };
                notice = Some(Notice::ShutdownComplete);
            },
            _ => {},
        }
        proof {
            let after = EnforcerModel {
                target: config.target(),
                interval: config.interval(),
                fragments: config.fragments(),
                stage: onward,
                cancelled: seen,
                candidates: candidates@,
                devices: devices@,
            };
            assert(after =~= before.next(event, cancelled).0);
        }
        let enforcer = Enforcer { config, stage: onward, cancelled: seen, candidates, devices };
        let action = enforcer.pending_action();
        (enforcer, Directive { notice, action })
    }
}

} // verus!
