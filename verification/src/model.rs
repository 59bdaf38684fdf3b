//! The enforcement loop as a state machine over mathematical values.
//!
//! A run starts by installing the cancellation handler, opening the audio
//! subsystem, resolving and activating the default device, and resolving
//! and activating each device found by name. It then ticks: it reads each
//! device of the target set in order and raises those below the target,
//! sleeps the poll interval in short slices, and starts over. Cancellation
//! is looked at where a tick would start and around each slice of sleep;
//! once seen it is never forgotten, and the run releases what it holds and
//! stops.

use crate::controller::correction;
use crate::level::Level;
use crate::matcher::{lemma_resolved_upto, resolved, Candidate};
use crate::protocol::{
    Action, DeviceLabel, EnforcementError, Event, Notice, Phase, Stage, EXIT_CLEAN, EXIT_FATAL,
    SLEEP_SLICE_MILLIS,
};
use vstd::prelude::*;

verus! {

/// The state of a run.
#[verifier::ext_equal]
pub struct EnforcerModel {
    /// The level that devices are held at.
    pub target: Level,
    /// The seconds from one tick to the next.
    pub interval: u64,
    /// The name fragments of the additional devices.
    pub fragments: Seq<Seq<char>>,
    /// Where the run stands.
    pub stage: Stage,
    /// Whether cancellation has been seen.
    pub cancelled: bool,
    /// The additional devices that the matcher found.
    pub candidates: Seq<Candidate>,
    /// The target device set: slot by slot, the devices to enforce.
    pub devices: Seq<DeviceLabel>,
}

/// The stage at the top of a tick: the first device is read, unless
/// cancellation has been seen.
pub open spec fn stage_at_tick_start(cancelled: bool) -> Stage {
    if cancelled {
        Stage::Releasing
    } else {
        Stage::Reading { slot: 0 }
    }
}

/// The stage when the wait between ticks begins: its first slice is slept,
/// unless cancellation has been seen.
pub open spec fn stage_at_sleep_start(cancelled: bool, interval: u64) -> Stage {
    if cancelled {
        Stage::Releasing
    } else {
        Stage::Sleeping { remaining: (interval - 1) as u64 }
    }
}

/// The stage once a slice has been slept with `remaining` more to follow.
pub open spec fn stage_after_slice(cancelled: bool, remaining: u64) -> Stage {
    if cancelled {
        Stage::Releasing
    } else if remaining > 0 {
        Stage::Sleeping { remaining: (remaining - 1) as u64 }
    } else {
        Stage::Reading { slot: 0 }
    }
}

/// The stage once the device in `slot` is done with, whatever came of it:
/// the next device is read, or after the last one the wait begins.
pub open spec fn stage_after_device(slot: usize, devices: nat, cancelled: bool, interval: u64) -> Stage {
    if slot + 1 < devices {
        Stage::Reading { slot: (slot + 1) as usize }
    } else {
        stage_at_sleep_start(cancelled, interval)
    }
}

/// The stage when candidate `next` is up: it is activated, or with none
/// left the first tick starts.
pub open spec fn stage_at_candidate(next: int, candidates: nat, cancelled: bool) -> Stage {
    if next < candidates {
        Stage::ActivatingAlternate { next: next as usize }
    } else {
        stage_at_tick_start(cancelled)
    }
}

impl EnforcerModel {
    /// The state of a run that has not begun.
    pub open spec fn initial(target: Level, interval: u64, fragments: Seq<Seq<char>>) -> EnforcerModel {
        EnforcerModel {
            target,
            interval,
            fragments,
            stage: Stage::InstallingCancellation,
            cancelled: false,
            candidates: Seq::empty(),
            devices: Seq::empty(),
        }
    }

    /// Whether the target device set holds the default device in slot 0.
    pub open spec fn has_default(self) -> bool {
        self.devices.len() >= 1 && self.devices[0] == DeviceLabel::Default
    }

    /// Whether each candidate names one of the configured fragments.
    pub open spec fn candidates_name_fragments(self) -> bool {
        forall|i: int|
            0 <= i < self.candidates.len() ==> (#[trigger] self.candidates[i]).fragment
                < self.fragments.len()
    }

    /// Whether each device past slot 0 was found by one of the configured
    /// fragments.
    pub open spec fn alternates_name_fragments(self) -> bool {
        forall|slot: int|
            1 <= slot < self.devices.len() ==> (#[trigger] self.devices[slot] matches DeviceLabel::Alternate {
                fragment,
                ..
            } && fragment < self.fragments.len())
    }

    /// What holds of every state that a run can reach.
    pub open spec fn wf(self) -> bool {
        &&& self.interval >= 1
        &&& self.fragments.len() <= usize::MAX
        &&& self.candidates.len() <= self.fragments.len()
        &&& self.devices.len() <= 1 + self.candidates.len()
        &&& self.candidates_name_fragments()
        &&& self.alternates_name_fragments()
        &&& match self.stage {
            Stage::InstallingCancellation
            | Stage::OpeningPlatform
            | Stage::ResolvingDefault
            | Stage::ActivatingDefault => self.devices.len() == 0 && self.candidates.len() == 0,
            Stage::ListingDevices => {
                &&& self.has_default()
                &&& self.devices.len() == 1
                &&& self.candidates.len() == 0
                &&& self.fragments.len() > 0
            },
            Stage::ActivatingAlternate { next } => {
                &&& self.has_default()
                &&& next < self.candidates.len()
                &&& self.devices.len() <= 1 + next
            },
            Stage::Reading { slot } | Stage::Writing { slot } => self.has_default() && slot
                < self.devices.len(),
            Stage::Sleeping { remaining } => self.has_default() && remaining < self.interval,
            Stage::Releasing => self.has_default(),
            Stage::Stopped { code } => code == EXIT_CLEAN || code == EXIT_FATAL,
        }
    }

    /// The phase of the run.
    pub open spec fn phase(self) -> Phase {
        self.stage.phase_of()
    }

    /// The action whose outcome the run waits for.
    pub open spec fn pending(self) -> Action {
        match self.stage {
            Stage::InstallingCancellation => Action::InstallCancellation,
            Stage::OpeningPlatform => Action::OpenPlatform,
            Stage::ResolvingDefault => Action::ResolveDefault,
            Stage::ActivatingDefault => Action::ActivateDefault,
            Stage::ListingDevices => Action::ListDevices,
            Stage::ActivatingAlternate { next } => Action::ActivateAlternate {
                endpoint: self.candidates[next as int].endpoint,
            },
            Stage::Reading { slot } => Action::ReadLevel { slot },
            Stage::Writing { slot } => Action::WriteLevel { slot, level: self.target },
            Stage::Sleeping { .. } => Action::Sleep { millis: SLEEP_SLICE_MILLIS },
            Stage::Releasing => Action::Release,
            Stage::Stopped { code } => Action::Exit { code },
        }
    }

    /// The same run at another stage.
    pub open spec fn at(self, stage: Stage) -> EnforcerModel {
        EnforcerModel { stage, ..self }
    }

    /// The run stopped by a failure during start-up.
    pub open spec fn failed(self, error: EnforcementError) -> (EnforcerModel, Option<Notice>) {
        (self.at(Stage::Stopped { code: EXIT_FATAL }), Some(Notice::StartupFailed { error }))
    }

    /// The label of the device that candidate `next` becomes.
    pub open spec fn label_of_candidate(self, next: int) -> DeviceLabel {
        DeviceLabel::Alternate {
            fragment: self.candidates[next].fragment,
            endpoint: self.candidates[next].endpoint,
        }
    }

    /// The state after an event, and the line for the log that the event
    /// gives rise to. An event that does not answer the pending action
    /// changes nothing but the memory of cancellation.
    pub open spec fn next(self, event: Event, cancelled: bool) -> (EnforcerModel, Option<Notice>) {
        let seen = self.cancelled || cancelled;
        let now = EnforcerModel { cancelled: seen, ..self };
        match (self.stage, event) {
            (Stage::InstallingCancellation, Event::CancellationInstalled { ok }) => if ok {
                (now.at(Stage::OpeningPlatform), None)
            } else {
                now.failed(EnforcementError::CancellationInstallFailed)
            },
            (Stage::OpeningPlatform, Event::PlatformOpened { ok }) => if ok {
                (now.at(Stage::ResolvingDefault), None)
            } else {
                now.failed(EnforcementError::PlatformUnavailable)
            },
            (Stage::ResolvingDefault, Event::DefaultResolved { ok }) => if ok {
                (now.at(Stage::ActivatingDefault), None)
            } else {
                now.failed(EnforcementError::PlatformUnavailable)
            },
            (Stage::ActivatingDefault, Event::DefaultActivated { ok }) => if ok {
                let stage = if self.fragments.len() > 0 {
                    Stage::ListingDevices
                } else {
                    stage_at_tick_start(seen)
                };
                (EnforcerModel { stage, devices: seq![DeviceLabel::Default], ..now }, None)
            } else {
                now.failed(EnforcementError::ActivationFailed)
            },
            (Stage::ListingDevices, Event::DevicesListed { names }) => match names {
                Some(names) => {
                    let candidates = resolved(names.deep_view(), self.fragments);
                    let stage = stage_at_candidate(0, candidates.len(), seen);
                    (EnforcerModel { stage, candidates, ..now }, None)
                },
                None => (
                    now.at(stage_at_tick_start(seen)),
                    Some(
                        Notice::AlternatesUnavailable { error: EnforcementError::PlatformUnavailable },
                    ),
                ),
            },
            (Stage::ActivatingAlternate { next }, Event::AlternateActivated { ok }) => {
                let stage = stage_at_candidate(next + 1, self.candidates.len(), seen);
                if ok {
                    let devices = self.devices.push(self.label_of_candidate(next as int));
                    (EnforcerModel { stage, devices, ..now }, None)
                } else {
                    (
                        now.at(stage),
                        Some(
                            Notice::AlternateDropped {
                                fragment: self.candidates[next as int].fragment,
                                endpoint: self.candidates[next as int].endpoint,
                                error: EnforcementError::ActivationFailed,
                            },
                        ),
                    )
                }
            },
            (Stage::Reading { slot }, Event::LevelRead { level }) => {
                let onward = stage_after_device(slot, self.devices.len(), seen, self.interval);
                match level {
                    Some(current) => if correction(current, self.target) is Some {
                        (now.at(Stage::Writing { slot }), None)
                    } else {
                        (now.at(onward), None)
                    },
                    None => (
                        now.at(onward),
                        Some(
                            Notice::CorrectionSkipped {
                                device: self.devices[slot as int],
                                error: EnforcementError::VolumeReadFailed,
                            },
                        ),
                    ),
                }
            },
            (Stage::Writing { slot }, Event::LevelWritten { ok }) => {
                let onward = stage_after_device(slot, self.devices.len(), seen, self.interval);
                let device = self.devices[slot as int];
                if ok {
                    (now.at(onward), Some(Notice::VolumeSet { device }))
                } else {
                    (
                        now.at(onward),
                        Some(
                            Notice::CorrectionSkipped {
                                device,
                                error: EnforcementError::VolumeWriteFailed,
                            },
                        ),
                    )
                }
            },
            (Stage::Sleeping { remaining }, Event::SliceElapsed) => (
                now.at(stage_after_slice(seen, remaining)),
                None,
            ),
            (Stage::Releasing, Event::Released) => (
                now.at(Stage::Stopped { code: EXIT_CLEAN }),
                Some(Notice::ShutdownComplete),
            ),
            _ => (now, None),
        }
    }
}

/// A run that has not begun is well formed.
pub proof fn lemma_initial_is_wf(target: Level, interval: u64, fragments: Seq<Seq<char>>)
    requires
        interval >= 1,
        fragments.len() <= usize::MAX,
    ensures
        EnforcerModel::initial(target, interval, fragments).wf(),
{
}

/// No event leads a well-formed run to a state that is not.
pub proof fn lemma_next_preserves_wf(model: EnforcerModel, event: Event, cancelled: bool)
    requires
        model.wf(),
    ensures
        model.next(event, cancelled).0.wf(),
{
    match (model.stage, event) {
        (Stage::ListingDevices, Event::DevicesListed { names: Some(names) }) => {
            assert(names.deep_view().len() == names.len());
            lemma_resolved_upto(names.deep_view(), model.fragments, model.fragments.len() as int);
        },
        _ => {},
    }
}

/// The place of a phase in the order in which a run passes through them.
pub open spec fn phase_order(phase: Phase) -> nat {
    match phase {
        Phase::Starting => 0,
        Phase::Running => 1,
        Phase::Draining => 2,
        Phase::Stopped => 3,
    }
}

/// A run never goes back to an earlier phase.
pub proof fn lemma_phases_only_advance(model: EnforcerModel, event: Event, cancelled: bool)
    ensures
        phase_order(model.phase()) <= phase_order(model.next(event, cancelled).0.phase()),
{
}

/// A run that has stopped stays stopped, with the same exit code, and has
/// nothing more to say.
pub proof fn lemma_stopped_is_final(model: EnforcerModel, event: Event, cancelled: bool)
    requires
        model.phase() == Phase::Stopped,
    ensures
        model.next(event, cancelled).0.stage == model.stage,
        model.next(event, cancelled).1 is None,
{
}

/// In every phase but the first and the last, the default device is in the
/// target device set, in slot 0.
pub proof fn lemma_default_device_is_enforced(model: EnforcerModel)
    requires
        model.wf(),
        model.phase() == Phase::Running || model.phase() == Phase::Draining,
    ensures
        model.has_default(),
{
}

/// A device that reads at or above the target is not written to: the run
/// goes on to what follows the device, and nothing is logged.
pub proof fn lemma_satisfied_device_is_left_alone(
    model: EnforcerModel,
    slot: usize,
    current: Level,
    cancelled: bool,
)
    requires
        model.wf(),
        model.stage == (Stage::Reading { slot }),
        current@ >= model.target@,
    ensures
        ({
            let (after, notice) = model.next(Event::LevelRead { level: Some(current) }, cancelled);
            &&& notice is None
            &&& !(after.pending() is WriteLevel)
            &&& after.stage == stage_after_device(
                slot,
                model.devices.len(),
                model.cancelled || cancelled,
                model.interval,
            )
        }),
{
}

/// A device that reads below the target is written to, with exactly the
/// target; once the write has succeeded, this is logged for that device.
pub proof fn lemma_low_device_is_raised(
    model: EnforcerModel,
    slot: usize,
    current: Level,
    cancelled: bool,
    cancelled_later: bool,
)
    requires
        model.wf(),
        model.stage == (Stage::Reading { slot }),
        current@ < model.target@,
    ensures
        ({
            let (writing, silent) = model.next(Event::LevelRead { level: Some(current) }, cancelled);
            let (after, notice) = writing.next(Event::LevelWritten { ok: true }, cancelled_later);
            &&& silent is None
            &&& writing.pending() == (Action::WriteLevel { slot, level: model.target })
            &&& notice == Some(Notice::VolumeSet { device: model.devices[slot as int] })
            &&& !(after.pending() is WriteLevel)
        }),
{
}

/// Whatever comes of a device, the pass moves on: a reading either calls
/// for a write to the same device or leads to what follows the device, and
/// the outcome of a write always leads there. What follows does not depend
/// on the outcome.
pub proof fn lemma_pass_moves_on(
    model: EnforcerModel,
    slot: usize,
    level: Option<Level>,
    ok: bool,
    cancelled: bool,
)
    requires
        model.wf(),
    ensures
        ({
            let onward = stage_after_device(
                slot,
                model.devices.len(),
                model.cancelled || cancelled,
                model.interval,
            );
            &&& model.stage == (Stage::Reading { slot }) ==> {
                let after = model.next(Event::LevelRead { level }, cancelled).0;
                &&& after.stage == onward || after.stage == (Stage::Writing { slot })
                &&& after.devices == model.devices
            }
            &&& model.stage == (Stage::Writing { slot }) ==> {
                let after = model.next(Event::LevelWritten { ok }, cancelled).0;
                &&& after.stage == onward
                &&& after.devices == model.devices
            }
            &&& slot + 1 < model.devices.len() ==> onward == (Stage::Reading {
                slot: (slot + 1) as usize,
            })
        }),
{
}

/// A device whose level cannot be read does not keep the next device from
/// being corrected in the same tick: the failure is logged, the next device
/// is read, and where it reads below the target it is written to.
pub proof fn lemma_failed_read_is_isolated(
    model: EnforcerModel,
    slot: usize,
    cancelled: bool,
    next_reading: Level,
    cancelled_later: bool,
)
    requires
        model.wf(),
        model.stage == (Stage::Reading { slot }),
        slot + 1 < model.devices.len(),
        next_reading@ < model.target@,
    ensures
        ({
            let (skipped, notice) = model.next(Event::LevelRead { level: None }, cancelled);
            let (writing, _) = skipped.next(
                Event::LevelRead { level: Some(next_reading) },
                cancelled_later,
            );
            &&& notice == Some(
                Notice::CorrectionSkipped {
                    device: model.devices[slot as int],
                    error: EnforcementError::VolumeReadFailed,
                },
            )
            &&& skipped.devices == model.devices
            &&& skipped.pending() == (Action::ReadLevel { slot: (slot + 1) as usize })
            &&& writing.pending() == (Action::WriteLevel {
                slot: (slot + 1) as usize,
                level: model.target,
            })
        }),
{
}

/// A device whose level cannot be written does not keep the next device
/// from being corrected in the same tick either.
pub proof fn lemma_failed_write_is_isolated(
    model: EnforcerModel,
    slot: usize,
    cancelled: bool,
    next_reading: Level,
    cancelled_later: bool,
)
    requires
        model.wf(),
        model.stage == (Stage::Writing { slot }),
        slot + 1 < model.devices.len(),
        next_reading@ < model.target@,
    ensures
        ({
            let (skipped, notice) = model.next(Event::LevelWritten { ok: false }, cancelled);
            let (writing, _) = skipped.next(
                Event::LevelRead { level: Some(next_reading) },
                cancelled_later,
            );
            &&& notice == Some(
                Notice::CorrectionSkipped {
                    device: model.devices[slot as int],
                    error: EnforcementError::VolumeWriteFailed,
                },
            )
            &&& skipped.devices == model.devices
            &&& skipped.pending() == (Action::ReadLevel { slot: (slot + 1) as usize })
            &&& writing.pending() == (Action::WriteLevel {
                slot: (slot + 1) as usize,
                level: model.target,
            })
        }),
{
}

/// No failure of a read or a write ends the run: it stays in the running
/// phase, or leaves it for a clean shutdown where cancellation was seen.
pub proof fn lemma_correction_failures_are_not_fatal(model: EnforcerModel, cancelled: bool)
    requires
        model.wf(),
        model.phase() == Phase::Running,
    ensures
        model.next(Event::LevelRead { level: None }, cancelled).0.phase() != Phase::Stopped,
        model.next(Event::LevelWritten { ok: false }, cancelled).0.phase() != Phase::Stopped,
        !(model.cancelled || cancelled) ==> {
            &&& model.next(Event::LevelRead { level: None }, cancelled).0.phase() == Phase::Running
            &&& model.next(Event::LevelWritten { ok: false }, cancelled).0.phase()
                == Phase::Running
        },
{
}

/// Cancellation, once seen, is never forgotten.
pub proof fn lemma_cancellation_is_remembered(model: EnforcerModel, event: Event, cancelled: bool)
    ensures
        model.next(event, cancelled).0.cancelled == (model.cancelled || cancelled),
{
}

/// No single sleep is longer than one slice.
pub proof fn lemma_sleep_is_sliced(model: EnforcerModel)
    ensures
        model.pending() matches Action::Sleep { millis } ==> millis == SLEEP_SLICE_MILLIS,
{
}

/// Cancellation that arrives during the wait between ticks ends the wait
/// with the slice in progress: the run leaves the running phase and
/// releases what it holds, however much of the interval was left.
pub proof fn lemma_cancellation_ends_the_wait(model: EnforcerModel, remaining: u64)
    requires
        model.stage == (Stage::Sleeping { remaining }),
    ensures
        model.next(Event::SliceElapsed, true).0.stage == Stage::Releasing,
        model.next(Event::SliceElapsed, true).0.phase() == Phase::Draining,
        model.next(Event::SliceElapsed, true).0.pending() == Action::Release,
        model.next(Event::SliceElapsed, true).1 is None,
{
}

/// Once cancellation has been seen, no tick starts and no wait begins or
/// goes on.
pub proof fn lemma_nothing_starts_after_cancellation(
    model: EnforcerModel,
    event: Event,
    cancelled: bool,
)
    requires
        model.wf(),
        model.cancelled || cancelled,
    ensures
        ({
            let after = model.next(event, cancelled).0;
            &&& after.stage == (Stage::Reading { slot: 0 }) ==> after.stage == model.stage
            &&& after.stage is Sleeping ==> after.stage == model.stage
        }),
{
}

/// Without cancellation, the wait between two ticks is as many slices as
/// the interval has seconds: each slice slept leaves one fewer to sleep,
/// and the one after the last starts the next tick.
pub proof fn lemma_wait_counts_down(model: EnforcerModel, remaining: u64)
    requires
        model.stage == (Stage::Sleeping { remaining }),
        !model.cancelled,
    ensures
        remaining > 0 ==> model.next(Event::SliceElapsed, false).0.stage == (Stage::Sleeping {
            remaining: (remaining - 1) as u64,
        }),
        remaining == 0 ==> model.next(Event::SliceElapsed, false).0.stage == (Stage::Reading {
            slot: 0,
        }),
{
}

/// A failure on the way to the default device ends the run before it
/// enforces anything: the run stops with the failure's exit code.
pub proof fn lemma_default_path_failures_are_fatal(model: EnforcerModel, cancelled: bool)
    ensures
        model.stage == Stage::InstallingCancellation ==> model.next(
            Event::CancellationInstalled { ok: false },
            cancelled,
        ) == (
            EnforcerModel {
                stage: Stage::Stopped { code: EXIT_FATAL },
                cancelled: model.cancelled || cancelled,
                ..model
            },
            Some(Notice::StartupFailed { error: EnforcementError::CancellationInstallFailed }),
        ),
        model.stage == Stage::OpeningPlatform ==> model.next(
            Event::PlatformOpened { ok: false },
            cancelled,
        ) == (
            EnforcerModel {
                stage: Stage::Stopped { code: EXIT_FATAL },
                cancelled: model.cancelled || cancelled,
                ..model
            },
            Some(Notice::StartupFailed { error: EnforcementError::PlatformUnavailable }),
        ),
        model.stage == Stage::ResolvingDefault ==> model.next(
            Event::DefaultResolved { ok: false },
            cancelled,
        ) == (
            EnforcerModel {
                stage: Stage::Stopped { code: EXIT_FATAL },
                cancelled: model.cancelled || cancelled,
                ..model
            },
            Some(Notice::StartupFailed { error: EnforcementError::PlatformUnavailable }),
        ),
        model.stage == Stage::ActivatingDefault ==> model.next(
            Event::DefaultActivated { ok: false },
            cancelled,
        ) == (
            EnforcerModel {
                stage: Stage::Stopped { code: EXIT_FATAL },
                cancelled: model.cancelled || cancelled,
                ..model
            },
            Some(Notice::StartupFailed { error: EnforcementError::ActivationFailed }),
        ),
{
}

/// A failure on the way to a device found by name does not end the run:
/// the device is left out with a warning, the target device set stays as it
/// was, and after the last candidate the run starts ticking.
pub proof fn lemma_alternate_failures_are_survived(
    model: EnforcerModel,
    next: usize,
    cancelled: bool,
)
    requires
        model.wf(),
        model.stage == (Stage::ActivatingAlternate { next }),
    ensures
        ({
            let (after, notice) = model.next(Event::AlternateActivated { ok: false }, cancelled);
            &&& notice == Some(
                Notice::AlternateDropped {
                    fragment: model.candidates[next as int].fragment,
                    endpoint: model.candidates[next as int].endpoint,
                    error: EnforcementError::ActivationFailed,
                },
            )
            &&& after.devices == model.devices
            &&& after.has_default()
            &&& after.phase() != Phase::Stopped
            &&& next + 1 == model.candidates.len() && !(model.cancelled || cancelled)
                ==> after.stage == (Stage::Reading { slot: 0 })
        }),
{
}

/// Where enumeration fails, the run goes on with the default device alone.
pub proof fn lemma_failed_enumeration_is_survived(model: EnforcerModel, cancelled: bool)
    requires
        model.wf(),
        model.stage == Stage::ListingDevices,
    ensures
        ({
            let (after, notice) = model.next(Event::DevicesListed { names: None }, cancelled);
            &&& notice == Some(
                Notice::AlternatesUnavailable { error: EnforcementError::PlatformUnavailable },
            )
            &&& after.devices == seq![DeviceLabel::Default]
            &&& after.stage == stage_at_tick_start(model.cancelled || cancelled)
        }),
{
    assert(model.devices =~= seq![DeviceLabel::Default]);
}

} // verus!
