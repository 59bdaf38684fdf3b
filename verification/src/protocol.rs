//! The vocabulary between the enforcer and the code that runs it: the
//! actions that the enforcer asks for, the events that answer them, and the
//! notices that it gives for the log.

use crate::level::Level;
use vstd::prelude::*;

verus! {

/// The longest single sleep, in milliseconds. The wait between two ticks is
/// cut into sleeps of this length, and cancellation is looked at after each.
pub const SLEEP_SLICE_MILLIS: u64 = 1000;

/// The exit code of a run that was cancelled and shut down cleanly.
pub const EXIT_CLEAN: u8 = 0;

/// The exit code of a run that failed during start-up.
pub const EXIT_FATAL: u8 = 1;

/// What can go wrong.
#[derive(Clone, Copy, Debug, PartialEq, Eq, Structural)]
pub enum EnforcementError {
    /// The audio subsystem cannot be reached, or has no default capture
    /// device.
    PlatformUnavailable,
    /// A device could not be opened for volume control.
    ActivationFailed,
    /// A device's friendly name could not be read.
    NameUnavailable,
    /// A device's level could not be read.
    VolumeReadFailed,
    /// A device's level could not be written.
    VolumeWriteFailed,
    /// The cancellation handler could not be installed.
    CancellationInstallFailed,
}

/// Which device an entry of the target device set is.
#[derive(Clone, Copy, Debug, PartialEq, Eq, Structural)]
pub enum DeviceLabel {
    /// The system's default capture device.
    Default,
    /// A device found by name: the place of its fragment among the
    /// configured ones, and of its endpoint among the enumerated ones.
    Alternate { fragment: usize, endpoint: usize },
}

/// The four states of a run.
#[derive(Clone, Copy, Debug, PartialEq, Eq, Structural)]
pub enum Phase {
    Starting,
    Running,
    Draining,
    Stopped,
}

/// Where the enforcer stands: the phase, and within it the answer that it
/// waits for.
#[derive(Clone, Copy, Debug, PartialEq, Eq, Structural)]
pub enum Stage {
    /// Starting: the cancellation handler is being installed.
    InstallingCancellation,
    /// Starting: the audio subsystem is being opened.
    OpeningPlatform,
    /// Starting: the default capture device is being looked up.
    ResolvingDefault,
    /// Starting: the default device's volume control is being opened.
    ActivatingDefault,
    /// Starting: the active capture endpoints are being enumerated.
    ListingDevices,
    /// Starting: the volume control of candidate `next` is being opened.
    ActivatingAlternate { next: usize },
    /// Running: the level of the device in `slot` is being read.
    Reading { slot: usize },
    /// Running: the target level is being written to the device in `slot`.
    Writing { slot: usize },
    /// Running: one slice of the wait between ticks is being slept, with
    /// `remaining` more to follow.
    Sleeping { remaining: u64 },
    /// Draining: the platform resources are being released.
    Releasing,
    /// Stopped, with the exit code of the process.
    Stopped { code: u8 },
}

impl Stage {
    /// The phase that the stage belongs to.
    pub open spec fn phase_of(self) -> Phase {
        match self {
            Stage::InstallingCancellation
            | Stage::OpeningPlatform
            | Stage::ResolvingDefault
            | Stage::ActivatingDefault
            | Stage::ListingDevices
            | Stage::ActivatingAlternate { .. } => Phase::Starting,
            Stage::Reading { .. } | Stage::Writing { .. } | Stage::Sleeping { .. } => Phase::Running,
            Stage::Releasing => Phase::Draining,
            Stage::Stopped { .. } => Phase::Stopped,
        }
    }

    /// The phase that the stage belongs to.
    pub fn phase(self) -> (phase: Phase)
        ensures
            phase == self.phase_of(),
    {
        match self {
            Stage::InstallingCancellation
            | Stage::OpeningPlatform
            | Stage::ResolvingDefault
            | Stage::ActivatingDefault
            | Stage::ListingDevices
            | Stage::ActivatingAlternate { .. } => Phase::Starting,
            Stage::Reading { .. } | Stage::Writing { .. } | Stage::Sleeping { .. } => Phase::Running,
            Stage::Releasing => Phase::Draining,
            Stage::Stopped { .. } => Phase::Stopped,
        }
    }
}

/// What the enforcer asks its runner to do next.
#[derive(Clone, Copy, Debug, PartialEq, Eq, Structural)]
pub enum Action {
    /// Install the handler that sets the cancellation flag.
    InstallCancellation,
    /// Open the audio subsystem.
    OpenPlatform,
    /// Look up the default capture device.
    ResolveDefault,
    /// Open the default device's volume control. It becomes slot 0.
    ActivateDefault,
    /// Enumerate the active capture endpoints and read their names.
    ListDevices,
    /// Open the volume control of the enumerated endpoint at `endpoint`.
    /// On success it becomes the next free slot.
    ActivateAlternate { endpoint: usize },
    /// Read the level of the device in `slot`.
    ReadLevel { slot: usize },
    /// Write `level` to the device in `slot`.
    WriteLevel { slot: usize, level: Level },
    /// Sleep for `millis` milliseconds.
    Sleep { millis: u64 },
    /// Release the platform resources.
    Release,
    /// End the process with `code`.
    Exit { code: u8 },
}

/// The outcome of an action, handed back to the enforcer.
#[derive(Debug)]
pub enum Event {
    /// The cancellation handler was installed, or could not be.
    CancellationInstalled { ok: bool },
    /// The audio subsystem was opened, or could not be.
    PlatformOpened { ok: bool },
    /// The default capture device was found, or there is none.
    DefaultResolved { ok: bool },
    /// The default device's volume control was opened, or could not be.
    DefaultActivated { ok: bool },
    /// The friendly names of the active capture endpoints in enumeration
    /// order, `None` for a name that could not be read; or `None` for all
    /// where the enumeration failed.
    DevicesListed { names: Option<Vec<Option<String>>> },
    /// The candidate's volume control was opened, or could not be.
    AlternateActivated { ok: bool },
    /// The level that was read, or `None` where the read failed.
    LevelRead { level: Option<Level> },
    /// The level was written, or could not be.
    LevelWritten { ok: bool },
    /// One slice of the wait has been slept.
    SliceElapsed,
    /// The platform resources have been released.
    Released,
}

/// A line for the log.
#[derive(Clone, Copy, Debug, PartialEq, Eq, Structural)]
pub enum Notice {
    /// Start-up failed, and the run ends without having enforced anything.
    StartupFailed { error: EnforcementError },
    /// The endpoints could not be enumerated: the run goes on with the
    /// default device alone.
    AlternatesUnavailable { error: EnforcementError },
    /// A device found by name could not be opened and is left out.
    AlternateDropped { fragment: usize, endpoint: usize, error: EnforcementError },
    /// A device's level was raised to the target.
    VolumeSet { device: DeviceLabel },
    /// A device's correction failed and is skipped for this tick.
    CorrectionSkipped { device: DeviceLabel, error: EnforcementError },
    /// The run was cancelled and has shut down cleanly.
    ShutdownComplete,
}

/// What one step of the enforcer hands back: a line for the log, if there
/// is one, and the action to perform next.
#[derive(Clone, Copy, Debug, PartialEq, Eq, Structural)]
pub struct Directive {
    pub notice: Option<Notice>,
    pub action: Action,
}

} // verus!
