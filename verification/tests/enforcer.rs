use microphone_volume_max::config::EnforcementConfig;
use microphone_volume_max::enforcer::Enforcer;
use microphone_volume_max::level::Level;
use microphone_volume_max::protocol::{
    Action, DeviceLabel, Directive, EnforcementError, Event, Notice, Phase, Stage, EXIT_CLEAN,
    EXIT_FATAL, SLEEP_SLICE_MILLIS,
};

fn level(value: f32) -> Level {
    Level::from_bits(value.to_bits()).expect("a value between silence and full scale")
}

fn config(interval: u64, fragments: &[&str]) -> EnforcementConfig {
    EnforcementConfig::new(interval, fragments.iter().map(|text| text.to_string()).collect())
        .expect("an interval of at least a second")
}

/// A capture device that only exists in the test.
#[derive(Clone, Debug)]
struct Device {
    name: Option<&'static str>,
    level: f32,
    opens: bool,
    reads: bool,
    writes: bool,
    written: Vec<f32>,
    read_count: usize,
}

fn device(name: &'static str, level: f32) -> Device {
    Device { name: Some(name), level, opens: true, reads: true, writes: true, written: Vec::new(), read_count: 0 }
}

#[derive(Clone, Copy, Debug, PartialEq, Eq)]
enum Bound {
    Default,
    Endpoint(usize),
}

/// The platform that only exists in the test, and the runner of the loop.
#[derive(Debug)]
struct Host {
    handler_installs: bool,
    platform_opens: bool,
    default: Option<Device>,
    endpoints: Option<Vec<Device>>,
    cancel_after_slices: u64,
    cancel_at_action: Option<usize>,
    slots: Vec<Bound>,
    cancelled: bool,
    released: bool,
    slices: u64,
    millis: u64,
    actions: Vec<Action>,
    log: Vec<Notice>,
    phases: Vec<Phase>,
}

fn host(default: Device, endpoints: Vec<Device>, cancel_after_slices: u64) -> Host {
    Host {
        handler_installs: true,
        platform_opens: true,
        default: Some(default),
        endpoints: Some(endpoints),
        cancel_after_slices,
        cancel_at_action: None,
        slots: Vec::new(),
        cancelled: false,
        released: false,
        slices: 0,
        millis: 0,
        actions: Vec::new(),
        log: Vec::new(),
        phases: Vec::new(),
    }
}

impl Host {
    fn bound(&mut self, slot: usize) -> &mut Device {
        match self.slots[slot] {
            Bound::Default => self.default.as_mut().unwrap(),
            Bound::Endpoint(at) => &mut self.endpoints.as_mut().unwrap()[at],
        }
    }

    fn perform(&mut self, action: Action) -> Event {
        match action {
            Action::InstallCancellation => Event::CancellationInstalled { ok: self.handler_installs },
            Action::OpenPlatform => Event::PlatformOpened { ok: self.platform_opens },
            Action::ResolveDefault => Event::DefaultResolved { ok: self.default.is_some() },
            Action::ActivateDefault => {
                let ok = self.default.as_ref().unwrap().opens;
                if ok {
                    self.slots.push(Bound::Default);
                }
                Event::DefaultActivated { ok }
            }
            Action::ListDevices => Event::DevicesListed {
                names: self.endpoints.as_ref().map(|endpoints| {
                    endpoints.iter().map(|device| device.name.map(|name| name.to_string())).collect()
                }),
            },
            Action::ActivateAlternate { endpoint } => {
                let ok = self.endpoints.as_ref().unwrap()[endpoint].opens;
                if ok {
                    self.slots.push(Bound::Endpoint(endpoint));
                }
                Event::AlternateActivated { ok }
            }
            Action::ReadLevel { slot } => {
                let device = self.bound(slot);
                device.read_count += 1;
                let ok = device.reads;
                let value = device.level;
                Event::LevelRead { level: if ok { Some(level(value)) } else { None } }
            }
            Action::WriteLevel { slot, level } => {
                let device = self.bound(slot);
                let ok = device.writes;
                if ok {
                    device.level = f32::from_bits(level.to_bits());
                    device.written.push(device.level);
                }
                Event::LevelWritten { ok }
            }
            Action::Sleep { millis } => {
                self.slices += 1;
                self.millis += millis;
                if self.slices >= self.cancel_after_slices {
                    self.cancelled = true;
                }
                Event::SliceElapsed
            }
            Action::Release => {
                self.released = true;
                Event::Released
            }
            Action::Exit { .. } => unreachable!(),
        }
    }

    /// Runs the loop to its end and gives the exit code.
    fn run(&mut self, config: EnforcementConfig) -> u8 {
        let mut enforcer = Enforcer::new(config);
        let mut action = enforcer.pending_action();
        for _ in 0..10_000 {
            self.phases.push(enforcer.phase());
            if let Action::Exit { code } = action {
                return code;
            }
            if self.cancel_at_action == Some(self.actions.len()) {
                self.cancelled = true;
            }
            self.actions.push(action);
            let event = self.perform(action);
            let (next, Directive { notice, action: then }) = enforcer.step(event, self.cancelled);
            self.log.extend(notice);
            enforcer = next;
            action = then;
        }
        panic!("the run did not end");
    }
}

fn started(fragments: &[&str]) -> Enforcer {
    let enforcer = Enforcer::new(config(1, fragments));
    let (enforcer, _) = enforcer.step(Event::CancellationInstalled { ok: true }, false);
    let (enforcer, _) = enforcer.step(Event::PlatformOpened { ok: true }, false);
    let (enforcer, _) = enforcer.step(Event::DefaultResolved { ok: true }, false);
    enforcer
}

fn ticking() -> Enforcer {
    let (enforcer, directive) = started(&[]).step(Event::DefaultActivated { ok: true }, false);
    assert_eq!(directive.action, Action::ReadLevel { slot: 0 });
    enforcer
}

#[test]
fn one_tick_raises_the_default_device_and_the_next_leaves_it() {
    let mut enforcer = ticking();
    let mut device = device("Default", 0.40);
    let mut notices = Vec::new();

    // First tick.
    let (next, directive) = enforcer.step(Event::LevelRead { level: Some(level(device.level)) }, false);
    enforcer = next;
    assert_eq!(directive.action, Action::WriteLevel { slot: 0, level: level(1.0) });
    assert_eq!(directive.notice, None);
    device.level = 1.0;
    device.written.push(1.0);
    let (next, directive) = enforcer.step(Event::LevelWritten { ok: true }, false);
    enforcer = next;
    notices.extend(directive.notice);
    assert_eq!(directive.action, Action::Sleep { millis: 1000 });
    assert_eq!(device.level, 1.0);
    assert_eq!(notices, vec![Notice::VolumeSet { device: DeviceLabel::Default }]);

    // Second tick, nothing having changed.
    let (next, directive) = enforcer.step(Event::SliceElapsed, false);
    enforcer = next;
    assert_eq!(directive, Directive { notice: None, action: Action::ReadLevel { slot: 0 } });
    let (next, directive) = enforcer.step(Event::LevelRead { level: Some(level(device.level)) }, false);
    assert_eq!(directive, Directive { notice: None, action: Action::Sleep { millis: 1000 } });
    assert_eq!(device.written, vec![1.0]);
    assert_eq!(notices.len(), 1);
    assert_eq!(next.phase(), Phase::Running);
}

#[test]
fn a_whole_run_of_two_ticks() {
    let mut host = host(device("Default", 0.40), Vec::new(), 2);
    let code = host.run(config(1, &[]));
    assert_eq!(code, EXIT_CLEAN);
    assert_eq!(
        host.actions,
        vec![
            Action::InstallCancellation,
            Action::OpenPlatform,
            Action::ResolveDefault,
            Action::ActivateDefault,
            Action::ReadLevel { slot: 0 },
            Action::WriteLevel { slot: 0, level: level(1.0) },
            Action::Sleep { millis: 1000 },
            Action::ReadLevel { slot: 0 },
            Action::Sleep { millis: 1000 },
            Action::Release,
        ]
    );
    assert_eq!(host.log, vec![Notice::VolumeSet { device: DeviceLabel::Default }, Notice::ShutdownComplete]);
    let default = host.default.unwrap();
    assert_eq!(default.level, 1.0);
    assert_eq!(default.written, vec![1.0]);
    assert_eq!(default.read_count, 2);
    assert!(host.released);
}

#[test]
fn a_run_passes_through_the_phases_in_order() {
    let mut host = host(device("Default", 1.0), vec![device("Krisp Microphone", 1.0)], 1);
    assert_eq!(host.run(config(1, &["krisp"])), EXIT_CLEAN);
    let mut order = host.phases.clone();
    order.dedup();
    assert_eq!(order, vec![Phase::Starting, Phase::Running, Phase::Draining, Phase::Stopped]);
}

#[test]
fn a_device_that_cannot_be_read_does_not_hold_up_the_next() {
    let mut failing = device("Default", 0.2);
    failing.reads = false;
    let mut host = host(failing, vec![device("Krisp Microphone", 0.3)], 1);
    assert_eq!(host.run(config(1, &["krisp"])), EXIT_CLEAN);
    assert_eq!(
        host.log,
        vec![
            Notice::CorrectionSkipped {
                device: DeviceLabel::Default,
                error: EnforcementError::VolumeReadFailed
            },
            Notice::VolumeSet { device: DeviceLabel::Alternate { fragment: 0, endpoint: 0 } },
            Notice::ShutdownComplete,
        ]
    );
    assert_eq!(host.default.as_ref().unwrap().written, Vec::<f32>::new());
    assert_eq!(host.default.as_ref().unwrap().level, 0.2);
    assert_eq!(host.endpoints.as_ref().unwrap()[0].written, vec![1.0]);
}

#[test]
fn a_device_that_cannot_be_written_does_not_hold_up_the_next() {
    let mut failing = device("Default", 0.2);
    failing.writes = false;
    let mut host = host(failing, vec![device("Krisp Microphone", 0.3)], 1);
    assert_eq!(host.run(config(1, &["krisp"])), EXIT_CLEAN);
    assert_eq!(
        host.log,
        vec![
            Notice::CorrectionSkipped {
                device: DeviceLabel::Default,
                error: EnforcementError::VolumeWriteFailed
            },
            Notice::VolumeSet { device: DeviceLabel::Alternate { fragment: 0, endpoint: 0 } },
            Notice::ShutdownComplete,
        ]
    );
    assert_eq!(host.endpoints.as_ref().unwrap()[0].level, 1.0);
}

#[test]
fn a_failing_alternate_does_not_hold_up_the_default() {
    let mut failing = device("Krisp Microphone", 0.3);
    failing.reads = false;
    let mut host = host(device("Default", 0.2), vec![failing], 1);
    assert_eq!(host.run(config(1, &["krisp"])), EXIT_CLEAN);
    assert_eq!(host.default.as_ref().unwrap().level, 1.0);
    assert_eq!(
        host.log,
        vec![
            Notice::VolumeSet { device: DeviceLabel::Default },
            Notice::CorrectionSkipped {
                device: DeviceLabel::Alternate { fragment: 0, endpoint: 0 },
                error: EnforcementError::VolumeReadFailed
            },
            Notice::ShutdownComplete,
        ]
    );
}

#[test]
fn a_failed_correction_is_tried_again_at_the_next_tick() {
    let mut failing = device("Default", 0.2);
    failing.writes = false;
    let mut host = host(failing, Vec::new(), 3);
    assert_eq!(host.run(config(1, &[])), EXIT_CLEAN);
    let skipped = Notice::CorrectionSkipped {
        device: DeviceLabel::Default,
        error: EnforcementError::VolumeWriteFailed,
    };
    assert_eq!(host.log, vec![skipped, skipped, skipped, Notice::ShutdownComplete]);
    assert_eq!(host.default.as_ref().unwrap().read_count, 3);
}

#[test]
fn cancellation_during_a_long_wait_ends_it_with_the_slice() {
    let mut host = host(device("Default", 1.0), Vec::new(), 1);
    assert_eq!(host.run(config(600, &[])), EXIT_CLEAN);
    assert_eq!(host.slices, 1);
    assert_eq!(host.millis, SLEEP_SLICE_MILLIS);
    assert_eq!(host.default.as_ref().unwrap().read_count, 1);
    assert_eq!(host.log, vec![Notice::ShutdownComplete]);
}

#[test]
fn the_wait_is_slept_in_slices_of_a_second() {
    let mut host = host(device("Default", 1.0), Vec::new(), 7);
    assert_eq!(host.run(config(3, &[])), EXIT_CLEAN);
    // Two whole waits of three slices, and the first slice of the third.
    assert_eq!(host.slices, 7);
    assert_eq!(host.millis, 7000);
    assert_eq!(host.default.as_ref().unwrap().read_count, 3);
    for action in &host.actions {
        if let Action::Sleep { millis } = action {
            assert_eq!(*millis, 1000);
        }
    }
}

#[test]
fn the_longest_interval_counts_down_without_overflow() {
    let enforcer = Enforcer::new(config(u64::MAX, &[]));
    let (enforcer, _) = enforcer.step(Event::CancellationInstalled { ok: true }, false);
    let (enforcer, _) = enforcer.step(Event::PlatformOpened { ok: true }, false);
    let (enforcer, _) = enforcer.step(Event::DefaultResolved { ok: true }, false);
    let (enforcer, _) = enforcer.step(Event::DefaultActivated { ok: true }, false);
    let (enforcer, directive) = enforcer.step(Event::LevelRead { level: Some(level(1.0)) }, false);
    assert_eq!(directive.action, Action::Sleep { millis: 1000 });
    assert_eq!(enforcer.stage(), Stage::Sleeping { remaining: u64::MAX - 1 });
    let (enforcer, directive) = enforcer.step(Event::SliceElapsed, false);
    assert_eq!(directive.action, Action::Sleep { millis: 1000 });
    assert_eq!(enforcer.stage(), Stage::Sleeping { remaining: u64::MAX - 2 });
}

#[test]
fn cancellation_before_the_first_tick_reads_nothing() {
    let mut host = host(device("Default", 0.2), Vec::new(), 1);
    host.cancel_at_action = Some(2);
    assert_eq!(host.run(config(1, &[])), EXIT_CLEAN);
    assert_eq!(
        host.actions,
        vec![
            Action::InstallCancellation,
            Action::OpenPlatform,
            Action::ResolveDefault,
            Action::ActivateDefault,
            Action::Release,
        ]
    );
    assert_eq!(host.default.as_ref().unwrap().read_count, 0);
    assert_eq!(host.log, vec![Notice::ShutdownComplete]);
}

#[test]
fn cancellation_during_a_pass_lets_the_pass_finish() {
    let mut host = host(device("Default", 0.2), vec![device("Krisp Microphone", 0.3)], 5);
    // The sixth action is the read of the default device.
    host.cancel_at_action = Some(6);
    assert_eq!(host.run(config(1, &["krisp"])), EXIT_CLEAN);
    assert_eq!(
        &host.actions[6..],
        &[
            Action::ReadLevel { slot: 0 },
            Action::WriteLevel { slot: 0, level: level(1.0) },
            Action::ReadLevel { slot: 1 },
            Action::WriteLevel { slot: 1, level: level(1.0) },
            Action::Release,
        ]
    );
    assert_eq!(host.slices, 0);
    assert_eq!(host.endpoints.as_ref().unwrap()[0].level, 1.0);
}

#[test]
fn cancellation_once_seen_is_not_forgotten() {
    let enforcer = ticking();
    assert!(!enforcer.is_cancelled());
    let (enforcer, directive) = enforcer.step(Event::LevelRead { level: Some(level(0.2)) }, true);
    assert_eq!(directive.action, Action::WriteLevel { slot: 0, level: level(1.0) });
    assert!(enforcer.is_cancelled());
    let (enforcer, directive) = enforcer.step(Event::LevelWritten { ok: true }, false);
    assert!(enforcer.is_cancelled());
    assert_eq!(directive.action, Action::Release);
    assert_eq!(enforcer.phase(), Phase::Draining);
}

#[test]
fn a_default_device_that_cannot_be_activated_ends_the_run() {
    let mut broken = device("Default", 0.2);
    broken.opens = false;
    let mut host = host(broken, vec![device("Krisp Microphone", 0.3)], 1);
    assert_eq!(host.run(config(1, &["krisp"])), EXIT_FATAL);
    assert_eq!(
        host.actions,
        vec![
            Action::InstallCancellation,
            Action::OpenPlatform,
            Action::ResolveDefault,
            Action::ActivateDefault
        ]
    );
    assert_eq!(host.log, vec![Notice::StartupFailed { error: EnforcementError::ActivationFailed }]);
    assert!(!host.phases.contains(&Phase::Running));
    assert_eq!(host.endpoints.as_ref().unwrap()[0].level, 0.3);
}

#[test]
fn an_alternate_that_cannot_be_activated_is_left_out() {
    let mut broken = device("Krisp Microphone", 0.3);
    broken.opens = false;
    let mut host = host(device("Default", 0.2), vec![device("Realtek Mic", 0.1), broken], 1);
    assert_eq!(host.run(config(1, &["krisp"])), EXIT_CLEAN);
    assert_eq!(host.slots, vec![Bound::Default]);
    assert_eq!(
        host.log,
        vec![
            Notice::AlternateDropped {
                fragment: 0,
                endpoint: 1,
                error: EnforcementError::ActivationFailed
            },
            Notice::VolumeSet { device: DeviceLabel::Default },
            Notice::ShutdownComplete,
        ]
    );
    assert!(host.phases.contains(&Phase::Running));
    assert_eq!(host.default.as_ref().unwrap().level, 1.0);
    assert_eq!(host.endpoints.as_ref().unwrap()[1].level, 0.3);
}

#[test]
fn a_missing_default_device_ends_the_run() {
    let mut host = host(device("Default", 0.2), Vec::new(), 1);
    host.default = None;
    assert_eq!(host.run(config(1, &[])), EXIT_FATAL);
    assert_eq!(host.log, vec![Notice::StartupFailed { error: EnforcementError::PlatformUnavailable }]);
    assert_eq!(host.actions.last(), Some(&Action::ResolveDefault));
}

#[test]
fn an_unreachable_audio_subsystem_ends_the_run() {
    let mut host = host(device("Default", 0.2), Vec::new(), 1);
    host.platform_opens = false;
    assert_eq!(host.run(config(1, &[])), EXIT_FATAL);
    assert_eq!(host.log, vec![Notice::StartupFailed { error: EnforcementError::PlatformUnavailable }]);
    assert_eq!(host.actions.last(), Some(&Action::OpenPlatform));
}

#[test]
fn a_cancellation_handler_that_cannot_be_installed_ends_the_run() {
    let mut host = host(device("Default", 0.2), Vec::new(), 1);
    host.handler_installs = false;
    assert_eq!(host.run(config(1, &[])), EXIT_FATAL);
    assert_eq!(
        host.log,
        vec![Notice::StartupFailed { error: EnforcementError::CancellationInstallFailed }]
    );
    assert_eq!(host.actions, vec![Action::InstallCancellation]);
    assert_eq!(host.default.as_ref().unwrap().read_count, 0);
}

#[test]
fn a_failed_enumeration_leaves_the_default_device_alone_in_the_set() {
    let mut host = host(device("Default", 0.2), Vec::new(), 1);
    host.endpoints = None;
    assert_eq!(host.run(config(1, &["krisp"])), EXIT_CLEAN);
    assert_eq!(
        host.log,
        vec![
            Notice::AlternatesUnavailable { error: EnforcementError::PlatformUnavailable },
            Notice::VolumeSet { device: DeviceLabel::Default },
            Notice::ShutdownComplete,
        ]
    );
    assert_eq!(host.slots, vec![Bound::Default]);
}

#[test]
fn without_fragments_the_devices_are_not_enumerated() {
    let mut host = host(device("Default", 1.0), vec![device("Krisp Microphone", 0.3)], 1);
    assert_eq!(host.run(config(1, &[])), EXIT_CLEAN);
    assert!(!host.actions.contains(&Action::ListDevices));
    assert_eq!(host.endpoints.as_ref().unwrap()[0].level, 0.3);
}

#[test]
fn the_target_set_holds_the_default_and_each_alternate_found() {
    let mut unnamed = device("", 0.5);
    unnamed.name = None;
    let endpoints = vec![
        device("Realtek Mic", 0.1),
        unnamed,
        device("KRISP Microphone", 0.3),
        device("Krisp Backup", 0.4),
        device("USB Audio", 0.6),
    ];
    let enforcer = started(&["usb", "webcam", "krisp"]);
    let (enforcer, directive) = enforcer.step(Event::DefaultActivated { ok: true }, false);
    assert_eq!(directive.action, Action::ListDevices);
    assert_eq!(enforcer.devices(), &vec![DeviceLabel::Default]);
    let names = endpoints.iter().map(|device| device.name.map(|name| name.to_string())).collect();
    let (enforcer, directive) = enforcer.step(Event::DevicesListed { names: Some(names) }, false);
    assert_eq!(directive.action, Action::ActivateAlternate { endpoint: 4 });
    let (enforcer, directive) = enforcer.step(Event::AlternateActivated { ok: true }, false);
    assert_eq!(directive.action, Action::ActivateAlternate { endpoint: 2 });
    let (enforcer, directive) = enforcer.step(Event::AlternateActivated { ok: true }, false);
    assert_eq!(directive.action, Action::ReadLevel { slot: 0 });
    assert_eq!(
        enforcer.devices(),
        &vec![
            DeviceLabel::Default,
            DeviceLabel::Alternate { fragment: 0, endpoint: 4 },
            DeviceLabel::Alternate { fragment: 2, endpoint: 2 },
        ]
    );
    assert_eq!(enforcer.phase(), Phase::Running);
}

#[test]
fn the_devices_are_corrected_in_the_order_of_the_set() {
    let endpoints = vec![device("Krisp Backup", 0.3), device("USB Audio", 1.0), device("Krisp Two", 0.5)];
    let mut host = host(device("Default", 0.2), endpoints, 1);
    assert_eq!(host.run(config(1, &["usb", "krisp"])), EXIT_CLEAN);
    assert_eq!(host.slots, vec![Bound::Default, Bound::Endpoint(1), Bound::Endpoint(0)]);
    assert_eq!(
        &host.actions[7..],
        &[
            Action::ReadLevel { slot: 0 },
            Action::WriteLevel { slot: 0, level: level(1.0) },
            Action::ReadLevel { slot: 1 },
            Action::ReadLevel { slot: 2 },
            Action::WriteLevel { slot: 2, level: level(1.0) },
            Action::Sleep { millis: 1000 },
            Action::Release,
        ]
    );
    assert_eq!(
        host.log,
        vec![
            Notice::VolumeSet { device: DeviceLabel::Default },
            Notice::VolumeSet { device: DeviceLabel::Alternate { fragment: 1, endpoint: 0 } },
            Notice::ShutdownComplete,
        ]
    );
    // The third endpoint matches a fragment too, but is not the first that does.
    assert_eq!(host.endpoints.as_ref().unwrap()[2].level, 0.5);
}

#[test]
fn an_event_that_answers_nothing_changes_nothing() {
    let enforcer = ticking();
    let (enforcer, directive) = enforcer.step(Event::LevelWritten { ok: true }, false);
    assert_eq!(directive, Directive { notice: None, action: Action::ReadLevel { slot: 0 } });
    let (enforcer, directive) = enforcer.step(Event::SliceElapsed, false);
    assert_eq!(directive, Directive { notice: None, action: Action::ReadLevel { slot: 0 } });
    let (enforcer, directive) = enforcer.step(Event::DefaultActivated { ok: false }, false);
    assert_eq!(directive, Directive { notice: None, action: Action::ReadLevel { slot: 0 } });
    assert_eq!(enforcer.stage(), Stage::Reading { slot: 0 });
    assert_eq!(enforcer.pending_action(), Action::ReadLevel { slot: 0 });
}

#[test]
fn a_stopped_run_stays_stopped() {
    let enforcer = Enforcer::new(config(1, &[]));
    let (enforcer, directive) = enforcer.step(Event::CancellationInstalled { ok: false }, false);
    assert_eq!(directive.action, Action::Exit { code: 1 });
    assert_eq!(enforcer.phase(), Phase::Stopped);
    let (enforcer, directive) = enforcer.step(Event::CancellationInstalled { ok: true }, false);
    assert_eq!(directive, Directive { notice: None, action: Action::Exit { code: 1 } });
    let (enforcer, directive) = enforcer.step(Event::Released, true);
    assert_eq!(directive, Directive { notice: None, action: Action::Exit { code: 1 } });
    assert_eq!(enforcer.stage(), Stage::Stopped { code: EXIT_FATAL });
}

#[test]
fn a_new_run_waits_for_the_cancellation_handler() {
    let enforcer = Enforcer::new(config(7, &["krisp"]));
    assert_eq!(enforcer.stage(), Stage::InstallingCancellation);
    assert_eq!(enforcer.phase(), Phase::Starting);
    assert_eq!(enforcer.pending_action(), Action::InstallCancellation);
    assert!(!enforcer.is_cancelled());
    assert!(enforcer.devices().is_empty());
    assert_eq!(enforcer.config().poll_interval_seconds(), 7);
    assert_eq!(enforcer.config().alternate_name_fragments(), &vec!["krisp".to_string()]);
}

#[test]
fn each_stage_has_its_phase() {
    assert_eq!(Stage::InstallingCancellation.phase(), Phase::Starting);
    assert_eq!(Stage::OpeningPlatform.phase(), Phase::Starting);
    assert_eq!(Stage::ResolvingDefault.phase(), Phase::Starting);
    assert_eq!(Stage::ActivatingDefault.phase(), Phase::Starting);
    assert_eq!(Stage::ListingDevices.phase(), Phase::Starting);
    assert_eq!(Stage::ActivatingAlternate { next: 0 }.phase(), Phase::Starting);
    assert_eq!(Stage::Reading { slot: 0 }.phase(), Phase::Running);
    assert_eq!(Stage::Writing { slot: 0 }.phase(), Phase::Running);
    assert_eq!(Stage::Sleeping { remaining: 0 }.phase(), Phase::Running);
    assert_eq!(Stage::Releasing.phase(), Phase::Draining);
    assert_eq!(Stage::Stopped { code: 0 }.phase(), Phase::Stopped);
}
