use app_mute::{
    scan, Applied, AudioController, InitError, Monitor, RawWindow, SuppressError, Tick,
    TriggerConfig,
};
use std::cell::{Cell, RefCell};

/// One audio device that can be switched off, with a log of the writes.
struct Device {
    muted: Cell<bool>,
    alive: Cell<bool>,
    writes: RefCell<Vec<bool>>,
}

impl Device {
    fn new(muted: bool) -> Device {
        Device { muted: Cell::new(muted), alive: Cell::new(true), writes: RefCell::new(Vec::new()) }
    }

    fn read(&self) -> Option<bool> {
        if self.alive.get() {
            Some(self.muted.get())
        } else {
            None
        }
    }

    fn write(&self, value: bool) -> bool {
        if self.alive.get() {
            self.muted.set(value);
            self.writes.borrow_mut().push(value);
        }
        self.alive.get()
    }

    fn tick(&self, monitor: &mut Monitor<u8>, windows: &Vec<RawWindow>) -> Tick {
        monitor.check_and_apply(
            windows,
            &|_: &u8| self.read(),
            &|_: &u8, value: bool| self.write(value),
            &|| Some(1u8),
        )
    }
}

fn window(title: &str, path: Option<&str>) -> RawWindow {
    RawWindow { title: title.to_string(), process_path: path.map(|p| p.to_string()) }
}

fn target_config() -> TriggerConfig {
    TriggerConfig::new("target.exe".to_string(), "Advertisement".to_string())
}

fn quiet_desktop() -> Vec<RawWindow> {
    vec![
        window("Song - Artist", Some("C:\\Apps\\Target\\target.exe")),
        window("Inbox", Some("C:\\Apps\\mail.exe")),
    ]
}

fn interrupted_desktop() -> Vec<RawWindow> {
    vec![
        window("Inbox", Some("C:\\Apps\\mail.exe")),
        window("Advertisement", Some("C:\\Apps\\Target\\Target.exe")),
    ]
}

#[test]
fn monitor_needs_an_endpoint() {
    let made: Result<Monitor<u8>, InitError> = Monitor::new(target_config(), None);
    assert_eq!(made.err(), Some(InitError::NoEndpoint));
}

#[test]
fn monitor_keeps_config_and_endpoint() {
    let monitor = Monitor::new(target_config(), Some(4u8)).unwrap();
    assert_eq!(monitor.config(), &target_config());
    assert_eq!(*monitor.endpoint(), 4);
}

#[test]
fn tick_mutes_while_the_trigger_shows() {
    let device = Device::new(false);
    let mut monitor = Monitor::new(target_config(), Some(0u8)).unwrap();
    assert_eq!(
        device.tick(&mut monitor, &interrupted_desktop()),
        Tick { active: true, applied: Ok(Applied::Switched(true)) }
    );
    assert!(device.muted.get());
    assert_eq!(
        device.tick(&mut monitor, &interrupted_desktop()),
        Tick { active: true, applied: Ok(Applied::Unchanged) }
    );
    assert_eq!(
        device.tick(&mut monitor, &quiet_desktop()),
        Tick { active: false, applied: Ok(Applied::Switched(false)) }
    );
    assert!(!device.muted.get());
    assert_eq!(
        device.tick(&mut monitor, &quiet_desktop()),
        Tick { active: false, applied: Ok(Applied::Unchanged) }
    );
    assert_eq!(*device.writes.borrow(), vec![true, false]);
}

#[test]
fn tick_answers_from_its_own_windows_only() {
    let device = Device::new(false);
    let mut monitor = Monitor::new(target_config(), Some(0u8)).unwrap();
    assert!(device.tick(&mut monitor, &interrupted_desktop()).active);
    assert!(!device.tick(&mut monitor, &Vec::new()).active);
    assert!(device.tick(&mut monitor, &interrupted_desktop()).active);
}

#[test]
fn tick_tells_the_trigger_even_when_the_device_is_gone() {
    let device = Device::new(false);
    device.alive.set(false);
    let mut monitor = Monitor::new(target_config(), Some(0u8)).unwrap();
    assert_eq!(
        device.tick(&mut monitor, &interrupted_desktop()),
        Tick { active: true, applied: Err(SuppressError::DeviceUnavailable) }
    );
    assert_eq!(*monitor.endpoint(), 1);
    assert_eq!(
        device.tick(&mut monitor, &quiet_desktop()),
        Tick { active: false, applied: Err(SuppressError::DeviceUnavailable) }
    );
    device.alive.set(true);
    assert_eq!(
        device.tick(&mut monitor, &interrupted_desktop()),
        Tick { active: true, applied: Ok(Applied::Switched(true)) }
    );
    assert_eq!(*device.writes.borrow(), vec![true]);
}

#[test]
fn tick_ignores_a_trigger_window_of_unknown_owner() {
    let device = Device::new(true);
    let mut monitor = Monitor::new(target_config(), Some(0u8)).unwrap();
    let windows = vec![window("Advertisement", None), window("", Some("C:\\t\\target.exe"))];
    assert_eq!(
        device.tick(&mut monitor, &windows),
        Tick { active: false, applied: Ok(Applied::Switched(false)) }
    );
}

#[test]
fn scan_follows_the_default_trigger() {
    let device = Device::new(false);
    let mut controller = AudioController::new(Some(0u8)).unwrap();
    let advert = vec![window("Advertisement", Some("C:\\Users\\me\\Spotify\\Spotify.exe"))];
    let music = vec![window("Song - Artist", Some("C:\\Users\\me\\Spotify\\Spotify.exe"))];
    let other = vec![window("Advertisement", Some("C:\\Apps\\target.exe"))];
    let run = |controller: &mut AudioController<u8>, windows: &Vec<RawWindow>| {
        scan(
            controller,
            windows,
            &|_: &u8| device.read(),
            &|_: &u8, value: bool| device.write(value),
            &|| None,
        )
    };
    assert_eq!(run(&mut controller, &advert), Ok(Applied::Switched(true)));
    assert_eq!(run(&mut controller, &advert), Ok(Applied::Unchanged));
    assert_eq!(run(&mut controller, &music), Ok(Applied::Switched(false)));
    assert_eq!(run(&mut controller, &other), Ok(Applied::Unchanged));
    device.alive.set(false);
    assert_eq!(run(&mut controller, &advert), Err(SuppressError::DeviceUnavailable));
    assert_eq!(*device.writes.borrow(), vec![true, false]);
}
