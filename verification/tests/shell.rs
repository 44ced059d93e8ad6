use app_mute::settings::SETTINGS_PATH;
use app_mute::{Error, ErrorKind, Settings};

#[test]
fn error_keeps_kind_and_both_texts() {
    let error = Error::new(ErrorKind::FS, "os error 2".to_string(), "unable to save settings");
    assert_eq!(error.kind(), ErrorKind::FS);
    assert_eq!(error.debug(), "os error 2");
    assert_eq!(error.user(), "unable to save settings");
}

#[test]
fn error_of_each_kind() {
    for kind in [ErrorKind::FS, ErrorKind::Serialization, ErrorKind::Tauri, ErrorKind::Request] {
        let error = Error::new(kind, String::new(), "");
        assert_eq!(error.kind(), kind);
        assert_eq!(error.debug(), "");
        assert_eq!(error.user(), "");
    }
}

#[test]
fn shell_error_repeats_its_message() {
    let error = Error::from_shell("window not found");
    assert_eq!(error.kind(), ErrorKind::Tauri);
    assert_eq!(error.debug(), "window not found");
    assert_eq!(error.user(), "window not found");
}

#[test]
fn settings_start_disabled() {
    assert_eq!(Settings::default(), Settings { enabled: false });
    assert!(!Settings::default().enabled);
}

#[test]
fn settings_file_name() {
    assert_eq!(SETTINGS_PATH, "settings.json");
}
