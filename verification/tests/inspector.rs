use app_mute::{evaluate, snapshot, RawWindow, TriggerConfig, WindowEntry};

fn window(title: &str, path: Option<&str>) -> RawWindow {
    RawWindow { title: title.to_string(), process_path: path.map(|p| p.to_string()) }
}

fn entry(title: &str, process: &str) -> WindowEntry {
    WindowEntry { title: title.to_string(), process: process.to_string() }
}

#[test]
fn snapshot_records_title_and_file_name() {
    let windows = vec![window("Advertisement", Some("C:\\Apps\\Spotify\\Spotify.exe"))];
    assert_eq!(snapshot(&windows), vec![entry("Advertisement", "Spotify.exe")]);
}

#[test]
fn snapshot_skips_windows_without_title() {
    let windows = vec![
        window("", Some("C:\\Windows\\explorer.exe")),
        window("Inbox", Some("C:\\Apps\\mail.exe")),
        window("", None),
    ];
    assert_eq!(snapshot(&windows), vec![entry("Inbox", "mail.exe")]);
}

#[test]
fn snapshot_of_nothing_is_empty() {
    assert_eq!(snapshot(&Vec::new()), Vec::new());
}

#[test]
fn snapshot_keeps_the_order_of_the_windows() {
    let windows = vec![
        window("one", Some("C:\\a\\1.exe")),
        window("two", Some("C:\\b\\2.exe")),
        window("three", Some("C:\\c\\3.exe")),
    ];
    assert_eq!(
        snapshot(&windows),
        vec![entry("one", "1.exe"), entry("two", "2.exe"), entry("three", "3.exe")]
    );
}

#[test]
fn unresolved_process_gives_an_empty_owner_and_spares_the_rest() {
    let windows = vec![
        window("Inbox", Some("C:\\Apps\\mail.exe")),
        window("Advertisement", None),
        window("Advertisement", Some("C:\\Apps\\target.exe")),
    ];
    let entries = snapshot(&windows);
    assert_eq!(
        entries,
        vec![
            entry("Inbox", "mail.exe"),
            entry("Advertisement", ""),
            entry("Advertisement", "target.exe"),
        ]
    );
    let trigger = TriggerConfig::new("target.exe".to_string(), "Advertisement".to_string());
    assert!(evaluate(&entries, &trigger));
}

#[test]
fn unresolved_process_alone_does_not_trigger() {
    let windows = vec![window("Advertisement", None)];
    let entries = snapshot(&windows);
    assert_eq!(entries, vec![entry("Advertisement", "")]);
    let trigger = TriggerConfig::new("target.exe".to_string(), "Advertisement".to_string());
    assert!(!evaluate(&entries, &trigger));
}

#[test]
fn entry_of_a_single_window() {
    assert_eq!(window("", Some("C:\\a.exe")).entry(), None);
    assert_eq!(window("t", None).entry(), Some(entry("t", "")));
    assert_eq!(window("t", Some("C:\\dir\\a.exe")).entry(), Some(entry("t", "a.exe")));
    assert_eq!(window("t", Some("")).entry(), Some(entry("t", "")));
}

#[test]
fn snapshot_is_the_windows_entries_one_by_one() {
    let windows = vec![
        window("one", Some("C:\\a\\1.exe")),
        window("", Some("C:\\b\\2.exe")),
        window("three", None),
    ];
    let mut expected = Vec::new();
    for w in &windows {
        if let Some(e) = w.entry() {
            expected.push(e);
        }
    }
    assert_eq!(snapshot(&windows), expected);
    let (front, back) = windows.split_at(1);
    let mut joined = snapshot(&front.to_vec());
    joined.extend(snapshot(&back.to_vec()));
    assert_eq!(snapshot(&windows), joined);
}

#[test]
fn copies_are_equal_to_what_they_copy() {
    let raw = window("Inbox", Some("C:\\Apps\\mail.exe"));
    assert_eq!(raw.clone(), raw);
    let unresolved = window("Inbox", None);
    assert_eq!(unresolved.clone(), unresolved);
    assert_ne!(raw, unresolved);
    let line = entry("Inbox", "mail.exe");
    assert_eq!(line.clone(), line);
    let trigger = TriggerConfig::new("mail.exe".to_string(), "Inbox".to_string());
    assert_eq!(trigger.clone(), trigger);
    assert_ne!(trigger, TriggerConfig::default());
}
