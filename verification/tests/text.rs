use app_mute::text::{eq_ignore_ascii_case, file_name, to_ascii_lower};

#[test]
fn lower_maps_capital_letters_only() {
    assert_eq!(to_ascii_lower('A'), 'a');
    assert_eq!(to_ascii_lower('M'), 'm');
    assert_eq!(to_ascii_lower('Z'), 'z');
    assert_eq!(to_ascii_lower('a'), 'a');
    assert_eq!(to_ascii_lower('z'), 'z');
    assert_eq!(to_ascii_lower('@'), '@');
    assert_eq!(to_ascii_lower('['), '[');
    assert_eq!(to_ascii_lower('0'), '0');
    assert_eq!(to_ascii_lower('.'), '.');
}

#[test]
fn lower_leaves_accented_letters() {
    assert_eq!(to_ascii_lower('É'), 'É');
    assert_eq!(to_ascii_lower('é'), 'é');
    assert_eq!(to_ascii_lower('Ω'), 'Ω');
}

#[test]
fn lower_agrees_with_the_standard_library() {
    for code in 0u32..0x3000 {
        if let Some(c) = char::from_u32(code) {
            assert_eq!(to_ascii_lower(c), c.to_ascii_lowercase());
        }
    }
}

#[test]
fn case_is_ignored_for_ascii_letters() {
    assert!(eq_ignore_ascii_case("target.exe", "TARGET.EXE"));
    assert!(eq_ignore_ascii_case("Spotify.exe", "spotify.exe"));
    assert!(eq_ignore_ascii_case("sPoTiFy.ExE", "SpOtIfY.eXe"));
    assert!(eq_ignore_ascii_case("", ""));
    assert!(eq_ignore_ascii_case("same", "same"));
}

#[test]
fn different_texts_stay_different() {
    assert!(!eq_ignore_ascii_case("target.exe", "other.exe"));
    assert!(!eq_ignore_ascii_case("target.exe", "target.ex"));
    assert!(!eq_ignore_ascii_case("target.ex", "target.exe"));
    assert!(!eq_ignore_ascii_case("", "a"));
    assert!(!eq_ignore_ascii_case("a", ""));
    assert!(!eq_ignore_ascii_case("a@", "a`"));
    assert!(!eq_ignore_ascii_case("a[", "a{"));
}

#[test]
fn case_of_other_letters_is_not_ignored() {
    assert!(!eq_ignore_ascii_case("café.exe", "CAFÉ.exe"));
    assert!(eq_ignore_ascii_case("CAFé.EXE", "café.exe"));
    assert!(!eq_ignore_ascii_case("straße", "STRASSE"));
}

#[test]
fn comparison_agrees_with_the_standard_library() {
    let samples = ["", "a", "A", "spotify.exe", "SPOTIFY.EXE", "Spotify.exe ", "é", "É", "a[", "a{"];
    for left in samples {
        for right in samples {
            assert_eq!(eq_ignore_ascii_case(left, right), left.eq_ignore_ascii_case(right));
        }
    }
}

#[test]
fn file_name_follows_the_last_backslash() {
    assert_eq!(file_name("C:\\Users\\me\\AppData\\Roaming\\Spotify\\Spotify.exe"), "Spotify.exe");
    assert_eq!(file_name("C:\\Windows\\explorer.exe"), "explorer.exe");
    assert_eq!(file_name("\\\\server\\share\\tool.exe"), "tool.exe");
}

#[test]
fn file_name_follows_the_last_slash() {
    assert_eq!(file_name("/usr/bin/target.exe"), "target.exe");
    assert_eq!(file_name("C:/Program Files/App/app.exe"), "app.exe");
    assert_eq!(file_name("C:\\mixed/path\\to/app.exe"), "app.exe");
    assert_eq!(file_name("C:/mixed\\path/to\\app.exe"), "app.exe");
}

#[test]
fn file_name_of_a_bare_name_is_the_name() {
    assert_eq!(file_name("target.exe"), "target.exe");
    assert_eq!(file_name("x"), "x");
}

#[test]
fn file_name_is_empty_without_a_name() {
    assert_eq!(file_name(""), "");
    assert_eq!(file_name("C:\\dir\\"), "");
    assert_eq!(file_name("/"), "");
    assert_eq!(file_name("\\"), "");
}

#[test]
fn file_name_keeps_characters_beyond_ascii() {
    assert_eq!(file_name("C:\\Übung\\prüfung.exe"), "prüfung.exe");
    assert_eq!(file_name("D:\\音楽\\プレーヤー.exe"), "プレーヤー.exe");
}

#[test]
fn file_name_agrees_with_the_standard_library_on_plain_paths() {
    let samples = ["/usr/bin/target.exe", "a/b/c", "name.exe", "dir/sub/file.tar.gz", "/x"];
    for path in samples {
        let expected = std::path::Path::new(path).file_name().and_then(|n| n.to_str()).unwrap_or("");
        assert_eq!(file_name(path), expected);
    }
}
