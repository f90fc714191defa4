use dvd_bounce::{unload, Config, Settings, SettingsError};

fn sample() -> Settings {
    Settings { use_file: true, speed: 10, count: 3, show_during_gameplay: false }
}

#[test]
fn unload_writes_four_lines() {
    assert_eq!(unload(&sample()), b"10\n3\ntrue\nfalse".to_vec());
    let other = Settings { use_file: false, speed: 0, count: 4294967295, show_during_gameplay: true };
    assert_eq!(unload(&other), b"0\n4294967295\nfalse\ntrue".to_vec());
}

#[test]
fn load_reads_what_unload_wrote() {
    let mut s = Settings::new();
    assert_eq!(s.load(&unload(&sample())), Ok(()));
    assert_eq!(s, sample());
}

#[test]
fn load_accepts_crlf_and_plus() {
    let mut s = Settings::new();
    assert_eq!(s.load(b"+25\r\n007\r\nfalse\r\ntrue\r\n"), Ok(()));
    assert_eq!(s, Settings { use_file: false, speed: 25, count: 7, show_during_gameplay: true });
}

#[test]
fn load_of_partial_file_sets_leading_fields() {
    let mut s = sample();
    assert_eq!(s.load(b"42\n"), Ok(()));
    assert_eq!(s, Settings { speed: 42, ..sample() });
    let mut t = sample();
    assert_eq!(t.load(b""), Ok(()));
    assert_eq!(t, sample());
}

#[test]
fn load_bad_speed() {
    let mut s = sample();
    assert_eq!(s.load(b"fast\n9\nfalse\ntrue"), Err(SettingsError { line: 0 }));
    assert_eq!(s, sample());
}

#[test]
fn load_bad_count_keeps_speed() {
    let mut s = sample();
    assert_eq!(s.load(b"12\n4294967296\nfalse\ntrue"), Err(SettingsError { line: 1 }));
    assert_eq!(s, Settings { speed: 12, ..sample() });
    let mut e = sample();
    assert_eq!(e.load(b"12\n\nfalse"), Err(SettingsError { line: 1 }));
    let mut p = sample();
    assert_eq!(p.load(b"12\n+\n"), Err(SettingsError { line: 1 }));
}

#[test]
fn load_bad_flags() {
    let mut s = sample();
    assert_eq!(s.load(b"1\n2\nTrue\ntrue"), Err(SettingsError { line: 2 }));
    assert_eq!(s, Settings { speed: 1, count: 2, ..sample() });
    let mut t = sample();
    assert_eq!(t.load(b"1\n2\nfalse\nyes"), Err(SettingsError { line: 3 }));
    assert_eq!(t, Settings { speed: 1, count: 2, use_file: false, show_during_gameplay: false });
}

#[test]
fn load_ignores_lines_after_the_fourth() {
    let mut s = Settings::new();
    assert_eq!(s.load(b"3\n4\ntrue\ntrue\nwhatever"), Ok(()));
    assert_eq!(s, Settings { use_file: true, speed: 3, count: 4, show_during_gameplay: true });
}

#[test]
fn settings_give_config() {
    let on = Settings { show_during_gameplay: true, ..sample() };
    assert_eq!(
        on.config(),
        Config { sprite_count: 3, speed: 10, visible_in_background: true, shrink_in_background: true }
    );
    assert_eq!(
        sample().config(),
        Config { sprite_count: 3, speed: 10, visible_in_background: false, shrink_in_background: false }
    );
}

#[test]
fn new_settings_are_empty() {
    assert_eq!(Settings::new(), Settings { use_file: false, speed: 0, count: 0, show_during_gameplay: false });
}
