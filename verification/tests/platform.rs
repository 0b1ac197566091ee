use sdsc_utils::crash_restart::{may_relaunch, RestartBudget};
use sdsc_utils::platform::app_log::{
    backtrace_capped, hitch_line, hitch_report, log_line, rotate_if_needed, session_line,
    slow_trace_message, trace_line, Level,
};
use sdsc_utils::platform::autostart::{
    enable_outcome, is_enabled, ps_single_quoted, shortcut_outcome, shortcut_script,
};
use sdsc_utils::platform::icons::{bgra_to_rgba, icon_edge, shell_icon_size, wide_canvas};
use sdsc_utils::platform::is_packaged;
use sdsc_utils::platform::logos::{logo_files, square_logo, wide_logo};
use sdsc_utils::platform::paths::{data_dir, log_file_path, opener_outcome, Os, Places};
use sdsc_utils::prefs::{
    clamp_low_battery_percent, clamp_start_screen_sound_volume, GamesSortMode, Prefs,
    ToastPosition, LOW_BATTERY_PERCENT_MAX, LOW_BATTERY_PERCENT_MIN,
};

#[test]
fn unpackaged_dev_build_is_not_packaged() {
    assert!(!is_packaged(None));
}

#[test]
fn clamp_low_battery_percent_bounds() {
    assert_eq!(clamp_low_battery_percent(0), LOW_BATTERY_PERCENT_MIN);
    assert_eq!(clamp_low_battery_percent(5), 5);
    assert_eq!(clamp_low_battery_percent(10), 5);
    assert_eq!(clamp_low_battery_percent(15), 15);
    assert_eq!(clamp_low_battery_percent(20), 15);
    assert_eq!(clamp_low_battery_percent(25), 25);
    assert_eq!(clamp_low_battery_percent(35), 35);
    assert_eq!(clamp_low_battery_percent(45), LOW_BATTERY_PERCENT_MAX);
    assert_eq!(clamp_low_battery_percent(50), LOW_BATTERY_PERCENT_MAX);
    assert_eq!(clamp_low_battery_percent(99), LOW_BATTERY_PERCENT_MAX);
}

#[test]
fn defaults_are_quiet_about_analytics() {
    let p = Prefs::default();
    assert_eq!(p.toast_position, ToastPosition::BottomCenter);
    assert!(p.notify_disconnect);
    assert!(!p.analytics_enabled);
    assert!(p.lightbar_enabled);
    assert!(p.start_screen_enabled);
    assert_eq!(p.start_screen_gesture.len(), 4);
    assert_eq!(ToastPosition::BottomLeft.as_str(), "bottom_left");
    assert_eq!(GamesSortMode::Alphabetical.cycle().cycle(), GamesSortMode::Alphabetical);
    assert_eq!(clamp_start_screen_sound_volume(130), 100);
}

#[test]
fn relaunches_are_limited() {
    let mut b = RestartBudget::default();
    assert!(b.consume_budget(1_000));
    assert!(b.consume_budget(1_001));
    assert!(b.consume_budget(1_002));
    assert!(!b.consume_budget(1_003));
    assert!(b.consume_budget(1_000 + 601));
    assert!(may_relaunch(None));
    assert!(!may_relaunch(Some(false)));
    b.request_notice();
    assert!(b.take_pending_notice());
    assert!(!b.take_pending_notice());
}

#[test]
fn log_lines_have_their_form() {
    assert_eq!(log_line(12, Level::Warn, "x"), "[12] WARN: x\n");
    assert_eq!(trace_line(12, "x"), "[12] x\n");
    assert_eq!(hitch_line(3, 44, "a=b"), "HITCH_MARK session=3 up_ms=44 a=b");
    assert_eq!(hitch_line(3, 44, ""), "HITCH_MARK session=3 up_ms=44");
    assert_eq!(
        hitch_report("lag", "button", Some("e=1"), 2, "ok", 7, 9, "ctx"),
        "kind=lag source=button e=1 pads=2 reason=ok age_ms=7 seq=9 ctx"
    );
    assert_eq!(session_line("N", "p", "1.0", 5), "N (p) 1.0 starting session=5");
    assert!(rotate_if_needed(10, 10));
    assert!(!rotate_if_needed(9, 10));
    assert!(slow_trace_message(49).is_none());
    assert_eq!(slow_trace_message(50).unwrap(), "hid-diag: slow op=hid_trace_io ms=50");
}

#[test]
fn backtraces_are_cut_between_characters() {
    let long = "é".repeat(3000);
    let cut = backtrace_capped(&long);
    assert!(cut.ends_with("…(truncated)"));
    assert_eq!(cut.chars().filter(|c| *c == 'é').count(), 2000);
    assert_eq!(backtrace_capped("short"), "short");
}

#[test]
fn shortcut_quoting_is_safe() {
    assert_eq!(ps_single_quoted("it's"), "it''s");
    let s = shortcut_script("a'b.lnk", "t.exe", "d");
    assert!(s.contains("CreateShortcut('a''b.lnk')"));
    assert!(is_enabled(true, Some(2), false));
    assert!(!is_enabled(true, None, true));
    assert!(is_enabled(false, None, true));
    assert!(enable_outcome(4).is_ok());
    assert_eq!(
        enable_outcome(1).unwrap_err(),
        "startup was disabled in Task Manager; re-enable it there first"
    );
    assert_eq!(enable_outcome(3).unwrap_err(), "startup is disabled by system policy");
    assert_eq!(shortcut_outcome(true, "0", false).unwrap_err(), "shortcut was not created");
    assert_eq!(
        shortcut_outcome(false, "1", true).unwrap_err(),
        "powershell failed creating shortcut (exit 1)"
    );
}

#[test]
fn pixels_are_turned() {
    let mut p = vec![1, 2, 3, 4, 5];
    bgra_to_rgba(&mut p);
    assert_eq!(p, vec![3, 2, 1, 4, 5]);
    assert_eq!(icon_edge(8), 16);
    assert_eq!(shell_icon_size(32), 32 * 65536 + 32);
    assert_eq!(shell_icon_size(0x1_0001), 0x1_0001);
    let canvas = wide_canvas(&[9, 9, 9, 9], 1, 3);
    assert_eq!(canvas, vec![0, 0, 0, 0, 9, 9, 9, 9, 0, 0, 0, 0]);
}

#[test]
fn files_have_their_places() {
    let none = Places {
        appdata: Some("A".to_string()),
        home: Some("H".to_string()),
        xdg_config_home: None,
        xdg_state_home: None,
    };
    assert_eq!(data_dir(Os::Windows, &none), vec!["A", "sdsc-utils"]);
    assert_eq!(log_file_path(Os::Windows, &none, "x.log").last().unwrap(), "x.log");
    assert!(opener_outcome(Os::Windows, false, "1").is_ok());
    assert_eq!(opener_outcome(Os::Mac, false, "1").unwrap_err(), "open exited with 1");
    assert_eq!(opener_outcome(Os::Unix, false, "1").unwrap_err(), "xdg-open exited with 1");
}

/// Size in the header of a PNG file.
fn png_size(file: &[u8]) -> (u32, u32) {
    let number = |at: usize| u32::from_be_bytes([file[at], file[at + 1], file[at + 2], file[at + 3]]);
    (number(16), number(20))
}

#[test]
fn logos_are_png_files() {
    let file = square_logo(&[7u8; 16], 2).unwrap();
    assert_eq!(file[..8], [137, 80, 78, 71, 13, 10, 26, 10]);
    assert_eq!(png_size(&file), (2, 2));
    assert!(square_logo(&[7u8; 15], 2).is_none());
    assert!(square_logo(&[], 0).is_none());
    let wide = wide_logo(&[7u8; 16], 2, 4).unwrap();
    assert_eq!(png_size(&wide), (4, 2));
    assert!(wide_logo(&[7u8; 16], 2, 1).is_none());
    assert!(wide_logo(&[], 0, 1).is_none());
}

#[test]
fn wide_logos_hold_the_icon_in_the_middle() {
    let pixels: Vec<u8> = (0..16).collect();
    let file = wide_logo(&pixels, 2, 4).unwrap();
    let mut reader = png::Decoder::new(file.as_slice()).read_info().unwrap();
    let mut buf = vec![0u8; reader.output_buffer_size()];
    reader.next_frame(&mut buf).unwrap();
    let mut expected = vec![0u8; 32];
    expected[4..12].copy_from_slice(&pixels[..8]);
    expected[20..28].copy_from_slice(&pixels[8..]);
    assert_eq!(buf, expected);
}

#[test]
fn five_logos_make_a_package() {
    let files = logo_files();
    assert_eq!(files.len(), 5);
    assert_eq!(files[0].name, "StoreLogo.png");
    assert_eq!((files[4].name, files[4].width, files[4].height), ("Wide310x150Logo.png", 310, 150));
}
