use sdsc_utils::app::macro_overlay::{open_macros_overlay, MacroOverlay};
use sdsc_utils::app::macros::{game_header_for_row, import_text, ImportReport, RunPlan};
use sdsc_utils::app::rows::{refresh_start_rows, SteamLibrary};
use sdsc_utils::app::start::{Overlay, StartEffect, StartNav};
use sdsc_utils::games::macro_lib::{parse_import, ImportBind, MacroLibrary};
use sdsc_utils::games::macro_run::{
    compile, key_vk, pick_window, text_inputs, wait_foreground, without_focus, FocusWait, KeyEvent,
    MacroRun, Op, Reply, RunError, WindowInfo,
};
use sdsc_utils::games::macro_text::{
    export, parse, parse_action, GameRef, Key, KeyChord, Step, MAX_DOCUMENT_BYTES,
};
use sdsc_utils::games::{GameEntry, GamesCatalog};
use sdsc_utils::prefs::GamesSortMode;
use sdsc_utils::text_map::TextMap;

const HIDEOUT: &str = r#"game: 238960|Path of Exile
name: Hideout
action: focus > wait 100 > press enter > type "/hideout" > press enter
"#;

fn plain(key: Key) -> KeyChord {
    KeyChord { ctrl: false, alt: false, shift: false, win: false, key }
}

// --- text ------------------------------------------------------------------

#[test]
fn parses_hideout_single() {
    let doc = parse(HIDEOUT).unwrap();
    assert_eq!(doc.game_header(), Some("238960|Path of Exile"));
    assert!(!doc.macros.is_empty());
    assert_eq!(doc.macros.len(), 1);
    assert_eq!(doc.macros[0].name, "Hideout");
    assert_eq!(
        doc.macros[0].steps,
        vec![
            Step::Focus,
            Step::Wait(100),
            Step::Press(plain(Key::Enter)),
            Step::Type("/hideout".into()),
            Step::Press(plain(Key::Enter)),
        ]
    );
}

#[test]
fn parses_catalog() {
    let text = r#"game: 238960|Path of Exile
name: Hideout
action: focus > press enter
name: Remaining
action: focus > type "/remaining"
"#;
    let doc = parse(text).unwrap();
    assert!(doc.macros.len() >= 2);
    assert_eq!(doc.macros.len(), 2);
    assert_eq!(doc.macros[1].name, "Remaining");
}

#[test]
fn type_keeps_gt_inside_quotes() {
    let steps = parse_action(r#"type "a > b""#).unwrap();
    assert_eq!(steps, vec![Step::Type("a > b".into())]);
}

#[test]
fn type_escapes() {
    let steps = parse_action(r#"type "say \"hi\" \\ ok""#).unwrap();
    assert_eq!(steps, vec![Step::Type(r#"say "hi" \ ok"#.into())]);
}

#[test]
fn game_ref_split() {
    assert_eq!(
        GameRef::parse("238960|Path of Exile"),
        GameRef { appid: Some(238960), name: "Path of Exile".into() }
    );
    assert_eq!(
        GameRef::parse("|Standalone"),
        GameRef { appid: None, name: "Standalone".into() }
    );
    assert_eq!(
        GameRef::parse("42|"),
        GameRef { appid: Some(42), name: String::new() }
    );
}

#[test]
fn rejects_unknown_step() {
    let err = parse_action("focus > explode").unwrap_err();
    assert!(err.contains("unknown"));
}

#[test]
fn rejects_wait_too_long() {
    assert!(parse_action("wait 2001").is_err());
}

#[test]
fn export_round_trip_headers() {
    let doc = parse(HIDEOUT).unwrap();
    let macros: Vec<(String, String, &TextMap<String>)> = doc
        .macros
        .iter()
        .map(|m| (m.name.clone(), m.action.clone(), &m.meta))
        .collect();
    let text = export(&doc.headers, &macros);
    let again = parse(&text).unwrap();
    assert_eq!(again.macros[0].name, "Hideout");
    assert_eq!(again.macros[0].steps, doc.macros[0].steps);
}

#[test]
fn chord_modifiers() {
    let steps = parse_action("press ctrl+shift+v").unwrap();
    match &steps[0] {
        Step::Press(c) => {
            assert!(c.ctrl && c.shift && !c.alt);
            assert_eq!(c.key, Key::Char('v'));
        }
        _ => panic!("expected press"),
    }
}

#[test]
fn comments_and_blank_lines() {
    let text = r#"
# Path of Exile hideout
game: 238960|Path of Exile

name: Hideout
# ignore
action: focus > wait 50 > press enter
"#;
    let doc = parse(text).unwrap();
    assert_eq!(doc.macros[0].steps.len(), 3);
}

#[test]
fn oversized_documents_are_refused() {
    let long = "#".repeat(MAX_DOCUMENT_BYTES + 1);
    let err = parse(&long).unwrap_err();
    assert!(err.to_string().contains("document exceeds"));
    assert!(parse("name: A\n").is_err());
    assert!(parse("action: focus\n").is_err());
}

#[test]
fn parse_errors_name_their_line() {
    let err = parse("game: 1|A\nname: B\naction: wait 9999\n").unwrap_err();
    assert_eq!(err.line, Some(3));
    assert!(err.to_string().starts_with("line 3: "));
}

// --- library ---------------------------------------------------------------

fn steam(appid: u32) -> GameEntry {
    GameEntry::Steam { appid }
}

fn manual(title: &str, nanos: u128) -> GameEntry {
    GameEntry::manual_with(title.to_string(), "x.exe".to_string(), String::new(), None, nanos)
}

#[test]
fn merge_single_keeps_others() {
    let mut lib = MacroLibrary::default();
    lib.add_macro("steam:238960", "Remaining".into(), "focus > press enter".into(), 1).unwrap();
    let doc = parse_import(
        r#"game: 238960|Path of Exile
name: Hideout
action: focus > type "/hideout"
"#,
    )
    .unwrap();
    let result = lib.merge_document("steam:238960", &doc, &[2]).unwrap();
    assert_eq!(result.added, 1);
    assert_eq!(lib.for_game("steam:238960").unwrap().macros.len(), 2);
}

#[test]
fn merge_updates_same_name_keeps_id() {
    let mut lib = MacroLibrary::default();
    let id = lib.add_macro("steam:1", "Hideout".into(), "focus > wait 10".into(), 1).unwrap();
    let doc = parse_import(
        r#"game: 1|Test
name: Hideout
action: focus > wait 20
"#,
    )
    .unwrap();
    let result = lib.merge_document("steam:1", &doc, &[2]).unwrap();
    assert_eq!(result.updated, 1);
    assert_eq!(result.added, 0);
    let rec = lib.find_macro("steam:1", &id).unwrap();
    assert_eq!(rec.id, id);
    assert_eq!(rec.body, "focus > wait 20");
}

#[test]
fn resolve_prefers_steam_appid() {
    let lib = MacroLibrary::default();
    let catalog = vec![steam(238960), manual("Path of Exile", 1)];
    let doc = parse_import(
        r#"game: 238960|Path of Exile
name: Hideout
action: focus
"#,
    )
    .unwrap();
    match lib.resolve_import_target(&doc, "manual:x", &catalog) {
        ImportBind::Target(key) => assert_eq!(key, "steam:238960"),
        other => panic!("unexpected {other:?}"),
    }
}

#[test]
fn resolve_manual_by_name() {
    let lib = MacroLibrary::default();
    let catalog = vec![manual("Path of Exile", 1)];
    let doc = parse_import(
        r#"game: 238960|Path of Exile
name: Hideout
action: focus
"#,
    )
    .unwrap();
    match lib.resolve_import_target(&doc, "steam:1", &catalog) {
        ImportBind::Target(key) => assert!(key.starts_with("manual:")),
        other => panic!("unexpected {other:?}"),
    }
}

#[test]
fn resolve_ambiguous_manuals() {
    let lib = MacroLibrary::default();
    let catalog = vec![manual("Path of Exile", 1), manual("Path of Exile", 2)];
    let doc = parse_import(
        r#"game: |Path of Exile
name: Hideout
action: focus
"#,
    )
    .unwrap();
    assert!(matches!(
        lib.resolve_import_target(&doc, "open", &catalog),
        ImportBind::Ambiguous(_)
    ));
}

#[test]
fn library_refuses_what_it_cannot_hold() {
    let mut lib = MacroLibrary::default();
    assert!(lib.add_macro("k", "A".into(), "explode".into(), 1).is_err());
    let id = lib.add_macro("k", "A".into(), "focus".into(), 1).unwrap();
    assert_eq!(id, "m1");
    assert_eq!(
        lib.add_macro("k", "a".into(), "focus".into(), 2).unwrap_err(),
        "macro `a` already exists"
    );
    for i in 2..25u128 {
        lib.add_macro("k", format!("N{i}"), "focus".into(), i).unwrap();
    }
    assert_eq!(
        lib.add_macro("k", "Z".into(), "focus".into(), 99).unwrap_err(),
        "game already has 24 macros"
    );
    assert_eq!(lib.update_macro("q", "m1", "A".into(), "focus".into()).unwrap_err(), "game has no macros");
    assert_eq!(lib.update_macro("k", "m0", "Q".into(), "focus".into()).unwrap_err(), "macro not found");
    assert!(lib.remove_macro("k", "m1"));
    assert!(!lib.remove_macro("k", "m1"));
}

// --- overlay ---------------------------------------------------------------

fn exile() -> (MacroLibrary, GamesCatalog) {
    let mut catalog = GamesCatalog::default();
    catalog.toggle_steam(238960, true);
    catalog.add_manual("Tool".into(), "t.exe".into(), String::new(), None, 16);
    (MacroLibrary::default(), catalog)
}

#[test]
fn overlay_edits_and_lists() {
    let (mut lib, catalog) = exile();
    let steam = SteamLibrary::new();
    let rows =
        refresh_start_rows(false, &catalog, None, &steam, GamesSortMode::Alphabetical, &lib);
    let row = &rows[0];
    assert_eq!(row.title, "Steam 238960");
    // Neither running nor edited: nothing opens.
    assert!(open_macros_overlay(&mut lib, Some(row), false, None).is_none());
    let mut o = open_macros_overlay(&mut lib, Some(row), true, None).unwrap();
    assert_eq!(
        lib.for_game("steam:238960").unwrap().headers.get("game").unwrap(),
        "238960|Steam 238960"
    );
    o.open_macro_editor(&lib, None);
    if let MacroOverlay::Edit { name, action, .. } = &mut o {
        *name = "  ".to_string();
        *action = "action: focus > press enter ".to_string();
    }
    assert!(!o.save_macro_editor(&mut lib, &rows, 5));
    match &mut o {
        MacroOverlay::Edit { name, error, .. } => {
            assert_eq!(error.as_deref(), Some("name must be non-empty"));
            *name = " Go ".to_string();
        }
        _ => panic!("editor"),
    }
    assert!(o.save_macro_editor(&mut lib, &rows, 5));
    match &o {
        MacroOverlay::List { rows, run_mode, .. } => {
            assert_eq!(rows[0].name, "Go");
            assert!(!run_mode);
        }
        _ => panic!("list"),
    }
    assert_eq!(lib.find_macro("steam:238960", "m5").unwrap().body, "focus > press enter");
    let share = o.copy_selected_macro(&lib, &rows).unwrap();
    assert!(share.contains("game: 238960|Steam 238960"));
    assert_eq!(o.copy_macro_catalog(&lib, &rows).unwrap(), share);
    o.open_macro_editor_selected(&lib);
    assert!(matches!(&o, MacroOverlay::Edit { name, .. } if name == "Go"));
    o.return_to_macro_list(&lib, &rows, None);
    assert!(o.remove_selected_macro(&mut lib));
    assert!(!o.remove_selected_macro(&mut lib));
    assert!(o.copy_macro_catalog(&lib, &rows).is_none());
}

#[test]
fn overlay_imports_into_the_named_game() {
    let (mut lib, catalog) = exile();
    let steam = SteamLibrary::new();
    let rows =
        refresh_start_rows(false, &catalog, None, &steam, GamesSortMode::Alphabetical, &lib);
    let tool = rows.iter().find(|r| r.title == "Tool").unwrap();
    let mut o = open_macros_overlay(&mut lib, Some(tool), true, None).unwrap();
    assert!(!o.import_macros_from_text(&mut lib, "nonsense", &rows, &catalog.entries, 9));
    assert!(matches!(&o, MacroOverlay::List { status: Some(_), .. }));
    assert!(o.import_macros_from_text(&mut lib, HIDEOUT, &rows, &catalog.entries, 9));
    match &o {
        MacroOverlay::List { play_key, title, status, rows, .. } => {
            assert_eq!(play_key, "steam:238960");
            assert_eq!(title, "Steam 238960");
            assert_eq!(status.as_deref(), Some("imported +1 ~0"));
            assert_eq!(rows[0].id, "m9");
        }
        _ => panic!("list"),
    }
    let other = "game: 5|Else\nname: X\naction: focus\n";
    assert!(o.import_macros_from_text(&mut lib, other, &rows, &catalog.entries, 20));
    match &o {
        MacroOverlay::List { play_key, status, .. } => {
            assert_eq!(play_key, "steam:238960");
            assert_eq!(
                status.as_deref(),
                Some("imported +1 ~0 (game: `5|Else` did not match a catalog row)")
            );
        }
        _ => panic!("list"),
    }
}

#[test]
fn switching_import_leaves_the_edit_list() {
    let (mut lib, catalog) = exile();
    lib.add_macro("manual:1", "Old".into(), "focus".into(), 1).unwrap();
    let rows = refresh_start_rows(
        false,
        &catalog,
        None,
        &SteamLibrary::new(),
        GamesSortMode::Alphabetical,
        &lib,
    );
    let tool = rows.iter().find(|r| r.title == "Tool").unwrap();
    let mut o = open_macros_overlay(&mut lib, Some(tool), true, None).unwrap();
    let mut n = StartNav::new();
    n.follow_overlay(&o);
    n.overlay = Overlay::List { run_mode: true };
    if let MacroOverlay::List { run_mode, .. } = &mut o {
        *run_mode = true;
    }
    let written = o.import_macros_from_text(&mut lib, "nonsense", &rows, &catalog.entries, 9);
    assert!(n.after_import(&o, written).is_empty());
    assert_eq!(n.overlay, Overlay::List { run_mode: true });
    let written = o.import_macros_from_text(&mut lib, HIDEOUT, &rows, &catalog.entries, 9);
    assert_eq!(
        n.after_import(&o, written),
        vec![StartEffect::SaveMacros, StartEffect::RefreshRows]
    );
    assert_eq!(n.overlay, Overlay::List { run_mode: false });
    assert_eq!((n.macro_rows, n.macro_selected), (1, 0));
}

#[test]
fn macros_run_on_the_running_game() {
    let (mut lib, catalog) = exile();
    lib.add_macro("steam:238960", "Go".into(), "focus > press enter".into(), 1).unwrap();
    let rows = refresh_start_rows(
        false,
        &catalog,
        None,
        &SteamLibrary::new(),
        GamesSortMode::Alphabetical,
        &lib,
    );
    let row = &rows[0];
    let o = open_macros_overlay(&mut lib, Some(row), false, Some("steam://rungameid/238960")).unwrap();
    assert!(matches!(o.run_selected_macro(&lib, &[]), Some(RunPlan::NoPaths)));
    match o.run_selected_macro(&lib, &["p".to_string()]) {
        Some(RunPlan::Run(steps)) => assert_eq!(steps.len(), 2),
        other => panic!("unexpected {other:?}"),
    }
    lib.remove_macro("steam:238960", "m1");
    assert!(matches!(o.run_selected_macro(&lib, &[]), Some(RunPlan::Missing)));
}

#[test]
fn headers_name_the_game() {
    let lib = MacroLibrary::default();
    assert_eq!(game_header_for_row(&lib, "steam:7", "Seven"), "7|Seven");
    assert_eq!(game_header_for_row(&lib, "steam:x", "Odd"), "|Odd");
    assert_eq!(game_header_for_row(&lib, "manual:1", "Tool"), "|Tool");
}

// --- running ---------------------------------------------------------------

#[test]
fn chords_press_and_release_in_reverse() {
    let steps = parse_action("press ctrl+v").unwrap();
    let ops = compile(&steps);
    let sent: Vec<&Vec<KeyEvent>> = ops
        .iter()
        .filter_map(|o| match o {
            Op::SendKeys(k) => Some(k),
            _ => None,
        })
        .collect();
    let flat: Vec<KeyEvent> = sent.into_iter().flatten().copied().collect();
    let v = key_vk(Key::Char('v')).unwrap();
    assert_eq!(v, 0x56);
    assert_eq!(flat.first(), Some(&KeyEvent { vk: 0x11, down: true }));
    assert_eq!(flat.last(), Some(&KeyEvent { vk: 0x11, down: false }));
    assert!(flat.contains(&KeyEvent { vk: v, down: true }));
}

#[test]
fn unsendable_keys_leave_later_input_guarded() {
    let steps = vec![Step::Press(plain(Key::F(99))), Step::Press(plain(Key::Enter))];
    let ops = compile(&steps);
    assert_eq!(ops[1], Op::Fail("no vk for F(99)".into()));
    let at = ops.iter().position(|o| matches!(o, Op::SendKeys(_))).unwrap();
    assert_eq!(ops[at - 1], Op::NeedForeground);
}

#[test]
fn macro_stops_when_the_game_loses_focus() {
    let steps = parse_action("press enter").unwrap();
    let mut run = MacroRun::begin(&steps, true);
    while let Some(op) = run.current() {
        let reply = match op {
            Op::NeedForeground => Reply::Foreground(false),
            _ => Reply::Done,
        };
        run.advance(reply);
    }
    assert_eq!(run.outcome(false), Err(RunError::LostFocus));
    assert_eq!(RunError::LostFocus.to_string(), "game lost foreground before keys");
    assert_eq!(MacroRun::begin(&steps, false).outcome(false), Err(RunError::NoWindow));
}

#[test]
fn text_is_sent_as_utf16() {
    assert_eq!(text_inputs("a"), vec![(0x61, true), (0x61, false)]);
    assert_eq!(text_inputs("😀").len(), 4);
    let steps = parse_action("focus > type \"x\"").unwrap();
    assert_eq!(without_focus(&steps), vec![Step::Type("x".to_string())]);
}

#[test]
fn largest_window_of_the_game_is_picked() {
    let small = WindowInfo {
        visible: true,
        minimized: false,
        tool: false,
        pid: 5,
        left: 0,
        top: 0,
        right: 10,
        bottom: 10,
    };
    let mut large = small;
    large.right = 100;
    let mut other = large;
    other.pid = 6;
    other.right = 1000;
    assert_eq!(pick_window(&[small, large, other], &[5]), Some(1));
    assert_eq!(pick_window(&[other], &[5]), None);
    assert_eq!(wait_foreground(0, true), FocusWait::Focused);
    assert_eq!(wait_foreground(20, false), FocusWait::LookAgainIn(20));
    assert_eq!(wait_foreground(400, true), FocusWait::GiveUp);
}

#[test]
fn imported_macros_get_ids_of_their_own() {
    let (mut lib, catalog) = exile();
    let text = "game: 238960|Exile\nname: A\naction: focus\nname: B\naction: wait 5\n";
    let first = import_text(&mut lib, text, "steam:238960", &catalog.entries, 7);
    assert!(matches!(first, ImportReport::Done { .. }));
    let ids: Vec<String> =
        lib.for_game("steam:238960").unwrap().macros.iter().map(|m| m.id.clone()).collect();
    assert_eq!(ids.len(), 2);
    assert_ne!(ids[0], ids[1]);
    let again = import_text(&mut lib, text, "steam:238960", &catalog.entries, 70);
    assert!(matches!(again, ImportReport::Done { status, .. } if status == "imported +0 ~2"));
    assert!(!lib.has_macros("manual:10"));
    assert!(matches!(
        import_text(&mut lib, "", "steam:238960", &catalog.entries, 80),
        ImportReport::Refused(_)
    ));
    assert_eq!(lib.for_game("steam:238960").unwrap().macros.len(), 2);
}

#[test]
fn game_headers_read_back() {
    let r = GameRef::parse("238960| Path of Exile ");
    assert_eq!(r.appid, Some(238960));
    assert_eq!(r.name, "Path of Exile");
    let lib = MacroLibrary::default();
    let again = GameRef::parse(&game_header_for_row(&lib, "steam:238960", &r.name));
    assert_eq!(again.appid, Some(238960));
    assert_eq!(again.name, "Path of Exile");
}

#[test]
fn joined_chains_run_in_turn() {
    let a = r#"focus > type "x > " > wait 5"#;
    let b = "press ctrl+v";
    let mut want = parse_action(a).unwrap();
    want.extend(parse_action(b).unwrap());
    assert_eq!(parse_action(&format!("{a} > {b}")).unwrap(), want);
    assert!(parse_action("focus >").is_err());
}
