use sdsc_utils::app::catalog_edit::{
    begin_manual_edit, on_manual_file_picked, on_manual_icon_picked, CatalogEdit, ManualAddDraft,
};
use sdsc_utils::app::rows::{
    display_catalog, edit_checklist_rows, find_row, refresh_start_rows, EditRow, SteamGame,
    SteamLibrary,
};
use sdsc_utils::app::running::{LaunchStep, Running};
use sdsc_utils::games::macro_lib::MacroLibrary;
use sdsc_utils::games::{title_from_target, GameEntry, GamesCatalog};
use sdsc_utils::launch::{launch_target, shell_outcome, spawn_error};
use sdsc_utils::prefs::GamesSortMode;
use sdsc_utils::process_match::{
    any_matching_running, first_matching_index, match_paths_for_target, matching_pids, normalize_path_key, path_matches,
    steam_appid, RunningSession, LAUNCH_GRACE_MS, MISS_CLEAR_MS,
};

fn titles(catalog: &GamesCatalog) -> Vec<String> {
    catalog
        .entries
        .iter()
        .map(|e| match e {
            GameEntry::Steam { appid } => format!("Steam {appid}"),
            GameEntry::Manual { title, .. } => title.clone(),
        })
        .collect()
}

fn names(v: &[GameEntry]) -> Vec<String> {
    v.iter()
        .map(|e| match e {
            GameEntry::Steam { appid } => format!("s{appid}"),
            GameEntry::Manual { title, .. } => title.clone(),
        })
        .collect()
}

#[test]
fn toggle_steam_and_merge() {
    let mut catalog = GamesCatalog::default();
    assert!(catalog.toggle_steam(10, true));
    assert!(catalog.contains_steam(10));
    assert!(!catalog.toggle_steam(10, true));
    // Before a successful scan, curated Steam rows stay.
    assert_eq!(catalog.merge_for_display(None).len(), 1);
    assert_eq!(catalog.merge_for_display(Some(&[10])).len(), 1);
    assert!(catalog.merge_for_display(Some(&[])).is_empty());
    assert!(catalog.toggle_steam(10, false));
    assert!(!catalog.contains_steam(10));
}

#[test]
fn merge_keeps_steam_when_scan_unknown() {
    let mut catalog = GamesCatalog::default();
    catalog.toggle_steam(42, true);
    assert_eq!(catalog.merge_for_display(None).len(), 1);
    assert!(catalog.merge_for_display(Some(&[99])).is_empty());
}

#[test]
fn update_manual_edits_fields() {
    let mut catalog = GamesCatalog::default();
    catalog.add_manual("A".into(), "a.exe".into(), String::new(), None, 7);
    let id = match &catalog.entries[0] {
        GameEntry::Manual { id, .. } => id.clone(),
        _ => panic!("manual"),
    };
    assert!(catalog.update_manual(
        &id,
        "Bee".into(),
        "--flag".into(),
        Some(r"C:\icon.png".into()),
    ));
    match &catalog.entries[0] {
        GameEntry::Manual { title, args, icon, target, .. } => {
            assert_eq!(title, "Bee");
            assert_eq!(args, "--flag");
            assert_eq!(icon.as_deref(), Some(r"C:\icon.png"));
            assert_eq!(target, "a.exe");
        }
        _ => panic!("manual"),
    }
    assert!(!catalog.update_manual("missing", "X".into(), String::new(), None));
}

#[test]
fn title_from_target_uses_stem() {
    assert_eq!(title_from_target(r"C:\Games\Cool Game.exe"), "Cool Game");
    assert!(title_from_target("steam://rungameid/1").starts_with("Steam:"));
}

#[test]
fn last_played_sort_puts_recent_first() {
    let mut catalog = GamesCatalog::default();
    catalog.toggle_steam(1, true);
    catalog.toggle_steam(2, true);
    catalog.add_manual("Zebra".into(), "z.exe".into(), String::new(), None, 7);
    let z_key = catalog.entries[2].play_key();
    catalog.last_played_ms.insert("steam:2".into(), 200);
    catalog.last_played_ms.insert(z_key, 100);

    let t = titles(&catalog);
    let sorted = catalog.merge_sorted(None, GamesSortMode::LastPlayed, &t);
    assert_eq!(names(&sorted), vec!["s2", "Zebra", "s1"]);

    let alpha = catalog.merge_sorted(None, GamesSortMode::Alphabetical, &t);
    assert_eq!(names(&alpha), vec!["s1", "s2", "Zebra"]);
}

#[test]
fn touch_played_and_remove_manual_clears_timestamp() {
    let mut catalog = GamesCatalog::default();
    catalog.toggle_steam(7, true);
    catalog.add_manual("Solo".into(), "solo.exe".into(), String::new(), None, 7);
    let manual = catalog.entries[1].clone();
    catalog.touch_played_key(GameEntry::Steam { appid: 7 }.play_key(), 1_000);
    catalog.touch_played_key(manual.play_key(), 1_001);
    assert!(catalog.last_played(&GameEntry::Steam { appid: 7 }).is_some());
    assert!(catalog.last_played(&manual).is_some());
    let id = match &manual {
        GameEntry::Manual { id, .. } => id.clone(),
        _ => panic!("manual"),
    };
    assert!(catalog.remove_manual_id(&id));
    assert!(!catalog.last_played_ms.contains_key(&format!("manual:{id}")));
}

#[test]
fn titles_sort_without_regard_to_case() {
    let mut catalog = GamesCatalog::default();
    catalog.add_manual("beta".into(), "b".into(), String::new(), None, 1);
    catalog.add_manual("Alpha".into(), "a".into(), String::new(), None, 2);
    catalog.add_manual("ÄX".into(), "x".into(), String::new(), None, 3);
    catalog.add_manual("äa".into(), "y".into(), String::new(), None, 4);
    let t = titles(&catalog);
    let alpha = catalog.merge_sorted(None, GamesSortMode::Alphabetical, &t);
    assert_eq!(names(&alpha), vec!["Alpha", "beta", "äa", "ÄX"]);
}

fn library() -> SteamLibrary {
    let mut library = SteamLibrary::new();
    library.on_steam_scan_done(Ok(vec![
        SteamGame { appid: 2, name: "Old name".to_string() },
        SteamGame { appid: 1, name: "Zeta".to_string() },
        SteamGame { appid: 2, name: "alpha".to_string() },
    ]));
    library
}

#[test]
fn scan_names_games() {
    let library = library();
    assert_eq!(library.title(2), "alpha");
    assert_eq!(library.title(9), "Steam 9");
    assert_eq!(library.installed, Some(vec![2, 1, 2]));
}

#[test]
fn failed_scan_keeps_the_library() {
    let mut library = library();
    library.on_steam_scan_done(Err("denied".to_string()));
    assert_eq!(library.title(1), "Zeta");
    assert_eq!(library.installed, Some(vec![2, 1, 2]));
}

#[test]
fn checklist_has_library_and_shortcuts_by_title() {
    let mut catalog = GamesCatalog::default();
    catalog.toggle_steam(2, true);
    catalog.add_manual("Mid".into(), "m.exe".into(), "-x".into(), None, 7);
    let rows = edit_checklist_rows(&catalog, &library(), &MacroLibrary::default());
    let t: Vec<&str> = rows.iter().map(|r| r.title.as_str()).collect();
    assert_eq!(t, vec!["alpha", "Mid", "Zeta"]);
    assert_eq!(rows[0].edit, Some(EditRow::Steam { appid: 2, in_catalog: true }));
    assert_eq!(rows[0].target, "steam://rungameid/2");
    assert!(!rows[2].in_catalog());
    assert_eq!(find_row(&rows, "steam:1"), 2);
    assert_eq!(find_row(&rows, "nothing"), 3);
}

#[test]
fn browse_rows_carry_macros() {
    let mut catalog = GamesCatalog::default();
    catalog.toggle_steam(1, true);
    catalog.toggle_steam(3, true);
    let mut macros = MacroLibrary::default();
    macros.add_macro("steam:1", "Hideout".into(), "focus > press enter".into(), 1).unwrap();
    let rows = refresh_start_rows(
        false,
        &catalog,
        None,
        &library(),
        GamesSortMode::Alphabetical,
        &macros,
    );
    assert_eq!(rows.len(), 1);
    assert_eq!(rows[0].play_key, "steam:1");
    assert!(rows[0].has_macros);
    assert!(rows[0].edit.is_none());
    assert_eq!(display_catalog(&catalog, &SteamLibrary::new(), GamesSortMode::Alphabetical).len(), 2);
}

fn edit() -> (CatalogEdit, MacroLibrary) {
    let mut games = GamesCatalog::default();
    games.toggle_steam(1, true);
    games.toggle_steam(2, true);
    let mut macros = MacroLibrary::default();
    macros.add_macro("steam:1", "A".into(), "focus".into(), 1).unwrap();
    macros.add_macro("steam:2", "B".into(), "focus".into(), 2).unwrap();
    (CatalogEdit { games, draft: None }, macros)
}

#[test]
fn saving_an_edit_drops_orphaned_macros() {
    let (mut e, mut macros) = edit();
    e.enter_start_edit();
    let rows = edit_checklist_rows(e.edit_catalog(), &library(), &macros);
    let zeta = find_row(&rows, "steam:1");
    assert!(e.edit_toggle_selected(rows.get(zeta)));
    assert!(e.games.contains_steam(1));
    let out = e.commit_start_edit(&mut macros);
    assert!(out.save_games && out.save_macros);
    assert!(!e.games.contains_steam(1));
    assert!(!macros.has_macros("steam:1"));
    assert!(macros.has_macros("steam:2"));
}

#[test]
fn cancelling_an_edit_restores_the_catalog() {
    let (mut e, mut macros) = edit();
    e.enter_start_edit();
    e.confirm_manual_add(
        ManualAddDraft {
            edit_id: None,
            target: r"C:\g\Game.exe".to_string(),
            title: "  ".to_string(),
            args: " -w ".to_string(),
            icon_path: None,
        },
        255,
    );
    match e.edit_catalog().entries.last().unwrap() {
        GameEntry::Manual { id, title, args, .. } => {
            assert_eq!(id, "ff");
            assert_eq!(title, "Game");
            assert_eq!(args, "-w");
        }
        _ => panic!("manual"),
    }
    e.cancel_start_edit();
    assert_eq!(e.edit_catalog().entries.len(), 2);
    let out = e.commit_start_edit(&mut macros);
    assert!(!out.save_games && !out.save_macros);
}

#[test]
fn shortcut_form_is_filled() {
    assert!(on_manual_file_picked(Some("a.exe".to_string()), false).is_none());
    assert!(on_manual_file_picked(None, true).is_none());
    let mut form = on_manual_file_picked(Some(r"C:\x\Cool.exe".to_string()), true);
    assert_eq!(form.as_ref().unwrap().title, "Cool");
    on_manual_icon_picked(&mut form, Some("i.png".to_string()));
    on_manual_icon_picked(&mut form, None);
    assert_eq!(form.unwrap().icon_path.as_deref(), Some("i.png"));

    let mut catalog = GamesCatalog::default();
    catalog.add_manual("A".into(), "a.exe".into(), "-q".into(), Some("a.png".into()), 16);
    let rows = edit_checklist_rows(&catalog, &SteamLibrary::new(), &MacroLibrary::default());
    let draft = begin_manual_edit(rows.first(), &catalog).unwrap();
    assert_eq!(draft.edit_id.as_deref(), Some("10"));
    assert_eq!(draft.icon_path.as_deref(), Some("a.png"));
    assert_eq!(draft.args, "-q");
    assert!(begin_manual_edit(None, &catalog).is_none());
}

// --- processes and launching -----------------------------------------------

#[test]
fn steam_appid_parses() {
    assert_eq!(steam_appid("steam://rungameid/570"), Some(570));
    assert_eq!(steam_appid("C:\\games\\foo.exe"), None);
}

#[test]
fn match_paths_manual_file() {
    // A path that does not exist still yields an entry.
    let paths = match_paths_for_target("C:\\Games\\Demo\\game.exe", None, false);
    assert!(!paths.is_empty());
}

#[test]
fn images_match_paths_without_regard_to_case() {
    let paths = vec![r"C:\Games\Demo".to_string()];
    assert!(path_matches(r"c:\games\demo\GAME.EXE", &paths));
    assert!(!path_matches(r"c:\games\other\game.exe", &paths));
    assert_eq!(normalize_path_key("C:/A/B"), normalize_path_key(r"c:\a\b"));
    let images = vec![
        (4, r"C:\Windows\x.exe".to_string()),
        (9, r"C:\GAMES\Demo\game.exe".to_string()),
    ];
    assert!(any_matching_running(&paths, &images));
    assert_eq!(matching_pids(&paths, &images), vec![9]);
    assert!(!any_matching_running(&[], &images));
}

#[test]
fn session_survives_its_grace_and_short_misses() {
    let mut s = RunningSession::new("T".into(), "t".into(), vec![], 1_000);
    assert!(s.in_launch_grace(1_000 + LAUNCH_GRACE_MS - 1));
    assert!(!s.in_launch_grace(1_000 + LAUNCH_GRACE_MS));
    assert!(s.note_look(false, 100_000));
    assert!(s.note_look(false, 100_000 + MISS_CLEAR_MS - 1));
    assert!(!s.note_look(false, 100_000 + MISS_CLEAR_MS));
    assert!(s.note_look(true, 200_000));
    assert!(s.miss_since_ms.is_none());
}

#[test]
fn running_game_asks_before_it_is_replaced() {
    let mut r = Running::new();
    assert_eq!(r.launch_step("a", false), LaunchStep::Launch);
    r.begin_running_session("A".into(), "a".into(), vec!["x".to_string()], 0);
    assert_eq!(r.launch_step("a", true), LaunchStep::AlreadyRunning);
    assert_eq!(r.launch_step("b", true), LaunchStep::AskReplace);
    assert_eq!(r.launch_step("b", false), LaunchStep::Launch);
}

#[test]
fn empty_target_errors() {
    assert!(launch_target("").is_err());
    assert!(launch_target("   ").is_err());
}

#[test]
fn launch_tells_urls_from_programs() {
    let url = launch_target(" steam://rungameid/1 ").unwrap();
    assert!(url.url);
    assert_eq!(url.target, "steam://rungameid/1");
    let exe = launch_target("a.exe").unwrap();
    assert!(!exe.url);
    assert_eq!(spawn_error(&exe, "denied"), "failed to launch a.exe: denied");
    assert_eq!(spawn_error(&url, "denied"), "failed to open steam://rungameid/1: denied");
    assert!(shell_outcome("a", 33).is_ok());
    assert_eq!(shell_outcome("a", 2).unwrap_err(), "ShellExecute failed for a (code 2)");
}

#[test]
fn toggling_off_and_on_keeps_a_game() {
    let (mut e, macros) = edit();
    e.enter_start_edit();
    for expected in [false, true] {
        let rows = edit_checklist_rows(e.edit_catalog(), &library(), &macros);
        let at = find_row(&rows, "steam:1");
        assert!(e.edit_toggle_selected(rows.get(at)));
        assert_eq!(e.edit_catalog().contains_steam(1), expected);
    }
}

#[test]
fn first_path_set_wins_in_any_listing_order() {
    let sets = vec![
        vec![r"C:\games\a".to_string()],
        vec!["b.exe".to_string()],
        Vec::new(),
    ];
    let a = (1u32, r"C:\Games\A\run.exe".to_string());
    let b = (2u32, r"D:\b.exe".to_string());
    let other = (3u32, r"D:\c.exe".to_string());
    assert_eq!(first_matching_index(&sets, &[b.clone(), a.clone()]), Some(0));
    assert_eq!(first_matching_index(&sets, &[a, b.clone()]), Some(0));
    assert_eq!(first_matching_index(&sets, &[other.clone(), b]), Some(1));
    assert_eq!(first_matching_index(&sets, &[other]), None);
    assert_eq!(first_matching_index(&[], &[]), None);
}
