use base64::engine::general_purpose::STANDARD as BASE64_STANDARD;
use base64::Engine;
use dmnote_editor_engine::css_commands::{
    apply_css_command, css_history_status, CssCommand, CssHistoryStatus, CssOutcome, TabLoadError,
};
use dmnote_editor_engine::model::{
    AppStoreData, CustomCss, CustomJs, FontSettings, KeySlot, NoteSettings, TabCss,
};
use dmnote_editor_engine::model::TabNoteSettings;
use dmnote_editor_engine::session_reads::{
    apply_setting_command, read_command, ReadAnswer, ReadCommand, SettingCommand, SettingOutcome,
};
use dmnote_editor_engine::css_history::CustomCssHistoryEntry;
use dmnote_editor_engine::strmap::StrMap;
use dmnote_editor_engine::tab_commands::{apply_tab_command, TabCommand, TabOutcome};
use dmnote_editor_engine::web_assets::WebAssetMap;
use dmnote_editor_engine::web_css::MAX_CSS_BYTES;

fn store() -> AppStoreData {
    let mut keys = StrMap::new();
    keys.insert("4key".into(), vec![KeySlot { label: "A".into() }]);
    let mut counts = StrMap::new();
    counts.insert("A".to_string(), 3u32);
    counts.insert("B".to_string(), 2u32);
    let mut other = StrMap::new();
    other.insert("C".to_string(), 7u32);
    let mut key_counters = StrMap::new();
    key_counters.insert("4key".to_string(), counts);
    key_counters.insert("5key".to_string(), other);
    AppStoreData {
        keys,
        key_positions: StrMap::new(),
        stat_positions: StrMap::new(),
        graph_positions: StrMap::new(),
        knob_positions: StrMap::new(),
        sprite_positions: StrMap::new(),
        layer_groups: StrMap::new(),
        key_counters,
        custom_tabs: Vec::new(),
        tab_order: Vec::new(),
        bar_count: 4,
        selected_key_type: "4key".into(),
        tab_note_overrides: StrMap::new(),
        tab_css_overrides: StrMap::new(),
        font_settings: FontSettings { custom_fonts: Vec::new() },
        background_color: "transparent".into(),
        note_settings: NoteSettings { speed: 180, track_height: 150, reverse: false },
        note_effect: false,
        laboratory_enabled: false,
        use_custom_css: false,
        custom_css: CustomCss { path: None, content: String::new() },
        use_custom_js: false,
        custom_js: CustomJs { path: None, content: String::new() },
        custom_css_history: Vec::new(),
        sound_library: StrMap::new(),
        counter_animation_presets: Vec::new(),
        plugin_data: StrMap::new(),
        overlay_locked: false,
        overlay_visible: true,
        editor_revision: 0,
    }
}

fn count(store: &AppStoreData, mode: &str, key: &str) -> u32 {
    *store.key_counters.get(mode).unwrap().get(key).unwrap()
}

#[test]
fn selecting_a_built_in_tab_succeeds_and_an_unknown_one_keeps_the_selection() {
    let mut s = store();
    let out = apply_tab_command(&mut s, &TabCommand::SetMode { mode: "5key".into() }, &Vec::new());
    assert!(matches!(out, TabOutcome::Selected { success: true, ref selected } if selected == "5key"));
    assert_eq!(s.selected_key_type, "5key");
    let out = apply_tab_command(&mut s, &TabCommand::SelectTab { id: "nope".into() }, &Vec::new());
    assert!(matches!(out, TabOutcome::Selected { success: false, ref selected } if selected == "5key"));
    assert_eq!(s.selected_key_type, "5key");
}

#[test]
fn swapping_tabs_reorders_the_cleaned_up_order_and_reports_unknown_tabs() {
    let mut s = store();
    let out = apply_tab_command(
        &mut s,
        &TabCommand::SwapTabs { a: "4key".into(), b: "6key".into() },
        &Vec::new(),
    );
    assert!(matches!(out, TabOutcome::Swapped { found: true }));
    assert_eq!(s.tab_order, vec!["6key", "5key", "4key", "8key"]);
    assert_eq!(s.bar_count, 4);
    let out = apply_tab_command(
        &mut s,
        &TabCommand::SwapTabs { a: "4key".into(), b: "missing".into() },
        &Vec::new(),
    );
    assert!(matches!(out, TabOutcome::Swapped { found: false }));
    assert_eq!(s.tab_order, vec!["6key", "5key", "4key", "8key"]);
}

#[test]
fn deleting_or_resetting_an_unknown_tab_changes_nothing() {
    let mut s = store();
    let out = apply_tab_command(&mut s, &TabCommand::DeleteTab { id: "4key".into() }, &Vec::new());
    assert!(matches!(out, TabOutcome::Deleted { success: false, ref selected } if selected == "4key"));
    assert_eq!(s.keys.len(), 1);
    let out = apply_tab_command(&mut s, &TabCommand::ResetMode { mode: "custom-x".into() }, &Vec::new());
    assert!(matches!(out, TabOutcome::ModeReset { success: false, changed: false }));
    assert_eq!(s.keys.len(), 1);
}

#[test]
fn counter_resets_zero_all_one_tab_or_one_key() {
    let mut s = store();
    apply_tab_command(
        &mut s,
        &TabCommand::ResetSingleCounter { mode: "4key".into(), key: "A".into() },
        &Vec::new(),
    );
    assert_eq!((count(&s, "4key", "A"), count(&s, "4key", "B"), count(&s, "5key", "C")), (0, 2, 7));
    apply_tab_command(&mut s, &TabCommand::ResetModeCounters { mode: "4key".into() }, &Vec::new());
    assert_eq!((count(&s, "4key", "A"), count(&s, "4key", "B"), count(&s, "5key", "C")), (0, 0, 7));
    let out = apply_tab_command(&mut s, &TabCommand::ResetCounters, &Vec::new());
    assert!(matches!(out, TabOutcome::CountersReset));
    assert_eq!((count(&s, "4key", "A"), count(&s, "4key", "B"), count(&s, "5key", "C")), (0, 0, 0));
    assert_eq!(s.key_counters.len(), 2);
}

#[test]
fn css_toggle_reset_and_oversized_content() {
    let mut s = store();
    let assets = WebAssetMap::new();
    let out = apply_css_command(&mut s, &CssCommand::Toggle { enabled: true }, &assets);
    assert!(matches!(out, CssOutcome::Toggled { enabled: true }));
    assert!(s.use_custom_css);
    let out = apply_css_command(&mut s, &CssCommand::SetContent { content: "body {}".into() }, &assets);
    assert!(matches!(out, CssOutcome::ContentSet { success: true }));
    assert_eq!(s.custom_css.content, "body {}");
    let large = " ".repeat(MAX_CSS_BYTES + 1);
    let out = apply_css_command(&mut s, &CssCommand::SetContent { content: large }, &assets);
    assert!(matches!(out, CssOutcome::ContentSet { success: false }));
    assert_eq!(s.custom_css.content, "body {}");
    apply_css_command(&mut s, &CssCommand::Reset, &assets);
    assert!(!s.use_custom_css);
    assert_eq!(s.custom_css.content, "");
}

#[test]
fn tab_css_set_drops_unreadable_paths_and_toggle_creates_an_empty_sheet() {
    let mut s = store();
    let assets = WebAssetMap::new();
    let css = TabCss { path: Some("/assets/css/missing.css".into()), content: "a {}".into(), enabled: true };
    let out = apply_css_command(&mut s, &CssCommand::TabSet { tab_id: "4key".into(), css: Some(css) }, &assets);
    match out {
        CssOutcome::TabChanged { tab_id, css: Some(written) } => {
            assert_eq!(tab_id, "4key");
            assert!(written.path.is_none());
            assert_eq!(written.content, "a {}");
        },
        _ => panic!("the tab sheet is set"),
    }
    assert!(s.tab_css_overrides.get("4key").unwrap().path.is_none());
    apply_css_command(&mut s, &CssCommand::TabToggle { tab_id: "5key".into(), enabled: true }, &assets);
    let toggled = s.tab_css_overrides.get("5key").unwrap();
    assert!(toggled.enabled && toggled.path.is_none() && toggled.content.is_empty());
    apply_css_command(&mut s, &CssCommand::TabClear { tab_id: "4key".into() }, &assets);
    assert!(!s.tab_css_overrides.contains_key("4key"));
}

#[test]
fn resetting_all_tabs_restores_the_built_in_tabs_and_zeroes_counters() {
    let mut s = store();
    s.selected_key_type = "5key".into();
    s.use_custom_css = true;
    s.custom_css = CustomCss { path: Some("/assets/css/a.css".into()), content: "body {}".into() };
    let out = apply_tab_command(&mut s, &TabCommand::ResetAll, &Vec::new());
    assert!(matches!(out, TabOutcome::AllReset { .. }));
    assert!(!s.use_custom_css);
    assert!(s.custom_css.path.is_none() && s.custom_css.content.is_empty());
    assert_eq!(s.selected_key_type, "4key");
    assert_eq!(s.tab_order, vec!["4key", "5key", "6key", "8key"]);
    assert_eq!(s.keys.len(), 4);
    assert_eq!(s.stat_positions.len(), 4);
    assert!(s.stat_positions.get("8key").unwrap().is_empty());
    assert!(s.custom_tabs.is_empty());
    for mode in s.key_counters.keys() {
        let counts = s.key_counters.get(&mode).unwrap();
        for key in counts.keys() {
            assert_eq!(*counts.get(&key).unwrap(), 0);
        }
    }
}

#[test]
fn swapping_the_same_tabs_twice_gives_back_the_cleaned_up_order() {
    let mut s = store();
    s.tab_order = vec!["8key".into(), "unknown".into(), "5key".into()];
    let swap = TabCommand::SwapTabs { a: "8key".into(), b: "4key".into() };
    apply_tab_command(&mut s, &swap, &Vec::new());
    assert_eq!(s.tab_order, vec!["4key", "5key", "8key", "6key"]);
    apply_tab_command(&mut s, &swap, &Vec::new());
    assert_eq!(s.tab_order, vec!["8key", "5key", "4key", "6key"]);
}

#[test]
fn css_history_entries_are_told_apart_by_what_is_stored() {
    let mut assets = WebAssetMap::new();
    assets.insert("/assets/css/a.css".into(), BASE64_STANDARD.encode(b"body {}"));
    assets.insert("/assets/css/large.css".into(), BASE64_STANDARD.encode(vec![b' '; MAX_CSS_BYTES + 1]));
    assets.insert("/assets/css/bad.css".into(), BASE64_STANDARD.encode([0xffu8]));
    assert!(css_history_status("/assets/css/a.css", &assets) == CssHistoryStatus::Available);
    assert!(css_history_status("/assets/css/none.css", &assets) == CssHistoryStatus::Missing);
    assert!(css_history_status("/assets/css/large.css", &assets) == CssHistoryStatus::TooLarge);
    assert!(css_history_status("/assets/css/bad.css", &assets) == CssHistoryStatus::Invalid);
}

#[test]
fn loading_a_tab_sheet_stores_it_under_a_fresh_path_or_says_why_not() {
    let mut s = store();
    let assets = WebAssetMap::new();
    let file = Some(("Theme.CSS".to_string(), BASE64_STANDARD.encode(b"a { color: red }")));
    match apply_css_command(&mut s, &CssCommand::TabLoad { tab_id: "4key".into(), file }, &assets) {
        CssOutcome::TabLoaded { tab_id, loaded: Some((path, data, css)), error: None } => {
            assert_eq!(tab_id, "4key");
            assert!(path.starts_with("/assets/css/") && path.ends_with(".css"));
            assert_eq!(path.len(), "/assets/css/".len() + 36 + ".css".len());
            assert_eq!(data, BASE64_STANDARD.encode(b"a { color: red }"));
            assert_eq!(css.content, "a { color: red }");
            assert!(css.enabled);
            assert_eq!(s.tab_css_overrides.get("4key").unwrap().path.as_deref(), Some(path.as_str()));
        },
        _ => panic!("the sheet is loaded"),
    }
    let wrong = Some(("theme.txt".to_string(), BASE64_STANDARD.encode(b"a {}")));
    let out = apply_css_command(&mut s, &CssCommand::TabLoad { tab_id: "5key".into(), file: wrong }, &assets);
    assert!(matches!(out, CssOutcome::TabLoaded { loaded: None, error: Some(TabLoadError::InvalidExtension), .. }));
    let bad = Some(("bad.css".to_string(), BASE64_STANDARD.encode([0xffu8])));
    let out = apply_css_command(&mut s, &CssCommand::TabLoad { tab_id: "5key".into(), file: bad }, &assets);
    assert!(matches!(out, CssOutcome::TabLoaded { loaded: None, error: Some(TabLoadError::Css(_)), .. }));
    let out = apply_css_command(&mut s, &CssCommand::TabLoad { tab_id: "5key".into(), file: None }, &assets);
    assert!(matches!(out, CssOutcome::TabLoaded { loaded: None, error: None, .. }));
    assert!(!s.tab_css_overrides.contains_key("5key"));
}

#[test]
fn note_tab_and_overlay_settings_are_written_and_read_back() {
    let mut s = store();
    let settings = TabNoteSettings { speed: Some(300), track_height: None };
    let out = apply_setting_command(
        &mut s,
        &SettingCommand::NoteTabSet { tab_id: "4key".into(), settings: Some(settings) },
    );
    assert!(matches!(out, SettingOutcome::NoteTabChanged { settings: Some(ref t), .. } if t.speed == Some(300)));
    match read_command(&s, &ReadCommand::NoteTabGet { tab_id: "4key".into() }) {
        Ok(ReadAnswer::NoteTab { tab_id, settings: Some(t) }) => {
            assert_eq!(tab_id, "4key");
            assert_eq!(t.speed, Some(300));
            assert!(t.track_height.is_none());
        },
        _ => panic!("the settings are read back"),
    }
    apply_setting_command(&mut s, &SettingCommand::NoteTabClear { tab_id: "4key".into() });
    assert!(matches!(
        read_command(&s, &ReadCommand::NoteTabGet { tab_id: "4key".into() }),
        Ok(ReadAnswer::NoteTab { settings: None, .. })
    ));
    apply_setting_command(&mut s, &SettingCommand::OverlaySetLock { locked: true });
    apply_setting_command(&mut s, &SettingCommand::OverlaySetVisible { visible: false });
    assert!(matches!(
        read_command(&s, &ReadCommand::OverlayGet),
        Ok(ReadAnswer::Overlay { visible: false, locked: true })
    ));
}

#[test]
fn reads_answer_the_documents_values() {
    let mut s = store();
    assert!(matches!(read_command(&s, &ReadCommand::CssGetUse), Ok(ReadAnswer::Flag(false))));
    match read_command(&s, &ReadCommand::KeysGetCounters) {
        Ok(ReadAnswer::Counters(m)) => assert_eq!(*m.get("4key").unwrap().get("A").unwrap(), 3),
        _ => panic!("the counters are read"),
    }
    let mut assets = WebAssetMap::new();
    assets.insert("/assets/css/a.css".into(), BASE64_STANDARD.encode(b"body {}"));
    s.custom_css_history = vec![
        CustomCssHistoryEntry { path: "/assets/css/a.css".into(), loaded_at: 1, last_used_at: 2 },
        CustomCssHistoryEntry { path: "/assets/css/b.css".into(), loaded_at: 3, last_used_at: 4 },
    ];
    match read_command(&s, &ReadCommand::CssHistoryGet { assets }) {
        Ok(ReadAnswer::CssHistory(items)) => {
            assert_eq!(items.len(), 2);
            assert!(items[0].1 == CssHistoryStatus::Available);
            assert!(items[1].1 == CssHistoryStatus::Missing);
        },
        _ => panic!("the history is read"),
    }
    let mut bad = WebAssetMap::new();
    bad.insert("/assets/images/../x".into(), "AA==".into());
    assert!(read_command(&s, &ReadCommand::PresetSave { tab_only: false, assets: bad }).is_err());
    assert!(matches!(
        read_command(&s, &ReadCommand::PresetSave { tab_only: true, assets: WebAssetMap::new() }),
        Ok(ReadAnswer::Preset(_))
    ));
}

#[test]
fn resetting_all_tabs_removes_every_plugins_placed_instances_only() {
    let mut s = store();
    s.plugin_data.insert("plugin_data_demo/instances".into(), "[]".into());
    s.plugin_data.insert("plugin_data_demo/settings".into(), "{}".into());
    match apply_tab_command(&mut s, &TabCommand::ResetAll, &Vec::new()) {
        TabOutcome::AllReset { instance_plugins } => assert_eq!(instance_plugins, vec!["demo".to_string()]),
        _ => panic!("every tab is reset"),
    }
    assert!(!s.plugin_data.contains_key("plugin_data_demo/instances"));
    assert_eq!(s.plugin_data.get("plugin_data_demo/settings").map(|v| v.as_str()), Some("{}"));
}
