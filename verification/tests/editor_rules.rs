use base64::engine::general_purpose::STANDARD as BASE64_STANDARD;
use base64::Engine;
use dmnote_editor_engine::counter_animation::{
    apply_fallback_to_bound_counters, apply_preset_to_bound_counters,
    remove_counter_animation_preset, replace_counter_animation_preset,
};
use dmnote_editor_engine::css_history::{
    migrate_custom_css_history_at_load, migrate_custom_css_history_timestamps,
    normalize_custom_css_history, normalize_custom_css_history_with, CustomCssHistoryEntry,
    MAX_CUSTOM_CSS_HISTORY_ENTRIES,
};
use dmnote_editor_engine::file_url::{file_url_to_path, FileUrlPath};
use dmnote_editor_engine::model::{
    AppStoreData, CounterAnimationPreset, CustomCss, CustomJs, CustomTab, FontSettings,
    GraphPosition, KeyPosition, KeySlot, KnobPosition, LayerGroupDef, NoteSettings,
    ReactiveSpritePosition, SoundLibraryEntry, SoundSource, SpritePose, StatPosition, TabCss,
};
use dmnote_editor_engine::portable_assets::{parse_portable_asset_reference, AssetCategory};
use dmnote_editor_engine::preset_plan::EditorCommitError;
use dmnote_editor_engine::sounds::{list_sounds, load_original, remove_sound_entry_and_references};
use dmnote_editor_engine::strmap::{Dup, StrMap};
use dmnote_editor_engine::tab_data::{
    apply_reset_mode_data, delete_custom_tab_data, has_plugin_instances_in_mode,
    is_selectable_mode, mode_positions_equal_without_ids, mode_reset_semantics_equal,
    optional_collections_equal, plan_custom_tab_delete, reset_all_editor_data, reset_mode_data,
    reset_mode_kind, select_mode_if_available, zeroed_counters, ModeResetKind,
};
use dmnote_editor_engine::tab_meta::{
    default_keys, default_positions, legacy_tab_order, normalize_bar_count, normalize_tab_order,
};
use dmnote_editor_engine::web_assets::{WebAssetMap, WebPresetAssets};

fn empty_store() -> AppStoreData {
    AppStoreData {
        keys: StrMap::new(),
        key_positions: StrMap::new(),
        stat_positions: StrMap::new(),
        graph_positions: StrMap::new(),
        knob_positions: StrMap::new(),
        sprite_positions: StrMap::new(),
        layer_groups: StrMap::new(),
        key_counters: StrMap::new(),
        custom_tabs: Vec::new(),
        tab_order: Vec::new(),
        bar_count: 4,
        selected_key_type: "4key".into(),
        tab_note_overrides: StrMap::new(),
        tab_css_overrides: StrMap::new(),
        font_settings: FontSettings { custom_fonts: Vec::new() },
        background_color: "transparent".into(),
        note_settings: NoteSettings { speed: 180, track_height: 150, reverse: false },
        note_effect: false,
        laboratory_enabled: false,
        use_custom_css: false,
        custom_css: CustomCss { path: None, content: String::new() },
        use_custom_js: false,
        custom_js: CustomJs { path: None, content: String::new() },
        custom_css_history: Vec::new(),
        sound_library: StrMap::new(),
        counter_animation_presets: Vec::new(),
        plugin_data: StrMap::new(),
        overlay_locked: false,
        overlay_visible: true,
        editor_revision: 0,
    }
}

fn position(id: &str) -> KeyPosition {
    let mut p = KeyPosition::default();
    p.id = id.into();
    p
}

fn slots(labels: &[&str]) -> Vec<KeySlot> {
    labels.iter().map(|l| KeySlot { label: (*l).into() }).collect()
}

fn custom_tab(id: &str) -> CustomTab {
    CustomTab { id: id.into(), name: format!("Tab {id}") }
}

fn store_with_custom_tab() -> AppStoreData {
    let mut store = empty_store();
    store.keys.insert("4key".into(), slots(&["D", "F", "J", "K"]));
    store.keys.insert("custom-1".into(), slots(&["A", "B"]));
    store.key_positions.insert("custom-1".into(), vec![position("k1"), position("k2")]);
    store.layer_groups.insert("custom-1".into(), vec![LayerGroupDef { id: "g".into(), name: "G".into() }]);
    store.custom_tabs.push(custom_tab("custom-1"));
    store.tab_order = vec!["4key".into(), "custom-1".into(), "5key".into()];
    store
}

#[test]
fn zeroed_counters_cover_every_key_of_every_tab() {
    let mut keys = StrMap::new();
    keys.insert("4key".into(), slots(&["D", "F", "D"]));
    keys.insert("x".into(), Vec::new());
    let counters = zeroed_counters(&keys);
    assert_eq!(counters.len(), 2);
    let four = counters.get("4key").unwrap();
    assert_eq!(four.len(), 2);
    assert_eq!(four.get("D"), Some(&0));
    assert_eq!(four.get("F"), Some(&0));
    assert_eq!(counters.get("x").unwrap().len(), 0);
}

#[test]
fn reset_all_restores_defaults_and_drops_custom_tabs() {
    let mut store = store_with_custom_tab();
    store.selected_key_type = "custom-1".into();
    store.bar_count = 9;
    store.tab_css_overrides.insert("4key".into(), TabCss { path: None, content: "x".into(), enabled: true });
    let keys = default_keys();
    let positions = default_positions();
    let stats: StrMap<Vec<StatPosition>> = StrMap::new();
    reset_all_editor_data(&mut store, &keys, &positions, &stats);
    assert_eq!(store.keys.len(), 4);
    assert_eq!(store.keys.get("8key").unwrap().len(), 8);
    assert!(store.custom_tabs.is_empty());
    assert_eq!(store.tab_order, vec!["4key", "5key", "6key", "8key"]);
    assert_eq!(store.bar_count, 4);
    assert_eq!(store.selected_key_type, "4key");
    assert_eq!(store.tab_css_overrides.len(), 0);
    assert_eq!(store.layer_groups.len(), 0);
    assert_eq!(store.key_counters.get("5key").unwrap().get("Space"), Some(&0));
    let four = store.key_positions.get("4key").unwrap();
    assert_eq!(four.len(), 4);
    assert_eq!(four[0].id.len(), 36);
    assert_ne!(four[0].id, four[1].id);
}

#[test]
fn reset_kind_and_selection_follow_builtin_and_custom_tabs() {
    let store = store_with_custom_tab();
    assert_eq!(reset_mode_kind(&store, "6key"), Some(ModeResetKind::Default));
    assert_eq!(reset_mode_kind(&store, "custom-1"), Some(ModeResetKind::Custom));
    assert_eq!(reset_mode_kind(&store, "missing"), None);
    assert!(is_selectable_mode(&store, "8key"));
    assert!(is_selectable_mode(&store, "custom-1"));
    let mut without_keys = store.dup();
    without_keys.keys.remove("custom-1");
    assert!(!is_selectable_mode(&without_keys, "custom-1"));

    let mut store = store;
    assert_eq!(select_mode_if_available(&mut store, "missing"), (false, "4key".to_string()));
    assert_eq!(store.selected_key_type, "4key");
    assert_eq!(select_mode_if_available(&mut store, "custom-1"), (true, "custom-1".to_string()));
    assert_eq!(store.selected_key_type, "custom-1");
}

#[test]
fn reset_of_a_custom_tab_empties_it_and_zeroes_its_counters() {
    let mut store = store_with_custom_tab();
    store.graph_positions.insert("custom-1".into(), vec![GraphPosition { position: position("g1") }]);
    apply_reset_mode_data(&mut store, "custom-1", ModeResetKind::Custom);
    assert_eq!(store.keys.get("custom-1").unwrap().len(), 0);
    assert_eq!(store.key_positions.get("custom-1").unwrap().len(), 0);
    assert_eq!(store.graph_positions.get("custom-1").unwrap().len(), 0);
    assert!(store.layer_groups.get("custom-1").is_none());
    assert_eq!(store.key_counters.get("custom-1").unwrap().len(), 0);
}

#[test]
fn reset_of_a_builtin_tab_writes_its_default_layout() {
    let mut store = store_with_custom_tab();
    store.keys.insert("6key".into(), slots(&["Q"]));
    apply_reset_mode_data(&mut store, "6key", ModeResetKind::Default);
    let keys = store.keys.get("6key").unwrap();
    assert_eq!(keys.iter().map(|k| k.label.as_str()).collect::<Vec<_>>(), vec!["S", "D", "F", "J", "K", "L"]);
    assert_eq!(store.key_positions.get("6key").unwrap().len(), 6);
    assert_eq!(store.stat_positions.get("6key").unwrap().len(), 0);
    assert_eq!(store.key_counters.get("6key").unwrap().len(), 6);
}

#[test]
fn resetting_an_already_reset_tab_changes_nothing_unless_plugins_stand_on_it() {
    let mut store = store_with_custom_tab();
    assert!(reset_mode_data(&mut store, "custom-1", ModeResetKind::Custom, &Vec::new()));
    let snapshot = store.dup();
    assert!(!reset_mode_data(&mut store, "custom-1", ModeResetKind::Custom, &Vec::new()));
    assert!(mode_reset_semantics_equal(&store, &snapshot, "custom-1"));
    assert!(has_plugin_instances_in_mode(&vec!["custom-1".to_string()], "custom-1"));
    assert!(reset_mode_data(&mut store, "custom-1", ModeResetKind::Custom, &vec!["custom-1".to_string()]));
}

#[test]
fn positions_compare_without_their_ids() {
    let a = store_with_custom_tab();
    let mut b = a.dup();
    b.key_positions.insert("custom-1".into(), vec![position("other-1"), position("other-2")]);
    let mut sprite = ReactiveSpritePosition { id: "s1".into(), base_image: None, reference_natural_size: None, poses: Vec::new() };
    sprite.poses.push(SpritePose { pose_id: "p1".into(), image_override: None, image_override_metrics: None });
    let mut a = a;
    a.sprite_positions.insert("custom-1".into(), vec![sprite.dup()]);
    sprite.id = "s2".into();
    sprite.poses[0].pose_id = "p2".into();
    b.sprite_positions.insert("custom-1".into(), vec![sprite]);
    assert!(mode_positions_equal_without_ids(&a, &b, "custom-1"));
    let mut c = b.dup();
    let mut moved = position("k1");
    moved.sound_path = Some("/assets/sounds/a.wav".into());
    c.key_positions.insert("custom-1".into(), vec![moved, position("k2")]);
    assert!(!mode_positions_equal_without_ids(&a, &c, "custom-1"));
    let mut d = a.dup();
    d.key_positions.insert("custom-1".into(), Vec::new());
    let mut e = a.dup();
    e.key_positions.remove("custom-1");
    assert!(!mode_positions_equal_without_ids(&d, &e, "custom-1"));
    let mut f = a.dup();
    f.knob_positions.insert("custom-1".into(), Vec::new());
    assert!(mode_positions_equal_without_ids(&a, &f, "custom-1"));
    let knob = KnobPosition { axis_id: "x".into(), reverse: false, sensitivity_bits: 0, position: position("n") };
    f.knob_positions.insert("custom-1".into(), vec![knob]);
    assert!(!mode_positions_equal_without_ids(&a, &f, "custom-1"));
}

#[test]
fn missing_and_empty_collections_are_equal() {
    let empty: [u32; 0] = [];
    assert!(optional_collections_equal::<u32>(None, Some(&empty)));
    assert!(optional_collections_equal::<u32>(None, None));
    assert!(!optional_collections_equal::<u32>(None, Some(&[1])));
    assert!(optional_collections_equal::<u32>(Some(&[1, 2]), Some(&[1, 2])));
}

#[test]
fn deleting_the_selected_custom_tab_selects_its_neighbour_and_clears_its_data() {
    let mut store = store_with_custom_tab();
    store.selected_key_type = "custom-1".into();
    store.bar_count = 6;
    store.key_counters.insert("custom-1".into(), StrMap::new());
    let plan = plan_custom_tab_delete(&store, "custom-1").unwrap();
    assert_eq!(plan.next_selected, "4key");
    assert_eq!(plan.tab_order, vec!["4key", "5key", "6key", "8key"]);
    assert!(plan.custom_tabs.is_empty());
    delete_custom_tab_data(&mut store, "custom-1", &plan);
    assert_eq!(store.selected_key_type, "4key");
    assert_eq!(store.bar_count, 4);
    assert!(store.keys.get("custom-1").is_none());
    assert!(store.key_positions.get("custom-1").is_none());
    assert!(store.layer_groups.get("custom-1").is_none());
    assert!(store.key_counters.get("custom-1").is_none());
}

#[test]
fn deleting_a_first_selected_tab_selects_the_next_one_and_builtins_cannot_be_deleted() {
    let mut store = store_with_custom_tab();
    store.tab_order = vec!["custom-1".into(), "8key".into()];
    store.selected_key_type = "custom-1".into();
    let plan = plan_custom_tab_delete(&store, "custom-1").unwrap();
    assert_eq!(plan.next_selected, "8key");
    assert_eq!(plan.tab_order, vec!["8key", "4key", "5key", "6key"]);
    assert!(plan_custom_tab_delete(&store, "4key").is_none());
    assert!(plan_custom_tab_delete(&store, "missing").is_none());
}

fn preset(id: &str, duration_ms: u32) -> CounterAnimationPreset {
    CounterAnimationPreset { id: id.into(), duration_ms, scale_bits: 1, bezier_bits: (1, 2, 3, 4) }
}

#[test]
fn presets_apply_to_bound_counters_of_keys_stats_and_graphs() {
    let mut store = empty_store();
    let mut bound = position("k1");
    bound.counter.animation.preset_id = Some("  pulse ".into());
    let mut other = position("k2");
    other.counter.animation.preset_id = Some("fade".into());
    store.key_positions.insert("4key".into(), vec![bound.dup(), other]);
    store.stat_positions.insert("4key".into(), vec![StatPosition { position: bound.dup() }]);
    store.graph_positions.insert("4key".into(), vec![GraphPosition { position: bound.dup() }]);
    store.knob_positions.insert(
        "4key".into(),
        vec![KnobPosition { axis_id: "x".into(), reverse: false, sensitivity_bits: 0, position: bound.dup() }],
    );
    let affected = apply_preset_to_bound_counters(&mut store, "pulse", &preset("pulse-2", 250));
    assert_eq!(affected, 3);
    let keys = store.key_positions.get("4key").unwrap();
    assert_eq!(keys[0].counter.animation.preset_id.as_deref(), Some("pulse-2"));
    assert_eq!(keys[0].counter.animation.duration_ms, 250);
    assert_eq!(keys[0].counter.animation.bezier_bits, (1, 2, 3, 4));
    assert_eq!(keys[1].counter.animation.preset_id.as_deref(), Some("fade"));
    let knob = &store.knob_positions.get("4key").unwrap()[0];
    assert_eq!(knob.position.counter.animation.preset_id.as_deref(), Some("  pulse "));
    assert_eq!(apply_fallback_to_bound_counters(&mut store, "pulse-2", &preset("default", 100)), 3);
}

#[test]
fn replacing_and_removing_presets_require_a_known_id() {
    let mut store = empty_store();
    store.counter_animation_presets = vec![preset("a", 1), preset("b", 2), preset("a", 3)];
    assert!(replace_counter_animation_preset(&mut store, "a", &preset("a", 9)).is_ok());
    assert_eq!(store.counter_animation_presets[0].duration_ms, 9);
    assert_eq!(store.counter_animation_presets[2].duration_ms, 3);
    let err = replace_counter_animation_preset(&mut store, "zzz", &preset("zzz", 1)).unwrap_err();
    assert_eq!(err, EditorCommitError::CounterAnimationPresetNotFound);
    assert_eq!(err.code(), "COUNTER_ANIMATION_PRESET_NOT_FOUND");
    assert!(remove_counter_animation_preset(&mut store, "a").is_ok());
    assert_eq!(store.counter_animation_presets.len(), 1);
    assert_eq!(store.counter_animation_presets[0].id, "b");
    assert!(remove_counter_animation_preset(&mut store, "a").is_err());
    assert_eq!(store.counter_animation_presets.len(), 1);
}

fn entry(original: Option<&str>, source: SoundSource, hidden: bool) -> SoundLibraryEntry {
    SoundLibraryEntry {
        hidden,
        source,
        original_path: original.map(|s| s.to_string()),
        trim_start_bits: None,
        trim_end_bits: None,
        display_name: None,
    }
}

#[test]
fn removing_a_sound_clears_every_reference() {
    let mut store = empty_store();
    let mut key = position("k1");
    key.sound_path = Some("/assets/sounds/a.wav".into());
    key.sound_enabled = Some(true);
    store.key_positions.insert("4key".into(), vec![key.dup(), position("k2")]);
    store.knob_positions.insert(
        "4key".into(),
        vec![KnobPosition { axis_id: "x".into(), reverse: false, sensitivity_bits: 0, position: key.dup() }],
    );
    store.sound_library.insert("/assets/sounds/a.wav".into(), entry(None, SoundSource::Local, false));
    assert!(remove_sound_entry_and_references(&mut store, "/assets/sounds/a.wav"));
    assert!(store.sound_library.get("/assets/sounds/a.wav").is_none());
    let keys = store.key_positions.get("4key").unwrap();
    assert_eq!(keys[0].sound_path, None);
    assert_eq!(keys[0].sound_enabled, Some(false));
    assert_eq!(keys[1].sound_enabled, None);
    assert_eq!(store.knob_positions.get("4key").unwrap()[0].position.sound_path, None);
    assert!(!remove_sound_entry_and_references(&mut store, "/assets/sounds/a.wav"));
}

#[test]
fn originals_load_with_their_extension() {
    let mut store = empty_store();
    store.sound_library.insert("/assets/sounds/a.wav".into(), entry(Some("originals/src.MP3"), SoundSource::Local, false));
    store.sound_library.insert("/assets/sounds/b.wav".into(), entry(None, SoundSource::Local, false));
    let mut assets = WebAssetMap::new();
    assets.insert("/assets/sounds/originals/src.MP3".into(), encode_base64(b"original"));
    let (audio, extension) = load_original(&store, "/assets/sounds/a.wav", &assets).unwrap();
    assert_eq!(audio, encode_base64(b"original"));
    assert_eq!(extension, "mp3");
    assert_eq!(load_original(&store, "/assets/images/a.png", &assets).unwrap_err(), "invalid-web-sound-path");
    assert_eq!(load_original(&store, "/assets/sounds/b.wav", &assets).unwrap_err(), "원본 파일 정보가 없습니다.");
    assert_eq!(
        load_original(&store, "/assets/sounds/a.wav", &WebAssetMap::new()).unwrap_err(),
        "원본 파일이 존재하지 않습니다."
    );
    let mut broken = WebAssetMap::new();
    broken.insert("/assets/sounds/originals/src.MP3".into(), "!!".into());
    assert!(load_original(&store, "/assets/sounds/a.wav", &broken).unwrap_err().starts_with("원본 사운드 파일 읽기 실패: "));
}

#[test]
fn sound_list_orders_builtin_then_recent_then_by_name() {
    let mut store = empty_store();
    store.sound_library.insert("/assets/sounds/builtin.wav".into(), entry(None, SoundSource::Builtin, false));
    store.sound_library.insert("/assets/sounds/hidden.ogg".into(), entry(None, SoundSource::Local, true));
    let mut assets = WebAssetMap::new();
    for name in ["zeta.wav", "alpha.mp3", "hidden.ogg", "builtin.wav", "recent.flac"] {
        assets.insert(format!("/assets/sounds/{name}"), encode_base64(b"abc"));
    }
    assets.insert("/assets/sounds/originals/source.mp3".into(), "AA==".into());
    assets.insert("/assets/sounds/notes.txt".into(), "AA==".into());
    assets.insert("/assets/images/x.png".into(), "AA==".into());
    let mut modified = StrMap::new();
    modified.insert("/assets/sounds/recent.flac".into(), 500u64);
    let items = match list_sounds(&store, &assets, &modified) {
        Ok(items) => items,
        Err(e) => panic!("listing failed: {e}"),
    };
    let names: Vec<&str> = items.iter().map(|i| i.file_name.as_str()).collect();
    assert_eq!(names, vec!["builtin.wav", "recent.flac", "alpha.mp3", "hidden.ogg", "zeta.wav"]);
    assert_eq!(items[1].modified_at_ms, Some(500));
    assert_eq!(items[0].size_bytes, 3);
    assert!(items[3].hidden && !items[3].enabled);
    assert!(items[2].enabled);
    let mut broken = WebAssetMap::new();
    broken.insert("/assets/sounds/bad.wav".into(), "!!".into());
    match list_sounds(&store, &broken, &modified) {
        Ok(_) => panic!("undecodable sound listed"),
        Err(e) => assert!(e.starts_with("invalid-web-asset-data: ")),
    }
}

#[test]
fn portable_references_name_category_and_file_inside_the_data_folder() {
    assert_eq!(AssetCategory::Sounds.directory_name(), "sounds");
    assert_eq!(AssetCategory::Fonts.directory_name(), "fonts");
    assert_eq!(AssetCategory::Images.directory_name(), "images");
    assert_eq!(
        parse_portable_asset_reference("  /home/u/.local/share/com.dmnote.desktop/images/a.png "),
        Some((AssetCategory::Images, "a.png".to_string()))
    );
    assert_eq!(
        parse_portable_asset_reference("C:\\Users\\u\\AppData\\Roaming\\COM.DMNOTE.DESKTOP\\sounds\\k.wav"),
        Some((AssetCategory::Sounds, "k.wav".to_string()))
    );
    assert_eq!(
        parse_portable_asset_reference("\\\\?\\D:\\data\\com.dmnote.desktop\\fonts\\f.ttf"),
        Some((AssetCategory::Fonts, "f.ttf".to_string()))
    );
    assert_eq!(parse_portable_asset_reference("//server/com.dmnote.desktop/com.dmnote.desktop/images/x.png"), Some((AssetCategory::Images, "x.png".to_string())));
    assert_eq!(parse_portable_asset_reference(""), None);
    assert_eq!(parse_portable_asset_reference("https://example.com/com.dmnote.desktop/images/a.png"), None);
    assert_eq!(parse_portable_asset_reference("relative/com.dmnote.desktop/images/a.png"), None);
    assert_eq!(parse_portable_asset_reference("/x/com.dmnote.desktop/../images/a.png"), None);
    assert_eq!(parse_portable_asset_reference("/x/com.dmnote.desktop/videos/a.mp4"), None);
    assert_eq!(parse_portable_asset_reference("/x/com.dmnote.desktop/images/sub/a.png"), None);
    assert_eq!(parse_portable_asset_reference("/x/images/a.png"), None);
}

fn css(path: &str, loaded_at: i64, last_used_at: i64) -> CustomCssHistoryEntry {
    CustomCssHistoryEntry { path: path.into(), loaded_at, last_used_at }
}

fn paths(history: &[CustomCssHistoryEntry]) -> Vec<&str> {
    history.iter().map(|e| e.path.as_str()).collect()
}

#[test]
fn css_history_keeps_absolute_newest_unique_and_at_most_ten() {
    let mut history = vec![css("rel.css", 5, 5), css("/a.css", 1, 1), css("/b.css", 3, 3), css("/a.css", 2, 9)];
    let flags = vec![false, true, true, true];
    assert!(normalize_custom_css_history_with(&mut history, &flags));
    assert_eq!(paths(&history), vec!["/b.css", "/a.css"]);
    assert_eq!(history[1].loaded_at, 2);
    let mut many: Vec<CustomCssHistoryEntry> = (0..12).map(|i| css(&format!("/{i}.css"), i, 100 - i)).collect();
    let all = vec![true; 12];
    assert!(normalize_custom_css_history_with(&mut many, &all));
    assert_eq!(many.len(), MAX_CUSTOM_CSS_HISTORY_ENTRIES);
    assert_eq!(many[0].path, "/9.css");
    assert!(!many.iter().any(|e| e.path == "/11.css" || e.path == "/10.css"));
    let mut stable = vec![css("/x.css", 2, 2), css("/y.css", 1, 1)];
    assert!(!normalize_custom_css_history_with(&mut stable, &vec![true, true]));
    let mut unix = vec![css("/x.css", 1, 1), css("y.css", 2, 2)];
    assert!(normalize_custom_css_history(&mut unix));
    assert_eq!(paths(&unix), vec!["/x.css"]);
}

#[test]
fn css_history_migration_fills_load_times_and_adds_the_active_sheet() {
    let mut history = vec![css("/a.css", 0, 7), css("/b.css", 3, 4)];
    assert!(migrate_custom_css_history_timestamps(&mut history));
    assert_eq!(history[0].loaded_at, 7);
    assert!(!migrate_custom_css_history_timestamps(&mut history));
    let mut history = vec![css("/a.css", 5, 5)];
    let changed = migrate_custom_css_history_at_load(&mut history, Some("/a.css"), 100);
    assert_eq!(history.len(), 1);
    assert!(!changed);
    assert!(migrate_custom_css_history_at_load(&mut history, Some("/new.css"), 100));
    assert_eq!(paths(&history), vec!["/new.css", "/a.css"]);
    assert!(!migrate_custom_css_history_at_load(&mut history, Some("relative.css"), 200));
}

#[test]
fn custom_tab_delete_plan_keeps_every_other_tab_once() {
    let mut store = store_with_custom_tab();
    store.custom_tabs.push(custom_tab("custom-2"));
    store.keys.insert("custom-2".into(), slots(&["X"]));
    store.tab_order = vec!["custom-2".into(), "custom-2".into(), "bogus".into(), "custom-1".into()];
    let plan = plan_custom_tab_delete(&store, "custom-1").unwrap();
    assert_eq!(plan.tab_order, vec!["custom-2", "4key", "5key", "6key", "8key"]);
    assert_eq!(plan.custom_tabs.len(), 1);
    assert_eq!(plan.custom_tabs[0].id, "custom-2");
    assert_eq!(plan.next_selected, "4key");
}

#[test]
fn cleaning_up_a_tab_order_twice_changes_nothing() {
    let customs = vec![custom_tab("c1"), custom_tab("c2")];
    let order: Vec<String> = vec!["c2".into(), "bogus".into(), "5key".into(), "c2".into()];
    let once = normalize_tab_order(&order, &customs);
    assert_eq!(once, vec!["c2", "5key", "4key", "6key", "8key", "c1"]);
    assert_eq!(normalize_tab_order(&once, &customs), once);
    assert_eq!(legacy_tab_order(&customs), vec!["4key", "5key", "6key", "8key", "c1", "c2"]);
    assert_eq!(normalize_bar_count(0, &once), 1);
    assert_eq!(normalize_bar_count(200, &once), 6);
    assert_eq!(normalize_bar_count(normalize_bar_count(200, &once), &once), 6);
}

#[test]
fn a_read_gives_back_what_a_write_wrote() {
    let mut stored = WebAssetMap::new();
    stored.insert("/assets/images/a.png".into(), encode_base64(b"old"));
    let mut host = match WebPresetAssets::new(&stored) {
        Ok(host) => host,
        Err(_) => panic!("stored assets are well formed"),
    };
    assert!(host.write("/assets/images/a.png", b"new".to_vec()).is_ok());
    assert!(host.write("/assets/sounds/b.wav", b"wav".to_vec()).is_ok());
    assert!(host.write("/elsewhere/c.png", b"x".to_vec()).is_err());
    assert_eq!(host.bytes("/assets/images/a.png").ok(), Some(b"new".to_vec()));
    assert_eq!(host.bytes("/assets/sounds/b.wav").ok(), Some(b"wav".to_vec()));
    assert!(host.bytes("/assets/sounds/missing.wav").is_err());
    let writes = host.into_writes();
    assert_eq!(writes.len(), 2);
    assert_eq!(writes.get("/assets/sounds/b.wav"), Some(&encode_base64(b"wav")));
}

fn encode_base64(bytes: &[u8]) -> String {
    BASE64_STANDARD.encode(bytes)
}

#[test]
fn a_reference_built_from_a_category_reads_back_as_that_category() {
    for category in [AssetCategory::Sounds, AssetCategory::Fonts, AssetCategory::Images] {
        let reference = format!("/d/com.dmnote.desktop/{}/f.bin", category.directory_name());
        let (parsed, name) = parse_portable_asset_reference(&reference).unwrap();
        assert!(parsed == category);
        assert_eq!(name, "f.bin");
    }
    assert_eq!(AssetCategory::Sounds.directory_name(), "sounds");
    assert_eq!(AssetCategory::Fonts.directory_name(), "fonts");
    assert_eq!(AssetCategory::Images.directory_name(), "images");
}

fn url_path(s: &str) -> Option<String> {
    match file_url_to_path(s) {
        FileUrlPath::Path(p) => Some(p),
        _ => None,
    }
}

#[test]
fn file_urls_name_local_paths() {
    assert_eq!(url_path("file:///C:/Users/a%20b/x.png").as_deref(), Some("C:/Users/a b/x.png"));
    assert_eq!(url_path("file://localhost/home/u/x.png").as_deref(), Some("/home/u/x.png"));
    assert_eq!(url_path("FILE:/tmp/x%C3%A9.png").as_deref(), Some("/tmp/xé.png"));
    assert_eq!(url_path("file://server/share/x.png").as_deref(), Some("//server/share/x.png"));
    assert!(matches!(file_url_to_path("file:///a%zz"), FileUrlPath::Invalid));
    assert!(matches!(file_url_to_path("file:///a?b"), FileUrlPath::Invalid));
    assert!(matches!(file_url_to_path("file:relative"), FileUrlPath::Invalid));
    assert!(matches!(file_url_to_path("file:///%FF"), FileUrlPath::Invalid));
    assert!(matches!(file_url_to_path("/home/u/x.png"), FileUrlPath::NotFileUrl));
    assert!(matches!(file_url_to_path("https://x/y.png"), FileUrlPath::NotFileUrl));
}

#[test]
fn file_urls_into_the_data_folder_are_portable() {
    let (category, name) = parse_portable_asset_reference(
        "file:///home/u/.local/share/com.dmnote.desktop/images/a%20b.png",
    )
    .unwrap();
    assert!(category == AssetCategory::Images);
    assert_eq!(name, "a b.png");
    assert!(parse_portable_asset_reference("file:///home/u/com.dmnote.desktop/images/%zz").is_none());
}

#[test]
fn white_space_is_what_std_reports_for_every_character() {
    for u in 0u32..=0x10FFFF {
        if let Some(c) = char::from_u32(u) {
            assert_eq!(dmnote_editor_engine::text::trim_chars(&[c]).is_empty(), c.is_whitespace(), "U+{u:04X}");
        }
    }
}
