use dmnote_editor_engine::model::{
    AppStoreData, CustomCss, CustomJs, FontSettings, KeyPosition, KeySlot, NoteSettings,
    PresetFile, StatPosition, TabCss, TabNoteSettings,
};
use dmnote_editor_engine::preset_export::{build_full_preset, build_tab_preset};
use dmnote_editor_engine::preset_plan::{prepare_full_preset, prepare_tab_preset};
use dmnote_editor_engine::strmap::{Dup, StrMap};
use dmnote_editor_engine::web_assets::{WebAssetMap, WebPresetAssets};

/// A host with no stored files.
fn no_assets() -> WebPresetAssets {
    match WebPresetAssets::new(&WebAssetMap::new()) {
        Ok(host) => host,
        Err(_) => panic!("empty assets are well formed"),
    }
}

/// A key element marked by its font family, which stands for its place in the layout.
fn marked_position(id: &str, mark: &str) -> KeyPosition {
    let mut position = KeyPosition::default();
    position.id = id.into();
    position.font_family = Some(mark.into());
    position
}

fn store() -> AppStoreData {
    let mut keys = StrMap::new();
    keys.insert("4key".into(), vec![KeySlot { label: "A".into() }]);
    let mut key_positions = StrMap::new();
    key_positions.insert("4key".into(), vec![marked_position("key-1", "123")]);
    AppStoreData {
        keys,
        key_positions,
        stat_positions: StrMap::new(),
        graph_positions: StrMap::new(),
        knob_positions: StrMap::new(),
        sprite_positions: StrMap::new(),
        layer_groups: StrMap::new(),
        key_counters: StrMap::new(),
        custom_tabs: Vec::new(),
        tab_order: Vec::new(),
        bar_count: 4,
        selected_key_type: "4key".into(),
        tab_note_overrides: StrMap::new(),
        tab_css_overrides: StrMap::new(),
        font_settings: FontSettings { custom_fonts: Vec::new() },
        background_color: "transparent".into(),
        note_settings: NoteSettings { speed: 180, track_height: 150, reverse: false },
        note_effect: false,
        laboratory_enabled: false,
        use_custom_css: false,
        custom_css: CustomCss { path: None, content: String::new() },
        use_custom_js: false,
        custom_js: CustomJs { path: None, content: String::new() },
        custom_css_history: Vec::new(),
        sound_library: StrMap::new(),
        counter_animation_presets: Vec::new(),
        plugin_data: StrMap::new(),
        overlay_locked: false,
        overlay_visible: true,
        editor_revision: 0,
    }
}

fn tab_preset() -> PresetFile {
    let mut keys = StrMap::new();
    keys.insert("4key".into(), vec![KeySlot { label: "B".into() }]);
    PresetFile { keys: Some(keys), ..PresetFile::default() }
}

fn labels(keys: &StrMap<Vec<KeySlot>>, mode: &str) -> Vec<String> {
    keys.get(mode).unwrap().iter().map(|slot| slot.label.clone()).collect()
}

#[test]
fn export_full_and_tab_preserve_distinct_optional_fields_and_exclude_private_storage() {
    let mut current = store();
    current.plugin_data.insert("plugin_data_example/instances".into(), "[{\"id\":\"private\"}]".into());
    let full = build_full_preset(current.dup(), &no_assets()).unwrap();
    let tab = build_tab_preset(current, &no_assets()).unwrap();
    assert!(full.background_color.is_some());
    assert!(tab.background_color.is_none());
    assert!(full.tab_note_overrides.is_some());
    assert!(tab.tab_note_overrides.is_some());
    assert!(full.tab_css_overrides.is_some());
    assert!(tab.tab_css_overrides.is_some());
    assert!(tab.tab_order.is_none());
    assert!(tab.bar_count.is_none());
    assert!(tab.custom_tabs.is_none());
    assert!(full.embedded_local_images.is_none());
}

#[test]
fn full_export_decode_apply_roundtrip_rekeys_elements_and_keeps_layout() {
    let current = store();
    let original_id = current.key_positions.get("4key").unwrap()[0].id.clone();
    let preset = build_full_preset(current.dup(), &no_assets()).unwrap();
    let mut host = no_assets();
    let plan = prepare_full_preset(preset, &current, &mut host).unwrap();
    let mut target = store();
    let mut moved = target.key_positions.get("4key").unwrap()[0].dup();
    moved.font_family = Some("99".into());
    target.key_positions.insert("4key".into(), vec![moved]);
    assert!(plan.apply(&mut target).is_ok());
    assert_eq!(target.keys.keys(), current.keys.keys());
    assert_eq!(labels(&target.keys, "4key"), labels(&current.keys, "4key"));
    let key = &target.key_positions.get("4key").unwrap()[0];
    assert_eq!(key.font_family.as_deref(), Some("123"));
    assert_ne!(key.id, original_id);
    assert_eq!(target.selected_key_type, "4key");
}

#[test]
fn full_import_preserves_absent_global_settings_and_css_override_field() {
    let mut current = store();
    current.background_color = "#123456".into();
    current.use_custom_js = true;
    current.tab_css_overrides.insert(
        "4key".into(),
        TabCss { path: None, content: ".key { opacity: .5 }".into(), enabled: true },
    );
    current
        .tab_note_overrides
        .insert("4key".into(), TabNoteSettings { speed: None, track_height: None });
    let mut host = no_assets();
    let plan = prepare_full_preset(tab_preset(), &current, &mut host).unwrap();
    assert_eq!(plan.publication.custom_js.content, current.custom_js.content);
    assert_eq!(plan.publication.custom_js.path, current.custom_js.path);
    assert_eq!(plan.publication.custom_css.content, current.custom_css.content);
    assert_eq!(plan.publication.custom_css.path, current.custom_css.path);
    assert!(plan.publication.use_custom_js);
    let mut target = current;
    assert!(plan.apply(&mut target).is_ok());
    assert_eq!(target.background_color, "#123456");
    assert!(target.use_custom_js);
    assert_eq!(target.tab_css_overrides.keys(), vec!["4key".to_string()]);
    let css = target.tab_css_overrides.get("4key").unwrap();
    assert!(css.path.is_none());
    assert_eq!(css.content, ".key { opacity: .5 }");
    assert!(css.enabled);
    assert_eq!(target.tab_note_overrides.len(), 0);
}

#[test]
fn tab_import_distinguishes_absent_collection_from_explicit_empty_collection() {
    let mut current = store();
    let mut stat = StatPosition { position: KeyPosition::default() };
    stat.position.id = "stat-1".into();
    current.stat_positions.insert("4key".into(), vec![stat]);
    let original_key_id = current.key_positions.get("4key").unwrap()[0].id.clone();
    let mut host = no_assets();
    let fonts = current.font_settings.dup();
    let plan = prepare_tab_preset(tab_preset(), "4key".into(), &fonts, &mut host).unwrap();
    plan.apply(&mut current);
    let stats = current.stat_positions.get("4key").unwrap();
    assert_eq!(stats.len(), 1);
    assert_eq!(stats[0].position.id, "stat-1");
    let key = &current.key_positions.get("4key").unwrap()[0];
    assert_eq!(key.id, original_key_id);
    assert_eq!(key.font_family.as_deref(), Some("123"));
    let mut explicit_empty = tab_preset();
    explicit_empty.stat_positions = Some(StrMap::new());
    let plan = prepare_tab_preset(explicit_empty, "4key".into(), &fonts, &mut host).unwrap();
    plan.apply(&mut current);
    assert!(current.stat_positions.get("4key").unwrap().is_empty());
}

#[test]
fn tab_import_rejects_ambiguous_source_with_existing_error_code() {
    let mut keys = StrMap::new();
    keys.insert("left".into(), Vec::new());
    keys.insert("right".into(), Vec::new());
    let preset = PresetFile { keys: Some(keys), ..PresetFile::default() };
    let mut host = no_assets();
    let error = prepare_tab_preset(
        preset,
        "4key".into(),
        &FontSettings { custom_fonts: Vec::new() },
        &mut host,
    )
    .err()
    .unwrap();
    assert_eq!(error, "tab-preset-ambiguous-source");
    assert_eq!(host.into_writes().len(), 0);
}

#[test]
fn tab_import_clears_explicit_empty_overrides_only_for_target_and_preserves_global_settings() {
    let mut current = store();
    current.background_color = "#123456".into();
    current.use_custom_js = true;
    for mode in ["4key", "5key"] {
        current
            .tab_css_overrides
            .insert(mode.into(), TabCss { path: None, content: String::new(), enabled: false });
        current
            .tab_note_overrides
            .insert(mode.into(), TabNoteSettings { speed: None, track_height: None });
    }
    let mut preset = tab_preset();
    preset.tab_css_overrides = Some(StrMap::new());
    preset.tab_note_overrides = Some(StrMap::new());
    preset.background_color = Some("#FFFFFF".into());
    preset.use_custom_js = Some(false);
    let mut host = no_assets();
    let fonts = current.font_settings.dup();
    let plan = prepare_tab_preset(preset, "4key".into(), &fonts, &mut host).unwrap();
    plan.apply(&mut current);
    assert!(!current.tab_css_overrides.contains_key("4key"));
    assert!(!current.tab_note_overrides.contains_key("4key"));
    assert!(current.tab_css_overrides.contains_key("5key"));
    assert!(current.tab_note_overrides.contains_key("5key"));
    assert_eq!(current.background_color, "#123456");
    assert!(current.use_custom_js);
}
