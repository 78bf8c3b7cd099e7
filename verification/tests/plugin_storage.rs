use dmnote_editor_engine::model::{AppStoreData, CustomCss, CustomJs, FontSettings, NoteSettings};
use dmnote_editor_engine::plugin_storage::{
    apply_plugin_command, instances_key_plugin, plugin_storage_get, plugin_storage_has_data, plugin_storage_keys,
    PluginCommand, PluginOutcome,
};
use dmnote_editor_engine::strmap::StrMap;

fn store() -> AppStoreData {
    AppStoreData {
        keys: StrMap::new(),
        key_positions: StrMap::new(),
        stat_positions: StrMap::new(),
        graph_positions: StrMap::new(),
        knob_positions: StrMap::new(),
        sprite_positions: StrMap::new(),
        layer_groups: StrMap::new(),
        key_counters: StrMap::new(),
        custom_tabs: Vec::new(),
        tab_order: Vec::new(),
        bar_count: 4,
        selected_key_type: "4key".into(),
        tab_note_overrides: StrMap::new(),
        tab_css_overrides: StrMap::new(),
        font_settings: FontSettings { custom_fonts: Vec::new() },
        background_color: "transparent".into(),
        note_settings: NoteSettings { speed: 180, track_height: 150, reverse: false },
        note_effect: false,
        laboratory_enabled: false,
        use_custom_css: false,
        custom_css: CustomCss { path: None, content: String::new() },
        use_custom_js: false,
        custom_js: CustomJs { path: None, content: String::new() },
        custom_css_history: Vec::new(),
        sound_library: StrMap::new(),
        counter_animation_presets: Vec::new(),
        plugin_data: StrMap::new(),
        overlay_locked: false,
        overlay_visible: true,
        editor_revision: 0,
    }
}

fn put(s: &mut AppStoreData, key: &str, value: &str) -> Result<PluginOutcome, String> {
    apply_plugin_command(s, &PluginCommand::Put { key: key.into(), value: value.into() })
}

#[test]
fn a_plugin_reads_back_what_it_stored_under_the_prefix() {
    let mut s = store();
    assert!(matches!(put(&mut s, "demo/settings", "{\"theme\":\"dark\"}"), Ok(PluginOutcome::Stored)));
    assert_eq!(plugin_storage_get(&s, "demo/settings").as_deref(), Some("{\"theme\":\"dark\"}"));
    assert_eq!(s.plugin_data.get("plugin_data_demo/settings").map(|v| v.as_str()), Some("{\"theme\":\"dark\"}"));
    assert_eq!(plugin_storage_keys(&s), vec!["demo/settings".to_string()]);
    assert!(matches!(
        apply_plugin_command(&mut s, &PluginCommand::Remove { key: "demo/settings".into() }),
        Ok(PluginOutcome::Removed)
    ));
    assert_eq!(plugin_storage_get(&s, "demo/settings"), None);
}

#[test]
fn the_instances_key_is_reserved() {
    let mut s = store();
    let err = put(&mut s, "demo/instances", "[]").unwrap_err();
    assert!(err.contains("RESERVED"));
    assert_eq!(s.plugin_data.len(), 0);
    assert!(apply_plugin_command(&mut s, &PluginCommand::Remove { key: "demo/instances".into() }).is_err());
    assert_eq!(instances_key_plugin("plugin_data_demo/instances").as_deref(), Some("demo"));
    assert_eq!(instances_key_plugin("plugin_data_a/b/instances"), None);
    assert_eq!(instances_key_plugin("plugin_data_/instances"), None);
    assert_eq!(instances_key_plugin("other_demo/instances"), None);
}

#[test]
fn clearing_by_prefix_leaves_no_data_under_it() {
    let mut s = store();
    put(&mut s, "demo/settings", "1").unwrap();
    put(&mut s, "other/settings", "2").unwrap();
    s.plugin_data.insert("plugin_data_demo/instances".into(), "[]".into());
    assert!(plugin_storage_has_data(&s, "demo/"));
    match apply_plugin_command(&mut s, &PluginCommand::ClearByPrefix { prefix: "demo/".into() }) {
        Ok(PluginOutcome::Cleared { keys, instance_plugins }) => {
            assert_eq!(keys, vec!["plugin_data_demo/settings".to_string(), "plugin_data_demo/instances".to_string()]);
            assert_eq!(instance_plugins, vec!["demo".to_string()]);
        }
        _ => panic!("the prefix is cleared"),
    }
    assert!(!plugin_storage_has_data(&s, "demo/"));
    assert!(plugin_storage_has_data(&s, "other/"));
    assert_eq!(plugin_storage_get(&s, "other/settings").as_deref(), Some("2"));
}

#[test]
fn clearing_everything_empties_plugin_storage() {
    let mut s = store();
    put(&mut s, "a", "1").unwrap();
    put(&mut s, "b", "2").unwrap();
    match apply_plugin_command(&mut s, &PluginCommand::Clear) {
        Ok(PluginOutcome::Cleared { keys, instance_plugins }) => {
            assert_eq!(keys.len(), 2);
            assert!(instance_plugins.is_empty());
        }
        _ => panic!("the storage is cleared"),
    }
    assert_eq!(s.plugin_data.len(), 0);
    assert!(plugin_storage_keys(&s).is_empty());
}
