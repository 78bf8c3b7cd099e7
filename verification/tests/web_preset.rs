use dmnote_editor_engine::asset_key::is_web_asset_key;
use base64::engine::general_purpose::STANDARD as BASE64_STANDARD;
use base64::Engine;
use dmnote_editor_engine::model::{
    AppStoreData, CustomCss, CustomFont, CustomJs, FontSettings, FontType,
    KeyPosition, KeySlot, NoteSettings, PresetFile, ReactiveSpritePosition, TabCss,
};
use dmnote_editor_engine::model::EmbeddedLocalImage;
use dmnote_editor_engine::preset_export::build_full_preset;
use dmnote_editor_engine::preset_restore::restore_preset_local_images_in_dir;
use dmnote_editor_engine::preset_plan::PresetImportHost;
use dmnote_editor_engine::strmap::{Dup, StrMap};
use dmnote_editor_engine::web_assets::{WebAssetMap, WebPresetAssets};
use dmnote_editor_engine::web_css::MAX_CSS_BYTES;
use dmnote_editor_engine::web_preset::{export_preset, prepare_import};

fn blank_position(id: &str) -> KeyPosition {
    let mut position = KeyPosition::default();
    position.id = id.into();
    position
}

fn empty_store() -> AppStoreData {
    AppStoreData {
        keys: StrMap::new(),
        key_positions: StrMap::new(),
        stat_positions: StrMap::new(),
        graph_positions: StrMap::new(),
        knob_positions: StrMap::new(),
        sprite_positions: StrMap::new(),
        layer_groups: StrMap::new(),
        key_counters: StrMap::new(),
        custom_tabs: Vec::new(),
        tab_order: Vec::new(),
        bar_count: 4,
        selected_key_type: "4key".into(),
        tab_note_overrides: StrMap::new(),
        tab_css_overrides: StrMap::new(),
        font_settings: FontSettings { custom_fonts: Vec::new() },
        background_color: "transparent".into(),
        note_settings: NoteSettings { speed: 180, track_height: 150, reverse: false },
        note_effect: false,
        laboratory_enabled: false,
        use_custom_css: false,
        custom_css: CustomCss { path: None, content: String::new() },
        use_custom_js: false,
        custom_js: CustomJs { path: None, content: String::new() },
        custom_css_history: Vec::new(),
        sound_library: StrMap::new(),
        counter_animation_presets: Vec::new(),
        plugin_data: StrMap::new(),
        overlay_locked: false,
        overlay_visible: true,
        editor_revision: 0,
    }
}

fn store() -> AppStoreData {
    let mut store = empty_store();
    store.keys.insert("4key".into(), vec![KeySlot { label: "A".into() }]);
    store.key_positions.insert("4key".into(), vec![blank_position("key-1")]);
    store
}

fn png() -> Vec<u8> {
    let mut bytes = b"\x89PNG\r\n\x1a\n\0\0\0\rIHDR".to_vec();
    bytes.extend_from_slice(&48u32.to_be_bytes());
    bytes.extend_from_slice(&32u32.to_be_bytes());
    bytes
}

fn assets_of(entries: &[(&str, Vec<u8>)]) -> WebAssetMap {
    let mut assets = WebAssetMap::new();
    for (path, bytes) in entries {
        assets.insert((*path).into(), encode_base64(bytes));
    }
    assets
}

fn populated() -> (AppStoreData, WebAssetMap) {
    let mut store = store();
    let mut key = blank_position("key-1");
    key.active_image = Some("/assets/images/image.png".into());
    key.inactive_image = key.active_image.clone();
    key.sound_path = Some("/assets/sounds/sound.wav".into());
    key.font_family = Some("Example".into());
    store.key_positions.insert("4key".into(), vec![key]);
    store.font_settings.custom_fonts.push(CustomFont {
        id: "font".into(),
        name: "Example".into(),
        display_name: "Example".into(),
        font_type: FontType::Local,
        local_path: Some("/assets/fonts/font.ttf".into()),
        enabled: true,
        css_content: None,
    });
    store.sprite_positions.insert(
        "4key".into(),
        vec![ReactiveSpritePosition {
            id: "sprite-1".into(),
            base_image: Some("/assets/images/image.png".into()),
            reference_natural_size: None,
            poses: Vec::new(),
        }],
    );
    let assets = assets_of(&[
        ("/assets/images/image.png", png()),
        ("/assets/sounds/sound.wav", b"sound-bytes".to_vec()),
        ("/assets/fonts/font.ttf", b"font-bytes".to_vec()),
    ]);
    (store, assets)
}

fn writes_keys(writes: &WebAssetMap) -> Vec<String> {
    writes.keys()
}

#[test]
fn full_and_tab_roundtrip_embed_all_asset_types_without_blob_references() {
    for tab_only in [false, true] {
        let (source, assets) = populated();
        let exported = export_preset(&source, tab_only, &assets).unwrap();
        assert_eq!(exported.embedded_local_images.as_ref().unwrap().len(), 1);
        assert_eq!(exported.embedded_local_fonts.as_ref().unwrap().len(), 1);
        assert_eq!(exported.embedded_local_sounds.as_ref().unwrap().len(), 1);
        let target = store();
        let imported = prepare_import(&target, exported, tab_only, &WebAssetMap::new()).unwrap();
        assert_eq!(imported.asset_writes.len(), 3);
        assert!(writes_keys(&imported.asset_writes).iter().all(|key| is_web_asset_key(key)));
        let key = &imported.store.key_positions.get("4key").unwrap()[0];
        assert_eq!(key.active_image, key.inactive_image);
        assert_eq!(
            imported.store.sprite_positions.get("4key").unwrap()[0]
                .reference_natural_size
                .as_ref()
                .unwrap()
                .width,
            48
        );
        let reexported = export_preset(&imported.store, tab_only, &imported.asset_writes).unwrap();
        assert_eq!(
            reexported.embedded_local_images.unwrap()[0].data_base64,
            encode_base64(&png())
        );
        assert_eq!(
            reexported.embedded_local_fonts.unwrap()[0].data_base64,
            encode_base64(b"font-bytes")
        );
        assert_eq!(
            reexported.embedded_local_sounds.unwrap()[0].data_base64,
            encode_base64(b"sound-bytes")
        );
    }
}

#[test]
fn discarded_asset_preparation_does_not_mutate_existing_store_or_assets() {
    let (source, assets) = populated();
    let original_store = source.dup();
    let original_assets = assets.dup();
    let preset = export_preset(&source, false, &assets).unwrap();
    let prepared = prepare_import(&source, preset, false, &assets).unwrap();
    assert_eq!(prepared.asset_writes.len(), 3);
    assert!(writes_keys(&prepared.asset_writes).iter().all(|key| !assets.contains_key(key)));
    drop(prepared);
    assert_eq!(source.key_positions.get("4key").unwrap()[0].active_image,
        original_store.key_positions.get("4key").unwrap()[0].active_image);
    assert_eq!(source.font_settings.custom_fonts.len(), original_store.font_settings.custom_fonts.len());
    assert_eq!(assets.keys(), original_assets.keys());
    for key in assets.keys() {
        assert_eq!(assets.get(&key), original_assets.get(&key));
    }
}

#[test]
fn missing_local_assets_fall_back_and_external_images_survive() {
    let (mut source, _) = populated();
    let mut key = source.key_positions.get("4key").unwrap()[0].dup();
    key.inactive_image = Some("https://example.com/a.png".into());
    source.key_positions.insert("4key".into(), vec![key]);
    let host = match WebPresetAssets::new(&WebAssetMap::new()) {
        Ok(host) => host,
        Err(_) => panic!("empty assets are well formed"),
    };
    let preset = build_full_preset(source, &host).unwrap();
    let result = prepare_import(&store(), preset, false, &WebAssetMap::new()).unwrap();
    let key = &result.store.key_positions.get("4key").unwrap()[0];
    assert!(key.active_image.is_none());
    assert!(key.sound_path.is_none());
    assert_eq!(key.inactive_image.as_deref(), Some("https://example.com/a.png"));
    assert!(!result.store.font_settings.custom_fonts[0].enabled);
    assert!(result.asset_writes.len() == 0);
}

#[test]
fn malformed_asset_maps_and_failed_tab_import_leave_inputs_unchanged() {
    let target = store();
    let mut malformed = WebAssetMap::new();
    malformed.insert("/assets/images/../secret".into(), "AA==".into());
    assert!(prepare_import(&target, PresetFile::default(), false, &malformed).is_err());
    let mut keys = StrMap::new();
    keys.insert("x".into(), Vec::new());
    keys.insert("y".into(), Vec::new());
    let invalid = PresetFile { keys: Some(keys), ..PresetFile::default() };
    assert!(prepare_import(&target, invalid, true, &WebAssetMap::new()).is_err());
    assert_eq!(target.keys.len(), 1);
    assert_eq!(target.key_positions.get("4key").unwrap()[0].id, "key-1");
}

#[test]
fn imported_css_keeps_content_but_drops_unusable_asset_paths() {
    let cases: [(&str, Vec<u8>, bool); 5] = [
        ("/assets/css/valid.CSS", b"body {}".to_vec(), true),
        ("/assets/css/invalid.txt", b"body {}".to_vec(), false),
        ("/assets/css/invalid.css", vec![0xff], false),
        ("/assets/css/large.css", vec![b' '; MAX_CSS_BYTES + 1], false),
        ("/assets/images/other.css", b"body {}".to_vec(), false),
    ];
    for (path, bytes, valid) in cases {
        let assets = assets_of(&[(path, bytes)]);
        let host = match WebPresetAssets::new(&assets) {
            Ok(host) => host,
            Err(_) => panic!("assets are well formed"),
        };
        let mut global = CustomCss { path: Some(path.into()), content: "stored global".into() };
        let mut tab = TabCss { path: Some(path.into()), content: "stored tab".into(), enabled: false };
        host.normalize_custom_css(&mut global);
        host.normalize_tab_css(&mut tab);
        let expected = if valid { Some(path) } else { None };
        assert_eq!(global.path.as_deref(), expected);
        assert_eq!(tab.path.as_deref(), expected);
        assert_eq!(global.content, "stored global");
        assert_eq!(tab.content, "stored tab");
        assert!(host.into_writes().len() == 0);
    }
}

fn encode_base64(bytes: &[u8]) -> String {
    BASE64_STANDARD.encode(bytes)
}

#[test]
fn full_import_without_a_tab_to_select_is_refused() {
    let target = store();
    let mut keys = StrMap::new();
    keys.insert("x".into(), Vec::new());
    let preset = PresetFile {
        keys: Some(keys),
        key_positions: Some(StrMap::new()),
        ..PresetFile::default()
    };
    let result = prepare_import(&target, preset, false, &WebAssetMap::new());
    assert!(matches!(result, Err(ref e) if e == "invalid-tab-metadata"));
    let mut keys = StrMap::new();
    keys.insert("x".into(), Vec::new());
    let preset = PresetFile {
        keys: Some(keys),
        key_positions: Some(StrMap::new()),
        selected_key_type: Some("x".into()),
        ..PresetFile::default()
    };
    let imported = prepare_import(&target, preset, false, &WebAssetMap::new()).unwrap();
    assert_eq!(imported.store.selected_key_type, "x");
}

#[test]
fn references_to_one_embedded_image_share_one_restored_file() {
    let id = "0f8fad5b-d9cb-469f-a165-70867728950e";
    let reference = format!("dmnote-preset-image:{id}");
    let mut first = blank_position("key-1");
    first.active_image = Some(reference.clone());
    first.inactive_image = Some(reference.clone());
    let mut second = blank_position("key-2");
    second.active_image = Some(reference);
    let mut keys = StrMap::new();
    keys.insert("4key".into(), vec![first, second]);
    let images = vec![EmbeddedLocalImage {
        image_id: id.into(),
        extension: Some("png".into()),
        data_base64: encode_base64(&png()),
    }];
    let mut host = match WebPresetAssets::new(&WebAssetMap::new()) {
        Ok(host) => host,
        Err(_) => panic!("empty assets are well formed"),
    };
    let result = restore_preset_local_images_in_dir(
        &mut host,
        "/assets/images",
        &mut keys,
        &mut StrMap::new(),
        &mut StrMap::new(),
        &mut StrMap::new(),
        &mut StrMap::new(),
        Some(&images),
    );
    assert!(result.is_ok());
    let restored = keys.get("4key").unwrap();
    let path = restored[0].active_image.clone().unwrap();
    assert!(path.starts_with("/assets/images/") && path.ends_with(".png"));
    assert_eq!(restored[0].inactive_image.as_deref(), Some(path.as_str()));
    assert_eq!(restored[1].active_image.as_deref(), Some(path.as_str()));
    let writes = host.into_writes();
    assert_eq!(writes.len(), 1);
    assert_eq!(writes.get(&path).map(|s| s.as_str()), Some(encode_base64(&png()).as_str()));
}
