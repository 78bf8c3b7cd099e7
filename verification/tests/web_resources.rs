use base64::engine::general_purpose::STANDARD as BASE64_STANDARD;
use base64::Engine;
use dmnote_editor_engine::deep_eq::DeepEq;
use dmnote_editor_engine::model::{
    AppStoreData, CustomCss, CustomJs, FontSettings, KeyPosition, NoteSettings, SoundLibraryEntry,
    SoundSource, StatPosition,
};
use dmnote_editor_engine::sound_edits::{
    LoadOutcome, SaveOutcome, SaveWavRequest, UpdateWavRequest, WebFile,
};
use dmnote_editor_engine::sounds::load_original;
use dmnote_editor_engine::strmap::{Dup, StrMap};
use dmnote_editor_engine::web_assets::WebAssetMap;
use dmnote_editor_engine::web_resources::{prepare_resources, ResourceCommand, ResourceResult};

fn empty_store() -> AppStoreData {
    AppStoreData {
        keys: StrMap::new(),
        key_positions: StrMap::new(),
        stat_positions: StrMap::new(),
        graph_positions: StrMap::new(),
        knob_positions: StrMap::new(),
        sprite_positions: StrMap::new(),
        layer_groups: StrMap::new(),
        key_counters: StrMap::new(),
        custom_tabs: Vec::new(),
        tab_order: Vec::new(),
        bar_count: 4,
        selected_key_type: "4key".into(),
        tab_note_overrides: StrMap::new(),
        tab_css_overrides: StrMap::new(),
        font_settings: FontSettings { custom_fonts: Vec::new() },
        background_color: "transparent".into(),
        note_settings: NoteSettings { speed: 180, track_height: 150, reverse: false },
        note_effect: false,
        laboratory_enabled: false,
        use_custom_css: false,
        custom_css: CustomCss { path: None, content: String::new() },
        use_custom_js: false,
        custom_js: CustomJs { path: None, content: String::new() },
        custom_css_history: Vec::new(),
        sound_library: StrMap::new(),
        counter_animation_presets: Vec::new(),
        plugin_data: StrMap::new(),
        overlay_locked: false,
        overlay_visible: true,
        editor_revision: 0,
    }
}

fn position(id: &str) -> KeyPosition {
    let mut p = KeyPosition::default();
    p.id = id.into();
    p
}

fn wav(tag: u8) -> String {
    let mut bytes = b"RIFF\x04\0\0\0WAVE".to_vec();
    bytes.push(tag);
    encode_base64(&bytes)
}

fn save_request(wav_base64: String) -> SaveWavRequest {
    SaveWavRequest {
        wav_base64,
        file_name: None,
        original_base64: None,
        original_extension: None,
        trim_start_bits: None,
        trim_end_bits: None,
    }
}

fn saved_path(result: &ResourceResult) -> String {
    match result {
        ResourceResult::Processed(SaveOutcome::Saved(path)) => path.clone(),
        _ => panic!("the sound was not saved"),
    }
}

#[test]
fn processed_sound_original_update_and_discard_are_atomic_candidates() {
    let store = empty_store();
    let request = SaveWavRequest {
        wav_base64: wav(1),
        file_name: Some("Edited".into()),
        original_base64: Some(encode_base64(b"original")),
        original_extension: Some("mp3".into()),
        trim_start_bits: Some(0.2f64.to_bits()),
        trim_end_bits: Some(0.8f64.to_bits()),
    };
    let prepared = prepare_resources(
        &store,
        &ResourceCommand::SoundSaveProcessedWav(request),
        &[],
        &WebAssetMap::new(),
    )
    .unwrap();
    let path = saved_path(&prepared.result);
    assert_eq!(prepared.asset_writes.len(), 2);
    let (audio, extension) = load_original(&prepared.store, &path, &prepared.asset_writes).unwrap();
    assert_eq!(audio, encode_base64(b"original"));
    assert_eq!(extension, "mp3");
    let before = prepared.store.dup();
    let assets_before = prepared.asset_writes.dup();
    let update = prepare_resources(
        &prepared.store,
        &ResourceCommand::SoundUpdateProcessedWav(UpdateWavRequest {
            sound_path: path.clone(),
            wav_base64: wav(2),
            trim_start_bits: Some(0.1f64.to_bits()),
            trim_end_bits: Some(0.9f64.to_bits()),
            display_name: Some("Changed".into()),
        }),
        &[],
        &prepared.asset_writes,
    )
    .unwrap();
    assert_eq!(update.asset_writes.get(&path).unwrap(), &wav(2));
    assert_eq!(
        update.store.sound_library.get(&path).unwrap().display_name.as_deref(),
        Some("Changed")
    );
    drop(update);
    assert!(prepared.store.deep_eq(&before));
    assert!(prepared.asset_writes.deep_eq(&assets_before));
    assert_eq!(store.sound_library.len(), 0);
}

#[test]
fn sound_delete_stages_both_assets_and_clears_all_coupled_references() {
    let mut request = save_request(wav(1));
    request.original_base64 = Some("AA==".into());
    let saved = prepare_resources(
        &empty_store(),
        &ResourceCommand::SoundSaveProcessedWav(request),
        &[],
        &WebAssetMap::new(),
    )
    .unwrap();
    let path = saved_path(&saved.result);
    let mut store = saved.store.dup();
    let mut a = position("a");
    a.sound_path = Some(path.clone());
    a.sound_enabled = Some(true);
    let mut b = position("b");
    b.sound_path = Some(path.clone());
    b.sound_enabled = Some(true);
    store.key_positions.insert("4key".into(), vec![a.dup(), b]);
    store.stat_positions.insert("4key".into(), vec![StatPosition { position: a }]);
    let before = store.dup();
    let result = prepare_resources(
        &store,
        &ResourceCommand::SoundDelete(path.clone()),
        &[],
        &saved.asset_writes,
    )
    .unwrap();
    assert_eq!(result.asset_deletes.len(), 2);
    assert_eq!(result.asset_writes.len(), 0);
    assert!(!result.store.sound_library.contains_key(&path));
    for position in result.store.key_positions.get("4key").unwrap() {
        assert!(position.sound_path.is_none() && position.sound_enabled == Some(false));
    }
    let stat = &result.store.stat_positions.get("4key").unwrap()[0];
    assert!(stat.position.sound_path.is_none() && stat.position.sound_enabled == Some(false));
    assert!(store.deep_eq(&before));
    assert_eq!(saved.asset_writes.len(), 2);
}

#[test]
fn invalid_or_builtin_sound_edits_produce_no_asset_writes() {
    let mut store = empty_store();
    let path = "/assets/sounds/builtin.wav";
    store.sound_library.insert(
        path.into(),
        SoundLibraryEntry {
            hidden: false,
            source: SoundSource::Builtin,
            original_path: None,
            trim_start_bits: None,
            trim_end_bits: None,
            display_name: None,
        },
    );
    let mut assets = WebAssetMap::new();
    assets.insert(path.into(), wav(1));
    let commands = vec![
        ResourceCommand::SoundDelete(path.into()),
        ResourceCommand::SoundRename { sound_path: path.into(), display_name: "New".into() },
        ResourceCommand::SoundUpdateProcessedWav(UpdateWavRequest {
            sound_path: path.into(),
            wav_base64: wav(2),
            trim_start_bits: None,
            trim_end_bits: None,
            display_name: None,
        }),
    ];
    for command in &commands {
        assert!(prepare_resources(&store, command, &[], &assets).is_err());
    }
    let result = prepare_resources(
        &store,
        &ResourceCommand::SoundSaveProcessedWav(save_request("AA==".into())),
        &[],
        &assets,
    )
    .unwrap();
    assert!(matches!(result.result, ResourceResult::Processed(SaveOutcome::Rejected(_))));
    assert_eq!(result.asset_writes.len(), 0);
}

#[test]
fn resource_signature_validation_and_list_reconciliation_match_native_contracts() {
    let store = empty_store();
    let invalid = WebFile {
        name: "fake.png".into(),
        mime_type: "image/png".into(),
        data_base64: encode_base64(b"not image"),
    };
    let result = prepare_resources(&store, &ResourceCommand::ImageLoad, &[invalid], &WebAssetMap::new()).unwrap();
    assert!(matches!(result.result, ResourceResult::Image(LoadOutcome::InvalidContent)));
    assert_eq!(result.asset_writes.len(), 0);
    let svg = WebFile {
        name: "art.svg".into(),
        mime_type: "image/svg+xml".into(),
        data_base64: encode_base64(b"<svg xmlns='http://www.w3.org/2000/svg'/>"),
    };
    let result = prepare_resources(&store, &ResourceCommand::ImageLoad, &[svg], &WebAssetMap::new()).unwrap();
    assert!(matches!(result.result, ResourceResult::Image(LoadOutcome::Loaded(_))));
    assert_eq!(result.asset_writes.len(), 1);
    let mut assets = WebAssetMap::new();
    assets.insert("/assets/sounds/new.wav".into(), wav(1));
    assets.insert("/assets/sounds/originals/source.mp3".into(), "AA==".into());
    let mut modified = StrMap::new();
    modified.insert("/assets/sounds/new.wav".into(), 123u64);
    let result = prepare_resources(&store, &ResourceCommand::SoundList(modified), &[], &assets).unwrap();
    assert!(result.store.sound_library.contains_key("/assets/sounds/new.wav"));
    let items = match &result.result {
        ResourceResult::SoundList(items) => items,
        _ => panic!("no sound list"),
    };
    assert_eq!(items.len(), 1);
    assert!(items[0].enabled);
    assert_eq!(items[0].modified_at_ms, Some(123));
}

#[test]
fn saved_svg_keeps_its_extension_and_bad_file_data_is_refused() {
    let store = empty_store();
    let svg = WebFile {
        name: "Art.SVG".into(),
        mime_type: "image/svg+xml".into(),
        data_base64: encode_base64(b"<svg xmlns='http://www.w3.org/2000/svg'/>"),
    };
    let result = prepare_resources(&store, &ResourceCommand::ImageLoad, &[svg], &WebAssetMap::new()).unwrap();
    match &result.result {
        ResourceResult::Image(LoadOutcome::Loaded(path)) => {
            assert!(path.starts_with("/assets/images/") && path.ends_with(".svg"));
            assert_eq!(result.asset_writes.get(path).unwrap(), &encode_base64(b"<svg xmlns='http://www.w3.org/2000/svg'/>"));
        }
        _ => panic!("the image was not loaded"),
    }
    let broken = WebFile { name: "a.png".into(), mime_type: String::new(), data_base64: "!!".into() };
    let error = prepare_resources(&store, &ResourceCommand::ImageLoad, &[broken], &WebAssetMap::new())
        .err()
        .unwrap();
    assert!(error.starts_with("invalid-file-data: "));
    let none = prepare_resources(&store, &ResourceCommand::SoundLoad, &[], &WebAssetMap::new()).unwrap();
    assert!(matches!(none.result, ResourceResult::NoFile));
}

#[test]
fn loaded_sounds_are_local_and_visibility_rename_follow_the_library() {
    let store = empty_store();
    let file = WebFile { name: "Beep.MP3".into(), mime_type: String::new(), data_base64: encode_base64(b"beep") };
    let loaded = prepare_resources(&store, &ResourceCommand::SoundLoad, &[file], &WebAssetMap::new()).unwrap();
    let path = match &loaded.result {
        ResourceResult::SoundLoaded(path) => path.clone(),
        _ => panic!("the sound was not loaded"),
    };
    assert!(path.starts_with("/assets/sounds/") && path.ends_with(".mp3"));
    let entry = loaded.store.sound_library.get(&path).unwrap();
    assert!(!entry.hidden && entry.source == SoundSource::Local);
    let assets = loaded.asset_writes.dup();
    let enabled = prepare_resources(
        &loaded.store,
        &ResourceCommand::SoundSetEnabled { sound_path: path.clone(), enabled: false },
        &[],
        &assets,
    )
    .unwrap();
    assert!(enabled.store.sound_library.get(&path).unwrap().hidden);
    let hidden = prepare_resources(
        &enabled.store,
        &ResourceCommand::SoundSetHidden { sound_path: path.clone(), hidden: false },
        &[],
        &assets,
    )
    .unwrap();
    assert!(!hidden.store.sound_library.get(&path).unwrap().hidden);
    let renamed = prepare_resources(
        &hidden.store,
        &ResourceCommand::SoundRename { sound_path: path.clone(), display_name: "  Beep  ".into() },
        &[],
        &assets,
    )
    .unwrap();
    assert!(matches!(&renamed.result, ResourceResult::Renamed(name) if name == "Beep"));
    assert_eq!(renamed.store.sound_library.get(&path).unwrap().display_name.as_deref(), Some("Beep"));
    let empty = prepare_resources(
        &hidden.store,
        &ResourceCommand::SoundRename { sound_path: path.clone(), display_name: "   ".into() },
        &[],
        &assets,
    );
    assert_eq!(empty.err().unwrap(), "사운드 이름이 비어 있습니다.");
    let missing = prepare_resources(
        &hidden.store,
        &ResourceCommand::SoundSetHidden { sound_path: "/assets/sounds/none.wav".into(), hidden: true },
        &[],
        &assets,
    );
    assert_eq!(missing.err().unwrap(), "대상 사운드 파일이 존재하지 않습니다.");
    let outside = prepare_resources(
        &hidden.store,
        &ResourceCommand::SoundDelete("/assets/images/a.png".into()),
        &[],
        &assets,
    );
    assert_eq!(outside.err().unwrap(), "invalid-web-sound-path");
}

#[test]
fn listing_twice_reconciles_the_library_once() {
    let mut store = empty_store();
    store.sound_library.insert(
        "/assets/sounds/gone.wav".into(),
        SoundLibraryEntry {
            hidden: true,
            source: SoundSource::Local,
            original_path: None,
            trim_start_bits: None,
            trim_end_bits: None,
            display_name: Some("Gone".into()),
        },
    );
    let mut assets = WebAssetMap::new();
    assets.insert("/assets/sounds/a.wav".into(), wav(1));
    assets.insert("/assets/sounds/b.ogg".into(), wav(2));
    assets.insert("/assets/sounds/notes.txt".into(), "AA==".into());
    let first = prepare_resources(&store, &ResourceCommand::SoundList(StrMap::new()), &[], &assets).unwrap();
    assert!(!first.store.sound_library.contains_key("/assets/sounds/gone.wav"));
    assert!(first.store.sound_library.contains_key("/assets/sounds/a.wav"));
    assert!(first.store.sound_library.contains_key("/assets/sounds/b.ogg"));
    assert!(!first.store.sound_library.contains_key("/assets/sounds/notes.txt"));
    let second = prepare_resources(&first.store, &ResourceCommand::SoundList(StrMap::new()), &[], &assets).unwrap();
    assert!(second.store.deep_eq(&first.store));
    match (&first.result, &second.result) {
        (ResourceResult::SoundList(a), ResourceResult::SoundList(b)) => {
            assert_eq!(a.len(), 2);
            assert_eq!(b.len(), 2);
        }
        _ => panic!("no sound list"),
    }
}

fn encode_base64(bytes: &[u8]) -> String {
    BASE64_STANDARD.encode(bytes)
}
