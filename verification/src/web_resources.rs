//! One resource command of the web host, prepared on a candidate: the document as it
//! would be, the command's result, the files to write and the files to delete. The host
//! stores all of it, or drops all of it.
use crate::codec::base64_decoded;
use crate::model::{AppStoreData, AppStoreDataV};
use crate::sound_edits::{
    delete_sound, image_loaded, load_image_file, load_sound_file, reconcile_library, reconciled,
    rename_sound, save_processed_wav, set_sound_visibility, sound_deleted, sound_loaded,
    sound_renamed, update_processed_wav, visibility_set, wav_saved, wav_updated, LoadOutcome,
    SaveOutcome, SaveWavRequest, UpdateWavRequest, WebFile,
};
use crate::sounds::{list_sounds, load_original, original_loaded, sounds_listed, SoundListItem};
use crate::strmap::{Dup, StrMap};
use crate::web_assets::{assets_well_formed, WebAssetMap, WebPresetAssets};
use vstd::prelude::*;

verus! {

/// A resource command with its arguments.
pub enum ResourceCommand {
    ImageLoad,
    SoundLoad,
    SoundList(StrMap<u64>),
    SoundLoadOriginal(String),
    SoundSaveProcessedWav(SaveWavRequest),
    SoundUpdateProcessedWav(UpdateWavRequest),
    SoundSetHidden { sound_path: String, hidden: bool },
    SoundSetEnabled { sound_path: String, enabled: bool },
    SoundRename { sound_path: String, display_name: String },
    SoundDelete(String),
}

/// What a resource command answers.
pub enum ResourceResult {
    /// A file command that was handed no file.
    NoFile,
    Image(LoadOutcome),
    SoundLoaded(String),
    SoundList(Vec<SoundListItem>),
    Original { audio_base64: String, original_extension: String },
    Processed(SaveOutcome),
    Visibility { sound_path: String, value: bool },
    Renamed(String),
    Deleted,
}

/// A prepared resource command.
pub struct WebResourcePreparation {
    pub store: AppStoreData,
    pub result: ResourceResult,
    pub asset_writes: WebAssetMap,
    pub asset_deletes: Vec<String>,
}

/// Base64 texts that decode to the given bytes, key for key.
pub open spec fn encodes(texts: Map<Seq<char>, Seq<char>>, bytes: Map<Seq<char>, Seq<u8>>) -> bool {
    &&& texts.dom() == bytes.dom()
    &&& forall|k: Seq<char>| #[trigger] texts.contains_key(k) ==> base64_decoded(texts[k]) == Some(bytes[k])
}

/// The preparation that a step's outcome gives: its error, or the candidate document
/// `s1`, the result that `result` makes of the step's value, the writes `w1` and the
/// deletions.
pub open spec fn answers<T>(
    r: Result<WebResourcePreparation, String>,
    out: Result<T, String>,
    result: spec_fn(T) -> ResourceResult,
    s1: AppStoreDataV,
    w1: Map<Seq<char>, Seq<u8>>,
    deletes: Seq<Seq<char>>,
) -> bool {
    match out {
        Err(m) => r matches Err(e) && e@ == m@,
        Ok(v) => r matches Ok(p) && p.result == result(v) && p.store.deep_view() == s1 && encodes(
            p.asset_writes@,
            w1,
        ) && p.asset_deletes.deep_view() == deletes,
    }
}

/// What preparing a command on document `s0` and well-formed stored assets gives, by the
/// step that each command takes.
pub open spec fn prepared(
    s0: AppStoreDataV,
    command: ResourceCommand,
    files: Seq<WebFile>,
    assets: WebAssetMap,
    r: Result<WebResourcePreparation, String>,
) -> bool {
    let none = Map::<Seq<char>, Seq<u8>>::empty();
    let no_file = r matches Ok(p) && p.result == ResourceResult::NoFile && p.store.deep_view() == s0
        && p.asset_writes@.dom().len() == 0 && p.asset_deletes@.len() == 0;
    match command {
        ResourceCommand::ImageLoad => if files.len() == 0 {
            no_file
        } else {
            exists|w1: Map<Seq<char>, Seq<u8>>, out: Result<LoadOutcome, String>|
                image_loaded(files[0], none, w1, out) && answers(
                    r,
                    out,
                    |v: LoadOutcome| ResourceResult::Image(v),
                    s0,
                    w1,
                    Seq::empty(),
                )
        },
        ResourceCommand::SoundLoad => if files.len() == 0 {
            no_file
        } else {
            exists|s1: AppStoreDataV, w1: Map<Seq<char>, Seq<u8>>, out: Result<String, String>|
                sound_loaded(files[0], s0, s1, none, w1, out) && answers(
                    r,
                    out,
                    |v: String| ResourceResult::SoundLoaded(v),
                    s1,
                    w1,
                    Seq::empty(),
                )
        },
        ResourceCommand::SoundList(modified) => {
            let s1 = AppStoreDataV { sound_library: reconciled(s0, assets@), ..s0 };
            exists|out: Result<Vec<SoundListItem>, String>|
                sounds_listed(s1, assets, modified@, out) && answers(
                    r,
                    out,
                    |v: Vec<SoundListItem>| ResourceResult::SoundList(v),
                    s1,
                    none,
                    Seq::empty(),
                )
        },
        ResourceCommand::SoundLoadOriginal(path) => exists|out: Result<(String, String), String>|
            original_loaded(s0, path@, assets@, out) && answers(
                r,
                out,
                |v: (String, String)| ResourceResult::Original { audio_base64: v.0, original_extension: v.1 },
                s0,
                none,
                Seq::empty(),
            ),
        ResourceCommand::SoundSaveProcessedWav(request) => exists|
            s1: AppStoreDataV,
            w1: Map<Seq<char>, Seq<u8>>,
            out: Result<SaveOutcome, String>,
        |
            wav_saved(request, s0, s1, none, w1, out) && answers(
                r,
                out,
                |v: SaveOutcome| ResourceResult::Processed(v),
                s1,
                w1,
                Seq::empty(),
            ),
        ResourceCommand::SoundUpdateProcessedWav(request) => exists|
            s1: AppStoreDataV,
            w1: Map<Seq<char>, Seq<u8>>,
            out: Result<SaveOutcome, String>,
        |
            wav_updated(request, assets@, s0, s1, none, w1, out) && answers(
                r,
                out,
                |v: SaveOutcome| ResourceResult::Processed(v),
                s1,
                w1,
                Seq::empty(),
            ),
        ResourceCommand::SoundSetHidden { sound_path, hidden } => exists|
            s1: AppStoreDataV,
            out: Result<(), String>,
        |
            visibility_set(sound_path@, false, hidden, assets@, s0, s1, out) && answers(
                r,
                out,
                |v: ()| ResourceResult::Visibility { sound_path, value: hidden },
                s1,
                none,
                Seq::empty(),
            ),
        ResourceCommand::SoundSetEnabled { sound_path, enabled } => exists|
            s1: AppStoreDataV,
            out: Result<(), String>,
        |
            visibility_set(sound_path@, true, enabled, assets@, s0, s1, out) && answers(
                r,
                out,
                |v: ()| ResourceResult::Visibility { sound_path, value: enabled },
                s1,
                none,
                Seq::empty(),
            ),
        ResourceCommand::SoundRename { sound_path, display_name } => exists|
            s1: AppStoreDataV,
            out: Result<String, String>,
        |
            sound_renamed(sound_path@, display_name@, assets@, s0, s1, out) && answers(
                r,
                out,
                |v: String| ResourceResult::Renamed(v),
                s1,
                none,
                Seq::empty(),
            ),
        ResourceCommand::SoundDelete(path) => exists|s1: AppStoreDataV, out: Result<Vec<String>, String>|
            sound_deleted(path@, assets@, s0, s1, out) && answers(
                r,
                out,
                |v: Vec<String>| ResourceResult::Deleted,
                s1,
                none,
                match out {
                    Ok(d) => d.deep_view(),
                    Err(_) => Seq::empty(),
                },
            ),
    }
}

fn finish(
    store: AppStoreData,
    result: ResourceResult,
    memory: WebPresetAssets,
    deletes: Vec<String>,
) -> (r: WebResourcePreparation)
    ensures
        r.store == store,
        r.result == result,
        encodes(r.asset_writes@, memory.writes_view()),
        r.asset_deletes == deletes,
{
    let writes = memory.into_writes();
    WebResourcePreparation { store, result, asset_writes: writes, asset_deletes: deletes }
}

/// Prepares one resource command on a copy of the document and in-memory assets. Stored
/// assets with a key that is not an asset path, or text that is not base64, are refused;
/// otherwise the command's step decides, as [`prepared`] states.
pub fn prepare_resources(
    store: &AppStoreData,
    command: &ResourceCommand,
    files: &[WebFile],
    assets: &WebAssetMap,
) -> (r: Result<WebResourcePreparation, String>)
    ensures
        !assets_well_formed(assets@) ==> r is Err,
        assets_well_formed(assets@) ==> prepared(store.deep_view(), *command, files@, *assets, r),
{
    let mut memory = match WebPresetAssets::new(assets) {
        Ok(m) => m,
        Err(e) => {
            return Err(e.message());
        },
    };
    let ghost none = Map::<Seq<char>, Seq<u8>>::empty();
    let ghost s0 = store.deep_view();
    let mut candidate = store.dup();
    assert(candidate.deep_view() == s0);
    match command {
        ResourceCommand::ImageLoad => {
            if files.len() == 0 {
                let p = finish(candidate, ResourceResult::NoFile, memory, Vec::new());
                assert(p.asset_writes@.dom() =~= Set::<Seq<char>>::empty());
                return Ok(p);
            }
            let out = load_image_file(&mut memory, &files[0]);
            let ghost w1 = memory.writes_view();
            let ghost gout = out;
            match out {
                Ok(v) => {
                    let p = finish(candidate, ResourceResult::Image(v), memory, Vec::new());
                    assert(p.asset_deletes.deep_view() =~= Seq::<Seq<char>>::empty());
                    assert(answers(Ok(p), gout, |v: LoadOutcome| ResourceResult::Image(v), s0, w1, Seq::empty()));
                    Ok(p)
                },
                Err(e) => Err(e),
            }
        },
        ResourceCommand::SoundLoad => {
            if files.len() == 0 {
                let p = finish(candidate, ResourceResult::NoFile, memory, Vec::new());
                assert(p.asset_writes@.dom() =~= Set::<Seq<char>>::empty());
                return Ok(p);
            }
            let out = load_sound_file(&mut candidate, &mut memory, &files[0]);
            let ghost w1 = memory.writes_view();
            let ghost s1 = candidate.deep_view();
            let ghost gout = out;
            match out {
                Ok(v) => {
                    let p = finish(candidate, ResourceResult::SoundLoaded(v), memory, Vec::new());
                    assert(p.asset_deletes.deep_view() =~= Seq::<Seq<char>>::empty());
                    assert(answers(Ok(p), gout, |v: String| ResourceResult::SoundLoaded(v), s1, w1, Seq::empty()));
                    Ok(p)
                },
                Err(e) => Err(e),
            }
        },
        ResourceCommand::SoundList(modified) => {
            reconcile_library(&mut candidate, assets);
            let out = list_sounds(&candidate, assets, modified);
            let ghost s1 = candidate.deep_view();
            let ghost gout = out;
            match out {
                Ok(v) => {
                    let p = finish(candidate, ResourceResult::SoundList(v), memory, Vec::new());
                    assert(p.asset_deletes.deep_view() =~= Seq::<Seq<char>>::empty());
                    assert(answers(Ok(p), gout, |v: Vec<SoundListItem>| ResourceResult::SoundList(v), s1, none, Seq::empty()));
                    Ok(p)
                },
                Err(e) => Err(e),
            }
        },
        ResourceCommand::SoundLoadOriginal(path) => {
            let out = load_original(&candidate, path.as_str(), assets);
            let ghost gout = out;
            match out {
                Ok(v) => {
                    let p = finish(
                        candidate,
                        ResourceResult::Original { audio_base64: v.0, original_extension: v.1 },
                        memory,
                        Vec::new(),
                    );
                    assert(p.asset_deletes.deep_view() =~= Seq::<Seq<char>>::empty());
                    assert(answers(
                        Ok(p),
                        gout,
                        |v: (String, String)| ResourceResult::Original { audio_base64: v.0, original_extension: v.1 },
                        s0,
                        none,
                        Seq::empty(),
                    ));
                    Ok(p)
                },
                Err(e) => Err(e),
            }
        },
        ResourceCommand::SoundSaveProcessedWav(request) => {
            let out = save_processed_wav(&mut candidate, &mut memory, request);
            let ghost w1 = memory.writes_view();
            let ghost s1 = candidate.deep_view();
            let ghost gout = out;
            match out {
                Ok(v) => {
                    let p = finish(candidate, ResourceResult::Processed(v), memory, Vec::new());
                    assert(p.asset_deletes.deep_view() =~= Seq::<Seq<char>>::empty());
                    assert(answers(Ok(p), gout, |v: SaveOutcome| ResourceResult::Processed(v), s1, w1, Seq::empty()));
                    Ok(p)
                },
                Err(e) => Err(e),
            }
        },
        ResourceCommand::SoundUpdateProcessedWav(request) => {
            let out = update_processed_wav(&mut candidate, &mut memory, assets, request);
            let ghost w1 = memory.writes_view();
            let ghost s1 = candidate.deep_view();
            let ghost gout = out;
            match out {
                Ok(v) => {
                    let p = finish(candidate, ResourceResult::Processed(v), memory, Vec::new());
                    assert(p.asset_deletes.deep_view() =~= Seq::<Seq<char>>::empty());
                    assert(answers(Ok(p), gout, |v: SaveOutcome| ResourceResult::Processed(v), s1, w1, Seq::empty()));
                    Ok(p)
                },
                Err(e) => Err(e),
            }
        },
        ResourceCommand::SoundSetHidden { sound_path, hidden } => {
            let out = set_sound_visibility(&mut candidate, assets, sound_path.as_str(), false, *hidden);
            let ghost s1 = candidate.deep_view();
            let ghost gout = out;
            match out {
                Ok(()) => {
                    let result = ResourceResult::Visibility { sound_path: sound_path.clone(), value: *hidden };
                    let p = finish(candidate, result, memory, Vec::new());
                    assert(p.asset_deletes.deep_view() =~= Seq::<Seq<char>>::empty());
                    assert(answers(
                        Ok(p),
                        gout,
                        |v: ()| ResourceResult::Visibility { sound_path: *sound_path, value: *hidden },
                        s1,
                        none,
                        Seq::empty(),
                    ));
                    Ok(p)
                },
                Err(e) => Err(e),
            }
        },
        ResourceCommand::SoundSetEnabled { sound_path, enabled } => {
            let out = set_sound_visibility(&mut candidate, assets, sound_path.as_str(), true, *enabled);
            let ghost s1 = candidate.deep_view();
            let ghost gout = out;
            match out {
                Ok(()) => {
                    let result = ResourceResult::Visibility { sound_path: sound_path.clone(), value: *enabled };
                    let p = finish(candidate, result, memory, Vec::new());
                    assert(p.asset_deletes.deep_view() =~= Seq::<Seq<char>>::empty());
                    assert(answers(
                        Ok(p),
                        gout,
                        |v: ()| ResourceResult::Visibility { sound_path: *sound_path, value: *enabled },
                        s1,
                        none,
                        Seq::empty(),
                    ));
                    Ok(p)
                },
                Err(e) => Err(e),
            }
        },
        ResourceCommand::SoundRename { sound_path, display_name } => {
            let out = rename_sound(&mut candidate, assets, sound_path.as_str(), display_name.as_str());
            let ghost s1 = candidate.deep_view();
            let ghost gout = out;
            match out {
                Ok(v) => {
                    let p = finish(candidate, ResourceResult::Renamed(v), memory, Vec::new());
                    assert(p.asset_deletes.deep_view() =~= Seq::<Seq<char>>::empty());
                    assert(answers(Ok(p), gout, |v: String| ResourceResult::Renamed(v), s1, none, Seq::empty()));
                    Ok(p)
                },
                Err(e) => Err(e),
            }
        },
        ResourceCommand::SoundDelete(path) => {
            let out = delete_sound(&mut candidate, assets, path.as_str());
            let ghost s1 = candidate.deep_view();
            let ghost gout = out;
            match out {
                Ok(d) => {
                    let ghost dv = d.deep_view();
                    let p = finish(candidate, ResourceResult::Deleted, memory, d);
                    assert(answers(Ok(p), gout, |v: Vec<String>| ResourceResult::Deleted, s1, none, dv));
                    Ok(p)
                },
                Err(e) => Err(e),
            }
        },
    }
}

} // verus!
