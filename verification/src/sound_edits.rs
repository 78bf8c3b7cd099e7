//! Edits of the web host's sound library and the files that the browser hands over: every
//! edit works on a candidate document and on in-memory assets, which the host stores, or
//! drops, as a whole.
use crate::asset_key::{is_web_asset_key, spec_is_web_asset_key};
use crate::asset_refs::{
    extension_of, extension_read, is_portable_file_path, normalize_image_extension, spec_normalize_image_extension,
};
use crate::codec::{
    base64_decoded, base64_encoded, decode_base64, is_uuid_char, is_uuid_text, new_uuid_text,
};
use crate::image_content::{
    ascii_bytes, image_bytes_have_supported_content, image_signature, min_len, signature_prefix,
};
use crate::model::{AppStoreData, AppStoreDataV, SoundLibraryEntry, SoundLibraryEntryV, SoundSource};
use crate::sounds::{
    is_sound_key, library_entry, original_loaded, original_path_of,
    remove_sound_entry_and_references, sound_removed, spec_extension, spec_listed_key,
    NO_ORIGINAL_INFO,
};
use crate::strmap::{Dup, StrMap};
use crate::text::{
    chars_of, concat, lower_seq, slice_chars, starts_with, string_of, to_lower, trim, trim_chars,
};
use crate::web_assets::{is_name_extension, lemma_fresh_key, WebAssetMap, WebPresetAssets};
use vstd::prelude::*;

verus! {

/// Message when a processed sound carries no data.
pub const EMPTY_SOUND_DATA: &'static str = "사운드 데이터가 비어 있습니다.";

/// Message when processed sound data is not a WAV file.
pub const INVALID_WAV: &'static str = "유효한 WAV 데이터가 아닙니다.";

/// Start of the message when processed sound data is not base64.
pub const SOUND_DECODE_FAILED: &'static str = "사운드 데이터 디코딩 실패: ";

/// Start of the message when a sound's original is not base64.
pub const ORIGINAL_DECODE_FAILED: &'static str = "원본 사운드 데이터 디코딩 실패: ";

/// Message when an edit aims at a built-in sound.
pub const BUILTIN_NOT_EDITABLE: &'static str = "내장 사운드는 편집할 수 없습니다.";

/// Message when the sound to edit is not stored.
pub const EDIT_TARGET_MISSING: &'static str = "편집할 사운드 파일을 찾을 수 없습니다.";

/// Message when the sound file to change is not stored.
pub const TARGET_FILE_MISSING: &'static str = "대상 사운드 파일이 존재하지 않습니다.";

/// Message when a new sound name is empty.
pub const EMPTY_NAME: &'static str = "사운드 이름이 비어 있습니다.";

/// Message when the library has no entry for the sound to rename.
pub const TARGET_MISSING: &'static str = "대상 사운드가 존재하지 않습니다.";

/// Message when a rename aims at a built-in sound.
pub const BUILTIN_NOT_RENAMABLE: &'static str = "내장 사운드는 이름을 변경할 수 없습니다.";

/// Message when a deletion aims at a built-in sound.
pub const BUILTIN_NOT_DELETABLE: &'static str = "내장 사운드는 삭제할 수 없습니다.";

/// Start of the message when a picked file's data is not base64.
pub const INVALID_FILE_DATA: &'static str = "invalid-file-data: ";

/// The folders in which new asset files are made.
pub open spec fn is_new_file_category(c: Seq<char>) -> bool {
    c == "images"@ || c == "fonts"@ || c == "sounds"@ || c == "sounds/originals"@
}

/// `p` is a new path `/assets/<category>/<uuid>.<extension>`.
pub open spec fn is_new_path(p: Seq<char>, category: Seq<char>, extension: Seq<char>) -> bool {
    exists|u: Seq<char>| is_uuid_text(u) && p == "/assets/"@ + category + "/"@ + u + "."@ + extension
}

/// Makes a new asset path; refused when the extension holds other than file-name
/// characters.
fn new_path(category: &str, extension: &str) -> (r: Result<String, String>)
    requires
        is_new_file_category(category@),
    ensures
        r is Ok <==> is_name_extension(extension@),
        r matches Ok(p) ==> is_new_path(p@, category@, extension@) && spec_is_web_asset_key(p@),
        r matches Err(e) ==> e@ == "invalid-web-asset-extension"@,
{
    let u = new_uuid_text();
    let a = concat("/assets/", category);
    let b = concat(a.as_str(), "/");
    let c = concat(b.as_str(), u.as_str());
    let d = concat(c.as_str(), ".");
    let path = concat(d.as_str(), extension);
    proof {
        let k = "/assets/"@ + category@ + "/"@ + u@ + "."@ + extension@;
        assert(path@ == k);
        assert(is_uuid_text(u@));
        reveal_strlit("sounds/originals");
        reveal_strlit("sounds");
        reveal_strlit("/originals");
        if category@ == "sounds/originals"@ {
            assert(category@ =~= "sounds"@ + "/originals"@);
            lemma_fresh_key("sounds"@, true, u@, extension@);
            assert(k =~= "/assets/"@ + "sounds"@ + "/originals"@ + "/"@ + u@ + "."@ + extension@);
        } else {
            lemma_fresh_key(category@, false, u@, extension@);
            assert(k =~= "/assets/"@ + category@ + Seq::<char>::empty() + "/"@ + u@ + "."@ + extension@);
        }
    }
    if !is_web_asset_key(path.as_str()) {
        return Err(string_of(&chars_of("invalid-web-asset-extension")));
    }
    Ok(path)
}

/// A new sound's path and a new original's path are never the same: the first has a
/// UUID character where the second has the `o` of `originals`.
proof fn lemma_sound_and_original_paths_differ(p: Seq<char>, q: Seq<char>, ext: Seq<char>, ext2: Seq<char>)
    requires
        is_new_path(p, "sounds"@, ext),
        is_new_path(q, "sounds/originals"@, ext2),
    ensures
        p != q,
{
    reveal_strlit("/assets/");
    reveal_strlit("sounds");
    reveal_strlit("sounds/originals");
    reveal_strlit("/");
    let u = choose|u: Seq<char>| is_uuid_text(u) && p == "/assets/"@ + "sounds"@ + "/"@ + u + "."@ + ext;
    let v = choose|v: Seq<char>| is_uuid_text(v) && q == "/assets/"@ + "sounds/originals"@ + "/"@ + v + "."@ + ext2;
    assert(p[15] == u[0]);
    assert(q[15] == 'o');
    assert(is_uuid_char(u[0]));
}

/// Bytes that start a WAV file: `RIFF`, a size, `WAVE`.
pub open spec fn is_wav(b: Seq<u8>) -> bool {
    b.len() >= 12 && b.take(4) == ascii_bytes("RIFF"@) && b.subrange(8, 12) == ascii_bytes("WAVE"@)
}

fn bytes_match(b: &[u8], t: &str) -> (r: bool)
    ensures
        r == (b@ == ascii_bytes(t@)),
{
    let chars = chars_of(t);
    if b.len() != chars.len() {
        assert(ascii_bytes(t@).len() == t@.len());
        return false;
    }
    let mut i: usize = 0;
    while i < b.len()
        invariant
            i <= b.len(),
            b.len() == chars.len(),
            chars@ == t@,
            forall|j: int| 0 <= j < i ==> b@[j] == (t@[j] as u8),
        decreases b.len() - i,
    {
        if b[i] != (chars[i] as u8) {
            assert(ascii_bytes(t@)[i as int] == (t@[i as int] as u8));
            return false;
        }
        i += 1;
    }
    assert(b@ =~= ascii_bytes(t@));
    true
}

/// The bytes of base64 text (trimmed), when they are a WAV file; refused when the text
/// is not base64.
fn wav_bytes(encoded: &str) -> (r: Result<Option<Vec<u8>>, String>)
    ensures
        r is Err <==> base64_decoded(trim(encoded@)) is None,
        r matches Err(e) ==> starts_with(e@, SOUND_DECODE_FAILED@),
        r matches Ok(o) ==> match base64_decoded(trim(encoded@)) {
            Some(b) => if is_wav(b) { o matches Some(v) && v@ == b } else { o is None },
            None => false,
        },
{
    let t = string_of(&trim_chars(&chars_of(encoded)));
    let bytes = match decode_base64(t.as_str()) {
        Ok(b) => b,
        Err(e) => {
            let msg = concat(SOUND_DECODE_FAILED, e.as_str());
            assert(msg@.take(SOUND_DECODE_FAILED@.len() as int) =~= SOUND_DECODE_FAILED@);
            return Err(msg);
        },
    };
    if bytes.len() >= 12 && bytes_match(&bytes.as_slice()[0..4], "RIFF") && bytes_match(
        &bytes.as_slice()[8..12],
        "WAVE",
    ) {
        Ok(Some(bytes))
    } else {
        Ok(None)
    }
}

/// A processed sound to store: its WAV data, an optional original with its extension, the
/// trim marks (as `f64` bit patterns) and a display name.
pub struct SaveWavRequest {
    pub wav_base64: String,
    pub file_name: Option<String>,
    pub original_base64: Option<String>,
    pub original_extension: Option<String>,
    pub trim_start_bits: Option<u64>,
    pub trim_end_bits: Option<u64>,
}

/// A processed sound that replaces a stored one.
pub struct UpdateWavRequest {
    pub sound_path: String,
    pub wav_base64: String,
    pub trim_start_bits: Option<u64>,
    pub trim_end_bits: Option<u64>,
    pub display_name: Option<String>,
}

/// What storing a processed sound gave: its new path, or why the data was not taken.
pub enum SaveOutcome {
    Saved(String),
    Rejected(String),
}

/// The original's text, trimmed, where there is any.
pub open spec fn original_text(o: Option<Seq<char>>) -> Option<Seq<char>> {
    match o {
        Some(t) => if trim(t).len() > 0 {
            Some(trim(t))
        } else {
            None
        },
        None => None,
    }
}

/// The lower-cased extension of an original, `wav` where none is given.
pub open spec fn original_extension(e: Option<Seq<char>>) -> Seq<char> {
    lower_seq(
        match e {
            Some(x) => x,
            None => "wav"@,
        },
    )
}

/// The library entry of a stored processed sound.
pub open spec fn saved_entry(request: SaveWavRequest, original: Option<Seq<char>>) -> SoundLibraryEntryV {
    SoundLibraryEntryV {
        hidden: false,
        source: SoundSource::Local,
        original_path: original,
        trim_start_bits: request.trim_start_bits,
        trim_end_bits: request.trim_end_bits,
        display_name: request.file_name.deep_view(),
    }
}

/// What storing a processed sound does, from document `s0` and writes `w0` to `s1` and
/// `w1`: empty or non-WAV data is not taken and nothing changes; data or an original that
/// is not base64, and an original extension with other than file-name characters, are
/// refused; otherwise the sound (and its original, under `originals/`) are written under
/// new paths and the library records the sound.
pub open spec fn wav_saved(
    request: SaveWavRequest,
    s0: AppStoreDataV,
    s1: AppStoreDataV,
    w0: Map<Seq<char>, Seq<u8>>,
    w1: Map<Seq<char>, Seq<u8>>,
    r: Result<SaveOutcome, String>,
) -> bool {
    let data = trim(request.wav_base64@);
    let ext = original_extension(request.original_extension.deep_view());
    if data.len() == 0 {
        r matches Ok(SaveOutcome::Rejected(m)) && m@ == EMPTY_SOUND_DATA@ && s1 == s0 && w1 == w0
    } else {
        match base64_decoded(data) {
            None => r matches Err(e) && starts_with(e@, SOUND_DECODE_FAILED@) && s1 == s0,
            Some(b) => if !is_wav(b) {
                r matches Ok(SaveOutcome::Rejected(m)) && m@ == INVALID_WAV@ && s1 == s0 && w1 == w0
            } else {
                match original_text(request.original_base64.deep_view()) {
                    None => r matches Ok(SaveOutcome::Saved(p)) && is_new_path(p@, "sounds"@, "wav"@)
                        && spec_is_web_asset_key(p@)
                        && w1 == w0.insert(p@, b) && s1 == (AppStoreDataV {
                        sound_library: s0.sound_library.insert(p@, saved_entry(request, None)),
                        ..s0
                    }),
                    Some(ot) => match base64_decoded(ot) {
                        None => r matches Err(e) && starts_with(e@, ORIGINAL_DECODE_FAILED@) && s1 == s0,
                        Some(ob) => if !is_name_extension(ext) {
                            r matches Err(e) && e@ == "invalid-web-asset-extension"@ && s1 == s0
                        } else {
                            r matches Ok(SaveOutcome::Saved(p)) && is_new_path(p@, "sounds"@, "wav"@)
                                && spec_is_web_asset_key(p@)
                                && exists|rel: Seq<char>|
                                #![trigger saved_entry(request, Some(rel))]
                                is_new_path("/assets/sounds/"@ + rel, "sounds/originals"@, ext)
                                    && spec_is_web_asset_key("/assets/sounds/"@ + rel)
                                    && w1 == w0.insert(p@, b).insert("/assets/sounds/"@ + rel, ob)
                                    && s1 == (AppStoreDataV {
                                    sound_library: s0.sound_library.insert(p@, saved_entry(request, Some(rel))),
                                    ..s0
                                })
                        },
                    },
                }
            }
        }
    }
}

/// Stores a processed WAV sound (and its original) as new files and adds it to the
/// library, as [`wav_saved`] states.
pub fn save_processed_wav(store: &mut AppStoreData, memory: &mut WebPresetAssets, request: &SaveWavRequest) -> (r:
    Result<SaveOutcome, String>)
    ensures
        final(memory).existing_view() == old(memory).existing_view(),
        wav_saved(
            *request,
            old(store).deep_view(),
            final(store).deep_view(),
            old(memory).writes_view(),
            final(memory).writes_view(),
            r,
        ),
{
    let trimmed = trim_chars(&chars_of(request.wav_base64.as_str()));
    if trimmed.len() == 0 {
        return Ok(SaveOutcome::Rejected(string_of(&chars_of(EMPTY_SOUND_DATA))));
    }
    let bytes = match wav_bytes(request.wav_base64.as_str())? {
        Some(b) => b,
        None => {
            return Ok(SaveOutcome::Rejected(string_of(&chars_of(INVALID_WAV))));
        },
    };
    proof {
        reveal_strlit("wav");
        assert forall|i: int| 0 <= i < "wav"@.len() implies crate::asset_key::is_asset_name_char(#[trigger] "wav"@[i]) by {}
    }
    let path = new_path("sounds", "wav")?;
    match memory.write(path.as_str(), bytes) {
        Ok(()) => {},
        Err(e) => {
            return Err(e.message());
        },
    }
    let original = match &request.original_base64 {
        Some(data) => {
            let t = trim_chars(&chars_of(data.as_str()));
            if t.len() > 0 {
                let ts = string_of(&t);
                let ob = match decode_base64(ts.as_str()) {
                    Ok(b) => b,
                    Err(e) => {
                        let msg = concat(ORIGINAL_DECODE_FAILED, e.as_str());
                        assert(msg@.take(ORIGINAL_DECODE_FAILED@.len() as int) =~= ORIGINAL_DECODE_FAILED@);
                        return Err(msg);
                    },
                };
                let ext = match &request.original_extension {
                    Some(e) => string_of(&to_lower(&chars_of(e.as_str()))),
                    None => string_of(&to_lower(&chars_of("wav"))),
                };
                let opath = new_path("sounds/originals", ext.as_str())?;
                match memory.write(opath.as_str(), ob) {
                    Ok(()) => {},
                    Err(e) => {
                        return Err(e.message());
                    },
                }
                proof {
                    lemma_sound_and_original_paths_differ(path@, opath@, "wav"@, ext@);
                }
                let oc = chars_of(opath.as_str());
                let dir = chars_of(crate::sounds::SOUNDS_DIRECTORY);
                proof {
                    reveal_strlit("/assets/sounds/");
                    reveal_strlit("/assets/");
                    reveal_strlit("sounds/originals");
                    let u = choose|u: Seq<char>| is_uuid_text(u) && opath@ == "/assets/"@ + "sounds/originals"@ + "/"@ + u + "."@ + ext@;
                    assert(opath@.take(15) =~= "/assets/sounds/"@);
                }
                let rel = string_of(&slice_chars(&oc, dir.len(), oc.len()));
                proof {
                    assert("/assets/sounds/"@ + rel@ =~= opath@);
                }
                Some(rel)
            } else {
                None
            }
        },
        None => None,
    };
    let entry = SoundLibraryEntry {
        hidden: false,
        source: SoundSource::Local,
        original_path: original,
        trim_start_bits: request.trim_start_bits,
        trim_end_bits: request.trim_end_bits,
        display_name: request.file_name.dup(),
    };
    let ghost s0 = store.deep_view();
    proof {
        assert(entry.deep_view() == saved_entry(*request, original.deep_view()));
    }
    store.sound_library.insert(path.clone(), entry);
    proof {
        assert(store.deep_view() == (AppStoreDataV { sound_library: s0.sound_library.insert(path@, saved_entry(*request, original.deep_view())), ..s0 }));
    }
    Ok(SaveOutcome::Saved(path))
}

/// Whether the library records the sound as built in.
pub open spec fn is_builtin(s: AppStoreDataV, path: Seq<char>) -> bool {
    s.sound_library.contains_key(path) && s.sound_library[path].source == SoundSource::Builtin
}

/// A library entry after a processed sound replaced its file: new trim marks, and the new
/// display name where one is given.
pub open spec fn updated_entry(e: SoundLibraryEntryV, request: UpdateWavRequest) -> SoundLibraryEntryV {
    SoundLibraryEntryV {
        trim_start_bits: request.trim_start_bits,
        trim_end_bits: request.trim_end_bits,
        display_name: match request.display_name {
            Some(n) => Some(n@),
            None => e.display_name,
        },
        ..e
    }
}

/// What replacing a stored sound by a processed one does: a path that is not a sound
/// path, a built-in sound, data that is not base64 and a sound that is not stored are
/// refused; non-WAV data is not taken and nothing changes; otherwise the file is
/// rewritten and the library entry, where there is one, takes the new marks and name.
pub open spec fn wav_updated(
    request: UpdateWavRequest,
    assets: Map<Seq<char>, Seq<char>>,
    s0: AppStoreDataV,
    s1: AppStoreDataV,
    w0: Map<Seq<char>, Seq<u8>>,
    w1: Map<Seq<char>, Seq<u8>>,
    r: Result<SaveOutcome, String>,
) -> bool {
    let path = request.sound_path@;
    if !is_sound_key(path) {
        r matches Err(e) && e@ == "invalid-web-sound-path"@ && s1 == s0
    } else if is_builtin(s0, path) {
        r matches Err(e) && e@ == BUILTIN_NOT_EDITABLE@ && s1 == s0
    } else {
        match base64_decoded(trim(request.wav_base64@)) {
            None => r matches Err(e) && starts_with(e@, SOUND_DECODE_FAILED@) && s1 == s0,
            Some(b) => if !is_wav(b) {
                r matches Ok(SaveOutcome::Rejected(m)) && m@ == INVALID_WAV@ && s1 == s0 && w1 == w0
            } else if !assets.contains_key(path) {
                r matches Err(e) && e@ == EDIT_TARGET_MISSING@ && s1 == s0
            } else {
                r matches Ok(SaveOutcome::Saved(p)) && p@ == path && w1 == w0.insert(path, b) && s1 == (
                if s0.sound_library.contains_key(path) {
                    AppStoreDataV {
                        sound_library: s0.sound_library.insert(path, updated_entry(s0.sound_library[path], request)),
                        ..s0
                    }
                } else {
                    s0
                })
            }
        }
    }
}

/// Replaces a stored sound's file by a processed WAV sound, as [`wav_updated`] states.
pub fn update_processed_wav(
    store: &mut AppStoreData,
    memory: &mut WebPresetAssets,
    assets: &WebAssetMap,
    request: &UpdateWavRequest,
) -> (r: Result<SaveOutcome, String>)
    ensures
        final(memory).existing_view() == old(memory).existing_view(),
        wav_updated(
            *request,
            assets@,
            old(store).deep_view(),
            final(store).deep_view(),
            old(memory).writes_view(),
            final(memory).writes_view(),
            r,
        ),
{
    let path = request.sound_path.as_str();
    crate::sounds::sound_key(path)?;
    match store.sound_library.get(path) {
        Some(entry) => {
            if entry.source == SoundSource::Builtin {
                return Err(string_of(&chars_of(BUILTIN_NOT_EDITABLE)));
            }
        },
        None => {},
    }
    let bytes = match wav_bytes(request.wav_base64.as_str())? {
        Some(b) => b,
        None => {
            return Ok(SaveOutcome::Rejected(string_of(&chars_of(INVALID_WAV))));
        },
    };
    if !assets.contains_key(path) {
        return Err(string_of(&chars_of(EDIT_TARGET_MISSING)));
    }
    match memory.write(path, bytes) {
        Ok(()) => {},
        Err(e) => {
            return Err(e.message());
        },
    }
    let current = match store.sound_library.get(path) {
        Some(entry) => Some(entry.dup()),
        None => None,
    };
    match current {
        Some(e) => {
            let display_name = match &request.display_name {
                Some(n) => Some(n.clone()),
                None => e.display_name,
            };
            let changed = SoundLibraryEntry {
                hidden: e.hidden,
                source: e.source,
                original_path: e.original_path,
                trim_start_bits: request.trim_start_bits,
                trim_end_bits: request.trim_end_bits,
                display_name,
            };
            store.sound_library.insert(request.sound_path.clone(), changed);
        },
        None => {},
    }
    Ok(SaveOutcome::Saved(request.sound_path.clone()))
}

/// What showing or hiding a sound does: a path that is not a sound path, or a sound that
/// is not stored, is refused; otherwise the library entry (a new one where there is none)
/// is hidden when `value` says so, or, with `enabled_mode`, when it does not.
pub open spec fn visibility_set(
    path: Seq<char>,
    enabled_mode: bool,
    value: bool,
    assets: Map<Seq<char>, Seq<char>>,
    s0: AppStoreDataV,
    s1: AppStoreDataV,
    r: Result<(), String>,
) -> bool {
    if !is_sound_key(path) {
        r matches Err(e) && e@ == "invalid-web-sound-path"@ && s1 == s0
    } else if !assets.contains_key(path) {
        r matches Err(e) && e@ == TARGET_FILE_MISSING@ && s1 == s0
    } else {
        r is Ok && s1 == (AppStoreDataV {
            sound_library: s0.sound_library.insert(
                path,
                SoundLibraryEntryV {
                    hidden: if enabled_mode {
                        !value
                    } else {
                        value
                    },
                    ..library_entry(s0, path)
                },
            ),
            ..s0
        })
    }
}

/// Shows or hides a stored sound, as [`visibility_set`] states.
pub fn set_sound_visibility(
    store: &mut AppStoreData,
    assets: &WebAssetMap,
    sound_path: &str,
    enabled_mode: bool,
    value: bool,
) -> (r: Result<(), String>)
    ensures
        visibility_set(sound_path@, enabled_mode, value, assets@, old(store).deep_view(), final(store).deep_view(), r),
{
    crate::sounds::sound_key(sound_path)?;
    if !assets.contains_key(sound_path) {
        return Err(string_of(&chars_of(TARGET_FILE_MISSING)));
    }
    let hidden = if enabled_mode {
        !value
    } else {
        value
    };
    let entry = match store.sound_library.get(sound_path) {
        Some(e) => SoundLibraryEntry { hidden, ..e.dup() },
        None => SoundLibraryEntry {
            hidden,
            source: SoundSource::Local,
            original_path: None,
            trim_start_bits: None,
            trim_end_bits: None,
            display_name: None,
        },
    };
    store.sound_library.insert(string_of(&chars_of(sound_path)), entry);
    Ok(())
}

/// What renaming a sound does: a path that is not a sound path, a sound that is not
/// stored, a name that is empty once trimmed, a sound the library does not record and a
/// built-in sound are refused; otherwise the entry takes the trimmed name, which is
/// returned.
pub open spec fn sound_renamed(
    path: Seq<char>,
    name: Seq<char>,
    assets: Map<Seq<char>, Seq<char>>,
    s0: AppStoreDataV,
    s1: AppStoreDataV,
    r: Result<String, String>,
) -> bool {
    if !is_sound_key(path) {
        r matches Err(e) && e@ == "invalid-web-sound-path"@ && s1 == s0
    } else if !assets.contains_key(path) {
        r matches Err(e) && e@ == TARGET_FILE_MISSING@ && s1 == s0
    } else if trim(name).len() == 0 {
        r matches Err(e) && e@ == EMPTY_NAME@ && s1 == s0
    } else if !s0.sound_library.contains_key(path) {
        r matches Err(e) && e@ == TARGET_MISSING@ && s1 == s0
    } else if is_builtin(s0, path) {
        r matches Err(e) && e@ == BUILTIN_NOT_RENAMABLE@ && s1 == s0
    } else {
        r matches Ok(n) && n@ == trim(name) && s1 == (AppStoreDataV {
            sound_library: s0.sound_library.insert(
                path,
                SoundLibraryEntryV { display_name: Some(trim(name)), ..s0.sound_library[path] },
            ),
            ..s0
        })
    }
}

/// Gives a stored sound a display name, as [`sound_renamed`] states.
pub fn rename_sound(store: &mut AppStoreData, assets: &WebAssetMap, sound_path: &str, display_name: &str) -> (r:
    Result<String, String>)
    ensures
        sound_renamed(sound_path@, display_name@, assets@, old(store).deep_view(), final(store).deep_view(), r),
{
    crate::sounds::sound_key(sound_path)?;
    if !assets.contains_key(sound_path) {
        return Err(string_of(&chars_of(TARGET_FILE_MISSING)));
    }
    let name = trim_chars(&chars_of(display_name));
    if name.len() == 0 {
        return Err(string_of(&chars_of(EMPTY_NAME)));
    }
    let entry = match store.sound_library.get(sound_path) {
        Some(e) => e.dup(),
        None => {
            return Err(string_of(&chars_of(TARGET_MISSING)));
        },
    };
    if entry.source == SoundSource::Builtin {
        return Err(string_of(&chars_of(BUILTIN_NOT_RENAMABLE)));
    }
    let trimmed = string_of(&name);
    store.sound_library.insert(
        string_of(&chars_of(sound_path)),
        SoundLibraryEntry { display_name: Some(trimmed.clone()), ..entry },
    );
    Ok(trimmed)
}

/// The files that deleting a sound removes: the sound where it is stored, then its
/// original where the library records one under a sound path and it is stored.
pub open spec fn deleted_files(s0: AppStoreDataV, path: Seq<char>, assets: Map<Seq<char>, Seq<char>>) -> Seq<
    Seq<char>,
> {
    (if assets.contains_key(path) {
        seq![path]
    } else {
        Seq::empty()
    }) + match original_path_of(s0, path) {
        Some(o) => if is_sound_key(o) && assets.contains_key(o) {
            seq![o]
        } else {
            Seq::empty()
        },
        None => Seq::empty(),
    }
}

/// What deleting a sound does: a path that is not a sound path, and a built-in sound, are
/// refused; otherwise the sound leaves the library and every element that plays it, and
/// the files to remove are returned.
pub open spec fn sound_deleted(
    path: Seq<char>,
    assets: Map<Seq<char>, Seq<char>>,
    s0: AppStoreDataV,
    s1: AppStoreDataV,
    r: Result<Vec<String>, String>,
) -> bool {
    if !is_sound_key(path) {
        r matches Err(e) && e@ == "invalid-web-sound-path"@ && s1 == s0
    } else if is_builtin(s0, path) {
        r matches Err(e) && e@ == BUILTIN_NOT_DELETABLE@ && s1 == s0
    } else {
        r matches Ok(d) && d.deep_view() == deleted_files(s0, path, assets) && s1 == sound_removed(s0, path)
    }
}

/// Deletes a sound, as [`sound_deleted`] states.
pub fn delete_sound(store: &mut AppStoreData, assets: &WebAssetMap, sound_path: &str) -> (r: Result<
    Vec<String>,
    String,
>)
    ensures
        sound_deleted(sound_path@, assets@, old(store).deep_view(), final(store).deep_view(), r),
{
    crate::sounds::sound_key(sound_path)?;
    let original = match store.sound_library.get(sound_path) {
        Some(entry) => {
            if entry.source == SoundSource::Builtin {
                return Err(string_of(&chars_of(BUILTIN_NOT_DELETABLE)));
            }
            entry.original_path.dup()
        },
        None => None,
    };
    let mut deletes: Vec<String> = Vec::new();
    if assets.contains_key(sound_path) {
        deletes.push(string_of(&chars_of(sound_path)));
    }
    match original {
        Some(o) => {
            let full = concat(crate::sounds::SOUNDS_DIRECTORY, o.as_str());
            if crate::sounds::sound_key(full.as_str()).is_ok() && assets.contains_key(full.as_str()) {
                deletes.push(full);
            }
        },
        None => {},
    }
    proof {
        reveal_strlit("/assets/sounds/");
        assert(deletes.deep_view() =~= deleted_files(store.deep_view(), sound_path@, assets@));
    }
    remove_sound_entry_and_references(store, sound_path);
    Ok(deletes)
}

/// The library once it agrees with the stored files: entries of files that are gone
/// leave, and every listed sound without an entry gets a local, shown one.
pub open spec fn reconciled(s0: AppStoreDataV, assets: Map<Seq<char>, Seq<char>>) -> Map<
    Seq<char>,
    SoundLibraryEntryV,
> {
    Map::new(
        |k: Seq<char>| assets.contains_key(k) && (s0.sound_library.contains_key(k) || spec_listed_key(k)),
        |k: Seq<char>| library_entry(s0, k),
    )
}

/// Makes the sound library agree with the stored files, as [`reconciled`] states; nothing
/// else of the document changes.
pub fn reconcile_library(store: &mut AppStoreData, assets: &WebAssetMap)
    ensures
        final(store).deep_view() == (AppStoreDataV {
            sound_library: reconciled(old(store).deep_view(), assets@),
            ..old(store).deep_view()
        }),
{
    let ghost s0 = store.deep_view();
    let ghost lib = store.sound_library@;
    store.sound_library.check_wf();
    assets.check_wf();
    let mut kept: StrMap<SoundLibraryEntry> = StrMap::new();
    let n = store.sound_library.len();
    let mut i: usize = 0;
    while i < n
        invariant
            n == store.sound_library.spec_len(),
            i <= n,
            store.sound_library.wf(),
            store.sound_library@ == lib,
            forall|k: Seq<char>|
                #[trigger] kept@.contains_key(k) ==> lib.contains_key(k) && assets@.contains_key(k)
                    && kept@[k] == lib[k],
            forall|j: int|
                0 <= j < i && assets@.contains_key(store.sound_library.spec_key(j))
                    ==> #[trigger] kept@.contains_key(store.sound_library.spec_key(j)),
        decreases n - i,
    {
        let k = store.sound_library.key_at(i);
        if assets.contains_key(k.as_str()) {
            let v = store.sound_library.value_at(i).dup();
            proof {
                store.sound_library.lemma_index(i as int);
            }
            kept.insert(k.clone(), v);
        }
        i += 1;
    }
    let m = assets.len();
    let mut i: usize = 0;
    while i < m
        invariant
            m == assets.spec_len(),
            i <= m,
            s0.sound_library == lib,
            assets.wf(),
            forall|k: Seq<char>|
                #[trigger] kept@.contains_key(k) ==> assets@.contains_key(k) && (lib.contains_key(k)
                    || spec_listed_key(k)) && kept@[k] == library_entry(s0, k),
            forall|k: Seq<char>|
                lib.contains_key(k) && assets@.contains_key(k) ==> #[trigger] kept@.contains_key(k),
            forall|j: int|
                0 <= j < i && spec_listed_key(assets.spec_key(j)) ==> #[trigger] kept@.contains_key(
                    assets.spec_key(j),
                ),
        decreases m - i,
    {
        let k = assets.key_at(i);
        proof {
            assets.lemma_index(i as int);
        }
        if crate::sounds::listed_key(k.as_str()) && !kept.contains_key(k.as_str()) {
            let d = SoundLibraryEntry {
                hidden: false,
                source: SoundSource::Local,
                original_path: None,
                trim_start_bits: None,
                trim_end_bits: None,
                display_name: None,
            };
            proof {
                assert(!lib.contains_key(k@));
                assert(d.deep_view() == library_entry(s0, k@));
            }
            kept.insert(k.clone(), d);
        }
        i += 1;
    }
    proof {
        assert forall|k: Seq<char>| #[trigger] reconciled(s0, assets@).contains_key(k) implies kept@.contains_key(k) by {
            if !lib.contains_key(k) {
                let j = assets.lemma_key(k);
            }
        }
        assert(kept@ =~= reconciled(s0, assets@));
    }
    store.sound_library = kept;
}

/// A file that the browser picked: its name, its media type and its bytes as base64 text.
pub struct WebFile {
    pub name: String,
    pub mime_type: String,
    pub data_base64: String,
}

/// What loading a picked image gave: the path it was stored under, or that it holds no
/// image.
pub enum LoadOutcome {
    Loaded(String),
    InvalidContent,
}

/// Every extension that image normalization gives holds only file-name characters.
proof fn lemma_normalized_image_extension_is_name(e: Option<Seq<char>>)
    ensures
        is_name_extension(spec_normalize_image_extension(e)),
{
    reveal_strlit("jpg");
    reveal_strlit("jpeg");
    reveal_strlit("webp");
    reveal_strlit("gif");
    reveal_strlit("bmp");
    reveal_strlit("svg");
    reveal_strlit("ico");
    reveal_strlit("avif");
    reveal_strlit("png");
    let x = spec_normalize_image_extension(e);
    assert forall|i: int| 0 <= i < x.len() implies crate::asset_key::is_asset_name_char(#[trigger] x[i]) by {}
}

/// What loading a picked image does: data that is not base64 is refused; bytes that hold
/// no image are not taken; otherwise they are written under a new image path with the
/// normalized extension of the file's name. A binary image signature is always taken;
/// whether other bytes are an SVG document the XML reader decides. The document does not
/// change.
pub open spec fn image_loaded(
    file: WebFile,
    w0: Map<Seq<char>, Seq<u8>>,
    w1: Map<Seq<char>, Seq<u8>>,
    r: Result<LoadOutcome, String>,
) -> bool {
    match base64_decoded(file.data_base64@) {
        None => r matches Err(e) && starts_with(e@, INVALID_FILE_DATA@),
        Some(b) => {
            &&& r is Ok
            &&& image_signature(signature_prefix(b.take(min_len(b.len())))) ==> (r matches Ok(LoadOutcome::Loaded(_)))
            &&& (r matches Ok(LoadOutcome::InvalidContent)) ==> w1 == w0
            &&& r matches Ok(LoadOutcome::Loaded(p)) ==> (exists|e: Option<Seq<char>>|
                #![trigger extension_read(file.name@, e)]
                extension_read(file.name@, e) && is_new_path(p@, "images"@, spec_normalize_image_extension(e)))
                && w1 == w0.insert(p@, b)
        },
    }
}

/// Loads a picked image file, as [`image_loaded`] states.
pub fn load_image_file(memory: &mut WebPresetAssets, file: &WebFile) -> (r: Result<LoadOutcome, String>)
    ensures
        final(memory).existing_view() == old(memory).existing_view(),
        image_loaded(*file, old(memory).writes_view(), final(memory).writes_view(), r),
{
    let bytes = match decode_base64(file.data_base64.as_str()) {
        Ok(b) => b,
        Err(e) => {
            let msg = concat(INVALID_FILE_DATA, e.as_str());
            assert(msg@.take(INVALID_FILE_DATA@.len() as int) =~= INVALID_FILE_DATA@);
            return Err(msg);
        },
    };
    if !image_bytes_have_supported_content(bytes.as_slice()) {
        return Ok(LoadOutcome::InvalidContent);
    }
    let name_ext = extension_of(file.name.as_str());
    let ext = match &name_ext {
        Some(e) => normalize_image_extension(Some(e.as_str())),
        None => normalize_image_extension(None),
    };
    proof {
        lemma_normalized_image_extension_is_name(name_ext.deep_view());
    }
    let path = new_path("images", ext.as_str())?;
    assert(extension_read(file.name@, name_ext.deep_view()));
    match memory.write(path.as_str(), bytes) {
        Ok(()) => {},
        Err(e) => {
            return Err(e.message());
        },
    }
    Ok(LoadOutcome::Loaded(path))
}

/// `ext` is the extension that a sound file named `name` is stored with: its lower-cased
/// extension (`wav` where it has none), as the platform reads a path that is not portable.
pub open spec fn sound_extension_read(name: Seq<char>, ext: Seq<char>) -> bool {
    is_portable_file_path(name) ==> ext == spec_extension(name, "wav"@)
}

/// What loading a picked sound does: data that is not base64, and an extension with other
/// than file-name characters, are refused; otherwise the bytes are written under a new
/// sound path with the file's lower-cased extension (`wav` where it has none) and the
/// library records a local, shown sound there.
pub open spec fn sound_loaded(
    file: WebFile,
    s0: AppStoreDataV,
    s1: AppStoreDataV,
    w0: Map<Seq<char>, Seq<u8>>,
    w1: Map<Seq<char>, Seq<u8>>,
    r: Result<String, String>,
) -> bool {
    match base64_decoded(file.data_base64@) {
        None => r matches Err(e) && starts_with(e@, INVALID_FILE_DATA@) && s1 == s0,
        Some(b) => exists|ext: Seq<char>|
            #![trigger sound_extension_read(file.name@, ext)]
            sound_extension_read(file.name@, ext) && if !is_name_extension(ext) {
                r matches Err(e) && e@ == "invalid-web-asset-extension"@ && s1 == s0
            } else {
                r matches Ok(p) && is_new_path(p@, "sounds"@, ext) && w1 == w0.insert(p@, b) && s1 == (
                AppStoreDataV {
                    sound_library: s0.sound_library.insert(
                        p@,
                        library_entry(AppStoreDataV { sound_library: Map::empty(), ..s0 }, p@),
                    ),
                    ..s0
                })
            },
    }
}

/// Loads a picked sound file, as [`sound_loaded`] states.
pub fn load_sound_file(store: &mut AppStoreData, memory: &mut WebPresetAssets, file: &WebFile) -> (r: Result<
    String,
    String,
>)
    ensures
        final(memory).existing_view() == old(memory).existing_view(),
        sound_loaded(
            *file,
            old(store).deep_view(),
            final(store).deep_view(),
            old(memory).writes_view(),
            final(memory).writes_view(),
            r,
        ),
{
    let bytes = match decode_base64(file.data_base64.as_str()) {
        Ok(b) => b,
        Err(e) => {
            let msg = concat(INVALID_FILE_DATA, e.as_str());
            assert(msg@.take(INVALID_FILE_DATA@.len() as int) =~= INVALID_FILE_DATA@);
            return Err(msg);
        },
    };
    let ext = crate::sounds::extension(file.name.as_str(), "wav");
    assert(sound_extension_read(file.name@, ext@));
    let path = new_path("sounds", ext.as_str())?;
    match memory.write(path.as_str(), bytes) {
        Ok(()) => {},
        Err(e) => {
            return Err(e.message());
        },
    }
    let entry = SoundLibraryEntry {
        hidden: false,
        source: SoundSource::Local,
        original_path: None,
        trim_start_bits: None,
        trim_end_bits: None,
        display_name: None,
    };
    store.sound_library.insert(path.clone(), entry);
    Ok(path)
}

/// A saved sound's original reads back as what was saved: once the host stores the files
/// that saving wrote, reading the original of the new sound gives the original's bytes
/// (as base64 text), and a sound saved without an original has none on record.
pub proof fn lemma_saved_original_reads_back(
    request: SaveWavRequest,
    s0: AppStoreDataV,
    s1: AppStoreDataV,
    w0: Map<Seq<char>, Seq<u8>>,
    w1: Map<Seq<char>, Seq<u8>>,
    r: Result<SaveOutcome, String>,
    path: Seq<char>,
    stored: Map<Seq<char>, Seq<char>>,
    out: Result<(String, String), String>,
)
    requires
        wav_saved(request, s0, s1, w0, w1, r),
        r matches Ok(SaveOutcome::Saved(p)) && p@ == path,
        forall|k: Seq<char>|
            #[trigger] w1.contains_key(k) ==> stored.contains_key(k) && base64_decoded(stored[k]) == Some(w1[k]),
        original_loaded(s1, path, stored, out),
    ensures
        match original_text(request.original_base64.deep_view()) {
            Some(ot) => out matches Ok(v) && v.0@ == base64_encoded(base64_decoded(ot)->0),
            None => out matches Err(e) && e@ == NO_ORIGINAL_INFO@,
        },
{
    reveal_strlit("/assets/sounds/");
    reveal_strlit("/assets/");
    reveal_strlit("sounds");
    reveal_strlit("/");
    let u = choose|u: Seq<char>| is_uuid_text(u) && path == "/assets/"@ + "sounds"@ + "/"@ + u + "."@ + "wav"@;
    assert(path.take(15) =~= "/assets/sounds/"@);
    assert(is_sound_key(path));
    match original_text(request.original_base64.deep_view()) {
        Some(ot) => {
            let ext = original_extension(request.original_extension.deep_view());
            let rel = choose|rel: Seq<char>|
                #![trigger saved_entry(request, Some(rel))]
                is_new_path("/assets/sounds/"@ + rel, "sounds/originals"@, ext) && spec_is_web_asset_key(
                    "/assets/sounds/"@ + rel,
                ) && w1 == w0.insert(path, base64_decoded(trim(request.wav_base64@))->0).insert(
                    "/assets/sounds/"@ + rel,
                    base64_decoded(ot)->0,
                ) && s1 == (AppStoreDataV {
                    sound_library: s0.sound_library.insert(path, saved_entry(request, Some(rel))),
                    ..s0
                });
            let o = "/assets/sounds/"@ + rel;
            assert(o.take(15) =~= "/assets/sounds/"@);
            assert(original_path_of(s1, path) == Some(o));
            assert(w1.contains_key(o));
        },
        None => {
            assert(original_path_of(s1, path) is None);
        },
    }
}

/// Reconciling twice changes nothing more: the library that one reconciliation leaves
/// already agrees with the stored files.
pub proof fn lemma_reconcile_idempotent(s0: AppStoreDataV, assets: Map<Seq<char>, Seq<char>>)
    ensures
        reconciled(AppStoreDataV { sound_library: reconciled(s0, assets), ..s0 }, assets) == reconciled(s0, assets),
{
    let s1 = AppStoreDataV { sound_library: reconciled(s0, assets), ..s0 };
    assert forall|k: Seq<char>| #[trigger] reconciled(s0, assets).contains_key(k) implies library_entry(s1, k)
        == library_entry(s0, k) by {}
    assert(reconciled(s1, assets) =~= reconciled(s0, assets));
}

/// Enabling a sound with a value is hiding it with the opposite value.
pub proof fn lemma_enable_is_inverse_hide(
    path: Seq<char>,
    value: bool,
    assets: Map<Seq<char>, Seq<char>>,
    s0: AppStoreDataV,
    s1: AppStoreDataV,
    r: Result<(), String>,
)
    ensures
        visibility_set(path, true, value, assets, s0, s1, r) == visibility_set(path, false, !value, assets, s0, s1, r),
{
}

} // verus!
