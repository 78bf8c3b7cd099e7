//! Building presets: local images, sounds and fonts are embedded so that a preset carries
//! every file it needs.
use crate::asset_refs::{
    decode_image_data_url, extension_of, is_remote_ref, normalize_font_extension,
    is_portable_file_path, normalize_image_extension, normalize_sound_extension, path_extension, prefixed,
    spec_decode_image_data_url, spec_is_remote_ref, spec_normalize_font_extension,
    spec_normalize_image_extension, spec_normalize_sound_extension, PRESET_LOCAL_IMAGE_PREFIX,
    PRESET_LOCAL_SOUND_PREFIX,
};
use crate::codec::{base64_decoded, base64_encoded, encode_base64, is_uuid_text, new_uuid_text};
use crate::looks::{
    collection_rewritten, lemma_collection_mono, rewrite_collection, rewrite_sprites,
    sprites_rewritten, with_images, with_sound, HasLook, LookField, RefStep,
};
use crate::model::{
    AppStoreData, AppStoreDataV, CustomFont, CustomFontV, CustomTab, EmbeddedLocalFont,
    EmbeddedLocalFontV, EmbeddedLocalImage, EmbeddedLocalImageV, EmbeddedLocalSound,
    EmbeddedLocalSoundV, FontSettings, FontType, GraphPosition, KeyPosition, KeyPositionV,
    KnobPosition, LayerGroupDef, PresetFile, PresetFileV, ReactiveSpritePosition,
    ReactiveSpritePositionV, SpritePoseV, StatPosition,
};
use crate::strmap::{Dup, StrMap};
use crate::text::{chars_of, contains_text, insert_text, str_eq, string_of, trim, trim_chars};
use vstd::prelude::*;

verus! {

/// What a preset builder reads from the host: stored bytes and how references name files.
pub trait PresetAssetReader {
    /// Bytes that a read of this path gives, if it succeeds.
    spec fn stored(&self, path: Seq<char>) -> Option<Seq<u8>>;

    /// Whether a file exists at this path.
    spec fn present(&self, path: Seq<char>) -> bool;

    /// Whether a path is a local path of this host.
    spec fn local(&self, path: Seq<char>) -> bool;

    /// The local file that an image reference names, if any.
    spec fn source_of(&self, reference: Seq<char>) -> Option<Seq<char>>;

    fn read(&self, path: &str) -> (r: Result<Vec<u8>, String>)
        ensures
            r is Ok <==> self.stored(path@) is Some,
            r matches Ok(b) ==> self.stored(path@) == Some(b@),
    ;

    fn has_file(&self, path: &str) -> (r: bool)
        ensures
            r == self.present(path@),
    ;

    fn is_local(&self, path: &str) -> (r: bool)
        ensures
            r == self.local(path@),
    ;

    fn image_source(&self, reference: &str) -> (r: Option<String>)
        ensures
            r.deep_view() == self.source_of(reference@),
    ;
}

/// The base64 text of these bytes decodes back to them.
pub open spec fn decodes_back(bytes: Seq<u8>) -> bool {
    base64_decoded(base64_encoded(bytes)) == Some(bytes)
}

/// The list holds an embedded image with this id (a UUID text), extension and bytes,
/// whose text decodes back to the bytes.
pub open spec fn embeds_image(
    list: Seq<EmbeddedLocalImageV>,
    id: Seq<char>,
    ext: Seq<char>,
    bytes: Seq<u8>,
) -> bool {
    &&& exists|i: int|
        0 <= i < list.len() && #[trigger] list[i] == EmbeddedLocalImageV {
            image_id: id,
            extension: Some(ext),
            data_base64: base64_encoded(bytes),
        }
    &&& decodes_back(bytes)
    &&& is_uuid_text(id)
}

/// The list holds an embedded sound with this id (a UUID text), extension and bytes,
/// whose text decodes back to the bytes.
pub open spec fn embeds_sound(
    list: Seq<EmbeddedLocalSoundV>,
    id: Seq<char>,
    ext: Seq<char>,
    bytes: Seq<u8>,
) -> bool {
    &&& exists|i: int|
        0 <= i < list.len() && #[trigger] list[i] == EmbeddedLocalSoundV {
            sound_id: id,
            extension: Some(ext),
            data_base64: base64_encoded(bytes),
        }
    &&& decodes_back(bytes)
    &&& is_uuid_text(id)
}

/// The reference is `prefix` followed by the id of an embedded image with these bytes.
pub open spec fn image_embedded_as(
    list: Seq<EmbeddedLocalImageV>,
    new: Option<Seq<char>>,
    ext: Seq<char>,
    bytes: Seq<u8>,
) -> bool {
    exists|id: Seq<char>|
        new == Some(PRESET_LOCAL_IMAGE_PREFIX@ + id) && #[trigger] embeds_image(list, id, ext, bytes)
}

/// The reference is `prefix` followed by the id of an embedded sound with these bytes.
pub open spec fn sound_embedded_as(
    list: Seq<EmbeddedLocalSoundV>,
    new: Option<Seq<char>>,
    ext: Seq<char>,
    bytes: Seq<u8>,
) -> bool {
    exists|id: Seq<char>|
        new == Some(PRESET_LOCAL_SOUND_PREFIX@ + id) && #[trigger] embeds_sound(list, id, ext, bytes)
}

/// A base64 text that decodes to bytes whose encoding is the text again.
pub open spec fn text_decodes_back(text: Seq<char>) -> bool {
    base64_decoded(text) matches Some(b) && base64_encoded(b) == text
}

/// `ext` is the image extension that a file at `p` is embedded with: the normalized
/// extension of a portable path, and for other paths that of whatever the platform reads.
pub open spec fn image_ext_fits(p: Seq<char>, ext: Seq<char>) -> bool {
    is_portable_file_path(p) ==> ext == spec_normalize_image_extension(path_extension(p))
}

/// `ext` is the sound extension that a file at `p` is embedded with, as
/// [`image_ext_fits`] says for images.
pub open spec fn sound_ext_fits(p: Seq<char>, ext: Seq<char>) -> bool {
    is_portable_file_path(p) ==> ext == spec_normalize_sound_extension(path_extension(p))
}

/// How a preset carries an image reference: empty texts and remote URLs stay; a data URL
/// and a readable local file become references to embedded images; any other reference,
/// such as a file missing on this machine, stays as it is.
pub open spec fn image_export_ok<A: PresetAssetReader>(
    assets: A,
    list: Seq<EmbeddedLocalImageV>,
    old: Option<Seq<char>>,
    new: Option<Seq<char>>,
) -> bool {
    match old {
        None => new == old,
        Some(o) => {
            let t = trim(o);
            if t.len() == 0 || spec_is_remote_ref(t) {
                new == old
            } else {
                match spec_decode_image_data_url(t) {
                    Some(decoded) => image_embedded_as(list, new, decoded.1, decoded.0),
                    None => match assets.source_of(t) {
                        Some(p) => if assets.present(p) && assets.stored(p) is Some {
                            exists|ext: Seq<char>|
                                #![trigger image_embedded_as(list, new, ext, assets.stored(p)->0)]
                                image_ext_fits(p, ext) && image_embedded_as(list, new, ext, assets.stored(p)->0)
                        } else {
                            new == old
                        },
                        None => new == old,
                    },
                }
            }
        },
    }
}

/// How a preset carries a sound reference: a readable local file becomes a reference to an
/// embedded sound; any other reference stays as it is.
pub open spec fn sound_export_ok<A: PresetAssetReader>(
    assets: A,
    list: Seq<EmbeddedLocalSoundV>,
    old: Option<Seq<char>>,
    new: Option<Seq<char>>,
) -> bool {
    match old {
        None => new == old,
        Some(o) => {
            let p = trim(o);
            if p.len() > 0 && assets.local(p) && assets.present(p) && assets.stored(p) is Some {
                exists|ext: Seq<char>|
                    #![trigger sound_embedded_as(list, new, ext, assets.stored(p)->0)]
                    sound_ext_fits(p, ext) && sound_embedded_as(list, new, ext, assets.stored(p)->0)
            } else {
                new == old
            }
        },
    }
}

/// State of the image rewrite of one export: the images embedded so far, and the id under
/// which each local file was embedded.
pub struct ImageExport<'a, A: PresetAssetReader> {
    pub assets: &'a A,
    pub embedded: Vec<EmbeddedLocalImage>,
    pub by_path: StrMap<String>,
    pub exts: Ghost<Map<Seq<char>, Seq<char>>>,
}

impl<'a, A: PresetAssetReader> RefStep for ImageExport<'a, A> {
    open spec fn inv(&self) -> bool {
        forall|p: Seq<char>|
            #[trigger] self.by_path@.contains_key(p) ==> self.assets.stored(p) is Some
                && image_ext_fits(p, self.exts@[p]) && embeds_image(
                self.embedded.deep_view(),
                self.by_path@[p],
                self.exts@[p],
                self.assets.stored(p)->0,
            )
    }

    open spec fn ok(&self, old: Option<Seq<char>>, new: Option<Seq<char>>) -> bool {
        image_export_ok(*self.assets, self.embedded.deep_view(), old, new)
    }

    open spec fn grows(&self, later: &Self) -> bool {
        &&& later.assets == self.assets
        &&& self.embedded.deep_view().is_prefix_of(later.embedded.deep_view())
    }

    proof fn lemma_grows_refl(&self) {
        assert(self.embedded.deep_view().is_prefix_of(self.embedded.deep_view()));
    }

    proof fn lemma_grows_trans(&self, mid: &Self, later: &Self) {
        let a = self.embedded.deep_view();
        let b = mid.embedded.deep_view();
        let c = later.embedded.deep_view();
        assert forall|i: int| 0 <= i < a.len() implies a[i] == c[i] by {
            assert(a[i] == b[i]);
        }
    }

    proof fn lemma_ok_mono(&self, later: &Self, old: Option<Seq<char>>, new: Option<Seq<char>>) {
        lemma_image_list_grows(self.embedded.deep_view(), later.embedded.deep_view(), new);
    }

    fn step(&mut self, r: Option<String>) -> (out: Option<String>) {
        let current = match r {
            None => {
                return None;
            },
            Some(c) => c,
        };
        let v = chars_of(current.as_str());
        let t = trim_chars(&v);
        if t.len() == 0 || is_remote_ref(&t) {
            return Some(current);
        }
        let ghost before = self.embedded.deep_view();
        match decode_image_data_url(&t) {
            Some((bytes, ext)) => {
                let id = new_uuid_text();
                let data = encode_base64(bytes.as_slice());
                let entry = EmbeddedLocalImage {
                    image_id: id.dup(),
                    extension: Some(ext),
                    data_base64: data,
                };
                self.embedded.push(entry);
                let out = prefixed(PRESET_LOCAL_IMAGE_PREFIX, id.as_str());
                proof {
                    let list = self.embedded.deep_view();
                    assert(list[before.len() as int] == entry.deep_view());
                    assert(embeds_image(list, id@, ext@, bytes@));
                    self.lemma_inv_after_push(before);
                }
                return Some(out);
            },
            None => {},
        }
        let ts = string_of(&t);
        let source = match self.assets.image_source(ts.as_str()) {
            None => {
                return Some(current);
            },
            Some(p) => p,
        };
        if !self.assets.has_file(source.as_str()) {
            return Some(current);
        }
        match self.by_path.get(source.as_str()) {
            Some(existing) => {
                let out = prefixed(PRESET_LOCAL_IMAGE_PREFIX, existing.as_str());
                proof {
                    assert(self.by_path@.contains_key(source@));
                    assert(image_embedded_as(
                        self.embedded.deep_view(),
                        Some(out@),
                        self.exts@[source@],
                        self.assets.stored(source@)->0,
                    ));
                }
                return Some(out);
            },
            None => {},
        }
        let bytes = match self.assets.read(source.as_str()) {
            Ok(b) => b,
            Err(_) => {
                return Some(current);
            },
        };
        let raw_ext = extension_of(source.as_str());
        let ext = match &raw_ext {
            Some(e) => normalize_image_extension(Some(e.as_str())),
            None => normalize_image_extension(None),
        };
        let id = new_uuid_text();
        let data = encode_base64(bytes.as_slice());
        let entry = EmbeddedLocalImage {
            image_id: id.dup(),
            extension: Some(ext),
            data_base64: data,
        };
        self.embedded.push(entry);
        proof {
            let list = self.embedded.deep_view();
            assert(list[before.len() as int] == entry.deep_view());
            assert(embeds_image(list, id@, ext@, bytes@));
            self.lemma_inv_after_push(before);
        }
        let ghost mid = *self;
        self.by_path.insert(source.dup(), id.dup());
        self.exts = Ghost(self.exts@.insert(source@, ext@));
        proof {
            assert forall|p: Seq<char>| #[trigger] self.by_path@.contains_key(p) implies self.assets.stored(
                p,
            ) is Some && image_ext_fits(p, self.exts@[p]) && embeds_image(
                self.embedded.deep_view(),
                self.by_path@[p],
                self.exts@[p],
                self.assets.stored(p)->0,
            ) by {
                if p != source@ {
                    assert(mid.by_path@.contains_key(p));
                }
            }
        }
        let out = prefixed(PRESET_LOCAL_IMAGE_PREFIX, id.as_str());
        proof {
            assert(image_ext_fits(source@, ext@));
            assert(image_embedded_as(self.embedded.deep_view(), Some(out@), ext@, bytes@));
        }
        Some(out)
    }
}

impl<'a, A: PresetAssetReader> ImageExport<'a, A> {
    proof fn lemma_inv_after_push(&self, before: Seq<EmbeddedLocalImageV>)
        requires
            before.is_prefix_of(self.embedded.deep_view()),
            forall|p: Seq<char>|
                #[trigger] self.by_path@.contains_key(p) ==> self.assets.stored(p) is Some
                    && image_ext_fits(p, self.exts@[p]) && embeds_image(
                    before,
                    self.by_path@[p],
                    self.exts@[p],
                    self.assets.stored(p)->0,
                ),
        ensures
            self.inv(),
    {
        assert forall|p: Seq<char>| #[trigger] self.by_path@.contains_key(p) implies self.assets.stored(
            p,
        ) is Some && image_ext_fits(p, self.exts@[p]) && embeds_image(
            self.embedded.deep_view(),
            self.by_path@[p],
            self.exts@[p],
            self.assets.stored(p)->0,
        ) by {
            let ext = self.exts@[p];
            let b = self.assets.stored(p)->0;
            let id = self.by_path@[p];
            let i = choose|i: int|
                0 <= i < before.len() && #[trigger] before[i] == EmbeddedLocalImageV {
                    image_id: id,
                    extension: Some(ext),
                    data_base64: base64_encoded(b),
                };
            assert(self.embedded.deep_view()[i] == before[i]);
        }
    }
}

/// An image reference that embeds into a list still does when the list grows.
proof fn lemma_image_list_grows(
    a: Seq<EmbeddedLocalImageV>,
    b: Seq<EmbeddedLocalImageV>,
    new: Option<Seq<char>>,
)
    requires
        a.is_prefix_of(b),
    ensures
        forall|ext: Seq<char>, bytes: Seq<u8>|
            image_embedded_as(a, new, ext, bytes) ==> image_embedded_as(b, new, ext, bytes),
{
    assert forall|ext: Seq<char>, bytes: Seq<u8>|
        image_embedded_as(a, new, ext, bytes) implies image_embedded_as(b, new, ext, bytes) by {
        let id = choose|id: Seq<char>|
            new == Some(PRESET_LOCAL_IMAGE_PREFIX@ + id) && #[trigger] embeds_image(
                a,
                id,
                ext,
                bytes,
            );
        let i = choose|i: int|
            0 <= i < a.len() && #[trigger] a[i] == EmbeddedLocalImageV {
                image_id: id,
                extension: Some(ext),
                data_base64: base64_encoded(bytes),
            };
        assert(b[i] == a[i]);
        assert(embeds_image(b, id, ext, bytes));
    }
}

/// State of the sound rewrite of one export: the sounds embedded so far, and the id under
/// which each local file was embedded.
pub struct SoundExport<'a, A: PresetAssetReader> {
    pub assets: &'a A,
    pub embedded: Vec<EmbeddedLocalSound>,
    pub by_path: StrMap<String>,
    pub exts: Ghost<Map<Seq<char>, Seq<char>>>,
}

impl<'a, A: PresetAssetReader> RefStep for SoundExport<'a, A> {
    open spec fn inv(&self) -> bool {
        forall|p: Seq<char>|
            #[trigger] self.by_path@.contains_key(p) ==> self.assets.stored(p) is Some
                && sound_ext_fits(p, self.exts@[p]) && embeds_sound(
                self.embedded.deep_view(),
                self.by_path@[p],
                self.exts@[p],
                self.assets.stored(p)->0,
            )
    }

    open spec fn ok(&self, old: Option<Seq<char>>, new: Option<Seq<char>>) -> bool {
        sound_export_ok(*self.assets, self.embedded.deep_view(), old, new)
    }

    open spec fn grows(&self, later: &Self) -> bool {
        &&& later.assets == self.assets
        &&& self.embedded.deep_view().is_prefix_of(later.embedded.deep_view())
    }

    proof fn lemma_grows_refl(&self) {
        assert(self.embedded.deep_view().is_prefix_of(self.embedded.deep_view()));
    }

    proof fn lemma_grows_trans(&self, mid: &Self, later: &Self) {
        let a = self.embedded.deep_view();
        let b = mid.embedded.deep_view();
        let c = later.embedded.deep_view();
        assert forall|i: int| 0 <= i < a.len() implies a[i] == c[i] by {
            assert(a[i] == b[i]);
        }
    }

    proof fn lemma_ok_mono(&self, later: &Self, old: Option<Seq<char>>, new: Option<Seq<char>>) {
        lemma_sound_list_grows(self.embedded.deep_view(), later.embedded.deep_view(), new);
    }

    fn step(&mut self, r: Option<String>) -> (out: Option<String>) {
        let current = match r {
            None => {
                return None;
            },
            Some(c) => c,
        };
        let v = chars_of(current.as_str());
        let t = trim_chars(&v);
        if t.len() == 0 {
            return Some(current);
        }
        let source = string_of(&t);
        if !self.assets.is_local(source.as_str()) || !self.assets.has_file(source.as_str()) {
            return Some(current);
        }
        match self.by_path.get(source.as_str()) {
            Some(existing) => {
                let out = prefixed(PRESET_LOCAL_SOUND_PREFIX, existing.as_str());
                proof {
                    assert(self.by_path@.contains_key(source@));
                    assert(sound_embedded_as(
                        self.embedded.deep_view(),
                        Some(out@),
                        self.exts@[source@],
                        self.assets.stored(source@)->0,
                    ));
                }
                return Some(out);
            },
            None => {},
        }
        let bytes = match self.assets.read(source.as_str()) {
            Ok(b) => b,
            Err(_) => {
                return Some(current);
            },
        };
        let ghost before = self.embedded.deep_view();
        let raw_ext = extension_of(source.as_str());
        let ext = match &raw_ext {
            Some(e) => normalize_sound_extension(Some(e.as_str())),
            None => normalize_sound_extension(None),
        };
        let id = new_uuid_text();
        let data = encode_base64(bytes.as_slice());
        let entry = EmbeddedLocalSound {
            sound_id: id.dup(),
            extension: Some(ext),
            data_base64: data,
        };
        self.embedded.push(entry);
        proof {
            let list = self.embedded.deep_view();
            assert(list[before.len() as int] == entry.deep_view());
            assert(embeds_sound(list, id@, ext@, bytes@));
            self.lemma_inv_after_push(before);
        }
        let ghost mid = *self;
        self.by_path.insert(source.dup(), id.dup());
        self.exts = Ghost(self.exts@.insert(source@, ext@));
        proof {
            assert forall|p: Seq<char>| #[trigger] self.by_path@.contains_key(p) implies self.assets.stored(
                p,
            ) is Some && sound_ext_fits(p, self.exts@[p]) && embeds_sound(
                self.embedded.deep_view(),
                self.by_path@[p],
                self.exts@[p],
                self.assets.stored(p)->0,
            ) by {
                if p != source@ {
                    assert(mid.by_path@.contains_key(p));
                }
            }
        }
        let out = prefixed(PRESET_LOCAL_SOUND_PREFIX, id.as_str());
        proof {
            assert(sound_ext_fits(source@, ext@));
            assert(sound_embedded_as(self.embedded.deep_view(), Some(out@), ext@, bytes@));
        }
        Some(out)
    }
}

impl<'a, A: PresetAssetReader> SoundExport<'a, A> {
    proof fn lemma_inv_after_push(&self, before: Seq<EmbeddedLocalSoundV>)
        requires
            before.is_prefix_of(self.embedded.deep_view()),
            forall|p: Seq<char>|
                #[trigger] self.by_path@.contains_key(p) ==> self.assets.stored(p) is Some
                    && sound_ext_fits(p, self.exts@[p]) && embeds_sound(
                    before,
                    self.by_path@[p],
                    self.exts@[p],
                    self.assets.stored(p)->0,
                ),
        ensures
            self.inv(),
    {
        assert forall|p: Seq<char>| #[trigger] self.by_path@.contains_key(p) implies self.assets.stored(
            p,
        ) is Some && sound_ext_fits(p, self.exts@[p]) && embeds_sound(
            self.embedded.deep_view(),
            self.by_path@[p],
            self.exts@[p],
            self.assets.stored(p)->0,
        ) by {
            let ext = self.exts@[p];
            let b = self.assets.stored(p)->0;
            let id = self.by_path@[p];
            let i = choose|i: int|
                0 <= i < before.len() && #[trigger] before[i] == EmbeddedLocalSoundV {
                    sound_id: id,
                    extension: Some(ext),
                    data_base64: base64_encoded(b),
                };
            assert(self.embedded.deep_view()[i] == before[i]);
        }
    }
}

/// A sound reference that embeds into a list still does when the list grows.
proof fn lemma_sound_list_grows(
    a: Seq<EmbeddedLocalSoundV>,
    b: Seq<EmbeddedLocalSoundV>,
    new: Option<Seq<char>>,
)
    requires
        a.is_prefix_of(b),
    ensures
        forall|ext: Seq<char>, bytes: Seq<u8>|
            sound_embedded_as(a, new, ext, bytes) ==> sound_embedded_as(b, new, ext, bytes),
{
    assert forall|ext: Seq<char>, bytes: Seq<u8>|
        sound_embedded_as(a, new, ext, bytes) implies sound_embedded_as(b, new, ext, bytes) by {
        let id = choose|id: Seq<char>|
            new == Some(PRESET_LOCAL_SOUND_PREFIX@ + id) && #[trigger] embeds_sound(
                a,
                id,
                ext,
                bytes,
            );
        let i = choose|i: int|
            0 <= i < a.len() && #[trigger] a[i] == EmbeddedLocalSoundV {
                sound_id: id,
                extension: Some(ext),
                data_base64: base64_encoded(bytes),
            };
        assert(b[i] == a[i]);
        assert(embeds_sound(b, id, ext, bytes));
    }
}

/// An element whose two images were carried into a preset, nothing else changed.
pub open spec fn image_look_exported<E: HasLook, A: PresetAssetReader>(
    assets: A,
    list: Seq<EmbeddedLocalImageV>,
    old: E::V,
    new: E::V,
) -> bool {
    let lo = E::look_of(old);
    let ln = E::look_of(new);
    &&& new == E::with_look(old, with_images(lo, ln.active_image, ln.inactive_image))
    &&& image_export_ok(assets, list, lo.active_image, ln.active_image)
    &&& image_export_ok(assets, list, lo.inactive_image, ln.inactive_image)
}

/// Every element of every tab had its images carried into a preset.
pub open spec fn images_exported<E: HasLook, A: PresetAssetReader>(
    assets: A,
    list: Seq<EmbeddedLocalImageV>,
    old: Map<Seq<char>, Seq<E::V>>,
    new: Map<Seq<char>, Seq<E::V>>,
) -> bool {
    &&& new.dom() == old.dom()
    &&& forall|k: Seq<char>|
        #[trigger] old.contains_key(k) ==> new[k].len() == old[k].len() && forall|i: int|
            0 <= i < old[k].len() ==> image_look_exported::<E, A>(
                assets,
                list,
                old[k][i],
                #[trigger] new[k][i],
            )
}

/// An element whose sound was carried into a preset, nothing else changed.
pub open spec fn sound_look_exported<E: HasLook, A: PresetAssetReader>(
    assets: A,
    list: Seq<EmbeddedLocalSoundV>,
    old: E::V,
    new: E::V,
) -> bool {
    let lo = E::look_of(old);
    let ln = E::look_of(new);
    &&& new == E::with_look(old, with_sound(lo, ln.sound_path))
    &&& sound_export_ok(assets, list, lo.sound_path, ln.sound_path)
}

/// Every element of every tab had its sound carried into a preset.
pub open spec fn sounds_exported<E: HasLook, A: PresetAssetReader>(
    assets: A,
    list: Seq<EmbeddedLocalSoundV>,
    old: Map<Seq<char>, Seq<E::V>>,
    new: Map<Seq<char>, Seq<E::V>>,
) -> bool {
    &&& new.dom() == old.dom()
    &&& forall|k: Seq<char>|
        #[trigger] old.contains_key(k) ==> new[k].len() == old[k].len() && forall|i: int|
            0 <= i < old[k].len() ==> sound_look_exported::<E, A>(
                assets,
                list,
                old[k][i],
                #[trigger] new[k][i],
            )
}

/// A pose whose override image was carried into a preset; its measured size stays only
/// while the reference stays.
pub open spec fn pose_exported<A: PresetAssetReader>(
    assets: A,
    list: Seq<EmbeddedLocalImageV>,
    old: SpritePoseV,
    new: SpritePoseV,
) -> bool {
    &&& new.pose_id == old.pose_id
    &&& image_export_ok(assets, list, old.image_override, new.image_override)
    &&& new.image_override_metrics == (if new.image_override == old.image_override {
        old.image_override_metrics
    } else {
        None
    })
}

/// A sprite whose base and pose images were carried into a preset; measured sizes stay
/// only while their references stay.
pub open spec fn sprite_exported<A: PresetAssetReader>(
    assets: A,
    list: Seq<EmbeddedLocalImageV>,
    old: ReactiveSpritePositionV,
    new: ReactiveSpritePositionV,
) -> bool {
    &&& new.id == old.id
    &&& image_export_ok(assets, list, old.base_image, new.base_image)
    &&& new.reference_natural_size == (if new.base_image == old.base_image {
        old.reference_natural_size
    } else {
        None
    })
    &&& new.poses.len() == old.poses.len()
    &&& forall|i: int|
        0 <= i < old.poses.len() ==> pose_exported(assets, list, old.poses[i], #[trigger] new.poses[i])
}

/// Every sprite of every tab had its images carried into a preset.
pub open spec fn sprites_exported<A: PresetAssetReader>(
    assets: A,
    list: Seq<EmbeddedLocalImageV>,
    old: Map<Seq<char>, Seq<ReactiveSpritePositionV>>,
    new: Map<Seq<char>, Seq<ReactiveSpritePositionV>>,
) -> bool {
    &&& new.dom() == old.dom()
    &&& forall|k: Seq<char>|
        #[trigger] old.contains_key(k) ==> new[k].len() == old[k].len() && forall|i: int|
            0 <= i < old[k].len() ==> sprite_exported(assets, list, old[k][i], #[trigger] new[k][i])
}

proof fn lemma_images_exported<'a, E: HasLook, A: PresetAssetReader>(
    s: &ImageExport<'a, A>,
    old: Map<Seq<char>, Seq<E::V>>,
    new: Map<Seq<char>, Seq<E::V>>,
)
    requires
        collection_rewritten::<E, ImageExport<'a, A>>(LookField::Images, s, old, new),
    ensures
        images_exported::<E, A>(*s.assets, s.embedded.deep_view(), old, new),
{
    assert forall|k: Seq<char>| #[trigger] old.contains_key(k) implies new[k].len() == old[k].len()
        && forall|i: int|
        0 <= i < old[k].len() ==> image_look_exported::<E, A>(
            *s.assets,
            s.embedded.deep_view(),
            old[k][i],
            #[trigger] new[k][i],
        ) by {
        assert forall|i: int| 0 <= i < old[k].len() implies image_look_exported::<E, A>(
            *s.assets,
            s.embedded.deep_view(),
            old[k][i],
            #[trigger] new[k][i],
        ) by {
            assert(crate::looks::look_rewritten::<E, ImageExport<'a, A>>(
                LookField::Images,
                s,
                old[k][i],
                new[k][i],
            ));
        }
    }
}

proof fn lemma_sounds_exported<'a, E: HasLook, A: PresetAssetReader>(
    s: &SoundExport<'a, A>,
    old: Map<Seq<char>, Seq<E::V>>,
    new: Map<Seq<char>, Seq<E::V>>,
)
    requires
        collection_rewritten::<E, SoundExport<'a, A>>(LookField::Sound, s, old, new),
    ensures
        sounds_exported::<E, A>(*s.assets, s.embedded.deep_view(), old, new),
{
    assert forall|k: Seq<char>| #[trigger] old.contains_key(k) implies new[k].len() == old[k].len()
        && forall|i: int|
        0 <= i < old[k].len() ==> sound_look_exported::<E, A>(
            *s.assets,
            s.embedded.deep_view(),
            old[k][i],
            #[trigger] new[k][i],
        ) by {
        assert forall|i: int| 0 <= i < old[k].len() implies sound_look_exported::<E, A>(
            *s.assets,
            s.embedded.deep_view(),
            old[k][i],
            #[trigger] new[k][i],
        ) by {
            assert(crate::looks::look_rewritten::<E, SoundExport<'a, A>>(
                LookField::Sound,
                s,
                old[k][i],
                new[k][i],
            ));
        }
    }
}

proof fn lemma_sprites_exported<'a, A: PresetAssetReader>(
    s: &ImageExport<'a, A>,
    old: Map<Seq<char>, Seq<ReactiveSpritePositionV>>,
    new: Map<Seq<char>, Seq<ReactiveSpritePositionV>>,
)
    requires
        sprites_rewritten(s, old, new),
    ensures
        sprites_exported(*s.assets, s.embedded.deep_view(), old, new),
{
    assert forall|k: Seq<char>| #[trigger] old.contains_key(k) implies new[k].len() == old[k].len()
        && forall|i: int|
        0 <= i < old[k].len() ==> sprite_exported(
            *s.assets,
            s.embedded.deep_view(),
            old[k][i],
            #[trigger] new[k][i],
        ) by {
        assert forall|i: int| 0 <= i < old[k].len() implies sprite_exported(
            *s.assets,
            s.embedded.deep_view(),
            old[k][i],
            #[trigger] new[k][i],
        ) by {
            assert(crate::looks::sprite_rewritten(s, old[k][i], new[k][i]));
            assert forall|j: int| 0 <= j < old[k][i].poses.len() implies pose_exported(
                *s.assets,
                s.embedded.deep_view(),
                old[k][i].poses[j],
                #[trigger] new[k][i].poses[j],
            ) by {
                assert(crate::looks::pose_rewritten(s, old[k][i].poses[j], new[k][i].poses[j]));
            }
        }
    }
}

/// Tab layouts of a preset with their images carried along, and the embedded images.
pub type ImagePayload = (
    StrMap<Vec<KeyPosition>>,
    StrMap<Vec<StatPosition>>,
    StrMap<Vec<GraphPosition>>,
    StrMap<Vec<KnobPosition>>,
    StrMap<Vec<ReactiveSpritePosition>>,
    Vec<EmbeddedLocalImage>,
);

/// Copies the layouts and embeds every image that they reference and that can be read
/// here. A local file referenced several times is embedded once.
pub fn build_preset_image_payload<A: PresetAssetReader>(
    assets: &A,
    key_positions: &StrMap<Vec<KeyPosition>>,
    stat_positions: &StrMap<Vec<StatPosition>>,
    graph_positions: &StrMap<Vec<GraphPosition>>,
    knob_positions: &StrMap<Vec<KnobPosition>>,
    sprite_positions: &StrMap<Vec<ReactiveSpritePosition>>,
) -> (r: Result<ImagePayload, String>)
    ensures
        r matches Ok(out) && ({
            let list = out.5.deep_view();
            &&& images_exported::<KeyPosition, A>(*assets, list, key_positions@, out.0@)
            &&& images_exported::<StatPosition, A>(*assets, list, stat_positions@, out.1@)
            &&& images_exported::<GraphPosition, A>(*assets, list, graph_positions@, out.2@)
            &&& images_exported::<KnobPosition, A>(*assets, list, knob_positions@, out.3@)
            &&& sprites_exported(*assets, list, sprite_positions@, out.4@)
        }),
{
    let mut keys = key_positions.copy();
    let mut stats = stat_positions.copy();
    let mut graphs = graph_positions.copy();
    let mut knobs = knob_positions.copy();
    let mut sprites = sprite_positions.copy();
    let mut state = ImageExport { assets, embedded: Vec::new(), by_path: StrMap::new(), exts: Ghost(Map::empty()) };
    let ghost s0 = state;
    rewrite_collection(LookField::Images, &mut keys, &mut state);
    let ghost s1 = state;
    rewrite_collection(LookField::Images, &mut stats, &mut state);
    let ghost s2 = state;
    rewrite_collection(LookField::Images, &mut graphs, &mut state);
    let ghost s3 = state;
    rewrite_collection(LookField::Images, &mut knobs, &mut state);
    let ghost s4 = state;
    rewrite_sprites(&mut sprites, &mut state);
    proof {
        s2.lemma_grows_trans(&s3, &s4);
        s2.lemma_grows_trans(&s4, &state);
        s1.lemma_grows_trans(&s2, &state);
        lemma_collection_mono::<KeyPosition, ImageExport<'_, A>>(
            LookField::Images,
            &s1,
            &state,
            key_positions@,
            keys@,
        );
        lemma_collection_mono::<StatPosition, ImageExport<'_, A>>(
            LookField::Images,
            &s2,
            &state,
            stat_positions@,
            stats@,
        );
        s3.lemma_grows_trans(&s4, &state);
        lemma_collection_mono::<GraphPosition, ImageExport<'_, A>>(
            LookField::Images,
            &s3,
            &state,
            graph_positions@,
            graphs@,
        );
        lemma_collection_mono::<KnobPosition, ImageExport<'_, A>>(
            LookField::Images,
            &s4,
            &state,
            knob_positions@,
            knobs@,
        );
        lemma_images_exported::<KeyPosition, A>(&state, key_positions@, keys@);
        lemma_images_exported::<StatPosition, A>(&state, stat_positions@, stats@);
        lemma_images_exported::<GraphPosition, A>(&state, graph_positions@, graphs@);
        lemma_images_exported::<KnobPosition, A>(&state, knob_positions@, knobs@);
        lemma_sprites_exported(&state, sprite_positions@, sprites@);
    }
    Ok((keys, stats, graphs, knobs, sprites, state.embedded))
}

/// Tab layouts of a preset with their sounds carried along, and the embedded sounds.
pub type SoundPayload = (
    StrMap<Vec<KeyPosition>>,
    StrMap<Vec<StatPosition>>,
    StrMap<Vec<GraphPosition>>,
    StrMap<Vec<KnobPosition>>,
    Vec<EmbeddedLocalSound>,
);

/// Copies the layouts and embeds every sound file that they reference and that can be
/// read here. A file referenced several times is embedded once.
pub fn build_preset_sound_payload<A: PresetAssetReader>(
    assets: &A,
    key_positions: &StrMap<Vec<KeyPosition>>,
    stat_positions: &StrMap<Vec<StatPosition>>,
    graph_positions: &StrMap<Vec<GraphPosition>>,
    knob_positions: &StrMap<Vec<KnobPosition>>,
) -> (r: Result<SoundPayload, String>)
    ensures
        r matches Ok(out) && ({
            let list = out.4.deep_view();
            &&& sounds_exported::<KeyPosition, A>(*assets, list, key_positions@, out.0@)
            &&& sounds_exported::<StatPosition, A>(*assets, list, stat_positions@, out.1@)
            &&& sounds_exported::<GraphPosition, A>(*assets, list, graph_positions@, out.2@)
            &&& sounds_exported::<KnobPosition, A>(*assets, list, knob_positions@, out.3@)
        }),
{
    let mut keys = key_positions.copy();
    let mut stats = stat_positions.copy();
    let mut graphs = graph_positions.copy();
    let mut knobs = knob_positions.copy();
    let mut state = SoundExport { assets, embedded: Vec::new(), by_path: StrMap::new(), exts: Ghost(Map::empty()) };
    rewrite_collection(LookField::Sound, &mut keys, &mut state);
    let ghost s1 = state;
    rewrite_collection(LookField::Sound, &mut stats, &mut state);
    let ghost s2 = state;
    rewrite_collection(LookField::Sound, &mut graphs, &mut state);
    let ghost s3 = state;
    rewrite_collection(LookField::Sound, &mut knobs, &mut state);
    proof {
        s2.lemma_grows_trans(&s3, &state);
        s1.lemma_grows_trans(&s2, &state);
        lemma_collection_mono::<KeyPosition, SoundExport<'_, A>>(
            LookField::Sound,
            &s1,
            &state,
            key_positions@,
            keys@,
        );
        lemma_collection_mono::<StatPosition, SoundExport<'_, A>>(
            LookField::Sound,
            &s2,
            &state,
            stat_positions@,
            stats@,
        );
        lemma_collection_mono::<GraphPosition, SoundExport<'_, A>>(
            LookField::Sound,
            &s3,
            &state,
            graph_positions@,
            graphs@,
        );
        lemma_sounds_exported::<KeyPosition, A>(&state, key_positions@, keys@);
        lemma_sounds_exported::<StatPosition, A>(&state, stat_positions@, stats@);
        lemma_sounds_exported::<GraphPosition, A>(&state, graph_positions@, graphs@);
        lemma_sounds_exported::<KnobPosition, A>(&state, knob_positions@, knobs@);
    }
    Ok((keys, stats, graphs, knobs, state.embedded))
}

/// The font family that an element names: its text trimmed, unless that is empty.
pub open spec fn family_of(o: Option<Seq<char>>) -> Option<Seq<char>> {
    match o {
        Some(f) => if trim(f).len() > 0 {
            Some(trim(f))
        } else {
            None
        },
        None => None,
    }
}

/// The element's text or its counter uses this font family.
pub open spec fn look_uses_family(l: KeyPositionV, f: Seq<char>) -> bool {
    family_of(l.font_family) == Some(f) || family_of(l.counter.font_family) == Some(f)
}

/// Some element of some tab uses this font family.
pub open spec fn collection_uses_family<E: HasLook>(m: Map<Seq<char>, Seq<E::V>>, f: Seq<char>) -> bool {
    exists|k: Seq<char>, i: int|
        m.contains_key(k) && 0 <= i < m[k].len() && #[trigger] look_uses_family(
            E::look_of(#[trigger] m[k][i]),
            f,
        )
}

/// Adds the family that an element names, if any.
fn insert_family(o: &Option<String>, out: &mut Vec<String>)
    requires
        old(out).deep_view().no_duplicates(),
    ensures
        final(out).deep_view().no_duplicates(),
        forall|f: Seq<char>|
            #[trigger] final(out).deep_view().contains(f) <==> (old(out).deep_view().contains(f)
                || family_of(o.deep_view()) == Some(f)),
{
    match o {
        Some(name) => {
            let t = trim_chars(&chars_of(name.as_str()));
            if t.len() > 0 {
                insert_text(out, string_of(&t));
            }
        },
        None => {},
    }
}

/// Adds the families that the elements of every tab use.
fn insert_collection_families<E: HasLook>(m: &StrMap<Vec<E>>, out: &mut Vec<String>)
    requires
        old(out).deep_view().no_duplicates(),
    ensures
        final(out).deep_view().no_duplicates(),
        forall|f: Seq<char>|
            #[trigger] final(out).deep_view().contains(f) <==> (old(out).deep_view().contains(f)
                || collection_uses_family::<E>(m@, f)),
{
    m.check_wf();
    let ghost start = out.deep_view();
    let n = m.len();
    let mut i: usize = 0;
    while i < n
        invariant
            n == m.spec_len(),
            i <= n,
            m.wf(),
            out.deep_view().no_duplicates(),
            forall|f: Seq<char>|
                #[trigger] out.deep_view().contains(f) <==> (start.contains(f) || exists|e: int, j: int|
                    0 <= e < i && 0 <= j < m.spec_value(e).len() && look_uses_family(
                        E::look_of(#[trigger] m.spec_value(e)[j]),
                        f,
                    )),
        decreases n - i,
    {
        let list = m.value_at(i);
        let mut j: usize = 0;
        while j < list.len()
            invariant
                n == m.spec_len(),
                i < n,
                j <= list.len(),
                list.deep_view() == m.spec_value(i as int),
                m.wf(),
                out.deep_view().no_duplicates(),
                forall|f: Seq<char>|
                    #[trigger] out.deep_view().contains(f) <==> (start.contains(f) || exists|
                        e: int,
                        t: int,
                    |
                        ((0 <= e < i && 0 <= t < m.spec_value(e).len()) || (e == i && 0 <= t < j))
                            && look_uses_family(E::look_of(#[trigger] m.spec_value(e)[t]), f)),
            decreases list.len() - j,
        {
            let look = list[j].look();
            let ghost before = out.deep_view();
            insert_family(&look.font_family, out);
            let ghost mid = out.deep_view();
            insert_family(&look.counter.font_family, out);
            proof {
                let lv = E::look_of(m.spec_value(i as int)[j as int]);
                assert(look.deep_view() == lv);
                assert forall|f: Seq<char>| #[trigger] out.deep_view().contains(f) <==> (start.contains(f)
                    || exists|e: int, t: int|
                    ((0 <= e < i && 0 <= t < m.spec_value(e).len()) || (e == i && 0 <= t < j + 1))
                        && look_uses_family(E::look_of(#[trigger] m.spec_value(e)[t]), f)) by {
                    if look_uses_family(lv, f) {
                        assert(((i == i && 0 <= j < j + 1)) && look_uses_family(
                            E::look_of(m.spec_value(i as int)[j as int]),
                            f,
                        ));
                    }
                    if exists|e: int, t: int|
                        ((0 <= e < i && 0 <= t < m.spec_value(e).len()) || (e == i && 0 <= t < j
                            + 1)) && look_uses_family(E::look_of(#[trigger] m.spec_value(e)[t]), f) {
                        let (e, t) = choose|e: int, t: int|
                            ((0 <= e < i && 0 <= t < m.spec_value(e).len()) || (e == i && 0 <= t
                                < j + 1)) && look_uses_family(E::look_of(#[trigger] m.spec_value(e)[t]), f);
                        if !(e == i && t == j) {
                            assert(before.contains(f));
                        }
                    }
                }
            }
            j += 1;
        }
        i += 1;
    }
    proof {
        assert forall|f: Seq<char>| #[trigger] out.deep_view().contains(f) <==> (start.contains(f)
            || collection_uses_family::<E>(m@, f)) by {
            if collection_uses_family::<E>(m@, f) {
                let (k, t) = choose|k: Seq<char>, t: int|
                    m@.contains_key(k) && 0 <= t < m@[k].len() && #[trigger] look_uses_family(
                        E::look_of(#[trigger] m@[k][t]),
                        f,
                    );
                let e = m.lemma_key(k);
                assert(look_uses_family(E::look_of(m.spec_value(e)[t]), f));
            }
            if exists|e: int, t: int|
                0 <= e < n && 0 <= t < m.spec_value(e).len() && look_uses_family(
                    E::look_of(#[trigger] m.spec_value(e)[t]),
                    f,
                ) {
                let (e, t) = choose|e: int, t: int|
                    0 <= e < n && 0 <= t < m.spec_value(e).len() && look_uses_family(
                        E::look_of(#[trigger] m.spec_value(e)[t]),
                        f,
                    );
                m.lemma_index(e);
                assert(m@.contains_key(m.spec_key(e)));
                assert(m@[m.spec_key(e)][t] == m.spec_value(e)[t]);
            }
        }
    }
}

/// Some element of some tab of the four collections uses this font family.
pub open spec fn uses_family(
    key_positions: Map<Seq<char>, Seq<KeyPositionV>>,
    stat_positions: Map<Seq<char>, Seq<crate::model::StatPositionV>>,
    graph_positions: Map<Seq<char>, Seq<crate::model::GraphPositionV>>,
    knob_positions: Map<Seq<char>, Seq<crate::model::KnobPositionV>>,
    f: Seq<char>,
) -> bool {
    ||| collection_uses_family::<KeyPosition>(key_positions, f)
    ||| collection_uses_family::<StatPosition>(stat_positions, f)
    ||| collection_uses_family::<GraphPosition>(graph_positions, f)
    ||| collection_uses_family::<KnobPosition>(knob_positions, f)
}

/// The font families that the elements use, trimmed, each once.
pub fn collect_used_font_families(
    key_positions: &StrMap<Vec<KeyPosition>>,
    stat_positions: &StrMap<Vec<StatPosition>>,
    graph_positions: &StrMap<Vec<GraphPosition>>,
    knob_positions: &StrMap<Vec<KnobPosition>>,
) -> (r: Vec<String>)
    ensures
        r.deep_view().no_duplicates(),
        forall|f: Seq<char>|
            #[trigger] r.deep_view().contains(f) <==> uses_family(
                key_positions@,
                stat_positions@,
                graph_positions@,
                knob_positions@,
                f,
            ),
{
    let mut used: Vec<String> = Vec::new();
    proof {
        assert(used.deep_view() =~= Seq::<Seq<char>>::empty());
    }
    insert_collection_families(key_positions, &mut used);
    insert_collection_families(stat_positions, &mut used);
    insert_collection_families(graph_positions, &mut used);
    insert_collection_families(knob_positions, &mut used);
    used
}

/// A font that a preset can carry without its file: no path, no style text, disabled.
pub open spec fn font_fallback(f: CustomFontV) -> CustomFontV {
    CustomFontV { local_path: None, css_content: None, enabled: false, ..f }
}

/// `ext` is the font extension that a file at `p` is embedded with, as
/// [`image_ext_fits`] says for images.
pub open spec fn font_ext_fits(p: Seq<char>, ext: Seq<char>) -> bool {
    is_portable_file_path(p) ==> ext == spec_normalize_font_extension(path_extension(p))
}

/// `exts` gives, for each font, the extension that its file would be embedded with.
pub open spec fn font_exts_fit(fonts: Seq<CustomFontV>, exts: Seq<Seq<char>>) -> bool {
    &&& exts.len() == fonts.len()
    &&& forall|i: int|
        0 <= i < fonts.len() ==> ((#[trigger] fonts[i]).local_path matches Some(p) ==> font_ext_fits(
            p,
            exts[i],
        ))
}

/// What a preset carries of one font: a local font whose file can be read is embedded, with
/// extension `ext`, and loses its path; a local font without a readable file is carried
/// disabled; other fonts stay as they are.
pub open spec fn font_export<A: PresetAssetReader>(assets: A, f: CustomFontV, ext: Seq<char>) -> (
    CustomFontV,
    Option<EmbeddedLocalFontV>,
) {
    if f.font_type != FontType::Local {
        (f, None)
    } else {
        match f.local_path {
            Some(p) => if trim(p).len() > 0 && assets.stored(p) is Some {
                (
                    CustomFontV { local_path: None, css_content: None, ..f },
                    Some(
                        EmbeddedLocalFontV {
                            font_id: f.id,
                            extension: Some(ext),
                            data_base64: base64_encoded(assets.stored(p)->0),
                        },
                    ),
                )
            } else {
                (font_fallback(f), None)
            },
            None => (font_fallback(f), None),
        }
    }
}

/// The fonts that a preset carries, in order, and their embedded files: only the fonts
/// whose name is among the used families, each file embedded with the extension that
/// `exts` gives at the font's index.
pub open spec fn fonts_exported<A: PresetAssetReader>(
    assets: A,
    fonts: Seq<CustomFontV>,
    exts: Seq<Seq<char>>,
    used: Set<Seq<char>>,
) -> (Seq<CustomFontV>, Seq<EmbeddedLocalFontV>)
    decreases fonts.len(),
{
    if fonts.len() == 0 {
        (Seq::empty(), Seq::empty())
    } else {
        let (kept, files) = fonts_exported(assets, fonts.drop_last(), exts.drop_last(), used);
        let f = fonts.last();
        if used.contains(f.name) {
            let (g, file) = font_export(assets, f, exts.last());
            (
                kept.push(g),
                match file {
                    Some(x) => files.push(x),
                    None => files,
                },
            )
        } else {
            (kept, files)
        }
    }
}

/// The extension that a font's file has on every platform where it is fixed by the text.
pub open spec fn font_portable_ext(f: CustomFontV) -> Seq<char> {
    match f.local_path {
        Some(p) => spec_normalize_font_extension(path_extension(p)),
        None => Seq::empty(),
    }
}

/// Carries the used fonts into a preset and embeds the files of local ones.
pub fn build_preset_font_payload<A: PresetAssetReader>(
    assets: &A,
    font_settings: &FontSettings,
    used_font_families: &Vec<String>,
) -> (r: Result<(FontSettings, Vec<EmbeddedLocalFont>), String>)
    ensures
        r matches Ok(out) && exists|exts: Seq<Seq<char>>|
            #![trigger fonts_exported(
                *assets,
                font_settings.custom_fonts.deep_view(),
                exts,
                used_font_families.deep_view().to_set(),
            )]
            font_exts_fit(font_settings.custom_fonts.deep_view(), exts) && (
                out.0.custom_fonts.deep_view(),
                out.1.deep_view(),
            ) == fonts_exported(
                *assets,
                font_settings.custom_fonts.deep_view(),
                exts,
                used_font_families.deep_view().to_set(),
            ),
        r matches Ok(out) ==> forall|i: int|
            0 <= i < out.1.len() ==> #[trigger] text_decodes_back(out.1@[i].data_base64@),
{
    let fonts = &font_settings.custom_fonts;
    let mut kept: Vec<CustomFont> = Vec::new();
    let mut files: Vec<EmbeddedLocalFont> = Vec::new();
    let ghost mut exts: Seq<Seq<char>> = Seq::empty();
    let mut i: usize = 0;
    while i < fonts.len()
        invariant
            i <= fonts.len(),
            fonts == &font_settings.custom_fonts,
            font_exts_fit(fonts.deep_view().take(i as int), exts),
            forall|j: int| 0 <= j < files.len() ==> #[trigger] text_decodes_back(files@[j].data_base64@),
            (kept.deep_view(), files.deep_view()) == fonts_exported(
                *assets,
                fonts.deep_view().take(i as int),
                exts,
                used_font_families.deep_view().to_set(),
            ),
        decreases fonts.len() - i,
    {
        let font = &fonts[i];
        let ghost before = fonts.deep_view().take(i as int);
        let ghost exts_before = exts;
        proof {
            assert(fonts.deep_view().take(i + 1).drop_last() =~= before);
            assert(fonts.deep_view().take(i + 1).last() == font.deep_view());
        }
        let ghost mut ext_here: Seq<char> = font_portable_ext(font.deep_view());
        if contains_text(used_font_families, font.name.as_str()) {
            let mut next = font.dup();
            match font.font_type {
                FontType::Local => {
                    let readable = match &font.local_path {
                        Some(path) => {
                            let t = trim_chars(&chars_of(path.as_str()));
                            if t.len() > 0 {
                                match assets.read(path.as_str()) {
                                    Ok(bytes) => Some((path.dup(), bytes)),
                                    Err(_) => None,
                                }
                            } else {
                                None
                            }
                        },
                        None => None,
                    };
                    match readable {
                        Some((path, bytes)) => {
                            let raw_ext = extension_of(path.as_str());
                            let ext = match &raw_ext {
                                Some(e) => normalize_font_extension(Some(e.as_str())),
                                None => normalize_font_extension(None),
                            };
                            proof {
                                ext_here = ext@;
                                assert(font_ext_fits(path@, ext@));
                            }
                            let data = encode_base64(bytes.as_slice());
                            let ghost before_files = files@;
                            files.push(
                                EmbeddedLocalFont {
                                    font_id: font.id.dup(),
                                    extension: Some(ext),
                                    data_base64: data,
                                },
                            );
                            proof {
                                assert forall|j: int| 0 <= j < files.len() implies #[trigger] text_decodes_back(
                                    files@[j].data_base64@,
                                ) by {
                                    if j < before_files.len() {
                                        assert(files@[j] == before_files[j]);
                                    }
                                }
                            }
                            next.local_path = None;
                            next.css_content = None;
                        },
                        None => {
                            next.local_path = None;
                            next.css_content = None;
                            next.enabled = false;
                        },
                    }
                },
                FontType::Web => {},
            }
            kept.push(next);
        }
        proof {
            exts = exts.push(ext_here);
            assert(exts.drop_last() =~= exts_before);
            assert(exts.last() == ext_here);
            let after = fonts.deep_view().take(i + 1);
            assert forall|j: int|
                0 <= j < after.len() implies ((#[trigger] after[j]).local_path matches Some(p)
                ==> font_ext_fits(p, exts[j])) by {
                if j < i {
                    assert(after[j] == before[j]);
                    assert(exts[j] == exts_before[j]);
                }
            }
        }
        i += 1;
    }
    proof {
        assert(fonts.deep_view().take(fonts.len() as int) =~= fonts.deep_view());
    }
    Ok((FontSettings { custom_fonts: kept }, files))
}

/// An element whose images and sound were carried into a preset, nothing else changed.
pub open spec fn look_exported<E: HasLook, A: PresetAssetReader>(
    assets: A,
    images: Seq<EmbeddedLocalImageV>,
    sounds: Seq<EmbeddedLocalSoundV>,
    old: E::V,
    new: E::V,
) -> bool {
    let lo = E::look_of(old);
    let ln = E::look_of(new);
    &&& new == E::with_look(
        old,
        with_sound(with_images(lo, ln.active_image, ln.inactive_image), ln.sound_path),
    )
    &&& image_export_ok(assets, images, lo.active_image, ln.active_image)
    &&& image_export_ok(assets, images, lo.inactive_image, ln.inactive_image)
    &&& sound_export_ok(assets, sounds, lo.sound_path, ln.sound_path)
}

/// Every element of every tab had its images and sound carried into a preset.
pub open spec fn elements_exported<E: HasLook, A: PresetAssetReader>(
    assets: A,
    images: Seq<EmbeddedLocalImageV>,
    sounds: Seq<EmbeddedLocalSoundV>,
    old: Map<Seq<char>, Seq<E::V>>,
    new: Map<Seq<char>, Seq<E::V>>,
) -> bool {
    &&& new.dom() == old.dom()
    &&& forall|k: Seq<char>|
        #[trigger] old.contains_key(k) ==> new[k].len() == old[k].len() && forall|i: int|
            0 <= i < old[k].len() ==> look_exported::<E, A>(
                assets,
                images,
                sounds,
                old[k][i],
                #[trigger] new[k][i],
            )
}

proof fn lemma_elements_exported<E: HasLook, A: PresetAssetReader>(
    assets: A,
    images: Seq<EmbeddedLocalImageV>,
    sounds: Seq<EmbeddedLocalSoundV>,
    old: Map<Seq<char>, Seq<E::V>>,
    mid: Map<Seq<char>, Seq<E::V>>,
    new: Map<Seq<char>, Seq<E::V>>,
)
    requires
        images_exported::<E, A>(assets, images, old, mid),
        sounds_exported::<E, A>(assets, sounds, mid, new),
    ensures
        elements_exported::<E, A>(assets, images, sounds, old, new),
{
    assert forall|k: Seq<char>| #[trigger] old.contains_key(k) implies new[k].len() == old[k].len()
        && forall|i: int|
        0 <= i < old[k].len() ==> look_exported::<E, A>(
            assets,
            images,
            sounds,
            old[k][i],
            #[trigger] new[k][i],
        ) by {
        assert(mid.contains_key(k));
        assert forall|i: int| 0 <= i < old[k].len() implies look_exported::<E, A>(
            assets,
            images,
            sounds,
            old[k][i],
            #[trigger] new[k][i],
        ) by {
            let o = old[k][i];
            let m = mid[k][i];
            let n = new[k][i];
            assert(image_look_exported::<E, A>(assets, images, o, m));
            assert(sound_look_exported::<E, A>(assets, sounds, m, n));
            let lo = E::look_of(o);
            let lm = E::look_of(m);
            let x = with_images(lo, lm.active_image, lm.inactive_image);
            E::lemma_with_look(o, x);
            let y = with_sound(lm, E::look_of(n).sound_path);
            E::lemma_with_look(m, y);
            assert(E::with_look(E::with_look(o, x), y) == E::with_look(o, y));
        }
    }
}

/// Tabs that the application always has.
pub const BUILTIN_TAB_IDS: [&'static str; 4] = ["4key", "5key", "6key", "8key"];

/// Whether a tab is one of the tabs that the application always has.
pub open spec fn is_builtin_tab(id: Seq<char>) -> bool {
    id == "4key"@ || id == "5key"@ || id == "6key"@ || id == "8key"@
}

pub fn builtin_tab(id: &str) -> (r: bool)
    ensures
        r == is_builtin_tab(id@),
{
    str_eq(id, BUILTIN_TAB_IDS[0]) || str_eq(id, BUILTIN_TAB_IDS[1]) || str_eq(id, BUILTIN_TAB_IDS[2])
        || str_eq(id, BUILTIN_TAB_IDS[3])
}

/// A list, or nothing where it is empty.
pub open spec fn listed<T>(v: Seq<T>) -> Option<Seq<T>> {
    if v.len() > 0 {
        Some(v)
    } else {
        None
    }
}

fn listed_vec<T: DeepView>(v: Vec<T>) -> (r: Option<Vec<T>>)
    ensures
        r.deep_view() == listed(v.deep_view()),
{
    if v.len() > 0 {
        Some(v)
    } else {
        None
    }
}

/// The font families used by the elements of the four collections.
pub open spec fn used_families(
    key_positions: Map<Seq<char>, Seq<KeyPositionV>>,
    stat_positions: Map<Seq<char>, Seq<crate::model::StatPositionV>>,
    graph_positions: Map<Seq<char>, Seq<crate::model::GraphPositionV>>,
    knob_positions: Map<Seq<char>, Seq<crate::model::KnobPositionV>>,
) -> Set<Seq<char>> {
    Set::new(|f: Seq<char>| uses_family(key_positions, stat_positions, graph_positions, knob_positions, f))
}

/// Everything that a preset carries of the tab layouts and fonts of a document.
pub open spec fn payload_exported<A: PresetAssetReader>(
    assets: A,
    source: AppStoreDataV,
    preset: PresetFileV,
) -> bool {
    let images = match preset.embedded_local_images {
        Some(l) => l,
        None => Seq::empty(),
    };
    let sounds = match preset.embedded_local_sounds {
        Some(l) => l,
        None => Seq::empty(),
    };
    let used = used_families(
        source.key_positions,
        source.stat_positions,
        source.graph_positions,
        source.knob_positions,
    );
    let fonts = source.font_settings.custom_fonts;
    &&& preset.embedded_local_images == listed(images)
    &&& preset.embedded_local_sounds == listed(sounds)
    &&& preset.key_positions matches Some(m) && elements_exported::<KeyPosition, A>(
        assets,
        images,
        sounds,
        source.key_positions,
        m,
    )
    &&& preset.stat_positions matches Some(m) && elements_exported::<StatPosition, A>(
        assets,
        images,
        sounds,
        source.stat_positions,
        m,
    )
    &&& preset.graph_positions matches Some(m) && elements_exported::<GraphPosition, A>(
        assets,
        images,
        sounds,
        source.graph_positions,
        m,
    )
    &&& preset.knob_positions matches Some(m) && elements_exported::<KnobPosition, A>(
        assets,
        images,
        sounds,
        source.knob_positions,
        m,
    )
    &&& preset.sprite_positions matches Some(m) && sprites_exported(
        assets,
        images,
        source.sprite_positions,
        m,
    )
    &&& exists|exts: Seq<Seq<char>>|
        #![trigger fonts_exported(assets, fonts, exts, used)]
        font_exts_fit(fonts, exts) && preset.font_settings == Some(
            crate::model::FontSettingsV { custom_fonts: fonts_exported(assets, fonts, exts, used).0 },
        ) && preset.embedded_local_fonts == listed(fonts_exported(assets, fonts, exts, used).1)
}

/// The parts of a preset that carry tab layouts, fonts and embedded files.
pub struct PresetPayload {
    pub key_positions: StrMap<Vec<KeyPosition>>,
    pub stat_positions: StrMap<Vec<StatPosition>>,
    pub graph_positions: StrMap<Vec<GraphPosition>>,
    pub knob_positions: StrMap<Vec<KnobPosition>>,
    pub sprite_positions: StrMap<Vec<ReactiveSpritePosition>>,
    pub font_settings: FontSettings,
    pub embedded_local_fonts: Option<Vec<EmbeddedLocalFont>>,
    pub embedded_local_images: Option<Vec<EmbeddedLocalImage>>,
    pub embedded_local_sounds: Option<Vec<EmbeddedLocalSound>>,
}

/// The payload of a preset whose other fields are given.
pub open spec fn with_payload(p: PresetFileV, payload: PresetPayload) -> PresetFileV {
    PresetFileV {
        key_positions: Some(payload.key_positions@),
        stat_positions: Some(payload.stat_positions@),
        graph_positions: Some(payload.graph_positions@),
        knob_positions: Some(payload.knob_positions@),
        sprite_positions: Some(payload.sprite_positions@),
        font_settings: Some(payload.font_settings.deep_view()),
        embedded_local_fonts: payload.embedded_local_fonts.deep_view(),
        embedded_local_images: payload.embedded_local_images.deep_view(),
        embedded_local_sounds: payload.embedded_local_sounds.deep_view(),
        ..p
    }
}

/// Embeds the images, sounds and used fonts of the given layouts.
fn build_payload<A: PresetAssetReader>(
    assets: &A,
    key_positions: &StrMap<Vec<KeyPosition>>,
    stat_positions: &StrMap<Vec<StatPosition>>,
    graph_positions: &StrMap<Vec<GraphPosition>>,
    knob_positions: &StrMap<Vec<KnobPosition>>,
    sprite_positions: &StrMap<Vec<ReactiveSpritePosition>>,
    font_settings: &FontSettings,
) -> (r: PresetPayload)
    ensures
        forall|p: PresetFileV, source: AppStoreDataV|
            source.key_positions == key_positions@ && source.stat_positions == stat_positions@
                && source.graph_positions == graph_positions@ && source.knob_positions
                == knob_positions@ && source.sprite_positions == sprite_positions@
                && source.font_settings == font_settings.deep_view() ==> #[trigger] payload_exported(
                *assets,
                source,
                #[trigger] with_payload(p, r),
            ),
{
    let used = collect_used_font_families(key_positions, stat_positions, graph_positions, knob_positions);
    let fonts = build_preset_font_payload(assets, font_settings, &used);
    let (fonts, font_files) = match fonts {
        Ok(x) => x,
        Err(_) => {
            proof {
                assert(false);
            }
            (FontSettings { custom_fonts: Vec::new() }, Vec::new())
        },
    };
    let images = build_preset_image_payload(
        assets,
        key_positions,
        stat_positions,
        graph_positions,
        knob_positions,
        sprite_positions,
    );
    let (keys, stats, graphs, knobs, sprites, image_files) = match images {
        Ok(x) => x,
        Err(_) => {
            proof {
                assert(false);
            }
            (StrMap::new(), StrMap::new(), StrMap::new(), StrMap::new(), StrMap::new(), Vec::new())
        },
    };
    let sounds = build_preset_sound_payload(assets, &keys, &stats, &graphs, &knobs);
    let (keys2, stats2, graphs2, knobs2, sound_files) = match sounds {
        Ok(x) => x,
        Err(_) => {
            proof {
                assert(false);
            }
            (StrMap::new(), StrMap::new(), StrMap::new(), StrMap::new(), Vec::new())
        },
    };
    let ghost images_v = image_files.deep_view();
    let ghost sounds_v = sound_files.deep_view();
    let ghost used_v = used.deep_view().to_set();
    let ghost exts = choose|exts: Seq<Seq<char>>|
        font_exts_fit(font_settings.custom_fonts.deep_view(), exts) && (
            fonts.custom_fonts.deep_view(),
            font_files.deep_view(),
        ) == #[trigger] fonts_exported(*assets, font_settings.custom_fonts.deep_view(), exts, used_v);
    proof {
        lemma_elements_exported::<KeyPosition, A>(*assets, images_v, sounds_v, key_positions@, keys@, keys2@);
        lemma_elements_exported::<StatPosition, A>(*assets, images_v, sounds_v, stat_positions@, stats@, stats2@);
        lemma_elements_exported::<GraphPosition, A>(*assets, images_v, sounds_v, graph_positions@, graphs@, graphs2@);
        lemma_elements_exported::<KnobPosition, A>(*assets, images_v, sounds_v, knob_positions@, knobs@, knobs2@);
        assert(used.deep_view().to_set() =~= used_families(
            key_positions@,
            stat_positions@,
            graph_positions@,
            knob_positions@,
        ));
    }
    let r = PresetPayload {
        key_positions: keys2,
        stat_positions: stats2,
        graph_positions: graphs2,
        knob_positions: knobs2,
        sprite_positions: sprites,
        font_settings: fonts,
        embedded_local_fonts: listed_vec(font_files),
        embedded_local_images: listed_vec(image_files),
        embedded_local_sounds: listed_vec(sound_files),
    };
    proof {
        assert forall|p: PresetFileV, source: AppStoreDataV|
            source.key_positions == key_positions@ && source.stat_positions == stat_positions@
                && source.graph_positions == graph_positions@ && source.knob_positions
                == knob_positions@ && source.sprite_positions == sprite_positions@
                && source.font_settings == font_settings.deep_view() implies #[trigger] payload_exported(
            *assets,
            source,
            #[trigger] with_payload(p, r),
        ) by {
            let q = with_payload(p, r);
            assert(fonts_exported(*assets, source.font_settings.custom_fonts, exts, used_v).1
                == font_files.deep_view());
            assert(q.embedded_local_images == listed(images_v));
            assert(q.embedded_local_sounds == listed(sounds_v));
            if images_v.len() == 0 {
                assert(images_v =~= Seq::<EmbeddedLocalImageV>::empty());
            }
            if sounds_v.len() == 0 {
                assert(sounds_v =~= Seq::<EmbeddedLocalSoundV>::empty());
            }
        }
    }
    r
}

/// The fields of a full preset that are the document's own values.
pub open spec fn full_preset_fields(preset: PresetFileV, source: AppStoreDataV) -> bool {
    &&& preset.keys == Some(source.keys)
    &&& preset.background_color == Some(source.background_color)
    &&& preset.note_settings == Some(source.note_settings)
    &&& preset.note_effect == Some(source.note_effect)
    &&& preset.laboratory_enabled == Some(source.laboratory_enabled)
    &&& preset.custom_tabs == Some(source.custom_tabs)
    &&& preset.tab_order == Some(source.tab_order)
    &&& preset.bar_count == Some(source.bar_count)
    &&& preset.selected_key_type == Some(source.selected_key_type)
    &&& preset.use_custom_css == Some(source.use_custom_css)
    &&& preset.custom_css == Some(source.custom_css)
    &&& preset.use_custom_js == Some(source.use_custom_js)
    &&& preset.custom_js == Some(source.custom_js)
    &&& preset.tab_note_overrides == Some(source.tab_note_overrides)
    &&& preset.layer_groups == Some(source.layer_groups)
    &&& preset.tab_css_overrides == Some(source.tab_css_overrides)
}

/// Builds a preset of the whole document. Every image, sound and used font that can be read
/// here is embedded; references to files that cannot be read stay as they are.
pub fn build_full_preset<A: PresetAssetReader>(snapshot: AppStoreData, assets: &A) -> (r: Result<
    PresetFile,
    String,
>)
    ensures
        r matches Ok(p) && payload_exported(*assets, snapshot.deep_view(), p.deep_view())
            && full_preset_fields(p.deep_view(), snapshot.deep_view()),
{
    let payload = build_payload(
        assets,
        &snapshot.key_positions,
        &snapshot.stat_positions,
        &snapshot.graph_positions,
        &snapshot.knob_positions,
        &snapshot.sprite_positions,
        &snapshot.font_settings,
    );
    let ghost sv = snapshot.deep_view();
    let AppStoreData {
        keys,
        background_color,
        note_settings,
        note_effect,
        laboratory_enabled,
        custom_tabs,
        tab_order,
        bar_count,
        selected_key_type,
        use_custom_css,
        custom_css,
        use_custom_js,
        custom_js,
        tab_note_overrides,
        layer_groups,
        tab_css_overrides,
        ..
    } = snapshot;
    let ghost pay = payload;
    let preset = PresetFile {
        keys: Some(keys),
        key_positions: Some(payload.key_positions),
        stat_positions: Some(payload.stat_positions),
        graph_positions: Some(payload.graph_positions),
        knob_positions: Some(payload.knob_positions),
        sprite_positions: Some(payload.sprite_positions),
        background_color: Some(background_color),
        note_settings: Some(note_settings),
        note_effect: Some(note_effect),
        laboratory_enabled: Some(laboratory_enabled),
        custom_tabs: Some(custom_tabs),
        tab_order: Some(tab_order),
        bar_count: Some(bar_count),
        selected_key_type: Some(selected_key_type),
        use_custom_css: Some(use_custom_css),
        custom_css: Some(custom_css),
        use_custom_js: Some(use_custom_js),
        custom_js: Some(custom_js),
        font_settings: Some(payload.font_settings),
        tab_note_overrides: Some(tab_note_overrides),
        layer_groups: Some(layer_groups),
        tab_css_overrides: Some(tab_css_overrides),
        embedded_local_fonts: payload.embedded_local_fonts,
        embedded_local_images: payload.embedded_local_images,
        embedded_local_sounds: payload.embedded_local_sounds,
    };
    proof {
        assert(with_payload(preset.deep_view(), pay) == preset.deep_view());
        assert(payload_exported(*assets, sv, with_payload(preset.deep_view(), pay)));
    }
    Ok(preset)
}

/// A map with at most the one entry of key `k` of `m`.
pub open spec fn single_of<V>(m: Map<Seq<char>, V>, k: Seq<char>) -> Map<Seq<char>, V> {
    if m.contains_key(k) {
        Map::empty().insert(k, m[k])
    } else {
        Map::empty()
    }
}

/// The entry of one key, alone in a new map, if the key is there.
pub fn single_entry<V: Dup>(m: &StrMap<V>, k: &str) -> (r: StrMap<V>)
    ensures
        r@ == single_of(m@, k@),
        r.wf(),
{
    let mut out: StrMap<V> = StrMap::new();
    match m.get(k) {
        Some(v) => {
            out.insert(string_of(&chars_of(k)), v.dup());
        },
        None => {},
    }
    proof {
        assert(out@ =~= single_of(m@, k@));
    }
    out
}

/// The first tab with this id.
pub open spec fn find_tab(tabs: Seq<crate::model::CustomTabV>, id: Seq<char>) -> Option<
    crate::model::CustomTabV,
>
    decreases tabs.len(),
{
    if tabs.len() == 0 {
        None
    } else if tabs[0].id == id {
        Some(tabs[0])
    } else {
        find_tab(tabs.drop_first(), id)
    }
}

fn find_custom_tab(tabs: &Vec<CustomTab>, id: &str) -> (r: Option<CustomTab>)
    ensures
        r.deep_view() == find_tab(tabs.deep_view(), id@),
{
    let mut i: usize = 0;
    assert(tabs.deep_view().skip(0) =~= tabs.deep_view());
    while i < tabs.len()
        invariant
            i <= tabs.len(),
            find_tab(tabs.deep_view(), id@) == find_tab(tabs.deep_view().skip(i as int), id@),
        decreases tabs.len() - i,
    {
        let ghost rest = tabs.deep_view().skip(i as int);
        assert(rest[0] == tabs[i as int].deep_view());
        assert(rest.drop_first() =~= tabs.deep_view().skip(i + 1));
        if str_eq(tabs[i].id.as_str(), id) {
            return Some(tabs[i].dup());
        }
        i += 1;
    }
    assert(tabs.deep_view().skip(i as int).len() == 0);
    None
}

/// The fields of a one-tab preset other than its layouts, fonts and files.
pub open spec fn tab_preset_fields(preset: PresetFileV, source: AppStoreDataV) -> bool {
    let tab = source.selected_key_type;
    &&& preset.keys == Some(single_of(source.keys, tab))
    &&& preset.background_color is None
    &&& preset.note_settings is None
    &&& preset.note_effect is None
    &&& preset.laboratory_enabled is None
    &&& preset.custom_tabs == (if is_builtin_tab(tab) {
        None
    } else {
        match find_tab(source.custom_tabs, tab) {
            Some(t) => Some(seq![t]),
            None => None,
        }
    })
    &&& preset.tab_order is None
    &&& preset.bar_count is None
    &&& preset.selected_key_type == Some(tab)
    &&& preset.use_custom_css is None
    &&& preset.custom_css is None
    &&& preset.use_custom_js is None
    &&& preset.custom_js is None
    &&& preset.tab_note_overrides == Some(single_of(source.tab_note_overrides, tab))
    &&& preset.layer_groups == Some(
        Map::empty().insert(
            tab,
            if source.layer_groups.contains_key(tab) {
                source.layer_groups[tab]
            } else {
                Seq::empty()
            },
        ),
    )
    &&& preset.tab_css_overrides == Some(single_of(source.tab_css_overrides, tab))
}

/// The document cut down to its selected tab, as far as a preset reads it.
pub open spec fn selected_tab_source(source: AppStoreDataV) -> AppStoreDataV {
    let tab = source.selected_key_type;
    AppStoreDataV {
        key_positions: single_of(source.key_positions, tab),
        stat_positions: single_of(source.stat_positions, tab),
        graph_positions: single_of(source.graph_positions, tab),
        knob_positions: single_of(source.knob_positions, tab),
        sprite_positions: single_of(source.sprite_positions, tab),
        ..source
    }
}

/// Builds a preset of the selected tab: its layouts, key bindings, note, layer and style
/// settings, its custom tab entry unless it is built in, and the fonts and files it uses.
pub fn build_tab_preset<A: PresetAssetReader>(snapshot: AppStoreData, assets: &A) -> (r: Result<
    PresetFile,
    String,
>)
    ensures
        r matches Ok(p) && payload_exported(
            *assets,
            selected_tab_source(snapshot.deep_view()),
            p.deep_view(),
        ) && tab_preset_fields(p.deep_view(), snapshot.deep_view()),
{
    let tab_id = snapshot.selected_key_type.dup();
    let keys = single_entry(&snapshot.key_positions, tab_id.as_str());
    let stats = single_entry(&snapshot.stat_positions, tab_id.as_str());
    let graphs = single_entry(&snapshot.graph_positions, tab_id.as_str());
    let knobs = single_entry(&snapshot.knob_positions, tab_id.as_str());
    let sprites = single_entry(&snapshot.sprite_positions, tab_id.as_str());
    let payload = build_payload(
        assets,
        &keys,
        &stats,
        &graphs,
        &knobs,
        &sprites,
        &snapshot.font_settings,
    );
    let tab_keys = single_entry(&snapshot.keys, tab_id.as_str());
    let custom_tabs = if builtin_tab(tab_id.as_str()) {
        None
    } else {
        match find_custom_tab(&snapshot.custom_tabs, tab_id.as_str()) {
            Some(t) => {
                let mut v: Vec<CustomTab> = Vec::new();
                v.push(t);
                Some(v)
            },
            None => None,
        }
    };
    let tab_note_overrides = single_entry(&snapshot.tab_note_overrides, tab_id.as_str());
    let groups = match snapshot.layer_groups.get(tab_id.as_str()) {
        Some(g) => g.dup(),
        None => {
            let v: Vec<LayerGroupDef> = Vec::new();
            assert(v.deep_view() =~= Seq::<crate::model::LayerGroupDefV>::empty());
            v
        },
    };
    let mut tab_layer_groups: StrMap<Vec<LayerGroupDef>> = StrMap::new();
    tab_layer_groups.insert(tab_id.dup(), groups);
    let tab_css_overrides = single_entry(&snapshot.tab_css_overrides, tab_id.as_str());
    let ghost sv = snapshot.deep_view();
    let ghost pay = payload;
    let preset = PresetFile {
        keys: Some(tab_keys),
        key_positions: Some(payload.key_positions),
        stat_positions: Some(payload.stat_positions),
        graph_positions: Some(payload.graph_positions),
        knob_positions: Some(payload.knob_positions),
        sprite_positions: Some(payload.sprite_positions),
        background_color: None,
        note_settings: None,
        note_effect: None,
        laboratory_enabled: None,
        custom_tabs,
        tab_order: None,
        bar_count: None,
        selected_key_type: Some(tab_id),
        use_custom_css: None,
        custom_css: None,
        use_custom_js: None,
        custom_js: None,
        font_settings: Some(payload.font_settings),
        tab_note_overrides: Some(tab_note_overrides),
        layer_groups: Some(tab_layer_groups),
        tab_css_overrides: Some(tab_css_overrides),
        embedded_local_fonts: payload.embedded_local_fonts,
        embedded_local_images: payload.embedded_local_images,
        embedded_local_sounds: payload.embedded_local_sounds,
    };
    proof {
        assert(with_payload(preset.deep_view(), pay) == preset.deep_view());
        let src = selected_tab_source(sv);
        assert(tab_id@ == sv.selected_key_type);
        assert(src.key_positions == keys@);
        assert(src.stat_positions == stats@);
        assert(src.graph_positions == graphs@);
        assert(src.knob_positions == knobs@);
        assert(src.sprite_positions == sprites@);
        assert(src.font_settings == snapshot.font_settings.deep_view());
        assert(payload_exported(*assets, src, with_payload(preset.deep_view(), pay)));
        let pv = preset.deep_view();
        assert(pv.keys == Some(single_of(sv.keys, sv.selected_key_type)));
        assert(pv.custom_tabs == (if is_builtin_tab(sv.selected_key_type) {
            None
        } else {
            match find_tab(sv.custom_tabs, sv.selected_key_type) {
                Some(t) => Some(seq![t]),
                None => None,
            }
        }));
        assert(pv.tab_note_overrides == Some(single_of(sv.tab_note_overrides, sv.selected_key_type)));
        assert(pv.tab_css_overrides == Some(single_of(sv.tab_css_overrides, sv.selected_key_type)));
        assert(tab_layer_groups@ =~= Map::empty().insert(
            sv.selected_key_type,
            if sv.layer_groups.contains_key(sv.selected_key_type) {
                sv.layer_groups[sv.selected_key_type]
            } else {
                Seq::empty()
            },
        ));
    }
    Ok(preset)
}

} // verus!
