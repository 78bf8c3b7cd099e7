//! Assets of the web host, held in memory: stored bytes never change, new bytes go to a
//! separate set of writes that the host stores together with the document.
use crate::asset_key::{
    asset_file_part, find_char, is_asset_name_char, is_web_asset_key, spec_is_web_asset_key,
};
use crate::asset_refs::{
    extension_of, image_source, lemma_web_key_portable, path_extension, spec_image_source,
};
use crate::codec::{
    base64_decoded, base64_encoded, decode_base64, encode_base64, is_uuid_char, new_uuid_text,
};
use crate::model::{
    ReactiveSpritePosition, ReactiveSpritePositionV, SpriteImageMetrics, SpritePose,
    SpriteReferenceNaturalSize,
};
use crate::preset_export::PresetAssetReader;
use crate::preset_restore::{base_size_filled, pose_size_filled, PresetAssetWriter};
use crate::strmap::{Dup, StrMap};
use crate::text::{
    chars_of, concat, is_ascii_alnum, lower_seq, seq_eq, starts_with, string_of, to_lower,
};
use vstd::prelude::*;

verus! {

broadcast use crate::strmap::lemma_bytes_deep_view;

/// Logical asset path to base64 text, as the host stores assets.
pub type WebAssetMap = StrMap<String>;

/// Why an asset operation was refused.
pub enum WebAssetError {
    /// A key of the stored assets is not a logical asset path.
    InvalidKey(String),
    /// The stored text of an asset is not base64.
    InvalidData(String),
    /// No asset has this path.
    Missing(String),
    /// A write was aimed at a path that is not a logical asset path.
    InvalidWriteKey,
    /// An asset folder other than those of images, fonts and sounds.
    InvalidDirectory,
}

impl WebAssetError {
    /// The error text that the host reports.
    pub fn message(&self) -> (r: String)
        ensures
            r@ == match self {
                WebAssetError::InvalidKey(k) => "invalid-web-asset-key: "@ + k@,
                WebAssetError::InvalidData(k) => "invalid-web-asset-data: "@ + k@,
                WebAssetError::Missing(k) => "missing-web-asset: "@ + k@,
                WebAssetError::InvalidWriteKey => "invalid-web-asset-key"@,
                WebAssetError::InvalidDirectory => "invalid-web-asset-directory"@,
            },
    {
        match self {
            WebAssetError::InvalidKey(k) => concat("invalid-web-asset-key: ", k.as_str()),
            WebAssetError::InvalidData(k) => concat("invalid-web-asset-data: ", k.as_str()),
            WebAssetError::Missing(k) => concat("missing-web-asset: ", k.as_str()),
            WebAssetError::InvalidWriteKey => string_of(&chars_of("invalid-web-asset-key")),
            WebAssetError::InvalidDirectory => string_of(&chars_of("invalid-web-asset-directory")),
        }
    }
}

/// The decoded bytes of every stored asset.
pub open spec fn decoded_assets(assets: Map<Seq<char>, Seq<char>>) -> Map<Seq<char>, Seq<u8>> {
    assets.map_values(|text: Seq<char>| base64_decoded(text)->0)
}

/// Whether every stored asset has a logical path and base64 text.
pub open spec fn assets_well_formed(assets: Map<Seq<char>, Seq<char>>) -> bool {
    forall|k: Seq<char>|
        #[trigger] assets.contains_key(k) ==> spec_is_web_asset_key(k) && base64_decoded(
            assets[k],
        ) is Some
}

/// The folders into which the preset rules restore assets.
pub open spec fn is_asset_directory(d: Seq<char>) -> bool {
    d == "/assets/images"@ || d == "/assets/fonts"@ || d == "/assets/sounds"@
}

/// A new asset path: a folder, `/`, a random UUID, `.` and an extension.
pub open spec fn is_fresh_path(p: Seq<char>, directory: Seq<char>, extension: Seq<char>) -> bool {
    exists|u: Seq<char>|
        u.len() == 36 && (forall|i: int| 0 <= i < 36 ==> is_uuid_char(#[trigger] u[i])) && p
            == directory + "/"@ + u + "."@ + extension
}

/// In-memory assets of one preparation: the stored assets and the new writes.
pub struct WebPresetAssets {
    existing: StrMap<Vec<u8>>,
    writes: StrMap<Vec<u8>>,
}

impl WebPresetAssets {
    /// Every stored and every written asset has a logical asset path.
    #[verifier::type_invariant]
    spec fn keys_are_asset_paths(self) -> bool {
        &&& forall|k: Seq<char>| #[trigger] self.existing@.contains_key(k) ==> spec_is_web_asset_key(k)
        &&& forall|k: Seq<char>| #[trigger] self.writes@.contains_key(k) ==> spec_is_web_asset_key(k)
    }

    /// Bytes of the stored assets.
    pub closed spec fn existing_view(&self) -> Map<Seq<char>, Seq<u8>> {
        self.existing@
    }

    /// Bytes written during this preparation.
    pub closed spec fn writes_view(&self) -> Map<Seq<char>, Seq<u8>> {
        self.writes@
    }

    /// What a read of a path gives: a written asset first, then a stored one.
    pub open spec fn lookup(&self, k: Seq<char>) -> Option<Seq<u8>> {
        if self.writes_view().contains_key(k) {
            Some(self.writes_view()[k])
        } else if self.existing_view().contains_key(k) {
            Some(self.existing_view()[k])
        } else {
            None
        }
    }

    /// Decodes the stored assets. Every key must be a logical asset path and every value
    /// base64 text; otherwise the first offending entry is reported.
    pub fn new(assets: &WebAssetMap) -> (r: Result<Self, WebAssetError>)
        ensures
            r is Ok <==> assets_well_formed(assets@),
            r matches Ok(a) ==> a.existing_view() == decoded_assets(assets@) && a.writes_view()
                == Map::<Seq<char>, Seq<u8>>::empty(),
            r matches Err(WebAssetError::InvalidKey(k)) ==> assets@.contains_key(k@)
                && !spec_is_web_asset_key(k@),
            r matches Err(WebAssetError::InvalidData(k)) ==> assets@.contains_key(k@)
                && base64_decoded(assets@[k@]) is None,
            r is Err ==> (r matches Err(WebAssetError::InvalidKey(_))) || (r matches Err(
                WebAssetError::InvalidData(_),
            )),
    {
        assets.check_wf();
        let mut existing: StrMap<Vec<u8>> = StrMap::new();
        let n = assets.len();
        let mut i: usize = 0;
        while i < n
            invariant
                n == assets.spec_len(),
                i <= n,
                assets.wf(),
                existing.wf(),
                forall|j: int|
                    0 <= j < i ==> spec_is_web_asset_key(#[trigger] assets.spec_key(j))
                        && base64_decoded(assets.spec_value(j)) is Some,
                existing@ == Map::new(
                    |k: Seq<char>| exists|j: int| 0 <= j < i && assets.spec_key(j) == k,
                    |k: Seq<char>| base64_decoded(assets@[k])->0,
                ),
            decreases n - i,
        {
            let key = assets.key_at(i);
            let text = assets.value_at(i);
            proof {
                assets.lemma_index(i as int);
            }
            if !is_web_asset_key(key.as_str()) {
                return Err(WebAssetError::InvalidKey(key.clone()));
            }
            let bytes = match decode_base64(text.as_str()) {
                Ok(b) => b,
                Err(_) => {
                    return Err(WebAssetError::InvalidData(key.clone()));
                },
            };
            let ghost before = existing@;
            existing.insert(key.clone(), bytes);
            proof {
                let target = Map::new(
                    |k: Seq<char>| exists|j: int| 0 <= j < i + 1 && assets.spec_key(j) == k,
                    |k: Seq<char>| base64_decoded(assets@[k])->0,
                );
                assert forall|k: Seq<char>| #[trigger] target.contains_key(k) implies existing@.contains_key(
                    k,
                ) && existing@[k] == target[k] by {
                    let j = choose|j: int| 0 <= j < i + 1 && assets.spec_key(j) == k;
                    assets.lemma_index(j);
                    if j < i {
                        assert(before.contains_key(k));
                    }
                }
                assert forall|k: Seq<char>| #[trigger] existing@.contains_key(k) implies target.contains_key(
                    k,
                ) by {
                    if k != key@ {
                        assert(before.contains_key(k));
                        let j = choose|j: int| 0 <= j < i && assets.spec_key(j) == k;
                        assert(0 <= j < i + 1 && assets.spec_key(j) == k);
                    } else {
                        assert(assets.spec_key(i as int) == k);
                    }
                }
                assert(existing@ =~= target);
            }
            i += 1;
        }
        proof {
            assert forall|k: Seq<char>| #[trigger] assets@.contains_key(k) implies spec_is_web_asset_key(
                k,
            ) && base64_decoded(assets@[k]) is Some by {
                let j = assets.lemma_key(k);
            }
            assert forall|k: Seq<char>| #[trigger] existing@.contains_key(k) <==> assets@.contains_key(
                k,
            ) by {
                if assets@.contains_key(k) {
                    let j = assets.lemma_key(k);
                }
                if existing@.contains_key(k) {
                    let j = choose|j: int| 0 <= j < n && assets.spec_key(j) == k;
                    assets.lemma_index(j);
                }
            }
            assert(existing@ =~= decoded_assets(assets@));
        }
        Ok(WebPresetAssets { existing, writes: StrMap::new() })
    }

    /// The writes of this preparation as base64 text, for the host to store.
    pub fn into_writes(self) -> (r: WebAssetMap)
        ensures
            r@.dom() == self.writes_view().dom(),
            forall|k: Seq<char>|
                #[trigger] r@.contains_key(k) ==> r@[k] == base64_encoded(self.writes_view()[k])
                    && base64_decoded(r@[k]) == Some(self.writes_view()[k]),
    {
        self.writes.check_wf();
        let mut out: StrMap<String> = StrMap::new();
        let n = self.writes.len();
        let mut i: usize = 0;
        while i < n
            invariant
                n == self.writes.spec_len(),
                i <= n,
                self.writes.wf(),
                out.wf(),
                out@ == Map::new(
                    |k: Seq<char>| exists|j: int| 0 <= j < i && self.writes.spec_key(j) == k,
                    |k: Seq<char>| base64_encoded(self.writes@[k]),
                ),
                forall|k: Seq<char>|
                    #[trigger] out@.contains_key(k) ==> base64_decoded(out@[k]) == Some(
                        self.writes@[k],
                    ),
            decreases n - i,
        {
            let key = self.writes.key_at(i);
            let bytes = self.writes.value_at(i);
            proof {
                self.writes.lemma_index(i as int);
            }
            let text = encode_base64(bytes.as_slice());
            let ghost before = out@;
            out.insert(key.clone(), text);
            proof {
                let target = Map::new(
                    |k: Seq<char>| exists|j: int| 0 <= j < i + 1 && self.writes.spec_key(j) == k,
                    |k: Seq<char>| base64_encoded(self.writes@[k]),
                );
                assert forall|k: Seq<char>| #[trigger] target.contains_key(k) implies out@.contains_key(
                    k,
                ) && out@[k] == target[k] by {
                    let j = choose|j: int| 0 <= j < i + 1 && self.writes.spec_key(j) == k;
                    self.writes.lemma_index(j);
                    if j < i {
                        assert(before.contains_key(k));
                    }
                }
                assert forall|k: Seq<char>| #[trigger] out@.contains_key(k) implies target.contains_key(
                    k,
                ) by {
                    if k != key@ {
                        assert(before.contains_key(k));
                        let j = choose|j: int| 0 <= j < i && self.writes.spec_key(j) == k;
                        assert(0 <= j < i + 1 && self.writes.spec_key(j) == k);
                    } else {
                        assert(self.writes.spec_key(i as int) == k);
                    }
                }
                assert(out@ =~= target);
                assert forall|k: Seq<char>| #[trigger] out@.contains_key(k) implies base64_decoded(
                    out@[k],
                ) == Some(self.writes@[k]) by {
                    if k != key@ {
                        assert(before.contains_key(k));
                    }
                }
            }
            i += 1;
        }
        proof {
            assert forall|k: Seq<char>| #[trigger] out@.contains_key(k) <==> self.writes@.contains_key(
                k,
            ) by {
                if self.writes@.contains_key(k) {
                    let j = self.writes.lemma_key(k);
                }
                if out@.contains_key(k) {
                    let j = choose|j: int| 0 <= j < n && self.writes.spec_key(j) == k;
                    self.writes.lemma_index(j);
                }
            }
            assert(out@.dom() =~= self.writes@.dom());
        }
        out
    }

    /// The bytes of an asset: a write of this preparation first, then a stored asset.
    pub fn bytes(&self, path: &str) -> (r: Result<Vec<u8>, WebAssetError>)
        ensures
            r is Ok <==> self.lookup(path@) is Some,
            r matches Ok(b) ==> Some(b@) == self.lookup(path@),
            r matches Err(e) ==> (e matches WebAssetError::Missing(k) && k@ == path@),
    {
        match self.writes.get(path) {
            Some(b) => Ok(b.clone()),
            None => match self.existing.get(path) {
                Some(b) => Ok(b.clone()),
                None => Err(WebAssetError::Missing(string_of(&chars_of(path)))),
            },
        }
    }

    /// Whether an asset with this path exists, written or stored.
    pub fn has(&self, path: &str) -> (r: bool)
        ensures
            r == (self.lookup(path@) is Some),
    {
        self.writes.contains_key(path) || self.existing.contains_key(path)
    }

    /// Adds bytes under a logical asset path. Other paths are refused and nothing changes.
    pub fn write(&mut self, path: &str, bytes: Vec<u8>) -> (r: Result<(), WebAssetError>)
        ensures
            r is Ok <==> spec_is_web_asset_key(path@),
            r is Ok ==> final(self).writes_view() == old(self).writes_view().insert(path@, bytes@),
            r is Err ==> final(self).writes_view() == old(self).writes_view() && r == Err::<
                (),
                WebAssetError,
            >(WebAssetError::InvalidWriteKey),
            final(self).existing_view() == old(self).existing_view(),
    {
        if !is_web_asset_key(path) {
            return Err(WebAssetError::InvalidWriteKey);
        }
        proof {
            use_type_invariant(&*self);
        }
        let mut writes: StrMap<Vec<u8>> = StrMap::new();
        std::mem::swap(&mut writes, &mut self.writes);
        writes.insert(string_of(&chars_of(path)), bytes);
        self.writes = writes;
        Ok(())
    }

    /// Accepts only the asset folders of images, fonts and sounds.
    pub fn create_dir_all(&self, path: &str) -> (r: Result<(), WebAssetError>)
        ensures
            r is Ok <==> is_asset_directory(path@),
            r is Err ==> r == Err::<(), WebAssetError>(WebAssetError::InvalidDirectory),
    {
        let p = chars_of(path);
        if seq_eq(&p, &chars_of("/assets/images")) || seq_eq(&p, &chars_of("/assets/fonts"))
            || seq_eq(&p, &chars_of("/assets/sounds")) {
            Ok(())
        } else {
            Err(WebAssetError::InvalidDirectory)
        }
    }

    /// Stores bytes as a new file `<directory>/<uuid>.<extension>` and returns its path.
    pub fn import_bytes(&mut self, bytes: Vec<u8>, directory: &str, extension: &str) -> (r: Result<
        String,
        WebAssetError,
    >)
        ensures
            final(self).existing_view() == old(self).existing_view(),
            r matches Ok(p) ==> is_fresh_path(p@, directory@, extension@) && spec_is_web_asset_key(
                p@,
            ) && final(self).writes_view() == old(self).writes_view().insert(p@, bytes@),
            r is Err ==> final(self).writes_view() == old(self).writes_view() && r == Err::<
                String,
                WebAssetError,
            >(WebAssetError::InvalidWriteKey),
            is_asset_directory(directory@) && is_plain_extension(extension@) ==> r is Ok,
    {
        let id = new_uuid_text();
        let a = concat(directory, "/");
        let b = concat(a.as_str(), id.as_str());
        let c = concat(b.as_str(), ".");
        let path = concat(c.as_str(), extension);
        proof {
            assert(is_fresh_path(path@, directory@, extension@));
            if is_asset_directory(directory@) && is_plain_extension(extension@) {
                lemma_fresh_path_is_key(directory@, id@, extension@);
            }
        }
        match self.write(path.as_str(), bytes) {
            Ok(()) => Ok(path),
            Err(e) => Err(e),
        }
    }
}

impl PresetAssetReader for WebPresetAssets {
    open spec fn stored(&self, path: Seq<char>) -> Option<Seq<u8>> {
        self.lookup(path)
    }

    open spec fn present(&self, path: Seq<char>) -> bool {
        self.lookup(path) is Some
    }

    open spec fn local(&self, path: Seq<char>) -> bool {
        spec_image_source(path) is Some
    }

    open spec fn source_of(&self, reference: Seq<char>) -> Option<Seq<char>> {
        spec_image_source(reference)
    }

    fn read(&self, path: &str) -> (r: Result<Vec<u8>, String>) {
        match self.bytes(path) {
            Ok(b) => Ok(b),
            Err(e) => Err(e.message()),
        }
    }

    fn has_file(&self, path: &str) -> (r: bool) {
        self.has(path)
    }

    fn is_local(&self, path: &str) -> (r: bool) {
        image_source(path).is_some()
    }

    fn image_source(&self, reference: &str) -> (r: Option<String>) {
        image_source(reference)
    }
}

/// Smallest width and height, in pixels, of a sprite image whose size is recorded.
pub const SPRITE_IMAGE_DIMENSION_MIN: u32 = 1;

/// Largest width and height, in pixels, of a sprite image whose size is recorded.
pub const SPRITE_IMAGE_DIMENSION_MAX: u32 = 16384;

/// The width and height that `imagesize::blob_size` reads from the bytes of an image.
pub uninterp spec fn blob_dimensions(bytes: Seq<u8>) -> Option<(usize, usize)>;

/// Headers that `imagesize` measures with `usize` arithmetic that overflows or truncates
/// where `usize` has 32 bits: ISO base media files (`ftyp` at byte 4, as HEIF and AVIF
/// are), whose box sizes it multiplies, and OpenEXR files, whose 64-bit extents it
/// narrows.
pub open spec fn wide_size_header(b: Seq<u8>) -> bool {
    ||| (b.len() >= 8 && b[4] == 0x66 && b[5] == 0x74 && b[6] == 0x79 && b[7] == 0x70)
    ||| (b.len() >= 4 && b[0] == 0x76 && b[1] == 0x2f && b[2] == 0x31 && b[3] == 0x01)
}

/// The size that the library reads from an image: what `imagesize` reads, except that
/// where `usize` has 32 bits the headers of [`wide_size_header`] are not measured.
pub open spec fn measured_size(b: Seq<u8>) -> Option<(usize, usize)> {
    if usize::BITS == 64 || !wide_size_header(b) {
        blob_dimensions(b)
    } else {
        None
    }
}

fn has_wide_size_header(b: &[u8]) -> (r: bool)
    ensures
        r == wide_size_header(b@),
{
    (b.len() >= 8 && b[4] == 0x66 && b[5] == 0x74 && b[6] == 0x79 && b[7] == 0x70) || (b.len() >= 4
        && b[0] == 0x76 && b[1] == 0x2f && b[2] == 0x31 && b[3] == 0x01)
}

/// Calls `imagesize::blob_size`, which reads the pixel size from an image's header; an
/// unknown or malformed format gives `None`. The size is a function of the bytes alone
/// where `usize` has 64 bits; where it has 32, the HEIF reader multiplies two `u32` sizes
/// in `usize` (which can overflow) and the OpenEXR reader narrows its extents, so those
/// headers are left out.
#[verifier::external_body]
fn image_blob_size(bytes: &[u8]) -> (r: Option<(usize, usize)>)
    requires
        usize::BITS == 64 || !wide_size_header(bytes@),
    ensures
        r == blob_dimensions(bytes@),
{
    match imagesize::blob_size(bytes) {
        Ok(size) => Some((size.width, size.height)),
        Err(_) => None,
    }
}

/// Whether a path's extension is `svg`, in any case.
pub open spec fn is_svg_extension(e: Option<Seq<char>>) -> bool {
    match e {
        Some(x) => lower_seq(x) == "svg"@,
        None => false,
    }
}

/// A pixel size within the recorded range.
pub open spec fn size_in_range(w: usize, h: usize) -> bool {
    SPRITE_IMAGE_DIMENSION_MIN <= w <= SPRITE_IMAGE_DIMENSION_MAX && SPRITE_IMAGE_DIMENSION_MIN <= h
        <= SPRITE_IMAGE_DIMENSION_MAX
}

/// The pixel size of a raster image that a reference names: an SVG file, a missing asset,
/// an unreadable image or a size out of range gives none.
pub open spec fn web_raster_size(host: WebPresetAssets, reference: Seq<char>) -> Option<(u32, u32)> {
    match spec_image_source(reference) {
        None => None,
        Some(p) => match host.lookup(p) {
            None => None,
            Some(bytes) => if is_svg_extension(path_extension(p)) {
                None
            } else {
                match measured_size(bytes) {
                    Some((w, h)) => if size_in_range(w, h) {
                        Some((w as u32, h as u32))
                    } else {
                        None
                    },
                    None => None,
                }
            },
        },
    }
}

/// The host's measuring of images, as a function of references.
pub open spec fn web_size_fn(host: WebPresetAssets) -> spec_fn(Seq<char>) -> Option<(u32, u32)> {
    |x: Seq<char>| web_raster_size(host, x)
}

impl WebPresetAssets {
    /// The pixel size of a raster image that a reference names.
    pub fn raster_size(&self, reference: &str) -> (r: Option<(u32, u32)>)
        ensures
            r == web_raster_size(*self, reference@),
    {
        let path = match image_source(reference) {
            Some(p) => p,
            None => {
                return None;
            },
        };
        let bytes = match self.bytes(path.as_str()) {
            Ok(b) => b,
            Err(_) => {
                return None;
            },
        };
        proof {
            use_type_invariant(self);
            if self.writes@.contains_key(path@) {
                lemma_web_key_portable(path@);
            } else {
                lemma_web_key_portable(path@);
            }
        }
        let ext = extension_of(path.as_str());
        let svg = match &ext {
            Some(e) => seq_eq(&to_lower(&chars_of(e.as_str())), &chars_of("svg")),
            None => false,
        };
        if svg {
            return None;
        }
        if !(usize::BITS == 64 || !has_wide_size_header(bytes.as_slice())) {
            return None;
        }
        match image_blob_size(bytes.as_slice()) {
            Some((w, h)) => {
                if 1 <= w && w <= 16384 && 1 <= h && h <= 16384 {
                    Some((w as u32, h as u32))
                } else {
                    None
                }
            },
            None => None,
        }
    }

    fn fill_sprite(&self, sprite: &ReactiveSpritePosition) -> (r: ReactiveSpritePosition)
        ensures
            sprite_filled(web_size_fn(*self), sprite.deep_view(), r.deep_view()),
    {
        let mut out = sprite.dup();
        if sprite.reference_natural_size.is_none() {
            match &sprite.base_image {
                Some(b) => {
                    if crate::asset_refs::has_text(&sprite.base_image) {
                        match self.raster_size(b.as_str()) {
                            Some((w, h)) => {
                                out.reference_natural_size = Some(
                                    SpriteReferenceNaturalSize {
                                        source: Some(b.dup()),
                                        width: w,
                                        height: h,
                                    },
                                );
                            },
                            None => {},
                        }
                    }
                },
                None => {},
            }
        }
        let mut poses: Vec<SpritePose> = Vec::new();
        let mut j: usize = 0;
        while j < sprite.poses.len()
            invariant
                j <= sprite.poses.len(),
                poses.deep_view().len() == j,
                forall|u: int|
                    0 <= u < j ==> #[trigger] poses.deep_view()[u] == (crate::model::SpritePoseV {
                        image_override_metrics: pose_size_filled(
                            web_size_fn(*self),
                            sprite.deep_view().poses[u],
                        ),
                        ..sprite.deep_view().poses[u]
                    }),
            decreases sprite.poses.len() - j,
        {
            let pose = &sprite.poses[j];
            let mut next = pose.dup();
            if pose.image_override_metrics.is_none() {
                match &pose.image_override {
                    Some(b) => {
                        if crate::asset_refs::has_text(&pose.image_override) {
                            match self.raster_size(b.as_str()) {
                                Some((w, h)) => {
                                    next.image_override_metrics = Some(
                                        SpriteImageMetrics { source: b.dup(), width: w, height: h },
                                    );
                                },
                                None => {},
                            }
                        }
                    },
                    None => {},
                }
            }
            proof {
                assert(pose.deep_view() == sprite.deep_view().poses[j as int]);
                assert(next.deep_view() == (crate::model::SpritePoseV {
                    image_override_metrics: pose_size_filled(web_size_fn(*self), pose.deep_view()),
                    ..pose.deep_view()
                }));
            }
            let ghost before = poses.deep_view();
            poses.push(next);
            proof {
                assert(poses.deep_view() =~= before.push(next.deep_view()));
                assert forall|u: int| 0 <= u < j + 1 implies #[trigger] poses.deep_view()[u] == (crate::model::SpritePoseV {
                    image_override_metrics: pose_size_filled(
                        web_size_fn(*self),
                        sprite.deep_view().poses[u],
                    ),
                    ..sprite.deep_view().poses[u]
                }) by {
                    if u < j {
                        assert(poses.deep_view()[u] == before[u]);
                    }
                }
            }
            j += 1;
        }
        out.poses = poses;
        out
    }
}

impl Default for WebPresetAssets {
    /// No stored assets and no writes.
    fn default() -> (r: Self)
        ensures
            r.existing_view() == Map::<Seq<char>, Seq<u8>>::empty(),
            r.writes_view() == Map::<Seq<char>, Seq<u8>>::empty(),
    {
        WebPresetAssets { existing: StrMap::new(), writes: StrMap::new() }
    }
}

impl PresetAssetWriter for WebPresetAssets {
    open spec fn content(&self, path: Seq<char>) -> Option<Seq<u8>> {
        self.lookup(path)
    }

    open spec fn file_present(&self, path: Seq<char>) -> bool {
        self.lookup(path) is Some
    }

    open spec fn local_file(&self, path: Seq<char>) -> bool {
        spec_image_source(path) is Some
    }

    open spec fn image_file_of(&self, reference: Seq<char>) -> Option<Seq<char>> {
        spec_image_source(reference)
    }

    open spec fn folder_ok(&self, dir: Seq<char>) -> bool {
        is_asset_directory(dir)
    }

    open spec fn accepts(&self, dir: Seq<char>, ext: Seq<char>) -> bool {
        is_asset_directory(dir) && is_plain_extension(ext)
    }

    open spec fn writable(&self, path: Seq<char>) -> bool {
        spec_is_web_asset_key(path)
    }

    open spec fn natural_size(&self, reference: Seq<char>) -> Option<(u32, u32)> {
        web_raster_size(*self, reference)
    }

    open spec fn grows_to(&self, later: &Self) -> bool {
        &&& later.existing_view() == self.existing_view()
        &&& forall|p: Seq<char>|
            #[trigger] self.writes_view().contains_key(p) ==> later.writes_view().contains_key(p)
    }

    proof fn lemma_grows_refl(&self) {
    }

    proof fn lemma_grows_trans(&self, mid: &Self, later: &Self) {
    }

    proof fn lemma_grows_rules(&self, later: &Self) {
    }

    proof fn lemma_fresh_writable(&self, dir: Seq<char>, id: Seq<char>, ext: Seq<char>) {
        lemma_fresh_path_is_key(dir, id, ext);
    }

    fn create_dir_all(&self, path: &str) -> (r: Result<(), String>) {
        match WebPresetAssets::create_dir_all(self, path) {
            Ok(()) => Ok(()),
            Err(e) => Err(e.message()),
        }
    }

    fn write(&mut self, path: &str, bytes: Vec<u8>) -> (r: Result<(), String>) {
        match WebPresetAssets::write(self, path, bytes) {
            Ok(()) => Ok(()),
            Err(e) => Err(e.message()),
        }
    }

    fn has_file(&self, path: &str) -> (r: bool) {
        self.has(path)
    }

    fn is_local(&self, path: &str) -> (r: bool) {
        image_source(path).is_some()
    }

    fn image_source(&self, reference: &str) -> (r: Option<String>) {
        image_source(reference)
    }

    fn import_image_bytes(&mut self, bytes: Vec<u8>, directory: &str, extension: &str) -> (r: Result<
        String,
        String,
    >) {
        match self.import_bytes(bytes, directory, extension) {
            Ok(p) => Ok(p),
            Err(e) => Err(e.message()),
        }
    }

    fn import_image_file(&mut self, source: &str, directory: &str, extension: &str) -> (r: Result<
        String,
        String,
    >) {
        let bytes = match self.bytes(source) {
            Ok(b) => b,
            Err(e) => {
                return Err(e.message());
            },
        };
        match self.import_bytes(bytes, directory, extension) {
            Ok(p) => Ok(p),
            Err(e) => Err(e.message()),
        }
    }

    fn fill_missing_sprite_image_metrics(&self, positions: &mut StrMap<Vec<ReactiveSpritePosition>>) {
        let ghost size = web_size_fn(*self);
        positions.check_wf();
        let ghost m0 = *positions;
        let n = positions.len();
        let mut i: usize = 0;
        while i < n
            invariant
                n == positions.spec_len(),
                n == m0.spec_len(),
                i <= n,
                positions.wf(),
                m0.wf(),
                size == web_size_fn(*self),
                forall|j: int| 0 <= j < n ==> positions.spec_key(j) == m0.spec_key(j),
                forall|j: int| i <= j < n ==> positions.spec_value(j) == m0.spec_value(j),
                forall|j: int|
                    0 <= j < i ==> positions.spec_value(j).len() == m0.spec_value(j).len() && forall|t: int|
                        0 <= t < m0.spec_value(j).len() ==> sprite_filled(
                            size,
                            m0.spec_value(j)[t],
                            #[trigger] positions.spec_value(j)[t],
                        ),
            decreases n - i,
        {
            let v = positions.replace_at(i, Vec::new());
            let ghost v0 = v.deep_view();
            let mut out: Vec<ReactiveSpritePosition> = Vec::new();
            let mut t: usize = 0;
            while t < v.len()
                invariant
                    t <= v.len(),
                    v0 == v.deep_view(),
                    out.deep_view().len() == t,
                    size == web_size_fn(*self),
                    forall|u: int| 0 <= u < t ==> sprite_filled(size, v0[u], #[trigger] out.deep_view()[u]),
                decreases v.len() - t,
            {
                let e = self.fill_sprite(&v[t]);
                let ghost before = out.deep_view();
                out.push(e);
                proof {
                    assert(out.deep_view() =~= before.push(e.deep_view()));
                    assert forall|u: int| 0 <= u < t + 1 implies sprite_filled(size, v0[u], #[trigger] out.deep_view()[u]) by {
                        if u < t {
                            assert(out.deep_view()[u] == before[u]);
                        }
                    }
                }
                t += 1;
            }
            let _ = positions.replace_at(i, out);
            i += 1;
        }
        proof {
            assert forall|k: Seq<char>| #[trigger] positions.view_map().contains_key(k) <==> m0.view_map().contains_key(k) by {
                if m0@.contains_key(k) {
                    let j = m0.lemma_key(k);
                    positions.lemma_index(j);
                }
                if positions@.contains_key(k) {
                    let j = positions.lemma_key(k);
                    m0.lemma_index(j);
                }
            }
            assert(positions@.dom() =~= m0@.dom());
            assert((|r: Seq<char>| self.natural_size(r)) =~= size);
            assert forall|k: Seq<char>| #[trigger] m0@.contains_key(k) implies positions@[k].len() == m0@[k].len()
                && forall|t2: int|
                0 <= t2 < m0@[k].len() ==> sprite_filled(size, m0@[k][t2], #[trigger] positions@[k][t2]) by {
                let j = m0.lemma_key(k);
                positions.lemma_index(j);
            }
        }
    }
}

/// A sprite whose missing sizes were filled in.
pub open spec fn sprite_filled(
    size: spec_fn(Seq<char>) -> Option<(u32, u32)>,
    o: ReactiveSpritePositionV,
    n: ReactiveSpritePositionV,
) -> bool {
    &&& n == ReactiveSpritePositionV {
        reference_natural_size: base_size_filled(size, o),
        poses: n.poses,
        ..o
    }
    &&& n.poses.len() == o.poses.len()
    &&& forall|j: int|
        0 <= j < o.poses.len() ==> #[trigger] n.poses[j] == crate::model::SpritePoseV {
            image_override_metrics: pose_size_filled(size, o.poses[j]),
            ..o.poses[j]
        }
}

proof fn lemma_find_char_concat(s1: Seq<char>, s2: Seq<char>, c: char)
    requires
        !s1.contains(c),
    ensures
        find_char(s1 + s2, c) == (if find_char(s2, c) < 0 {
            -1
        } else {
            s1.len() + find_char(s2, c)
        }),
    decreases s1.len(),
{
    if s1.len() == 0 {
        assert(s1 + s2 =~= s2);
    } else {
        assert((s1 + s2)[0] == s1[0]);
        assert(s1[0] != c);
        assert((s1 + s2).drop_first() =~= s1.drop_first() + s2);
        assert(!s1.drop_first().contains(c)) by {
            if s1.drop_first().contains(c) {
                let j = choose|j: int| 0 <= j < s1.drop_first().len() && s1.drop_first()[j] == c;
                assert(s1[j + 1] == c);
            }
        }
        lemma_find_char_concat(s1.drop_first(), s2, c);
    }
}

/// Text made of letters and digits only, and not empty.
pub open spec fn is_plain_extension(e: Seq<char>) -> bool {
    e.len() > 0 && forall|i: int| 0 <= i < e.len() ==> is_ascii_alnum(#[trigger] e[i])
}

/// A fresh path in an asset folder is a logical asset path.
pub proof fn lemma_fresh_path_is_key(dir: Seq<char>, u: Seq<char>, ext: Seq<char>)
    requires
        is_asset_directory(dir),
        u.len() == 36,
        forall|i: int| 0 <= i < 36 ==> is_uuid_char(#[trigger] u[i]),
        is_plain_extension(ext),
    ensures
        spec_is_web_asset_key(dir + "/"@ + u + "."@ + ext),
{
    reveal_strlit("/assets/");
    reveal_strlit("/assets/images");
    reveal_strlit("/assets/fonts");
    reveal_strlit("/assets/sounds");
    reveal_strlit("images");
    reveal_strlit("fonts");
    reveal_strlit("sounds");
    reveal_strlit("/");
    reveal_strlit(".");
    reveal_strlit("..");
    reveal_strlit("originals/");
    let k = dir + "/"@ + u + "."@ + ext;
    let cat = dir.skip(8);
    assert(dir =~= "/assets/"@ + cat);
    assert(cat == "images"@ || cat == "fonts"@ || cat == "sounds"@);
    let file = u + "."@ + ext;
    let rest = k.skip("/assets/"@.len() as int);
    assert(rest =~= cat + ("/"@ + file));
    assert(k.take(8) =~= "/assets/"@);
    assert(!cat.contains('/'));
    lemma_find_char_concat(cat, "/"@ + file, '/');
    assert(find_char("/"@ + file, '/') == 0);
    let p = find_char(rest, '/');
    assert(p == cat.len());
    assert(rest.take(p) =~= cat);
    assert(rest.skip(p + 1) =~= file);
    assert(is_uuid_char(u[0]));
    assert(file[0] == u[0]);
    assert(!starts_with(file, "originals/"@)) by {
        if starts_with(file, "originals/"@) {
            assert(file.take(10)[0] == 'o');
        }
    }
    assert(asset_file_part(cat, file) == file);
    assert(file.len() > 2);
    assert forall|i: int| 0 <= i < file.len() implies is_asset_name_char(#[trigger] file[i]) by {
        if i < 36 {
            assert(file[i] == u[i]);
            assert(is_uuid_char(u[i]));
        } else if i == 36 {
            assert(file[i] == '.');
        } else {
            assert(file[i] == ext[i - 37]);
        }
    }
}

/// Characters that an asset file name may hold.
pub open spec fn is_name_extension(ext: Seq<char>) -> bool {
    forall|i: int| 0 <= i < ext.len() ==> is_asset_name_char(#[trigger] ext[i])
}

/// A new asset path `<dir>/<uuid>.<ext>` in the folder of a category (for sounds also in
/// its originals folder) is a logical asset path exactly when the extension holds only
/// file-name characters.
pub proof fn lemma_fresh_key(cat: Seq<char>, originals: bool, u: Seq<char>, ext: Seq<char>)
    requires
        cat == "images"@ || cat == "fonts"@ || cat == "sounds"@,
        originals ==> cat == "sounds"@,
        u.len() == 36,
        forall|i: int| 0 <= i < 36 ==> is_uuid_char(#[trigger] u[i]),
    ensures
        spec_is_web_asset_key(
            "/assets/"@ + cat + (if originals { "/originals"@ } else { Seq::empty() }) + "/"@ + u + "."@ + ext,
        ) <==> is_name_extension(ext),
{
    reveal_strlit("/assets/");
    reveal_strlit("images");
    reveal_strlit("fonts");
    reveal_strlit("sounds");
    reveal_strlit("/");
    reveal_strlit(".");
    reveal_strlit("..");
    reveal_strlit("originals/");
    reveal_strlit("/originals");
    let mid: Seq<char> = if originals { "/originals"@ } else { Seq::empty() };
    let k = "/assets/"@ + cat + mid + "/"@ + u + "."@ + ext;
    let file = u + "."@ + ext;
    let tail = if originals { "originals/"@ + file } else { file };
    let rest = k.skip("/assets/"@.len() as int);
    assert(rest =~= cat + ("/"@ + tail));
    assert(k.take(8) =~= "/assets/"@);
    assert(!cat.contains('/'));
    lemma_find_char_concat(cat, "/"@ + tail, '/');
    assert(find_char("/"@ + tail, '/') == 0);
    let p = find_char(rest, '/');
    assert(p == cat.len());
    assert(rest.take(p) =~= cat);
    assert(rest.skip(p + 1) =~= tail);
    assert(is_uuid_char(u[0]));
    assert(file[0] == u[0]);
    assert(!starts_with(file, "originals/"@)) by {
        if starts_with(file, "originals/"@) {
            assert(file.take(10)[0] == 'o');
        }
    }
    if originals {
        assert(tail.take(10) =~= "originals/"@);
        assert(tail.skip(10) =~= file);
    }
    assert(asset_file_part(cat, tail) == file);
    assert(file.len() > 2);
    assert(file != "."@ && file != ".."@);
    assert forall|i: int| 0 <= i < 37 implies is_asset_name_char(#[trigger] file[i]) by {
        if i < 36 {
            assert(file[i] == u[i]);
            assert(is_uuid_char(u[i]));
        } else {
            assert(file[i] == '.');
        }
    }
    if is_name_extension(ext) {
        assert forall|i: int| 0 <= i < file.len() implies is_asset_name_char(#[trigger] file[i]) by {
            if i >= 37 {
                assert(file[i] == ext[i - 37]);
            }
        }
    }
    if spec_is_web_asset_key(k) {
        assert forall|i: int| 0 <= i < ext.len() implies is_asset_name_char(#[trigger] ext[i]) by {
            assert(file[i + 37] == ext[i]);
        }
    }
}

/// A read gives back what a write wrote, and a write changes no other path: after a
/// write of `bytes` under `path`, reading `path` gives `bytes` and reading another path
/// gives what it gave before.
pub proof fn lemma_read_after_write(before: WebPresetAssets, after: WebPresetAssets, path: Seq<char>, bytes: Seq<u8>)
    requires
        after.existing_view() == before.existing_view(),
        after.writes_view() == before.writes_view().insert(path, bytes),
    ensures
        after.lookup(path) == Some(bytes),
        forall|other: Seq<char>| other != path ==> #[trigger] after.lookup(other) == before.lookup(other),
{
}

} // verus!
