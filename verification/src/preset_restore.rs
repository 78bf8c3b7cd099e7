//! Restoring the files that a preset carries: embedded images, sounds and fonts become files
//! of the host, and references to them are rewritten to the new paths.
use crate::asset_refs::{
    decode_image_data_url, extension_of, has_text, normalize_font_extension,
    is_plain_path, is_portable_file_path, normalize_image_extension, normalize_sound_extension,
    path_extension, path_has_base, path_under, spec_decode_image_data_url, spec_has_text, spec_normalize_font_extension,
    spec_normalize_image_extension, spec_normalize_sound_extension, strip_prefix,
    PRESET_LOCAL_IMAGE_PREFIX, PRESET_LOCAL_SOUND_PREFIX,
};
use crate::codec::{base64_decoded, decode_base64, is_uuid_char, new_uuid_text};
use crate::looks::{
    collection_rewritten, lemma_collection_mono, rewrite_collection, rewrite_sprites,
    sprites_rewritten, with_images, with_sound, HasLook, LookField, RefStep,
};
use crate::model::{
    CustomFont, CustomFontV, EmbeddedLocalFont, EmbeddedLocalFontV, EmbeddedLocalImage,
    EmbeddedLocalImageV, EmbeddedLocalSound, EmbeddedLocalSoundV, FontSettings, FontType,
    GraphPosition, KeyPosition, KeyPositionV, KnobPosition, ReactiveSpritePosition,
    ReactiveSpritePositionV, SpritePoseV, StatPosition,
};
use crate::strmap::{Dup, StrMap};
use crate::text::{chars_of, concat, starts_with, string_of, trim, trim_chars};
use vstd::prelude::*;

verus! {

/// What restoring a preset's files needs from the host: a file store and its rules.
pub trait PresetAssetWriter: Sized + Default {
    /// Bytes that a read of this path gives.
    spec fn content(&self, path: Seq<char>) -> Option<Seq<u8>>;

    /// Whether a file exists at this path.
    spec fn file_present(&self, path: Seq<char>) -> bool;

    /// Whether a path is a local path of this host.
    spec fn local_file(&self, path: Seq<char>) -> bool;

    /// The local file that an image reference names, if any.
    spec fn image_file_of(&self, reference: Seq<char>) -> Option<Seq<char>>;

    /// Whether this folder can receive restored files.
    spec fn folder_ok(&self, dir: Seq<char>) -> bool;

    /// Whether new files with this extension can be made in this folder.
    spec fn accepts(&self, dir: Seq<char>, ext: Seq<char>) -> bool;

    /// Whether a write to this path can succeed.
    spec fn writable(&self, path: Seq<char>) -> bool;

    /// Natural pixel size of the image that a reference names, where the host can tell.
    spec fn natural_size(&self, reference: Seq<char>) -> Option<(u32, u32)>;

    /// `later` follows the same rules, and every file present here is still present there.
    spec fn grows_to(&self, later: &Self) -> bool;

    proof fn lemma_grows_refl(&self)
        ensures
            self.grows_to(self),
    ;

    proof fn lemma_grows_trans(&self, mid: &Self, later: &Self)
        requires
            self.grows_to(mid),
            mid.grows_to(later),
        ensures
            self.grows_to(later),
    ;

    /// Growing keeps the host's rules.
    proof fn lemma_grows_rules(&self, later: &Self)
        requires
            self.grows_to(later),
        ensures
            forall|d: Seq<char>, e: Seq<char>| #[trigger] later.accepts(d, e) == self.accepts(d, e),
            forall|d: Seq<char>| #[trigger] later.folder_ok(d) == self.folder_ok(d),
            forall|r: Seq<char>| #[trigger] later.image_file_of(r) == self.image_file_of(r),
            forall|p: Seq<char>| #[trigger] later.local_file(p) == self.local_file(p),
    ;

    /// A new file named by a UUID in an accepted folder can be written.
    proof fn lemma_fresh_writable(&self, dir: Seq<char>, id: Seq<char>, ext: Seq<char>)
        requires
            self.accepts(dir, ext),
            id.len() == 36,
            forall|i: int| 0 <= i < 36 ==> is_uuid_char(#[trigger] id[i]),
        ensures
            self.writable(dir + "/"@ + id + "."@ + ext),
    ;

    fn create_dir_all(&self, path: &str) -> (r: Result<(), String>)
        ensures
            r is Ok <==> self.folder_ok(path@),
    ;

    fn write(&mut self, path: &str, bytes: Vec<u8>) -> (r: Result<(), String>)
        ensures
            old(self).grows_to(&*final(self)),
            r is Ok <==> old(self).writable(path@),
            r is Ok ==> final(self).content(path@) == Some(bytes@) && final(self).file_present(
                path@,
            ),
    ;

    fn has_file(&self, path: &str) -> (r: bool)
        ensures
            r == self.file_present(path@),
    ;

    fn is_local(&self, path: &str) -> (r: bool)
        ensures
            r == self.local_file(path@),
    ;

    fn image_source(&self, reference: &str) -> (r: Option<String>)
        ensures
            r.deep_view() == self.image_file_of(reference@),
    ;

    fn import_image_bytes(&mut self, bytes: Vec<u8>, directory: &str, extension: &str) -> (r:
        Result<String, String>)
        ensures
            old(self).grows_to(&*final(self)),
            old(self).accepts(directory@, extension@) ==> r is Ok,
            r matches Ok(p) ==> final(self).content(p@) == Some(bytes@),
    ;

    fn import_image_file(&mut self, source: &str, directory: &str, extension: &str) -> (r: Result<
        String,
        String,
    >)
        ensures
            old(self).grows_to(&*final(self)),
            old(self).accepts(directory@, extension@) && old(self).content(source@) is Some ==> r is Ok,
            r matches Ok(p) ==> old(self).content(source@) is Some && final(self).content(p@)
                == old(self).content(source@),
    ;

    fn fill_missing_sprite_image_metrics(&self, positions: &mut StrMap<Vec<ReactiveSpritePosition>>)
        ensures
            metrics_filled(|r: Seq<char>| self.natural_size(r), old(positions)@, final(positions)@),
    ;
}

/// A reference that can be drawn: one with text in it.
pub open spec fn is_renderable_image_ref(r: Option<Seq<char>>) -> bool {
    spec_has_text(r)
}

/// A sprite's base image size, filled in where it is missing and the host can measure it.
pub open spec fn base_size_filled(
    size: spec_fn(Seq<char>) -> Option<(u32, u32)>,
    old: ReactiveSpritePositionV,
) -> Option<crate::model::SpriteReferenceNaturalSizeV> {
    match old.reference_natural_size {
        Some(s) => Some(s),
        None => match old.base_image {
            Some(b) => if is_renderable_image_ref(Some(b)) {
                match size(b) {
                    Some((w, h)) => Some(
                        crate::model::SpriteReferenceNaturalSizeV { source: Some(b), width: w, height: h },
                    ),
                    None => None,
                }
            } else {
                None
            },
            None => None,
        },
    }
}

/// A pose's override image size, filled in where it is missing and the host can measure it.
pub open spec fn pose_size_filled(size: spec_fn(Seq<char>) -> Option<(u32, u32)>, old: SpritePoseV) -> Option<
    crate::model::SpriteImageMetricsV,
> {
    match old.image_override_metrics {
        Some(s) => Some(s),
        None => match old.image_override {
            Some(b) => if is_renderable_image_ref(Some(b)) {
                match size(b) {
                    Some((w, h)) => Some(
                        crate::model::SpriteImageMetricsV { source: b, width: w, height: h },
                    ),
                    None => None,
                }
            } else {
                None
            },
            None => None,
        },
    }
}

/// Every sprite keeps its images and gets the sizes that were missing and can be measured.
pub open spec fn metrics_filled(
    size: spec_fn(Seq<char>) -> Option<(u32, u32)>,
    old: Map<Seq<char>, Seq<ReactiveSpritePositionV>>,
    new: Map<Seq<char>, Seq<ReactiveSpritePositionV>>,
) -> bool {
    &&& new.dom() == old.dom()
    &&& forall|k: Seq<char>|
        #[trigger] old.contains_key(k) ==> new[k].len() == old[k].len() && forall|i: int|
            0 <= i < old[k].len() ==> {
                let o = old[k][i];
                let n = #[trigger] new[k][i];
                &&& n == ReactiveSpritePositionV {
                    reference_natural_size: base_size_filled(size, o),
                    poses: n.poses,
                    ..o
                }
                &&& n.poses.len() == o.poses.len()
                &&& forall|j: int|
                    0 <= j < o.poses.len() ==> #[trigger] n.poses[j] == SpritePoseV {
                        image_override_metrics: pose_size_filled(size, o.poses[j]),
                        ..o.poses[j]
                    }
            }
}

/// The last embedded image with this id: a later entry replaces an earlier one.
pub open spec fn last_image(list: Seq<EmbeddedLocalImageV>, id: Seq<char>) -> Option<
    EmbeddedLocalImageV,
>
    decreases list.len(),
{
    if list.len() == 0 {
        None
    } else if list.last().image_id == id {
        Some(list.last())
    } else {
        last_image(list.drop_last(), id)
    }
}

fn find_image(list: &Vec<EmbeddedLocalImage>, id: &str) -> (r: Option<usize>)
    ensures
        r is None <==> last_image(list.deep_view(), id@) is None,
        r matches Some(i) ==> i < list.len() && last_image(list.deep_view(), id@) == Some(
            list.deep_view()[i as int],
        ),
{
    let mut i: usize = list.len();
    assert(list.deep_view().take(i as int) =~= list.deep_view());
    while i > 0
        invariant
            i <= list.len(),
            last_image(list.deep_view(), id@) == last_image(list.deep_view().take(i as int), id@),
        decreases i,
    {
        let ghost pre = list.deep_view().take(i as int);
        assert(pre.last() == list.deep_view()[i - 1]);
        assert(pre.drop_last() =~= list.deep_view().take(i - 1));
        if crate::text::str_eq(list[i - 1].image_id.as_str(), id) {
            return Some(i - 1);
        }
        i -= 1;
    }
    None
}

/// The host held these bytes at this path at some point of the trail.
pub open spec fn held_in<A: PresetAssetWriter>(trail: Seq<A>, p: Seq<char>, bytes: Seq<u8>) -> bool {
    exists|m: int| 0 <= m < trail.len() && #[trigger] trail[m].content(p) == Some(bytes)
}

/// Consecutive host states of a trail grow into each other.
pub open spec fn host_chain<A: PresetAssetWriter>(trail: Seq<A>) -> bool {
    forall|m: int| 0 <= m < trail.len() - 1 ==> #[trigger] trail[m].grows_to(&trail[m + 1])
}

/// Whether `src` lies in `dir` is `under`, as far as the platform-independent reading of
/// plain paths tells.
pub open spec fn base_known(src: Seq<char>, dir: Seq<char>, under: bool) -> bool {
    is_plain_path(src) && is_plain_path(dir) ==> under == path_under(src, dir)
}

/// How one image reference is restored, given the host before (`trail[len - 2]`) and after
/// (`trail[len - 1]`) this step: an embedded image becomes a new file in `dir` (a missing or
/// undecodable one clears the reference); a data URL becomes a new file; a local file under
/// `dir` stays, another local file is copied into `dir`, a missing one is cleared; any other
/// reference stays.
pub open spec fn image_restore_rule<A: PresetAssetWriter>(
    trail: Seq<A>,
    dir: Seq<char>,
    list: Seq<EmbeddedLocalImageV>,
    old: Option<Seq<char>>,
    new: Option<Seq<char>>,
) -> bool {
    let hb = trail[trail.len() - 2];
    let ha = trail.last();
    match old {
        None => new is None,
        Some(o) => {
            let t = trim(o);
            if t.len() == 0 {
                new == old
            } else if starts_with(t, PRESET_LOCAL_IMAGE_PREFIX@) {
                match last_image(list, t.skip(PRESET_LOCAL_IMAGE_PREFIX@.len() as int)) {
                    None => new is None,
                    Some(e) => match base64_decoded(e.data_base64) {
                        None => new is None,
                        Some(bytes) => (new matches Some(p) && held_in(trail, p, bytes)) || (new is None
                            && !hb.accepts(dir, spec_normalize_image_extension(e.extension))),
                    },
                }
            } else {
                match spec_decode_image_data_url(t) {
                    Some(d) => new matches Some(p) && ha.content(p) == Some(d.0),
                    None => match hb.image_file_of(t) {
                        None => new == old,
                        Some(src) => if !hb.file_present(src) {
                            new is None
                        } else {
                            ||| (base_known(src, dir, true) && new == Some(src))
                            ||| (base_known(src, dir, false) && (new matches Some(p) && hb.content(src) is Some
                                && ha.content(p) == hb.content(src)))
                            ||| (base_known(src, dir, false) && new is None && (is_portable_file_path(src) ==> !(
                            hb.accepts(dir, spec_normalize_image_extension(path_extension(src)))
                                && hb.content(src) is Some)))
                        },
                    },
                }
            }
        },
    }
}

/// The reference was restored by the rule at some step of the trail.
pub open spec fn image_ref_restored<A: PresetAssetWriter>(
    trail: Seq<A>,
    dir: Seq<char>,
    list: Seq<EmbeddedLocalImageV>,
    old: Option<Seq<char>>,
    new: Option<Seq<char>>,
) -> bool {
    exists|j: int|
        2 <= j <= trail.len() && #[trigger] image_restore_rule(trail.take(j), dir, list, old, new)
}

/// A reference to an embedded image that was restored to a file names the path that
/// `paths` gives for the image's id: every reference to one id gets the same file.
pub open spec fn id_path_kept(
    paths: Map<Seq<char>, Seq<char>>,
    old: Option<Seq<char>>,
    new: Option<Seq<char>>,
) -> bool {
    match old {
        Some(o) => starts_with(trim(o), PRESET_LOCAL_IMAGE_PREFIX@) && new is Some ==> {
            let id = trim(o).skip(PRESET_LOCAL_IMAGE_PREFIX@.len() as int);
            paths.contains_key(id) && new == Some(paths[id])
        },
        None => true,
    }
}

/// State of the image restore of one import.
pub struct ImageRestore<'a, A: PresetAssetWriter> {
    pub host: A,
    pub dir: &'a str,
    pub embedded: &'a Vec<EmbeddedLocalImage>,
    pub cache: StrMap<String>,
    pub trail: Ghost<Seq<A>>,
    pub failure: Option<String>,
}

impl<'a, A: PresetAssetWriter> RefStep for ImageRestore<'a, A> {
    open spec fn inv(&self) -> bool {
        &&& self.trail@.len() >= 1
        &&& self.trail@.last() == self.host
        &&& host_chain(self.trail@)
        &&& (accepts_plain(self.trail@[0], self.dir@) ==> self.failure is None)
        &&& forall|id: Seq<char>|
            #[trigger] self.cache@.contains_key(id) ==> (last_image(self.embedded.deep_view(), id) matches Some(e)
                && base64_decoded(e.data_base64) matches Some(b) && held_in(
                self.trail@,
                self.cache@[id],
                b,
            ))
    }

    open spec fn ok(&self, old: Option<Seq<char>>, new: Option<Seq<char>>) -> bool {
        ||| (image_ref_restored(self.trail@, self.dir@, self.embedded.deep_view(), old, new)
            && id_path_kept(self.cache@, old, new))
        ||| (self.failure is Some && new == old)
    }

    open spec fn grows(&self, later: &Self) -> bool {
        &&& later.dir == self.dir
        &&& later.embedded == self.embedded
        &&& self.trail@.is_prefix_of(later.trail@)
        &&& (self.failure is Some ==> later.failure is Some)
        &&& forall|id: Seq<char>|
            #[trigger] self.cache@.contains_key(id) ==> later.cache@.contains_key(id)
                && later.cache@[id] == self.cache@[id]
    }

    proof fn lemma_grows_refl(&self) {
        assert(self.trail@.is_prefix_of(self.trail@));
    }

    proof fn lemma_grows_trans(&self, mid: &Self, later: &Self) {
        assert forall|i: int| 0 <= i < self.trail@.len() implies self.trail@[i] == later.trail@[i] by {
            assert(self.trail@[i] == mid.trail@[i]);
        }
    }

    proof fn lemma_ok_mono(&self, later: &Self, old: Option<Seq<char>>, new: Option<Seq<char>>) {
        if image_ref_restored(self.trail@, self.dir@, self.embedded.deep_view(), old, new)
            && id_path_kept(self.cache@, old, new) {
            let j = choose|j: int|
                2 <= j <= self.trail@.len() && #[trigger] image_restore_rule(
                    self.trail@.take(j),
                    self.dir@,
                    self.embedded.deep_view(),
                    old,
                    new,
                );
            assert(later.trail@.take(j) =~= self.trail@.take(j));
            assert(image_restore_rule(
                later.trail@.take(j),
                later.dir@,
                later.embedded.deep_view(),
                old,
                new,
            ));
        }
    }

    fn step(&mut self, r: Option<String>) -> (out: Option<String>) {
        if self.failure.is_some() {
            return r;
        }
        proof {
            self.trail@.last().lemma_grows_refl();
        }
        let current = match r {
            None => {
                self.record();
                proof {
                    self.lemma_ok_now(None, None);
                }
                return None;
            },
            Some(c) => c,
        };
        let ghost old_ref = Some(current@);
        let t = trim_chars(&chars_of(current.as_str()));
        if t.len() == 0 {
            self.record();
            proof {
                reveal_strlit("dmnote-preset-image:");
                assert(!starts_with(t@, PRESET_LOCAL_IMAGE_PREFIX@));
                self.lemma_ok_now(old_ref, old_ref);
            }
            return Some(current);
        }
        match strip_prefix(&t, PRESET_LOCAL_IMAGE_PREFIX) {
            Some(id) => {
                match self.cache.get(id.as_str()) {
                    Some(p) => {
                        let out = p.dup();
                        proof {
                            assert(self.cache@.contains_key(id@));
                        }
                        let ghost before = *self;
                        self.record();
                        proof {
                            let e = last_image(self.embedded.deep_view(), id@)->0;
                            let b = base64_decoded(e.data_base64)->0;
                            let m = choose|m: int|
                                0 <= m < before.trail@.len() && #[trigger] before.trail@[m].content(
                                    out@,
                                ) == Some(b);
                            assert(self.trail@[m] == before.trail@[m]);
                            assert(held_in(self.trail@, out@, b));
                            self.lemma_ok_now(old_ref, Some(out@));
                        }
                        return Some(out);
                    },
                    None => {},
                }
                let found = find_image(self.embedded, id.as_str());
                let index = match found {
                    None => {
                        self.record();
                        proof {
                            self.lemma_ok_now(old_ref, None);
                        }
                        return None;
                    },
                    Some(i) => i,
                };
                let entry = &self.embedded[index];
                let bytes = match decode_base64(entry.data_base64.as_str()) {
                    Err(_) => {
                        self.record();
                        proof {
                            self.lemma_ok_now(old_ref, None);
                        }
                        return None;
                    },
                    Ok(b) => b,
                };
                let ghost bv = bytes@;
                let ext = match &entry.extension {
                    Some(e) => normalize_image_extension(Some(e.as_str())),
                    None => normalize_image_extension(None),
                };
                match self.host.import_image_bytes(bytes, self.dir, ext.as_str()) {
                    Err(_) => {
                        self.record();
                        proof {
                            self.lemma_ok_now(old_ref, None);
                        }
                        return None;
                    },
                    Ok(p) => {
                        self.record();
                        proof {
                            let tr = self.trail@;
                            assert(tr[tr.len() - 1].content(p@) == Some(bv));
                            assert(held_in(tr, p@, bv));
                        }
                        let ghost mid = *self;
                        let ghost idv = id@;
                        self.cache.insert(id, p.dup());
                        proof {
                            assert forall|k: Seq<char>| #[trigger] self.cache@.contains_key(k) implies (last_image(self.embedded.deep_view(), k) matches Some(e)
                                && base64_decoded(e.data_base64) matches Some(b) && held_in(
                                self.trail@,
                                self.cache@[k],
                                b,
                            )) by {
                                if k != idv {
                                    assert(mid.cache@.contains_key(k));
                                }
                            }
                            assert(id_path_kept(self.cache@, old_ref, Some(p@)));
                            self.lemma_ok_now(old_ref, Some(p@));
                        }
                        return Some(p);
                    },
                }
            },
            None => {},
        }
        match decode_image_data_url(&t) {
            Some((bytes, ext)) => {
                match self.host.import_image_bytes(bytes, self.dir, ext.as_str()) {
                    Ok(p) => {
                        self.record();
                        proof {
                            self.lemma_ok_now(old_ref, Some(p@));
                        }
                        return Some(p);
                    },
                    Err(e) => {
                        proof {
                            if accepts_plain(self.trail@[0], self.dir@) {
                                let tr = self.trail@;
                                lemma_chain_from_start(tr, tr.len() - 1);
                                tr[0].lemma_grows_rules(&tr[tr.len() - 1]);
                                crate::asset_refs::lemma_data_url_extension_plain(t@);
                                assert(tr[0].accepts(self.dir@, ext@));
                                assert(false);
                            }
                        }
                        self.record();
                        self.failure = Some(e);
                        return Some(current);
                    },
                }
            },
            None => {},
        }
        let ts = string_of(&t);
        let source = match self.host.image_source(ts.as_str()) {
            None => {
                self.record();
                proof {
                    self.lemma_ok_now(old_ref, old_ref);
                }
                return Some(current);
            },
            Some(src) => src,
        };
        if !self.host.has_file(source.as_str()) {
            self.record();
            proof {
                self.lemma_ok_now(old_ref, None);
            }
            return None;
        }
        if path_has_base(source.as_str(), self.dir) {
            self.record();
            proof {
                self.lemma_ok_now(old_ref, Some(source@));
            }
            return Some(source);
        }
        let raw_ext = extension_of(source.as_str());
        let ext = match &raw_ext {
            Some(e) => normalize_image_extension(Some(e.as_str())),
            None => normalize_image_extension(None),
        };
        match self.host.import_image_file(source.as_str(), self.dir, ext.as_str()) {
            Ok(p) => {
                self.record();
                proof {
                    self.lemma_ok_now(old_ref, Some(p@));
                }
                Some(p)
            },
            Err(_) => {
                self.record();
                proof {
                    self.lemma_ok_now(old_ref, None);
                }
                None
            },
        }
    }
}

impl<'a, A: PresetAssetWriter> ImageRestore<'a, A> {
    /// Appends the host as it is now to the trail.
    fn record(&mut self)
        requires
            old(self).trail@.len() >= 1,
            host_chain(old(self).trail@),
            old(self).trail@.last().grows_to(&old(self).host),
            accepts_plain(old(self).trail@[0], old(self).dir@) ==> old(self).failure is None,
            forall|id: Seq<char>|
                #[trigger] old(self).cache@.contains_key(id) ==> (last_image(old(self).embedded.deep_view(), id) matches Some(e)
                    && base64_decoded(e.data_base64) matches Some(b) && held_in(
                    old(self).trail@,
                    old(self).cache@[id],
                    b,
                )),
        ensures
            final(self).inv(),
            final(self).trail@ == old(self).trail@.push(old(self).host),
            final(self).host == old(self).host,
            final(self).dir == old(self).dir,
            final(self).embedded == old(self).embedded,
            final(self).cache == old(self).cache,
            final(self).failure == old(self).failure,
            host_chain(final(self).trail@),
    {
        let ghost t0 = self.trail@;
        self.trail = Ghost(self.trail@.push(self.host));
        proof {
            let t1 = self.trail@;
            assert forall|m: int| 0 <= m < t1.len() - 1 implies #[trigger] t1[m].grows_to(&t1[m + 1]) by {
                if m < t0.len() - 1 {
                    assert(t1[m] == t0[m] && t1[m + 1] == t0[m + 1]);
                    assert(t0[m].grows_to(&t0[m + 1]));
                } else {
                    assert(t1[m] == t0.last());
                }
            }
            assert forall|id: Seq<char>| #[trigger] self.cache@.contains_key(id) implies (last_image(self.embedded.deep_view(), id) matches Some(e)
                && base64_decoded(e.data_base64) matches Some(b) && held_in(
                self.trail@,
                self.cache@[id],
                b,
            )) by {
                let e = last_image(self.embedded.deep_view(), id)->0;
                let b = base64_decoded(e.data_base64)->0;
                let m = choose|m: int| 0 <= m < t0.len() && #[trigger] t0[m].content(self.cache@[id]) == Some(b);
                assert(t1[m] == t0[m]);
            }
        }
    }

    proof fn lemma_ok_now(&self, old: Option<Seq<char>>, new: Option<Seq<char>>)
        requires
            self.trail@.len() >= 2,
            image_restore_rule(self.trail@, self.dir@, self.embedded.deep_view(), old, new),
            id_path_kept(self.cache@, old, new),
        ensures
            self.ok(old, new),
    {
        assert(self.trail@.take(self.trail@.len() as int) =~= self.trail@);
    }
}

/// The last embedded sound with this id: a later entry replaces an earlier one.
pub open spec fn last_sound(list: Seq<EmbeddedLocalSoundV>, id: Seq<char>) -> Option<
    EmbeddedLocalSoundV,
>
    decreases list.len(),
{
    if list.len() == 0 {
        None
    } else if list.last().sound_id == id {
        Some(list.last())
    } else {
        last_sound(list.drop_last(), id)
    }
}

fn find_sound(list: &Vec<EmbeddedLocalSound>, id: &str) -> (r: Option<usize>)
    ensures
        r is None <==> last_sound(list.deep_view(), id@) is None,
        r matches Some(i) ==> i < list.len() && last_sound(list.deep_view(), id@) == Some(
            list.deep_view()[i as int],
        ),
{
    let mut i: usize = list.len();
    assert(list.deep_view().take(i as int) =~= list.deep_view());
    while i > 0
        invariant
            i <= list.len(),
            last_sound(list.deep_view(), id@) == last_sound(list.deep_view().take(i as int), id@),
        decreases i,
    {
        let ghost pre = list.deep_view().take(i as int);
        assert(pre.last() == list.deep_view()[i - 1]);
        assert(pre.drop_last() =~= list.deep_view().take(i - 1));
        if crate::text::str_eq(list[i - 1].sound_id.as_str(), id) {
            return Some(i - 1);
        }
        i -= 1;
    }
    None
}

/// The path of a new file: folder, `/`, a new UUID, `.` and extension.
fn fresh_file_path(dir: &str, ext: &str) -> (r: (String, Ghost<Seq<char>>))
    ensures
        r.0@ == dir@ + "/"@ + r.1@ + "."@ + ext@,
        r.1@.len() == 36,
        forall|i: int| 0 <= i < 36 ==> is_uuid_char(#[trigger] r.1@[i]),
{
    let id = new_uuid_text();
    let a = concat(dir, "/");
    let b = concat(a.as_str(), id.as_str());
    let c = concat(b.as_str(), ".");
    (concat(c.as_str(), ext), Ghost(id@))
}

/// How one sound reference is restored, given the host before and after this step: an
/// embedded sound is written to a new file in `dir` (a missing or undecodable one, or a
/// refused write, clears the reference); a local file that exists stays; any other
/// reference is cleared.
pub open spec fn sound_restore_rule<A: PresetAssetWriter>(
    trail: Seq<A>,
    dir: Seq<char>,
    list: Seq<EmbeddedLocalSoundV>,
    old: Option<Seq<char>>,
    new: Option<Seq<char>>,
) -> bool {
    let hb = trail[trail.len() - 2];
    match old {
        None => new is None,
        Some(o) => {
            let t = trim(o);
            if t.len() == 0 {
                new == old
            } else if starts_with(t, PRESET_LOCAL_SOUND_PREFIX@) {
                match last_sound(list, t.skip(PRESET_LOCAL_SOUND_PREFIX@.len() as int)) {
                    None => new is None,
                    Some(e) => match base64_decoded(e.data_base64) {
                        None => new is None,
                        Some(bytes) => (new matches Some(p) && held_in(trail, p, bytes)) || (new is None
                            && !hb.accepts(dir, spec_normalize_sound_extension(e.extension))),
                    },
                }
            } else if hb.local_file(t) && hb.file_present(t) {
                new == old
            } else {
                new is None
            }
        },
    }
}

/// The reference was restored by the rule at some step of the trail.
pub open spec fn sound_ref_restored<A: PresetAssetWriter>(
    trail: Seq<A>,
    dir: Seq<char>,
    list: Seq<EmbeddedLocalSoundV>,
    old: Option<Seq<char>>,
    new: Option<Seq<char>>,
) -> bool {
    exists|j: int|
        2 <= j <= trail.len() && #[trigger] sound_restore_rule(trail.take(j), dir, list, old, new)
}

/// State of the sound restore of one import.
pub struct SoundRestore<'a, A: PresetAssetWriter> {
    pub host: A,
    pub dir: &'a str,
    pub embedded: &'a Vec<EmbeddedLocalSound>,
    pub cache: StrMap<String>,
    pub trail: Ghost<Seq<A>>,
}

impl<'a, A: PresetAssetWriter> RefStep for SoundRestore<'a, A> {
    open spec fn inv(&self) -> bool {
        &&& self.trail@.len() >= 1
        &&& self.trail@.last() == self.host
        &&& host_chain(self.trail@)
        &&& forall|id: Seq<char>|
            #[trigger] self.cache@.contains_key(id) ==> (last_sound(self.embedded.deep_view(), id) matches Some(e)
                && base64_decoded(e.data_base64) matches Some(b) && held_in(
                self.trail@,
                self.cache@[id],
                b,
            ))
    }

    open spec fn ok(&self, old: Option<Seq<char>>, new: Option<Seq<char>>) -> bool {
        sound_ref_restored(self.trail@, self.dir@, self.embedded.deep_view(), old, new)
    }

    open spec fn grows(&self, later: &Self) -> bool {
        &&& later.dir == self.dir
        &&& later.embedded == self.embedded
        &&& self.trail@.is_prefix_of(later.trail@)
    }

    proof fn lemma_grows_refl(&self) {
        assert(self.trail@.is_prefix_of(self.trail@));
    }

    proof fn lemma_grows_trans(&self, mid: &Self, later: &Self) {
        assert forall|i: int| 0 <= i < self.trail@.len() implies self.trail@[i] == later.trail@[i] by {
            assert(self.trail@[i] == mid.trail@[i]);
        }
    }

    proof fn lemma_ok_mono(&self, later: &Self, old: Option<Seq<char>>, new: Option<Seq<char>>) {
        let j = choose|j: int|
            2 <= j <= self.trail@.len() && #[trigger] sound_restore_rule(
                self.trail@.take(j),
                self.dir@,
                self.embedded.deep_view(),
                old,
                new,
            );
        assert(later.trail@.take(j) =~= self.trail@.take(j));
        assert(sound_restore_rule(later.trail@.take(j), later.dir@, later.embedded.deep_view(), old, new));
    }

    fn step(&mut self, r: Option<String>) -> (out: Option<String>) {
        proof {
            self.trail@.last().lemma_grows_refl();
        }
        let current = match r {
            None => {
                self.record();
                proof {
                    self.lemma_ok_now(None, None);
                }
                return None;
            },
            Some(c) => c,
        };
        let ghost old_ref = Some(current@);
        let t = trim_chars(&chars_of(current.as_str()));
        if t.len() == 0 {
            self.record();
            proof {
                self.lemma_ok_now(old_ref, old_ref);
            }
            return Some(current);
        }
        match strip_prefix(&t, PRESET_LOCAL_SOUND_PREFIX) {
            Some(id) => {
                match self.cache.get(id.as_str()) {
                    Some(p) => {
                        let out = p.dup();
                        proof {
                            assert(self.cache@.contains_key(id@));
                        }
                        let ghost before = *self;
                        self.record();
                        proof {
                            let e = last_sound(self.embedded.deep_view(), id@)->0;
                            let b = base64_decoded(e.data_base64)->0;
                            let m = choose|m: int|
                                0 <= m < before.trail@.len() && #[trigger] before.trail@[m].content(
                                    out@,
                                ) == Some(b);
                            assert(self.trail@[m] == before.trail@[m]);
                            assert(held_in(self.trail@, out@, b));
                            self.lemma_ok_now(old_ref, Some(out@));
                        }
                        return Some(out);
                    },
                    None => {},
                }
                let index = match find_sound(self.embedded, id.as_str()) {
                    None => {
                        self.record();
                        proof {
                            self.lemma_ok_now(old_ref, None);
                        }
                        return None;
                    },
                    Some(i) => i,
                };
                let entry = &self.embedded[index];
                let bytes = match decode_base64(entry.data_base64.as_str()) {
                    Err(_) => {
                        self.record();
                        proof {
                            self.lemma_ok_now(old_ref, None);
                        }
                        return None;
                    },
                    Ok(b) => b,
                };
                let ghost bv = bytes@;
                let ext = match &entry.extension {
                    Some(e) => normalize_sound_extension(Some(e.as_str())),
                    None => normalize_sound_extension(None),
                };
                let (dest, uid) = fresh_file_path(self.dir, ext.as_str());
                proof {
                    if self.host.accepts(self.dir@, ext@) {
                        self.host.lemma_fresh_writable(self.dir@, uid@, ext@);
                    }
                }
                match self.host.write(dest.as_str(), bytes) {
                    Err(_) => {
                        self.record();
                        proof {
                            self.lemma_ok_now(old_ref, None);
                        }
                        return None;
                    },
                    Ok(()) => {
                        self.record();
                        proof {
                            let tr = self.trail@;
                            assert(tr[tr.len() - 1].content(dest@) == Some(bv));
                            assert(held_in(tr, dest@, bv));
                            self.lemma_ok_now(old_ref, Some(dest@));
                        }
                        let ghost mid = *self;
                        self.cache.insert(id, dest.dup());
                        proof {
                            assert forall|k: Seq<char>| #[trigger] self.cache@.contains_key(k) implies (last_sound(self.embedded.deep_view(), k) matches Some(e)
                                && base64_decoded(e.data_base64) matches Some(b) && held_in(
                                self.trail@,
                                self.cache@[k],
                                b,
                            )) by {
                                if k != id@ {
                                    assert(mid.cache@.contains_key(k));
                                }
                            }
                        }
                        return Some(dest);
                    },
                }
            },
            None => {},
        }
        let path = string_of(&t);
        if self.host.is_local(path.as_str()) && self.host.has_file(path.as_str()) {
            self.record();
            proof {
                self.lemma_ok_now(old_ref, old_ref);
            }
            return Some(current);
        }
        self.record();
        proof {
            self.lemma_ok_now(old_ref, None);
        }
        None
    }
}

impl<'a, A: PresetAssetWriter> SoundRestore<'a, A> {
    /// Appends the host as it is now to the trail.
    fn record(&mut self)
        requires
            old(self).trail@.len() >= 1,
            host_chain(old(self).trail@),
            old(self).trail@.last().grows_to(&old(self).host),
            forall|id: Seq<char>|
                #[trigger] old(self).cache@.contains_key(id) ==> (last_sound(old(self).embedded.deep_view(), id) matches Some(e)
                    && base64_decoded(e.data_base64) matches Some(b) && held_in(
                    old(self).trail@,
                    old(self).cache@[id],
                    b,
                )),
        ensures
            final(self).inv(),
            final(self).trail@ == old(self).trail@.push(old(self).host),
            final(self).host == old(self).host,
            final(self).dir == old(self).dir,
            final(self).embedded == old(self).embedded,
            final(self).cache == old(self).cache,
    {
        let ghost t0 = self.trail@;
        self.trail = Ghost(self.trail@.push(self.host));
        proof {
            let t1 = self.trail@;
            assert forall|m: int| 0 <= m < t1.len() - 1 implies #[trigger] t1[m].grows_to(&t1[m + 1]) by {
                if m < t0.len() - 1 {
                    assert(t1[m] == t0[m] && t1[m + 1] == t0[m + 1]);
                    assert(t0[m].grows_to(&t0[m + 1]));
                } else {
                    assert(t1[m] == t0.last());
                }
            }
            assert forall|id: Seq<char>| #[trigger] self.cache@.contains_key(id) implies (last_sound(self.embedded.deep_view(), id) matches Some(e)
                && base64_decoded(e.data_base64) matches Some(b) && held_in(
                self.trail@,
                self.cache@[id],
                b,
            )) by {
                let e = last_sound(self.embedded.deep_view(), id)->0;
                let b = base64_decoded(e.data_base64)->0;
                let m = choose|m: int| 0 <= m < t0.len() && #[trigger] t0[m].content(self.cache@[id]) == Some(b);
                assert(t1[m] == t0[m]);
            }
        }
    }

    proof fn lemma_ok_now(&self, old: Option<Seq<char>>, new: Option<Seq<char>>)
        requires
            self.trail@.len() >= 2,
            sound_restore_rule(self.trail@, self.dir@, self.embedded.deep_view(), old, new),
        ensures
            self.ok(old, new),
    {
        assert(self.trail@.take(self.trail@.len() as int) =~= self.trail@);
    }
}

/// Restores one image reference of an element during an import, by the rule of
/// [`image_restore_rule`]: the state carries the host, the folder, the embedded images, the
/// paths already restored and the failure of a write, if one happened (after which
/// references stay as they are).
pub fn restore_position_image_reference<'a, A: PresetAssetWriter>(
    restore: &mut ImageRestore<'a, A>,
    image_ref: &mut Option<String>,
)
    requires
        old(restore).inv(),
    ensures
        final(restore).inv(),
        old(restore).grows(&*final(restore)),
        final(restore).ok(old(image_ref).deep_view(), final(image_ref).deep_view()),
{
    let current = image_ref.dup();
    *image_ref = restore.step(current);
}

/// Restores one sound reference of an element during an import, by the rule of
/// [`sound_restore_rule`]: the state carries the host, the folder, the embedded sounds and
/// the paths already restored.
pub fn restore_position_sound_reference<'a, A: PresetAssetWriter>(
    restore: &mut SoundRestore<'a, A>,
    sound_ref: &mut Option<String>,
)
    requires
        old(restore).inv(),
    ensures
        final(restore).inv(),
        old(restore).grows(&*final(restore)),
        final(restore).ok(old(sound_ref).deep_view(), final(sound_ref).deep_view()),
{
    let current = sound_ref.dup();
    *sound_ref = restore.step(current);
}

/// Every state of a chained trail grows from the first.
proof fn lemma_chain_from_start<A: PresetAssetWriter>(trail: Seq<A>, m: int)
    requires
        host_chain(trail),
        0 <= m < trail.len(),
    ensures
        trail[0].grows_to(&trail[m]),
    decreases m,
{
    if m == 0 {
        trail[0].lemma_grows_refl();
    } else {
        lemma_chain_from_start(trail, m - 1);
        let k = m - 1;
        assert(trail[k].grows_to(&trail[k + 1]));
        assert(k + 1 == m);
        trail[0].lemma_grows_trans(&trail[m - 1], &trail[m]);
    }
}

/// An element whose two images were restored, nothing else changed.
pub open spec fn image_look_restored<E: HasLook, A: PresetAssetWriter>(
    trail: Seq<A>,
    dir: Seq<char>,
    list: Seq<EmbeddedLocalImageV>,
    paths: Map<Seq<char>, Seq<char>>,
    old: E::V,
    new: E::V,
) -> bool {
    let lo = E::look_of(old);
    let ln = E::look_of(new);
    &&& new == E::with_look(old, with_images(lo, ln.active_image, ln.inactive_image))
    &&& image_ref_restored(trail, dir, list, lo.active_image, ln.active_image)
    &&& image_ref_restored(trail, dir, list, lo.inactive_image, ln.inactive_image)
    &&& id_path_kept(paths, lo.active_image, ln.active_image)
    &&& id_path_kept(paths, lo.inactive_image, ln.inactive_image)
}

/// Every element of every tab had its images restored.
pub open spec fn images_restored<E: HasLook, A: PresetAssetWriter>(
    trail: Seq<A>,
    dir: Seq<char>,
    list: Seq<EmbeddedLocalImageV>,
    paths: Map<Seq<char>, Seq<char>>,
    old: Map<Seq<char>, Seq<E::V>>,
    new: Map<Seq<char>, Seq<E::V>>,
) -> bool {
    &&& new.dom() == old.dom()
    &&& forall|k: Seq<char>|
        #[trigger] old.contains_key(k) ==> new[k].len() == old[k].len() && forall|i: int|
            0 <= i < old[k].len() ==> image_look_restored::<E, A>(
                trail,
                dir,
                list,
                paths,
                old[k][i],
                #[trigger] new[k][i],
            )
}

/// A pose whose override image was restored; its measured size stays only while the
/// reference stays.
pub open spec fn pose_restored<A: PresetAssetWriter>(
    trail: Seq<A>,
    dir: Seq<char>,
    list: Seq<EmbeddedLocalImageV>,
    paths: Map<Seq<char>, Seq<char>>,
    old: SpritePoseV,
    new: SpritePoseV,
) -> bool {
    &&& new.pose_id == old.pose_id
    &&& image_ref_restored(trail, dir, list, old.image_override, new.image_override)
    &&& id_path_kept(paths, old.image_override, new.image_override)
    &&& new.image_override_metrics == (if new.image_override == old.image_override {
        old.image_override_metrics
    } else {
        None
    })
}

/// A sprite whose base and pose images were restored; measured sizes stay only while their
/// references stay.
pub open spec fn sprite_restored<A: PresetAssetWriter>(
    trail: Seq<A>,
    dir: Seq<char>,
    list: Seq<EmbeddedLocalImageV>,
    paths: Map<Seq<char>, Seq<char>>,
    old: ReactiveSpritePositionV,
    new: ReactiveSpritePositionV,
) -> bool {
    &&& new.id == old.id
    &&& image_ref_restored(trail, dir, list, old.base_image, new.base_image)
    &&& id_path_kept(paths, old.base_image, new.base_image)
    &&& new.reference_natural_size == (if new.base_image == old.base_image {
        old.reference_natural_size
    } else {
        None
    })
    &&& new.poses.len() == old.poses.len()
    &&& forall|i: int|
        0 <= i < old.poses.len() ==> pose_restored(trail, dir, list, paths, old.poses[i], #[trigger] new.poses[i])
}

/// Every sprite of every tab had its images restored.
pub open spec fn sprites_restored<A: PresetAssetWriter>(
    trail: Seq<A>,
    dir: Seq<char>,
    list: Seq<EmbeddedLocalImageV>,
    paths: Map<Seq<char>, Seq<char>>,
    old: Map<Seq<char>, Seq<ReactiveSpritePositionV>>,
    new: Map<Seq<char>, Seq<ReactiveSpritePositionV>>,
) -> bool {
    &&& new.dom() == old.dom()
    &&& forall|k: Seq<char>|
        #[trigger] old.contains_key(k) ==> new[k].len() == old[k].len() && forall|i: int|
            0 <= i < old[k].len() ==> sprite_restored(trail, dir, list, paths, old[k][i], #[trigger] new[k][i])
}

proof fn lemma_images_restored<'a, E: HasLook, A: PresetAssetWriter>(
    s: &ImageRestore<'a, A>,
    old: Map<Seq<char>, Seq<E::V>>,
    new: Map<Seq<char>, Seq<E::V>>,
)
    requires
        collection_rewritten::<E, ImageRestore<'a, A>>(LookField::Images, s, old, new),
        s.failure is None,
    ensures
        images_restored::<E, A>(s.trail@, s.dir@, s.embedded.deep_view(), s.cache@, old, new),
{
    assert forall|k: Seq<char>| #[trigger] old.contains_key(k) implies new[k].len() == old[k].len()
        && forall|i: int|
        0 <= i < old[k].len() ==> image_look_restored::<E, A>(
            s.trail@,
            s.dir@,
            s.embedded.deep_view(),
            s.cache@,
            old[k][i],
            #[trigger] new[k][i],
        ) by {
        assert forall|i: int| 0 <= i < old[k].len() implies image_look_restored::<E, A>(
            s.trail@,
            s.dir@,
            s.embedded.deep_view(),
            s.cache@,
            old[k][i],
            #[trigger] new[k][i],
        ) by {
            assert(crate::looks::look_rewritten::<E, ImageRestore<'a, A>>(
                LookField::Images,
                s,
                old[k][i],
                new[k][i],
            ));
        }
    }
}

proof fn lemma_sprites_restored<'a, A: PresetAssetWriter>(
    s: &ImageRestore<'a, A>,
    old: Map<Seq<char>, Seq<ReactiveSpritePositionV>>,
    new: Map<Seq<char>, Seq<ReactiveSpritePositionV>>,
)
    requires
        sprites_rewritten(s, old, new),
        s.failure is None,
    ensures
        sprites_restored(s.trail@, s.dir@, s.embedded.deep_view(), s.cache@, old, new),
{
    assert forall|k: Seq<char>| #[trigger] old.contains_key(k) implies new[k].len() == old[k].len()
        && forall|i: int|
        0 <= i < old[k].len() ==> sprite_restored(
            s.trail@,
            s.dir@,
            s.embedded.deep_view(),
            s.cache@,
            old[k][i],
            #[trigger] new[k][i],
        ) by {
        assert forall|i: int| 0 <= i < old[k].len() implies sprite_restored(
            s.trail@,
            s.dir@,
            s.embedded.deep_view(),
            s.cache@,
            old[k][i],
            #[trigger] new[k][i],
        ) by {
            assert(crate::looks::sprite_rewritten(s, old[k][i], new[k][i]));
            assert forall|j: int| 0 <= j < old[k][i].poses.len() implies pose_restored(
                s.trail@,
                s.dir@,
                s.embedded.deep_view(),
                s.cache@,
                old[k][i].poses[j],
                #[trigger] new[k][i].poses[j],
            ) by {
                assert(crate::looks::pose_rewritten(s, old[k][i].poses[j], new[k][i].poses[j]));
            }
        }
    }
}

/// An element with text in one of its image references.
pub open spec fn look_has_image(l: KeyPositionV) -> bool {
    spec_has_text(l.active_image) || spec_has_text(l.inactive_image)
}

/// Some element of some tab has an image reference.
pub open spec fn collection_has_image<E: HasLook>(m: Map<Seq<char>, Seq<E::V>>) -> bool {
    exists|k: Seq<char>, i: int|
        m.contains_key(k) && 0 <= i < m[k].len() && #[trigger] look_has_image(
            E::look_of(#[trigger] m[k][i]),
        )
}

/// A sprite with text in its base image or in a pose's override image.
pub open spec fn sprite_has_image(s: ReactiveSpritePositionV) -> bool {
    spec_has_text(s.base_image) || exists|j: int|
        0 <= j < s.poses.len() && spec_has_text(#[trigger] s.poses[j].image_override)
}

/// Some sprite of some tab has an image reference.
pub open spec fn sprites_have_image(m: Map<Seq<char>, Seq<ReactiveSpritePositionV>>) -> bool {
    exists|k: Seq<char>, i: int|
        m.contains_key(k) && 0 <= i < m[k].len() && #[trigger] sprite_has_image(#[trigger] m[k][i])
}

fn any_look_image<E: HasLook>(m: &StrMap<Vec<E>>) -> (r: bool)
    ensures
        r == collection_has_image::<E>(m@),
{
    m.check_wf();
    let n = m.len();
    let mut i: usize = 0;
    while i < n
        invariant
            n == m.spec_len(),
            i <= n,
            m.wf(),
            forall|e: int, t: int|
                0 <= e < i && 0 <= t < m.spec_value(e).len() ==> !look_has_image(
                    E::look_of(#[trigger] m.spec_value(e)[t]),
                ),
        decreases n - i,
    {
        let list = m.value_at(i);
        let mut j: usize = 0;
        while j < list.len()
            invariant
                i < n,
                n == m.spec_len(),
                m.wf(),
                j <= list.len(),
                list.deep_view() == m.spec_value(i as int),
                forall|e: int, t: int|
                    ((0 <= e < i && 0 <= t < m.spec_value(e).len()) || (e == i && 0 <= t < j))
                        ==> !look_has_image(E::look_of(#[trigger] m.spec_value(e)[t])),
            decreases list.len() - j,
        {
            let look = list[j].look();
            if has_text(&look.active_image) || has_text(&look.inactive_image) {
                proof {
                    m.lemma_index(i as int);
                    assert(look_has_image(E::look_of(m@[m.spec_key(i as int)][j as int])));
                }
                return true;
            }
            j += 1;
        }
        i += 1;
    }
    proof {
        if collection_has_image::<E>(m@) {
            let (k, t) = choose|k: Seq<char>, t: int|
                m@.contains_key(k) && 0 <= t < m@[k].len() && #[trigger] look_has_image(
                    E::look_of(#[trigger] m@[k][t]),
                );
            let e = m.lemma_key(k);
            assert(!look_has_image(E::look_of(m.spec_value(e)[t])));
        }
    }
    false
}

fn any_sprite_image(m: &StrMap<Vec<ReactiveSpritePosition>>) -> (r: bool)
    ensures
        r == sprites_have_image(m@),
{
    m.check_wf();
    let n = m.len();
    let mut i: usize = 0;
    while i < n
        invariant
            n == m.spec_len(),
            i <= n,
            m.wf(),
            forall|e: int, t: int|
                0 <= e < i && 0 <= t < m.spec_value(e).len() ==> !sprite_has_image(
                    #[trigger] m.spec_value(e)[t],
                ),
        decreases n - i,
    {
        let list = m.value_at(i);
        let mut j: usize = 0;
        while j < list.len()
            invariant
                i < n,
                n == m.spec_len(),
                m.wf(),
                j <= list.len(),
                list.deep_view() == m.spec_value(i as int),
                forall|e: int, t: int|
                    ((0 <= e < i && 0 <= t < m.spec_value(e).len()) || (e == i && 0 <= t < j))
                        ==> !sprite_has_image(#[trigger] m.spec_value(e)[t]),
            decreases list.len() - j,
        {
            let sprite = &list[j];
            let mut found = has_text(&sprite.base_image);
            let mut q: usize = 0;
            while q < sprite.poses.len() && !found
                invariant
                    q <= sprite.poses.len(),
                    found == (spec_has_text(sprite.base_image.deep_view()) || exists|x: int|
                        0 <= x < q && spec_has_text(#[trigger] sprite.poses.deep_view()[x].image_override)),
                decreases sprite.poses.len() - q,
            {
                if has_text(&sprite.poses[q].image_override) {
                    found = true;
                    assert(spec_has_text(sprite.poses.deep_view()[q as int].image_override));
                }
                q += 1;
            }
            if found {
                proof {
                    m.lemma_index(i as int);
                    assert(sprite.deep_view() == m@[m.spec_key(i as int)][j as int]);
                    assert(sprite_has_image(m@[m.spec_key(i as int)][j as int]));
                }
                return true;
            }
            proof {
                assert(!sprite_has_image(sprite.deep_view()));
            }
            j += 1;
        }
        i += 1;
    }
    proof {
        if sprites_have_image(m@) {
            let (k, t) = choose|k: Seq<char>, t: int|
                m@.contains_key(k) && 0 <= t < m@[k].len() && #[trigger] sprite_has_image(
                    #[trigger] m@[k][t],
                );
            let e = m.lemma_key(k);
            assert(!sprite_has_image(m.spec_value(e)[t]));
        }
    }
    false
}

/// The images that an optional embedded list holds.
pub open spec fn image_list(embedded: Option<&Vec<EmbeddedLocalImage>>) -> Seq<EmbeddedLocalImageV> {
    match embedded {
        Some(v) => v.deep_view(),
        None => Seq::empty(),
    }
}

/// Some element or sprite of some tab has an image reference.
pub open spec fn has_any_images(
    keys: Map<Seq<char>, Seq<KeyPositionV>>,
    stats: Map<Seq<char>, Seq<crate::model::StatPositionV>>,
    graphs: Map<Seq<char>, Seq<crate::model::GraphPositionV>>,
    knobs: Map<Seq<char>, Seq<crate::model::KnobPositionV>>,
    sprites: Map<Seq<char>, Seq<ReactiveSpritePositionV>>,
) -> bool {
    ||| collection_has_image::<KeyPosition>(keys)
    ||| collection_has_image::<StatPosition>(stats)
    ||| collection_has_image::<GraphPosition>(graphs)
    ||| collection_has_image::<KnobPosition>(knobs)
    ||| sprites_have_image(sprites)
}

/// The host accepts new files of every plain extension in this folder.
pub open spec fn accepts_plain<A: PresetAssetWriter>(host: A, dir: Seq<char>) -> bool {
    forall|e: Seq<char>| crate::web_assets::is_plain_extension(e) ==> #[trigger] host.accepts(dir, e)
}

/// What the image restore of an import did: every element's images and every sprite's
/// images were restored along a trail of host states from `before` to `after`, and the
/// sprites' missing sizes were then measured.
pub open spec fn images_restored_all<A: PresetAssetWriter>(
    before: A,
    after: A,
    dir: Seq<char>,
    list: Seq<EmbeddedLocalImageV>,
    old_keys: Map<Seq<char>, Seq<KeyPositionV>>,
    new_keys: Map<Seq<char>, Seq<KeyPositionV>>,
    old_stats: Map<Seq<char>, Seq<crate::model::StatPositionV>>,
    new_stats: Map<Seq<char>, Seq<crate::model::StatPositionV>>,
    old_graphs: Map<Seq<char>, Seq<crate::model::GraphPositionV>>,
    new_graphs: Map<Seq<char>, Seq<crate::model::GraphPositionV>>,
    old_knobs: Map<Seq<char>, Seq<crate::model::KnobPositionV>>,
    new_knobs: Map<Seq<char>, Seq<crate::model::KnobPositionV>>,
    old_sprites: Map<Seq<char>, Seq<ReactiveSpritePositionV>>,
    new_sprites: Map<Seq<char>, Seq<ReactiveSpritePositionV>>,
) -> bool {
    exists|trail: Seq<A>, paths: Map<Seq<char>, Seq<char>>, mid: Map<Seq<char>, Seq<ReactiveSpritePositionV>>|
        {
            &&& trail.len() >= 1
            &&& trail[0] == before
            &&& trail.last() == after
            &&& host_chain(trail)
            &&& images_restored::<KeyPosition, A>(trail, dir, list, paths, old_keys, new_keys)
            &&& images_restored::<StatPosition, A>(trail, dir, list, paths, old_stats, new_stats)
            &&& images_restored::<GraphPosition, A>(trail, dir, list, paths, old_graphs, new_graphs)
            &&& images_restored::<KnobPosition, A>(trail, dir, list, paths, old_knobs, new_knobs)
            &&& #[trigger] sprites_restored(trail, dir, list, paths, old_sprites, mid)
            &&& metrics_filled(|r: Seq<char>| after.natural_size(r), mid, new_sprites)
        }
}

/// What a successful image restore did, whatever the layouts held.
pub open spec fn image_restore_outcome<A: PresetAssetWriter>(
    before: A,
    after: A,
    dir: Seq<char>,
    list: Seq<EmbeddedLocalImageV>,
    old_keys: Map<Seq<char>, Seq<KeyPositionV>>,
    new_keys: Map<Seq<char>, Seq<KeyPositionV>>,
    old_stats: Map<Seq<char>, Seq<crate::model::StatPositionV>>,
    new_stats: Map<Seq<char>, Seq<crate::model::StatPositionV>>,
    old_graphs: Map<Seq<char>, Seq<crate::model::GraphPositionV>>,
    new_graphs: Map<Seq<char>, Seq<crate::model::GraphPositionV>>,
    old_knobs: Map<Seq<char>, Seq<crate::model::KnobPositionV>>,
    new_knobs: Map<Seq<char>, Seq<crate::model::KnobPositionV>>,
    old_sprites: Map<Seq<char>, Seq<ReactiveSpritePositionV>>,
    new_sprites: Map<Seq<char>, Seq<ReactiveSpritePositionV>>,
) -> bool {
    if !has_any_images(old_keys, old_stats, old_graphs, old_knobs, old_sprites) {
        &&& after == before
        &&& new_keys == old_keys
        &&& new_stats == old_stats
        &&& new_graphs == old_graphs
        &&& new_knobs == old_knobs
        &&& new_sprites == old_sprites
    } else {
        &&& before.folder_ok(dir)
        &&& images_restored_all(
            before,
            after,
            dir,
            list,
            old_keys,
            new_keys,
            old_stats,
            new_stats,
            old_graphs,
            new_graphs,
            old_knobs,
            new_knobs,
            old_sprites,
            new_sprites,
        )
    }
}

/// Restores the images that a preset carries into `images_dir` and rewrites every image
/// reference of the layouts (see [`image_restore_rule`]); then measures the sprites' images.
/// Layouts without any image reference are left alone. The restore fails when the folder is
/// refused or a data URL cannot be stored.
pub fn restore_preset_local_images_in_dir<A: PresetAssetWriter>(
    assets: &mut A,
    images_dir: &str,
    key_positions: &mut StrMap<Vec<KeyPosition>>,
    stat_positions: &mut StrMap<Vec<StatPosition>>,
    graph_positions: &mut StrMap<Vec<GraphPosition>>,
    knob_positions: &mut StrMap<Vec<KnobPosition>>,
    sprite_positions: &mut StrMap<Vec<ReactiveSpritePosition>>,
    embedded_local_images: Option<&Vec<EmbeddedLocalImage>>,
) -> (r: Result<(), String>)
    ensures
        !has_any_images(
            old(key_positions)@,
            old(stat_positions)@,
            old(graph_positions)@,
            old(knob_positions)@,
            old(sprite_positions)@,
        ) ==> r is Ok && *final(assets) == *old(assets) && final(key_positions)@ == old(
            key_positions,
        )@ && final(stat_positions)@ == old(stat_positions)@ && final(graph_positions)@ == old(
            graph_positions,
        )@ && final(knob_positions)@ == old(knob_positions)@ && final(sprite_positions)@ == old(
            sprite_positions,
        )@,
        has_any_images(
            old(key_positions)@,
            old(stat_positions)@,
            old(graph_positions)@,
            old(knob_positions)@,
            old(sprite_positions)@,
        ) ==> {
            &&& !old(assets).folder_ok(images_dir@) ==> r is Err && *final(assets) == *old(assets)
                && final(key_positions)@ == old(key_positions)@ && final(stat_positions)@ == old(
                stat_positions,
            )@ && final(graph_positions)@ == old(graph_positions)@ && final(knob_positions)@ == old(
                knob_positions,
            )@ && final(sprite_positions)@ == old(sprite_positions)@
            &&& old(assets).folder_ok(images_dir@) && accepts_plain(*old(assets), images_dir@) ==> r is Ok
            &&& r is Ok ==> images_restored_all(
                *old(assets),
                *final(assets),
                images_dir@,
                image_list(embedded_local_images),
                old(key_positions)@,
                final(key_positions)@,
                old(stat_positions)@,
                final(stat_positions)@,
                old(graph_positions)@,
                final(graph_positions)@,
                old(knob_positions)@,
                final(knob_positions)@,
                old(sprite_positions)@,
                final(sprite_positions)@,
            )
        },
        r is Ok ==> old(assets).grows_to(&*final(assets)),
        r is Ok ==> final(key_positions)@.dom() == old(key_positions)@.dom(),
        r is Ok ==> image_restore_outcome(
            *old(assets),
            *final(assets),
            images_dir@,
            image_list(embedded_local_images),
            old(key_positions)@,
            final(key_positions)@,
            old(stat_positions)@,
            final(stat_positions)@,
            old(graph_positions)@,
            final(graph_positions)@,
            old(knob_positions)@,
            final(knob_positions)@,
            old(sprite_positions)@,
            final(sprite_positions)@,
        ),
{
    let any = any_look_image(key_positions) || any_look_image(stat_positions) || any_look_image(
        graph_positions,
    ) || any_look_image(knob_positions) || any_sprite_image(sprite_positions);
    if !any {
        proof {
            assets.lemma_grows_refl();
        }
        return Ok(());
    }
    let empty: Vec<EmbeddedLocalImage> = Vec::new();
    let list = match embedded_local_images {
        Some(v) => v,
        None => &empty,
    };
    proof {
        assert(list.deep_view() =~= image_list(embedded_local_images));
    }
    match assets.create_dir_all(images_dir) {
        Ok(()) => {},
        Err(e) => {
            return Err(e);
        },
    }
    let mut host = A::default();
    std::mem::swap(&mut host, assets);
    let ghost h0 = host;
    let trail: Ghost<Seq<A>> = Ghost(Seq::empty().push(h0));
    let mut state = ImageRestore {
        host,
        dir: images_dir,
        embedded: list,
        cache: StrMap::new(),
        trail,
        failure: None,
    };
    proof {
        assert(state.trail@.last() == state.host);
    }
    let ghost s0 = state;
    rewrite_collection(LookField::Images, key_positions, &mut state);
    let ghost s1 = state;
    rewrite_collection(LookField::Images, stat_positions, &mut state);
    let ghost s2 = state;
    rewrite_collection(LookField::Images, graph_positions, &mut state);
    let ghost s3 = state;
    rewrite_collection(LookField::Images, knob_positions, &mut state);
    let ghost s4 = state;
    let ghost sprites_before_fill = *sprite_positions;
    rewrite_sprites(sprite_positions, &mut state);
    let ghost mid = sprite_positions@;
    std::mem::swap(assets, &mut state.host);
    match state.failure {
        Some(e) => {
            return Err(e);
        },
        None => {},
    }
    assets.fill_missing_sprite_image_metrics(sprite_positions);
    proof {
        s2.lemma_grows_trans(&s3, &s4);
        s2.lemma_grows_trans(&s4, &state);
        s1.lemma_grows_trans(&s2, &state);
        s3.lemma_grows_trans(&s4, &state);
        lemma_collection_mono::<KeyPosition, ImageRestore<'_, A>>(LookField::Images, &s1, &state, old(key_positions)@, key_positions@);
        lemma_collection_mono::<StatPosition, ImageRestore<'_, A>>(LookField::Images, &s2, &state, old(stat_positions)@, stat_positions@);
        lemma_collection_mono::<GraphPosition, ImageRestore<'_, A>>(LookField::Images, &s3, &state, old(graph_positions)@, graph_positions@);
        lemma_collection_mono::<KnobPosition, ImageRestore<'_, A>>(LookField::Images, &s4, &state, old(knob_positions)@, knob_positions@);
        lemma_images_restored::<KeyPosition, A>(&state, old(key_positions)@, key_positions@);
        lemma_images_restored::<StatPosition, A>(&state, old(stat_positions)@, stat_positions@);
        lemma_images_restored::<GraphPosition, A>(&state, old(graph_positions)@, graph_positions@);
        lemma_images_restored::<KnobPosition, A>(&state, old(knob_positions)@, knob_positions@);
        lemma_sprites_restored(&state, old(sprite_positions)@, mid);
        assert(state.trail@[0] == h0);
        assert(sprites_restored(state.trail@, images_dir@, list.deep_view(), state.cache@, old(sprite_positions)@, mid));
        lemma_chain_from_start(state.trail@, state.trail@.len() - 1);
    }
    Ok(())
}

/// An element whose sound was restored, nothing else changed.
pub open spec fn sound_look_restored<E: HasLook, A: PresetAssetWriter>(
    trail: Seq<A>,
    dir: Seq<char>,
    list: Seq<EmbeddedLocalSoundV>,
    old: E::V,
    new: E::V,
) -> bool {
    let lo = E::look_of(old);
    let ln = E::look_of(new);
    &&& new == E::with_look(old, with_sound(lo, ln.sound_path))
    &&& sound_ref_restored(trail, dir, list, lo.sound_path, ln.sound_path)
}

/// Every element of every tab had its sound restored.
pub open spec fn sounds_restored<E: HasLook, A: PresetAssetWriter>(
    trail: Seq<A>,
    dir: Seq<char>,
    list: Seq<EmbeddedLocalSoundV>,
    old: Map<Seq<char>, Seq<E::V>>,
    new: Map<Seq<char>, Seq<E::V>>,
) -> bool {
    &&& new.dom() == old.dom()
    &&& forall|k: Seq<char>|
        #[trigger] old.contains_key(k) ==> new[k].len() == old[k].len() && forall|i: int|
            0 <= i < old[k].len() ==> sound_look_restored::<E, A>(
                trail,
                dir,
                list,
                old[k][i],
                #[trigger] new[k][i],
            )
}

proof fn lemma_sounds_restored<'a, E: HasLook, A: PresetAssetWriter>(
    s: &SoundRestore<'a, A>,
    old: Map<Seq<char>, Seq<E::V>>,
    new: Map<Seq<char>, Seq<E::V>>,
)
    requires
        collection_rewritten::<E, SoundRestore<'a, A>>(LookField::Sound, s, old, new),
    ensures
        sounds_restored::<E, A>(s.trail@, s.dir@, s.embedded.deep_view(), old, new),
{
    assert forall|k: Seq<char>| #[trigger] old.contains_key(k) implies new[k].len() == old[k].len()
        && forall|i: int|
        0 <= i < old[k].len() ==> sound_look_restored::<E, A>(
            s.trail@,
            s.dir@,
            s.embedded.deep_view(),
            old[k][i],
            #[trigger] new[k][i],
        ) by {
        assert forall|i: int| 0 <= i < old[k].len() implies sound_look_restored::<E, A>(
            s.trail@,
            s.dir@,
            s.embedded.deep_view(),
            old[k][i],
            #[trigger] new[k][i],
        ) by {
            assert(crate::looks::look_rewritten::<E, SoundRestore<'a, A>>(
                LookField::Sound,
                s,
                old[k][i],
                new[k][i],
            ));
        }
    }
}

/// The sounds that an optional embedded list holds.
pub open spec fn sound_list(embedded: Option<&Vec<EmbeddedLocalSound>>) -> Seq<EmbeddedLocalSoundV> {
    match embedded {
        Some(v) => v.deep_view(),
        None => Seq::empty(),
    }
}

/// What the sound restore of an import did: every element's sound was restored along a
/// trail of host states from `before` to `after`.
pub open spec fn sounds_restored_all<A: PresetAssetWriter>(
    before: A,
    after: A,
    dir: Seq<char>,
    list: Seq<EmbeddedLocalSoundV>,
    old_keys: Map<Seq<char>, Seq<KeyPositionV>>,
    new_keys: Map<Seq<char>, Seq<KeyPositionV>>,
    old_stats: Map<Seq<char>, Seq<crate::model::StatPositionV>>,
    new_stats: Map<Seq<char>, Seq<crate::model::StatPositionV>>,
    old_graphs: Map<Seq<char>, Seq<crate::model::GraphPositionV>>,
    new_graphs: Map<Seq<char>, Seq<crate::model::GraphPositionV>>,
    old_knobs: Map<Seq<char>, Seq<crate::model::KnobPositionV>>,
    new_knobs: Map<Seq<char>, Seq<crate::model::KnobPositionV>>,
) -> bool {
    exists|trail: Seq<A>|
        {
            &&& trail.len() >= 1
            &&& trail[0] == before
            &&& trail.last() == after
            &&& host_chain(trail)
            &&& #[trigger] sounds_restored::<KeyPosition, A>(trail, dir, list, old_keys, new_keys)
            &&& sounds_restored::<StatPosition, A>(trail, dir, list, old_stats, new_stats)
            &&& sounds_restored::<GraphPosition, A>(trail, dir, list, old_graphs, new_graphs)
            &&& sounds_restored::<KnobPosition, A>(trail, dir, list, old_knobs, new_knobs)
        }
}

/// What a successful sound restore did.
pub open spec fn sound_restore_outcome<A: PresetAssetWriter>(
    before: A,
    after: A,
    dir: Seq<char>,
    list: Seq<EmbeddedLocalSoundV>,
    old_keys: Map<Seq<char>, Seq<KeyPositionV>>,
    new_keys: Map<Seq<char>, Seq<KeyPositionV>>,
    old_stats: Map<Seq<char>, Seq<crate::model::StatPositionV>>,
    new_stats: Map<Seq<char>, Seq<crate::model::StatPositionV>>,
    old_graphs: Map<Seq<char>, Seq<crate::model::GraphPositionV>>,
    new_graphs: Map<Seq<char>, Seq<crate::model::GraphPositionV>>,
    old_knobs: Map<Seq<char>, Seq<crate::model::KnobPositionV>>,
    new_knobs: Map<Seq<char>, Seq<crate::model::KnobPositionV>>,
) -> bool {
    &&& before.folder_ok(dir)
    &&& sounds_restored_all(
        before,
        after,
        dir,
        list,
        old_keys,
        new_keys,
        old_stats,
        new_stats,
        old_graphs,
        new_graphs,
        old_knobs,
        new_knobs,
    )
}

/// Restores the sounds that a preset carries into `sounds_dir` and rewrites every sound
/// reference of the layouts (see [`sound_restore_rule`]). Fails only when the folder is
/// refused, before anything changes.
pub fn restore_preset_local_sounds_in_dir<A: PresetAssetWriter>(
    assets: &mut A,
    sounds_dir: &str,
    key_positions: &mut StrMap<Vec<KeyPosition>>,
    stat_positions: &mut StrMap<Vec<StatPosition>>,
    graph_positions: &mut StrMap<Vec<GraphPosition>>,
    knob_positions: &mut StrMap<Vec<KnobPosition>>,
    embedded_local_sounds: Option<&Vec<EmbeddedLocalSound>>,
) -> (r: Result<(), String>)
    ensures
        r is Ok <==> old(assets).folder_ok(sounds_dir@),
        r is Err ==> *final(assets) == *old(assets) && final(key_positions)@ == old(key_positions)@
            && final(stat_positions)@ == old(stat_positions)@ && final(graph_positions)@ == old(
            graph_positions,
        )@ && final(knob_positions)@ == old(knob_positions)@,
        r is Ok ==> sounds_restored_all(
            *old(assets),
            *final(assets),
            sounds_dir@,
            sound_list(embedded_local_sounds),
            old(key_positions)@,
            final(key_positions)@,
            old(stat_positions)@,
            final(stat_positions)@,
            old(graph_positions)@,
            final(graph_positions)@,
            old(knob_positions)@,
            final(knob_positions)@,
        ),
        r is Ok ==> old(assets).grows_to(&*final(assets)),
        r is Ok ==> final(key_positions)@.dom() == old(key_positions)@.dom(),
        r is Ok ==> sound_restore_outcome(
            *old(assets),
            *final(assets),
            sounds_dir@,
            sound_list(embedded_local_sounds),
            old(key_positions)@,
            final(key_positions)@,
            old(stat_positions)@,
            final(stat_positions)@,
            old(graph_positions)@,
            final(graph_positions)@,
            old(knob_positions)@,
            final(knob_positions)@,
        ),
{
    match assets.create_dir_all(sounds_dir) {
        Ok(()) => {},
        Err(e) => {
            return Err(e);
        },
    }
    let empty: Vec<EmbeddedLocalSound> = Vec::new();
    let list = match embedded_local_sounds {
        Some(v) => v,
        None => &empty,
    };
    proof {
        assert(list.deep_view() =~= sound_list(embedded_local_sounds));
    }
    let mut host = A::default();
    std::mem::swap(&mut host, assets);
    let ghost h0 = host;
    let trail: Ghost<Seq<A>> = Ghost(Seq::empty().push(h0));
    let mut state = SoundRestore { host, dir: sounds_dir, embedded: list, cache: StrMap::new(), trail };
    let ghost s0 = state;
    rewrite_collection(LookField::Sound, key_positions, &mut state);
    let ghost s1 = state;
    rewrite_collection(LookField::Sound, stat_positions, &mut state);
    let ghost s2 = state;
    rewrite_collection(LookField::Sound, graph_positions, &mut state);
    let ghost s3 = state;
    rewrite_collection(LookField::Sound, knob_positions, &mut state);
    std::mem::swap(assets, &mut state.host);
    proof {
        s2.lemma_grows_trans(&s3, &state);
        s1.lemma_grows_trans(&s2, &state);
        s0.lemma_grows_trans(&s1, &state);
        assert(state.trail@[0] == s0.trail@[0]);
        lemma_collection_mono::<KeyPosition, SoundRestore<'_, A>>(LookField::Sound, &s1, &state, old(key_positions)@, key_positions@);
        lemma_collection_mono::<StatPosition, SoundRestore<'_, A>>(LookField::Sound, &s2, &state, old(stat_positions)@, stat_positions@);
        lemma_collection_mono::<GraphPosition, SoundRestore<'_, A>>(LookField::Sound, &s3, &state, old(graph_positions)@, graph_positions@);
        lemma_sounds_restored::<KeyPosition, A>(&state, old(key_positions)@, key_positions@);
        lemma_sounds_restored::<StatPosition, A>(&state, old(stat_positions)@, stat_positions@);
        lemma_sounds_restored::<GraphPosition, A>(&state, old(graph_positions)@, graph_positions@);
        lemma_sounds_restored::<KnobPosition, A>(&state, old(knob_positions)@, knob_positions@);
        assert(state.trail@[0] == h0);
        assert(sounds_restored::<KeyPosition, A>(state.trail@, sounds_dir@, list.deep_view(), old(key_positions)@, key_positions@));
        lemma_chain_from_start(state.trail@, state.trail@.len() - 1);
    }
    Ok(())
}

/// The last embedded font with this id: a later entry replaces an earlier one.
pub open spec fn last_font(list: Seq<EmbeddedLocalFontV>, id: Seq<char>) -> Option<EmbeddedLocalFontV>
    decreases list.len(),
{
    if list.len() == 0 {
        None
    } else if list.last().font_id == id {
        Some(list.last())
    } else {
        last_font(list.drop_last(), id)
    }
}

fn find_font(list: &Vec<EmbeddedLocalFont>, id: &str) -> (r: Option<usize>)
    ensures
        r is None <==> last_font(list.deep_view(), id@) is None,
        r matches Some(i) ==> i < list.len() && last_font(list.deep_view(), id@) == Some(
            list.deep_view()[i as int],
        ),
{
    let mut i: usize = list.len();
    assert(list.deep_view().take(i as int) =~= list.deep_view());
    while i > 0
        invariant
            i <= list.len(),
            last_font(list.deep_view(), id@) == last_font(list.deep_view().take(i as int), id@),
        decreases i,
    {
        let ghost pre = list.deep_view().take(i as int);
        assert(pre.last() == list.deep_view()[i - 1]);
        assert(pre.drop_last() =~= list.deep_view().take(i - 1));
        if crate::text::str_eq(list[i - 1].font_id.as_str(), id) {
            return Some(i - 1);
        }
        i -= 1;
    }
    None
}

/// A local font that could not be restored: no path, disabled.
pub open spec fn font_disabled(f: CustomFontV) -> CustomFontV {
    CustomFontV { local_path: None, enabled: false, ..f }
}

/// How one font is restored, given the host before and after this step. A local font loses
/// its style text; its embedded file is written to a new file in `dir` (an undecodable file
/// or a refused write disables it); without an embedded file, a path to an existing file
/// stays, otherwise the font is disabled. Other fonts stay.
pub open spec fn font_restore_rule<A: PresetAssetWriter>(
    hb: A,
    ha: A,
    dir: Seq<char>,
    list: Seq<EmbeddedLocalFontV>,
    old: CustomFontV,
    new: CustomFontV,
) -> bool {
    if old.font_type != FontType::Local {
        new == old
    } else {
        let base = CustomFontV { css_content: None, ..old };
        match last_font(list, old.id) {
            Some(e) => match base64_decoded(e.data_base64) {
                None => new == font_disabled(base),
                Some(bytes) => {
                    ||| (new.local_path matches Some(p) && new == CustomFontV {
                        local_path: Some(p),
                        ..base
                    } && ha.content(p) == Some(bytes))
                    ||| (new == font_disabled(base) && !hb.accepts(
                        dir,
                        spec_normalize_font_extension(e.extension),
                    ))
                },
            },
            None => if (old.local_path matches Some(p) && trim(p).len() > 0 && hb.file_present(p)) {
                new == base
            } else {
                new == font_disabled(base)
            },
        }
    }
}

/// Every font was restored in order along a trail with one step per font.
pub open spec fn fonts_restored<A: PresetAssetWriter>(
    trail: Seq<A>,
    dir: Seq<char>,
    list: Seq<EmbeddedLocalFontV>,
    old: Seq<CustomFontV>,
    new: Seq<CustomFontV>,
) -> bool {
    &&& trail.len() == old.len() + 1
    &&& new.len() == old.len()
    &&& host_chain(trail)
    &&& forall|i: int|
        0 <= i < old.len() ==> font_restore_rule(trail[i], trail[i + 1], dir, list, old[i], #[trigger] new[i])
}

/// The fonts that an optional embedded list holds.
pub open spec fn font_list(embedded: Option<&Vec<EmbeddedLocalFont>>) -> Seq<EmbeddedLocalFontV> {
    match embedded {
        Some(v) => v.deep_view(),
        None => Seq::empty(),
    }
}

/// Some font is a local font.
pub open spec fn has_local_font(fonts: Seq<CustomFontV>) -> bool {
    exists|i: int| 0 <= i < fonts.len() && #[trigger] fonts[i].font_type == FontType::Local
}

/// What a successful font restore did.
pub open spec fn font_restore_outcome<A: PresetAssetWriter>(
    before: A,
    after: A,
    dir: Seq<char>,
    list: Seq<EmbeddedLocalFontV>,
    old: Seq<CustomFontV>,
    new: Seq<CustomFontV>,
) -> bool {
    if !has_local_font(old) {
        after == before && new == old
    } else {
        &&& before.folder_ok(dir)
        &&& exists|trail: Seq<A>|
            trail[0] == before && trail.last() == after && #[trigger] fonts_restored(trail, dir, list, old, new)
    }
}

/// Restores the font files that a preset carries into `fonts_dir` (see
/// [`font_restore_rule`]). Without local fonts nothing happens; the restore fails only when
/// the folder is refused, before anything changes.
pub fn restore_preset_local_fonts_in_dir<A: PresetAssetWriter>(
    assets: &mut A,
    fonts_dir: &str,
    font_settings: &mut FontSettings,
    embedded_local_fonts: Option<&Vec<EmbeddedLocalFont>>,
) -> (r: Result<(), String>)
    ensures
        !has_local_font(old(font_settings).custom_fonts.deep_view()) ==> r is Ok && *final(assets)
            == *old(assets) && final(font_settings).deep_view() == old(font_settings).deep_view(),
        has_local_font(old(font_settings).custom_fonts.deep_view()) ==> {
            &&& r is Ok <==> old(assets).folder_ok(fonts_dir@)
            &&& r is Err ==> *final(assets) == *old(assets) && final(font_settings).deep_view()
                == old(font_settings).deep_view()
            &&& r is Ok ==> exists|trail: Seq<A>|
                trail[0] == *old(assets) && trail.last() == *final(assets) && #[trigger] fonts_restored(
                    trail,
                    fonts_dir@,
                    font_list(embedded_local_fonts),
                    old(font_settings).custom_fonts.deep_view(),
                    final(font_settings).custom_fonts.deep_view(),
                )
        },
        r is Ok ==> old(assets).grows_to(&*final(assets)),
        r is Ok ==> font_restore_outcome(
            *old(assets),
            *final(assets),
            fonts_dir@,
            font_list(embedded_local_fonts),
            old(font_settings).custom_fonts.deep_view(),
            final(font_settings).custom_fonts.deep_view(),
        ),
{
    let fonts = &font_settings.custom_fonts;
    let mut any = false;
    let mut q: usize = 0;
    while q < fonts.len()
        invariant
            q <= fonts.len(),
            any == exists|i: int| 0 <= i < q && #[trigger] fonts.deep_view()[i].font_type == FontType::Local,
        decreases fonts.len() - q,
    {
        match fonts[q].font_type {
            FontType::Local => {
                any = true;
                assert(fonts.deep_view()[q as int].font_type == FontType::Local);
            },
            FontType::Web => {},
        }
        q += 1;
    }
    if !any {
        proof {
            assets.lemma_grows_refl();
        }
        return Ok(());
    }
    match assets.create_dir_all(fonts_dir) {
        Ok(()) => {},
        Err(e) => {
            return Err(e);
        },
    }
    let empty: Vec<EmbeddedLocalFont> = Vec::new();
    let list = match embedded_local_fonts {
        Some(v) => v,
        None => &empty,
    };
    proof {
        assert(list.deep_view() =~= font_list(embedded_local_fonts));
    }
    let ghost old_fonts = font_settings.custom_fonts.deep_view();
    let ghost mut trail: Seq<A> = Seq::empty().push(*assets);
    let mut out: Vec<CustomFont> = Vec::new();
    let mut i: usize = 0;
    let n = font_settings.custom_fonts.len();
    while i < n
        invariant
            n == font_settings.custom_fonts.len(),
            old_fonts == font_settings.custom_fonts.deep_view(),
            i <= n,
            trail.len() == i + 1,
            trail[0] == *old(assets),
            trail.last() == *assets,
            host_chain(trail),
            out.deep_view().len() == i,
            forall|j: int|
                0 <= j < i ==> font_restore_rule(
                    trail[j],
                    trail[j + 1],
                    fonts_dir@,
                    list.deep_view(),
                    old_fonts[j],
                    #[trigger] out.deep_view()[j],
                ),
        decreases n - i,
    {
        let font = &font_settings.custom_fonts[i];
        let ghost hb = *assets;
        let mut next = font.dup();
        match font.font_type {
            FontType::Web => {},
            FontType::Local => {
                next.css_content = None;
                match find_font(list, font.id.as_str()) {
                    Some(index) => {
                        let entry = &list[index];
                        match decode_base64(entry.data_base64.as_str()) {
                            Err(_) => {
                                next.local_path = None;
                                next.enabled = false;
                            },
                            Ok(bytes) => {
                                let ghost bv = bytes@;
                                let ext = match &entry.extension {
                                    Some(e) => normalize_font_extension(Some(e.as_str())),
                                    None => normalize_font_extension(None),
                                };
                                let (dest, uid) = fresh_file_path(fonts_dir, ext.as_str());
                                proof {
                                    if assets.accepts(fonts_dir@, ext@) {
                                        assets.lemma_fresh_writable(fonts_dir@, uid@, ext@);
                                    }
                                }
                                match assets.write(dest.as_str(), bytes) {
                                    Ok(()) => {
                                        next.local_path = Some(dest);
                                    },
                                    Err(_) => {
                                        next.local_path = None;
                                        next.enabled = false;
                                    },
                                }
                            },
                        }
                    },
                    None => {
                        let keep = match &font.local_path {
                            Some(p) => {
                                let t = trim_chars(&chars_of(p.as_str()));
                                t.len() > 0 && assets.has_file(p.as_str())
                            },
                            None => false,
                        };
                        if !keep {
                            next.local_path = None;
                            next.enabled = false;
                        }
                    },
                }
            },
        }
        proof {
            if *assets == hb {
                hb.lemma_grows_refl();
            }
        }
        let ghost t0 = trail;
        proof {
            trail = trail.push(*assets);
            assert forall|m: int| 0 <= m < trail.len() - 1 implies #[trigger] trail[m].grows_to(&trail[m + 1]) by {
                if m < t0.len() - 1 {
                    assert(trail[m] == t0[m] && trail[m + 1] == t0[m + 1]);
                    assert(t0[m].grows_to(&t0[m + 1]));
                } else {
                    assert(trail[m] == hb);
                }
            }
        }
        let ghost before_out = out.deep_view();
        out.push(next);
        proof {
            assert forall|j: int|
                0 <= j < i + 1 implies font_restore_rule(
                trail[j],
                trail[j + 1],
                fonts_dir@,
                list.deep_view(),
                old_fonts[j],
                #[trigger] out.deep_view()[j],
            ) by {
                if j < i {
                    assert(out.deep_view()[j] == before_out[j]);
                    assert(trail[j] == t0[j] && trail[j + 1] == t0[j + 1]);
                } else {
                    assert(out.deep_view()[j] == next.deep_view());
                    assert(trail[j] == hb);
                    assert(old_fonts[j] == font.deep_view());
                }
            }
        }
        i += 1;
    }
    font_settings.custom_fonts = out;
    proof {
        assert(fonts_restored(
            trail,
            fonts_dir@,
            font_list(embedded_local_fonts),
            old_fonts,
            font_settings.custom_fonts.deep_view(),
        ));
        lemma_chain_from_start(trail, trail.len() - 1);
    }
    Ok(())
}

} // verus!
