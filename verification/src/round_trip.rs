//! What an import gives back of an export: an image, sound or font file that a preset
//! embeds comes back byte for byte.
use crate::asset_refs::{
    spec_normalize_font_extension, spec_normalize_image_extension, spec_normalize_sound_extension, PRESET_LOCAL_IMAGE_PREFIX,
    PRESET_LOCAL_SOUND_PREFIX,
};
use crate::codec::is_uuid_char;
use crate::codec::base64_decoded;
use crate::model::{CustomFontV, EmbeddedLocalFontV, EmbeddedLocalImageV, EmbeddedLocalSoundV, FontType};
use crate::preset_export::{embeds_image, embeds_sound, image_embedded_as, sound_embedded_as};
use crate::preset_restore::{
    font_restore_rule, held_in, image_ref_restored, image_restore_rule, last_font, last_image,
    last_sound, sound_ref_restored, sound_restore_rule, PresetAssetWriter,
};
use crate::text::{char_is_whitespace, starts_with, trim, trim_end, trim_start};
use vstd::prelude::*;

verus! {

/// No two embedded images of the list share an id.
pub open spec fn image_ids_distinct(list: Seq<EmbeddedLocalImageV>) -> bool {
    forall|i: int, j: int|
        0 <= i < list.len() && 0 <= j < list.len() && #[trigger] list[i].image_id == #[trigger] list[j].image_id
            ==> i == j
}

/// No two embedded sounds of the list share an id.
pub open spec fn sound_ids_distinct(list: Seq<EmbeddedLocalSoundV>) -> bool {
    forall|i: int, j: int|
        0 <= i < list.len() && 0 <= j < list.len() && #[trigger] list[i].sound_id == #[trigger] list[j].sound_id
            ==> i == j
}

proof fn lemma_last_image(list: Seq<EmbeddedLocalImageV>, i: int)
    requires
        0 <= i < list.len(),
        image_ids_distinct(list),
    ensures
        last_image(list, list[i].image_id) == Some(list[i]),
    decreases list.len(),
{
    if i < list.len() - 1 {
        let rest = list.drop_last();
        assert(list.last().image_id != list[i].image_id) by {
            assert(list[list.len() - 1].image_id != list[i].image_id);
        }
        assert forall|a: int, b: int|
            0 <= a < rest.len() && 0 <= b < rest.len() && #[trigger] rest[a].image_id == #[trigger] rest[b].image_id
                implies a == b by {
            assert(list[a].image_id == list[b].image_id);
        }
        lemma_last_image(rest, i);
        assert(rest[i] == list[i]);
    }
}

proof fn lemma_last_sound(list: Seq<EmbeddedLocalSoundV>, i: int)
    requires
        0 <= i < list.len(),
        sound_ids_distinct(list),
    ensures
        last_sound(list, list[i].sound_id) == Some(list[i]),
    decreases list.len(),
{
    if i < list.len() - 1 {
        let rest = list.drop_last();
        assert(list.last().sound_id != list[i].sound_id) by {
            assert(list[list.len() - 1].sound_id != list[i].sound_id);
        }
        assert forall|a: int, b: int|
            0 <= a < rest.len() && 0 <= b < rest.len() && #[trigger] rest[a].sound_id == #[trigger] rest[b].sound_id
                implies a == b by {
            assert(list[a].sound_id == list[b].sound_id);
        }
        lemma_last_sound(rest, i);
        assert(rest[i] == list[i]);
    }
}

/// A reference made of a prefix that starts with a letter and a UUID text has nothing to
/// trim.
proof fn lemma_embedded_ref_plain(prefix: Seq<char>, id: Seq<char>)
    requires
        prefix.len() > 0,
        'a' <= prefix[0] && prefix[0] <= 'z',
        crate::codec::is_uuid_text(id),
    ensures
        trim(prefix + id) == prefix + id,
        starts_with(prefix + id, prefix),
        (prefix + id).skip(prefix.len() as int) == id,
{
    let s = prefix + id;
    assert(s[0] == prefix[0]);
    assert(!char_is_whitespace(s[0]));
    assert(trim_start(s) == s);
    assert(s.last() == id[35]);
    assert(is_uuid_char(id[35]));
    assert(!char_is_whitespace(s.last()));
    assert(trim_end(s) == s);
    assert(s.take(prefix.len() as int) =~= prefix);
    assert(s.skip(prefix.len() as int) =~= id);
}

/// An image that an export embeds comes back from an import byte for byte: when a
/// reference that the export wrote names an embedded image (and no other image of the
/// preset has its id), the import restores it to a file that held exactly the image's
/// bytes, or clears it where the host refused the image's extension.
pub proof fn lemma_embedded_image_round_trip<A: PresetAssetWriter>(
    list: Seq<EmbeddedLocalImageV>,
    exported: Option<Seq<char>>,
    ext: Seq<char>,
    bytes: Seq<u8>,
    trail: Seq<A>,
    dir: Seq<char>,
    restored: Option<Seq<char>>,
)
    requires
        image_embedded_as(list, exported, ext, bytes),
        image_ids_distinct(list),
        image_ref_restored(trail, dir, list, exported, restored),
    ensures
        restored matches Some(p) ==> held_in(trail, p, bytes),
        restored is None ==> exists|m: int|
            0 <= m < trail.len() && !(#[trigger] trail[m]).accepts(dir, spec_normalize_image_extension(Some(ext))),
{
    let id = choose|id: Seq<char>|
        exported == Some(PRESET_LOCAL_IMAGE_PREFIX@ + id) && #[trigger] embeds_image(list, id, ext, bytes);
    let i = choose|i: int|
        0 <= i < list.len() && #[trigger] list[i] == EmbeddedLocalImageV {
            image_id: id,
            extension: Some(ext),
            data_base64: crate::codec::base64_encoded(bytes),
        };
    reveal_strlit("dmnote-preset-image:");
    lemma_embedded_ref_plain(PRESET_LOCAL_IMAGE_PREFIX@, id);
    lemma_last_image(list, i);
    let j = choose|j: int| 2 <= j <= trail.len() && #[trigger] image_restore_rule(trail.take(j), dir, list, exported, restored);
    let t = trail.take(j);
    assert(image_restore_rule(t, dir, list, exported, restored));
    if let Some(p) = restored {
        let m = choose|m: int| 0 <= m < t.len() && #[trigger] t[m].content(p) == Some(bytes);
        assert(trail[m] == t[m]);
    } else {
        assert(trail[j - 2] == t[t.len() - 2]);
    }
}

/// A sound that an export embeds comes back from an import byte for byte: when a
/// reference that the export wrote names an embedded sound (and no other sound of the
/// preset has its id), the import restores it to a file that held exactly the sound's
/// bytes, or clears it where the host refused the sound's extension.
pub proof fn lemma_embedded_sound_round_trip<A: PresetAssetWriter>(
    list: Seq<EmbeddedLocalSoundV>,
    exported: Option<Seq<char>>,
    ext: Seq<char>,
    bytes: Seq<u8>,
    trail: Seq<A>,
    dir: Seq<char>,
    restored: Option<Seq<char>>,
)
    requires
        sound_embedded_as(list, exported, ext, bytes),
        sound_ids_distinct(list),
        sound_ref_restored(trail, dir, list, exported, restored),
    ensures
        restored matches Some(p) ==> held_in(trail, p, bytes),
        restored is None ==> exists|m: int|
            0 <= m < trail.len() && !(#[trigger] trail[m]).accepts(dir, spec_normalize_sound_extension(Some(ext))),
{
    let id = choose|id: Seq<char>|
        exported == Some(PRESET_LOCAL_SOUND_PREFIX@ + id) && #[trigger] embeds_sound(list, id, ext, bytes);
    let i = choose|i: int|
        0 <= i < list.len() && #[trigger] list[i] == EmbeddedLocalSoundV {
            sound_id: id,
            extension: Some(ext),
            data_base64: crate::codec::base64_encoded(bytes),
        };
    reveal_strlit("dmnote-preset-sound:");
    lemma_embedded_ref_plain(PRESET_LOCAL_SOUND_PREFIX@, id);
    lemma_last_sound(list, i);
    let j = choose|j: int| 2 <= j <= trail.len() && #[trigger] sound_restore_rule(trail.take(j), dir, list, exported, restored);
    let t = trail.take(j);
    assert(sound_restore_rule(t, dir, list, exported, restored));
    if let Some(p) = restored {
        let m = choose|m: int| 0 <= m < t.len() && #[trigger] t[m].content(p) == Some(bytes);
        assert(trail[m] == t[m]);
    } else {
        assert(trail[j - 2] == t[t.len() - 2]);
    }
}

/// No two embedded fonts of the list share an id.
pub open spec fn font_ids_distinct(list: Seq<EmbeddedLocalFontV>) -> bool {
    forall|i: int, j: int|
        0 <= i < list.len() && 0 <= j < list.len() && #[trigger] list[i].font_id == #[trigger] list[j].font_id
            ==> i == j
}

proof fn lemma_last_font(list: Seq<EmbeddedLocalFontV>, i: int)
    requires
        0 <= i < list.len(),
        font_ids_distinct(list),
    ensures
        last_font(list, list[i].font_id) == Some(list[i]),
    decreases list.len(),
{
    if i < list.len() - 1 {
        let rest = list.drop_last();
        assert(list.last().font_id != list[i].font_id) by {
            assert(list[list.len() - 1].font_id != list[i].font_id);
        }
        assert forall|a: int, b: int|
            0 <= a < rest.len() && 0 <= b < rest.len() && #[trigger] rest[a].font_id == #[trigger] rest[b].font_id
                implies a == b by {
            assert(list[a].font_id == list[b].font_id);
        }
        lemma_last_font(rest, i);
        assert(rest[i] == list[i]);
    }
}

/// A font file that an export embeds comes back from an import byte for byte: when a local
/// font has the id of an embedded file (and no other file of the preset has that id) whose
/// text decodes to `bytes`, the import points the font at a file that holds `bytes`, or
/// disables it where the host refused the file's extension.
pub proof fn lemma_embedded_font_round_trip<A: PresetAssetWriter>(
    list: Seq<EmbeddedLocalFontV>,
    i: int,
    bytes: Seq<u8>,
    before: A,
    after: A,
    dir: Seq<char>,
    old: CustomFontV,
    new: CustomFontV,
)
    requires
        0 <= i < list.len(),
        font_ids_distinct(list),
        list[i].font_id == old.id,
        base64_decoded(list[i].data_base64) == Some(bytes),
        old.font_type == FontType::Local,
        font_restore_rule(before, after, dir, list, old, new),
    ensures
        new.id == old.id,
        new.css_content is None,
        new.local_path matches Some(p) ==> after.content(p) == Some(bytes),
        new.local_path is None ==> !new.enabled && !before.accepts(
            dir,
            spec_normalize_font_extension(list[i].extension),
        ),
{
    lemma_last_font(list, i);
}

} // verus!
