//! Comparing editor values by their content.
use crate::model::{
    AppStoreData, CounterAnimation, CounterAnimationPreset, CounterStyle, CustomCss, CustomFont,
    CustomJs, CustomTab, FontSettings, GraphPosition, KeyPosition, KeySlot, KnobPosition,
    LayerGroupDef, NoteSettings, ReactiveSpritePosition, SoundLibraryEntry, SpriteImageMetrics,
    SpritePose, SpriteReferenceNaturalSize, StatPosition, TabCss, TabNoteSettings,
};
use crate::strmap::StrMap;
use crate::text::str_eq;
use vstd::prelude::*;

verus! {

/// Values that can be compared by content: equal exactly when their deep views are.
pub trait DeepEq: Sized + DeepView {
    fn deep_eq(&self, other: &Self) -> (r: bool)
        ensures
            r == (self.deep_view() == other.deep_view()),
    ;
}

impl DeepEq for String {
    fn deep_eq(&self, other: &Self) -> (r: bool) {
        str_eq(self.as_str(), other.as_str())
    }
}

impl DeepEq for bool {
    fn deep_eq(&self, other: &Self) -> (r: bool) {
        *self == *other
    }
}

impl DeepEq for u32 {
    fn deep_eq(&self, other: &Self) -> (r: bool) {
        *self == *other
    }
}

impl DeepEq for u64 {
    fn deep_eq(&self, other: &Self) -> (r: bool) {
        *self == *other
    }
}

impl<T: DeepEq> DeepEq for Option<T> {
    fn deep_eq(&self, other: &Self) -> (r: bool) {
        match (self, other) {
            (Some(a), Some(b)) => a.deep_eq(b),
            (None, None) => true,
            _ => false,
        }
    }
}

/// Two slices with the same elements, compared by content.
pub fn slices_equal<T: DeepEq>(a: &[T], b: &[T]) -> (r: bool)
    ensures
        r == (a.deep_view() == b.deep_view()),
{
    if a.len() != b.len() {
        assert(a.deep_view().len() != b.deep_view().len());
        return false;
    }
    let mut i: usize = 0;
    while i < a.len()
        invariant
            i <= a.len(),
            a.len() == b.len(),
            forall|j: int| 0 <= j < i ==> a.deep_view()[j] == b.deep_view()[j],
        decreases a.len() - i,
    {
        if !a[i].deep_eq(&b[i]) {
            assert(a.deep_view()[i as int] != b.deep_view()[i as int]);
            return false;
        }
        i += 1;
    }
    assert(a.deep_view() =~= b.deep_view());
    true
}

impl<T: DeepEq> DeepEq for Vec<T> {
    fn deep_eq(&self, other: &Self) -> (r: bool) {
        let a = self.as_slice();
        let b = other.as_slice();
        assert(a.deep_view() =~= self.deep_view());
        assert(b.deep_view() =~= other.deep_view());
        slices_equal(a, b)
    }
}

impl<V: DeepEq> DeepEq for StrMap<V> {
    fn deep_eq(&self, other: &Self) -> (r: bool) {
        self.check_wf();
        other.check_wf();
        let n = self.len();
        let mut i: usize = 0;
        while i < n
            invariant
                n == self.spec_len(),
                i <= n,
                self.wf(),
                other.wf(),
                forall|j: int|
                    0 <= j < i ==> other@.contains_key(#[trigger] self.spec_key(j)) && other@[self.spec_key(j)]
                        == self.spec_value(j),
            decreases n - i,
        {
            let k = self.key_at(i);
            proof {
                self.lemma_index(i as int);
            }
            match other.get(k.as_str()) {
                Some(v) => {
                    if !self.value_at(i).deep_eq(v) {
                        return false;
                    }
                },
                None => {
                    return false;
                },
            }
            i += 1;
        }
        let m = other.len();
        let mut j: usize = 0;
        while j < m
            invariant
                m == other.spec_len(),
                j <= m,
                other.wf(),
                forall|t: int| 0 <= t < j ==> self@.contains_key(#[trigger] other.spec_key(t)),
            decreases m - j,
        {
            if !self.contains_key(other.key_at(j).as_str()) {
                proof {
                    other.lemma_index(j as int);
                }
                return false;
            }
            j += 1;
        }
        proof {
            assert forall|k: Seq<char>| #[trigger] self@.contains_key(k) implies other@.contains_key(k)
                && other@[k] == self@[k] by {
                let t = self.lemma_key(k);
            }
            assert forall|k: Seq<char>| #[trigger] other@.contains_key(k) implies self@.contains_key(k) by {
                let t = other.lemma_key(k);
            }
            assert(self@ =~= other@);
        }
        true
    }
}

impl DeepEq for KeySlot {
    fn deep_eq(&self, other: &Self) -> (r: bool) {
        self.label.deep_eq(&other.label)
    }
}

impl DeepEq for CounterAnimation {
    fn deep_eq(&self, other: &Self) -> (r: bool) {
        self.preset_id.deep_eq(&other.preset_id) && self.duration_ms == other.duration_ms
            && self.scale_bits == other.scale_bits && self.bezier_bits.0 == other.bezier_bits.0
            && self.bezier_bits.1 == other.bezier_bits.1 && self.bezier_bits.2
            == other.bezier_bits.2 && self.bezier_bits.3 == other.bezier_bits.3
    }
}

impl DeepEq for CounterStyle {
    fn deep_eq(&self, other: &Self) -> (r: bool) {
        self.font_family.deep_eq(&other.font_family) && self.animation.deep_eq(&other.animation)
    }
}

impl DeepEq for KeyPosition {
    fn deep_eq(&self, other: &Self) -> (r: bool) {
        self.id.deep_eq(&other.id) && self.active_image.deep_eq(&other.active_image)
            && self.inactive_image.deep_eq(&other.inactive_image) && self.sound_path.deep_eq(
            &other.sound_path,
        ) && self.sound_enabled.deep_eq(&other.sound_enabled) && self.font_family.deep_eq(
            &other.font_family,
        ) && self.counter.deep_eq(&other.counter)
    }
}

impl DeepEq for StatPosition {
    fn deep_eq(&self, other: &Self) -> (r: bool) {
        self.position.deep_eq(&other.position)
    }
}

impl DeepEq for GraphPosition {
    fn deep_eq(&self, other: &Self) -> (r: bool) {
        self.position.deep_eq(&other.position)
    }
}

impl DeepEq for KnobPosition {
    fn deep_eq(&self, other: &Self) -> (r: bool) {
        self.axis_id.deep_eq(&other.axis_id) && self.reverse == other.reverse
            && self.sensitivity_bits == other.sensitivity_bits && self.position.deep_eq(
            &other.position,
        )
    }
}

impl DeepEq for SpriteReferenceNaturalSize {
    fn deep_eq(&self, other: &Self) -> (r: bool) {
        self.source.deep_eq(&other.source) && self.width == other.width && self.height
            == other.height
    }
}

impl DeepEq for SpriteImageMetrics {
    fn deep_eq(&self, other: &Self) -> (r: bool) {
        self.source.deep_eq(&other.source) && self.width == other.width && self.height
            == other.height
    }
}

impl DeepEq for SpritePose {
    fn deep_eq(&self, other: &Self) -> (r: bool) {
        self.pose_id.deep_eq(&other.pose_id) && self.image_override.deep_eq(&other.image_override)
            && self.image_override_metrics.deep_eq(&other.image_override_metrics)
    }
}

impl DeepEq for ReactiveSpritePosition {
    fn deep_eq(&self, other: &Self) -> (r: bool) {
        self.id.deep_eq(&other.id) && self.base_image.deep_eq(&other.base_image)
            && self.reference_natural_size.deep_eq(&other.reference_natural_size)
            && self.poses.deep_eq(&other.poses)
    }
}

impl DeepEq for LayerGroupDef {
    fn deep_eq(&self, other: &Self) -> (r: bool) {
        self.id.deep_eq(&other.id) && self.name.deep_eq(&other.name)
    }
}

impl DeepEq for TabCss {
    fn deep_eq(&self, other: &Self) -> (r: bool) {
        self.path.deep_eq(&other.path) && self.content.deep_eq(&other.content) && self.enabled
            == other.enabled
    }
}

impl DeepEq for TabNoteSettings {
    fn deep_eq(&self, other: &Self) -> (r: bool) {
        self.speed.deep_eq(&other.speed) && self.track_height.deep_eq(&other.track_height)
    }
}

impl DeepEq for u8 {
    fn deep_eq(&self, other: &Self) -> (r: bool) {
        *self == *other
    }
}

impl DeepEq for CustomTab {
    fn deep_eq(&self, other: &Self) -> (r: bool) {
        self.id.deep_eq(&other.id) && self.name.deep_eq(&other.name)
    }
}

impl DeepEq for CustomFont {
    fn deep_eq(&self, other: &Self) -> (r: bool) {
        self.id.deep_eq(&other.id) && self.name.deep_eq(&other.name) && self.display_name.deep_eq(
            &other.display_name,
        ) && self.font_type == other.font_type && self.local_path.deep_eq(&other.local_path)
            && self.enabled == other.enabled && self.css_content.deep_eq(&other.css_content)
    }
}

impl DeepEq for FontSettings {
    fn deep_eq(&self, other: &Self) -> (r: bool) {
        self.custom_fonts.deep_eq(&other.custom_fonts)
    }
}

impl DeepEq for NoteSettings {
    fn deep_eq(&self, other: &Self) -> (r: bool) {
        self.speed == other.speed && self.track_height == other.track_height && self.reverse
            == other.reverse
    }
}

impl DeepEq for CustomCss {
    fn deep_eq(&self, other: &Self) -> (r: bool) {
        self.path.deep_eq(&other.path) && self.content.deep_eq(&other.content)
    }
}

impl DeepEq for CustomJs {
    fn deep_eq(&self, other: &Self) -> (r: bool) {
        self.path.deep_eq(&other.path) && self.content.deep_eq(&other.content)
    }
}

impl DeepEq for crate::css_history::CustomCssHistoryEntry {
    fn deep_eq(&self, other: &Self) -> (r: bool) {
        self.path.deep_eq(&other.path) && self.loaded_at == other.loaded_at && self.last_used_at
            == other.last_used_at
    }
}

impl DeepEq for SoundLibraryEntry {
    fn deep_eq(&self, other: &Self) -> (r: bool) {
        self.hidden == other.hidden && self.source == other.source && self.original_path.deep_eq(
            &other.original_path,
        ) && self.trim_start_bits.deep_eq(&other.trim_start_bits) && self.trim_end_bits.deep_eq(
            &other.trim_end_bits,
        ) && self.display_name.deep_eq(&other.display_name)
    }
}

impl DeepEq for CounterAnimationPreset {
    fn deep_eq(&self, other: &Self) -> (r: bool) {
        self.id.deep_eq(&other.id) && self.duration_ms == other.duration_ms && self.scale_bits
            == other.scale_bits && self.bezier_bits.0 == other.bezier_bits.0 && self.bezier_bits.1
            == other.bezier_bits.1 && self.bezier_bits.2 == other.bezier_bits.2
            && self.bezier_bits.3 == other.bezier_bits.3
    }
}

impl DeepEq for AppStoreData {
    fn deep_eq(&self, other: &Self) -> (r: bool) {
        self.keys.deep_eq(&other.keys) && self.key_positions.deep_eq(&other.key_positions)
            && self.stat_positions.deep_eq(&other.stat_positions) && self.graph_positions.deep_eq(
            &other.graph_positions,
        ) && self.knob_positions.deep_eq(&other.knob_positions) && self.sprite_positions.deep_eq(
            &other.sprite_positions,
        ) && self.layer_groups.deep_eq(&other.layer_groups) && self.key_counters.deep_eq(
            &other.key_counters,
        ) && self.custom_tabs.deep_eq(&other.custom_tabs) && self.tab_order.deep_eq(&other.tab_order)
            && self.bar_count == other.bar_count && self.selected_key_type.deep_eq(
            &other.selected_key_type,
        ) && self.tab_note_overrides.deep_eq(&other.tab_note_overrides)
            && self.tab_css_overrides.deep_eq(&other.tab_css_overrides) && self.font_settings.deep_eq(
            &other.font_settings,
        ) && self.background_color.deep_eq(&other.background_color) && self.note_settings.deep_eq(
            &other.note_settings,
        ) && self.note_effect == other.note_effect && self.laboratory_enabled
            == other.laboratory_enabled && self.use_custom_css == other.use_custom_css
            && self.custom_css.deep_eq(&other.custom_css) && self.use_custom_js == other.use_custom_js
            && self.custom_js.deep_eq(&other.custom_js) && self.custom_css_history.deep_eq(
            &other.custom_css_history,
        ) && self.sound_library.deep_eq(
            &other.sound_library,
        ) && self.counter_animation_presets.deep_eq(&other.counter_animation_presets)
            && self.plugin_data.deep_eq(&other.plugin_data) && self.overlay_locked == other.overlay_locked && self.overlay_visible
            == other.overlay_visible && self.editor_revision == other.editor_revision
    }
}

} // verus!
