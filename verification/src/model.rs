//! The editor document as plain values: what the asset, tab and sound rules read and write.
use crate::strmap::{Dup, StrMap};
use vstd::prelude::*;

verus! {

/// How a user font is provided.
#[derive(Clone, Copy, Debug, PartialEq, Eq, Structural)]
pub enum FontType { Local, Web }

impl DeepView for FontType {
    type V = FontType;

    open spec fn deep_view(&self) -> FontType {
        *self
    }
}

impl Dup for FontType {
    fn dup(&self) -> (r: Self) {
        *self
    }
}

/// Where a stored sound came from.
#[derive(Clone, Copy, Debug, PartialEq, Eq, Structural)]
pub enum SoundSource { Local, Builtin }

impl DeepView for SoundSource {
    type V = SoundSource;

    open spec fn deep_view(&self) -> SoundSource {
        *self
    }
}

impl Dup for SoundSource {
    fn dup(&self) -> (r: Self) {
        *self
    }
}

/// The counter animation of an element: the preset it follows, if any, and its values.
pub struct CounterAnimation {
    pub preset_id: Option<String>,
    pub duration_ms: u32,
    pub scale_bits: u64,
    pub bezier_bits: (u64, u64, u64, u64),
}

/// Value of [`CounterAnimation`] in specifications.
pub struct CounterAnimationV {
    pub preset_id: Option<Seq<char>>,
    pub duration_ms: u32,
    pub scale_bits: u64,
    pub bezier_bits: (u64, u64, u64, u64),
}

impl DeepView for CounterAnimation {
    type V = CounterAnimationV;

    open spec fn deep_view(&self) -> CounterAnimationV {
        CounterAnimationV {
            preset_id: self.preset_id.deep_view(),
            duration_ms: self.duration_ms,
            scale_bits: self.scale_bits,
            bezier_bits: self.bezier_bits,
        }
    }
}

impl Dup for CounterAnimation {
    fn dup(&self) -> (r: Self) {
        CounterAnimation {
            preset_id: self.preset_id.dup(),
            duration_ms: self.duration_ms,
            scale_bits: self.scale_bits,
            bezier_bits: self.bezier_bits,
        }
    }
}

/// Counter settings of an element: its text font and its animation.
pub struct CounterStyle {
    pub font_family: Option<String>,
    pub animation: CounterAnimation,
}

/// Value of [`CounterStyle`] in specifications.
pub struct CounterStyleV {
    pub font_family: Option<Seq<char>>,
    pub animation: CounterAnimationV,
}

impl DeepView for CounterStyle {
    type V = CounterStyleV;

    open spec fn deep_view(&self) -> CounterStyleV {
        CounterStyleV {
            font_family: self.font_family.deep_view(),
            animation: self.animation.deep_view(),
        }
    }
}

impl Dup for CounterStyle {
    fn dup(&self) -> (r: Self) {
        CounterStyle {
            font_family: self.font_family.dup(),
            animation: self.animation.dup(),
        }
    }
}

/// One key element of a tab layout, with the fields that the asset and tab rules read.
pub struct KeyPosition {
    pub id: String,
    pub active_image: Option<String>,
    pub inactive_image: Option<String>,
    pub sound_path: Option<String>,
    pub sound_enabled: Option<bool>,
    pub font_family: Option<String>,
    pub counter: CounterStyle,
}

/// Value of [`KeyPosition`] in specifications.
pub struct KeyPositionV {
    pub id: Seq<char>,
    pub active_image: Option<Seq<char>>,
    pub inactive_image: Option<Seq<char>>,
    pub sound_path: Option<Seq<char>>,
    pub sound_enabled: Option<bool>,
    pub font_family: Option<Seq<char>>,
    pub counter: CounterStyleV,
}

impl DeepView for KeyPosition {
    type V = KeyPositionV;

    open spec fn deep_view(&self) -> KeyPositionV {
        KeyPositionV {
            id: self.id.deep_view(),
            active_image: self.active_image.deep_view(),
            inactive_image: self.inactive_image.deep_view(),
            sound_path: self.sound_path.deep_view(),
            sound_enabled: self.sound_enabled.deep_view(),
            font_family: self.font_family.deep_view(),
            counter: self.counter.deep_view(),
        }
    }
}

impl Dup for KeyPosition {
    fn dup(&self) -> (r: Self) {
        KeyPosition {
            id: self.id.dup(),
            active_image: self.active_image.dup(),
            inactive_image: self.inactive_image.dup(),
            sound_path: self.sound_path.dup(),
            sound_enabled: self.sound_enabled.dup(),
            font_family: self.font_family.dup(),
            counter: self.counter.dup(),
        }
    }
}

/// A statistics element; its look is a key element.
pub struct StatPosition {
    pub position: KeyPosition,
}

/// Value of [`StatPosition`] in specifications.
pub struct StatPositionV {
    pub position: KeyPositionV,
}

impl DeepView for StatPosition {
    type V = StatPositionV;

    open spec fn deep_view(&self) -> StatPositionV {
        StatPositionV {
            position: self.position.deep_view(),
        }
    }
}

impl Dup for StatPosition {
    fn dup(&self) -> (r: Self) {
        StatPosition {
            position: self.position.dup(),
        }
    }
}

/// A graph element; its look is a key element.
pub struct GraphPosition {
    pub position: KeyPosition,
}

/// Value of [`GraphPosition`] in specifications.
pub struct GraphPositionV {
    pub position: KeyPositionV,
}

impl DeepView for GraphPosition {
    type V = GraphPositionV;

    open spec fn deep_view(&self) -> GraphPositionV {
        GraphPositionV {
            position: self.position.deep_view(),
        }
    }
}

impl Dup for GraphPosition {
    fn dup(&self) -> (r: Self) {
        GraphPosition {
            position: self.position.dup(),
        }
    }
}

/// A knob element bound to an input axis; its look is a key element.
pub struct KnobPosition {
    pub axis_id: String,
    pub reverse: bool,
    pub sensitivity_bits: u64,
    pub position: KeyPosition,
}

/// Value of [`KnobPosition`] in specifications.
pub struct KnobPositionV {
    pub axis_id: Seq<char>,
    pub reverse: bool,
    pub sensitivity_bits: u64,
    pub position: KeyPositionV,
}

impl DeepView for KnobPosition {
    type V = KnobPositionV;

    open spec fn deep_view(&self) -> KnobPositionV {
        KnobPositionV {
            axis_id: self.axis_id.deep_view(),
            reverse: self.reverse,
            sensitivity_bits: self.sensitivity_bits,
            position: self.position.deep_view(),
        }
    }
}

impl Dup for KnobPosition {
    fn dup(&self) -> (r: Self) {
        KnobPosition {
            axis_id: self.axis_id.dup(),
            reverse: self.reverse,
            sensitivity_bits: self.sensitivity_bits,
            position: self.position.dup(),
        }
    }
}

/// Natural pixel size of a sprite's base image, with the image it was measured on.
pub struct SpriteReferenceNaturalSize {
    pub source: Option<String>,
    pub width: u32,
    pub height: u32,
}

/// Value of [`SpriteReferenceNaturalSize`] in specifications.
pub struct SpriteReferenceNaturalSizeV {
    pub source: Option<Seq<char>>,
    pub width: u32,
    pub height: u32,
}

impl DeepView for SpriteReferenceNaturalSize {
    type V = SpriteReferenceNaturalSizeV;

    open spec fn deep_view(&self) -> SpriteReferenceNaturalSizeV {
        SpriteReferenceNaturalSizeV {
            source: self.source.deep_view(),
            width: self.width,
            height: self.height,
        }
    }
}

impl Dup for SpriteReferenceNaturalSize {
    fn dup(&self) -> (r: Self) {
        SpriteReferenceNaturalSize {
            source: self.source.dup(),
            width: self.width,
            height: self.height,
        }
    }
}

/// Natural pixel size of a pose's override image.
pub struct SpriteImageMetrics {
    pub source: String,
    pub width: u32,
    pub height: u32,
}

/// Value of [`SpriteImageMetrics`] in specifications.
pub struct SpriteImageMetricsV {
    pub source: Seq<char>,
    pub width: u32,
    pub height: u32,
}

impl DeepView for SpriteImageMetrics {
    type V = SpriteImageMetricsV;

    open spec fn deep_view(&self) -> SpriteImageMetricsV {
        SpriteImageMetricsV {
            source: self.source.deep_view(),
            width: self.width,
            height: self.height,
        }
    }
}

impl Dup for SpriteImageMetrics {
    fn dup(&self) -> (r: Self) {
        SpriteImageMetrics {
            source: self.source.dup(),
            width: self.width,
            height: self.height,
        }
    }
}

/// One pose of a reactive sprite.
pub struct SpritePose {
    pub pose_id: String,
    pub image_override: Option<String>,
    pub image_override_metrics: Option<SpriteImageMetrics>,
}

/// Value of [`SpritePose`] in specifications.
pub struct SpritePoseV {
    pub pose_id: Seq<char>,
    pub image_override: Option<Seq<char>>,
    pub image_override_metrics: Option<SpriteImageMetricsV>,
}

impl DeepView for SpritePose {
    type V = SpritePoseV;

    open spec fn deep_view(&self) -> SpritePoseV {
        SpritePoseV {
            pose_id: self.pose_id.deep_view(),
            image_override: self.image_override.deep_view(),
            image_override_metrics: self.image_override_metrics.deep_view(),
        }
    }
}

impl Dup for SpritePose {
    fn dup(&self) -> (r: Self) {
        SpritePose {
            pose_id: self.pose_id.dup(),
            image_override: self.image_override.dup(),
            image_override_metrics: self.image_override_metrics.dup(),
        }
    }
}

/// A reactive sprite element.
pub struct ReactiveSpritePosition {
    pub id: String,
    pub base_image: Option<String>,
    pub reference_natural_size: Option<SpriteReferenceNaturalSize>,
    pub poses: Vec<SpritePose>,
}

/// Value of [`ReactiveSpritePosition`] in specifications.
pub struct ReactiveSpritePositionV {
    pub id: Seq<char>,
    pub base_image: Option<Seq<char>>,
    pub reference_natural_size: Option<SpriteReferenceNaturalSizeV>,
    pub poses: Seq<SpritePoseV>,
}

impl DeepView for ReactiveSpritePosition {
    type V = ReactiveSpritePositionV;

    open spec fn deep_view(&self) -> ReactiveSpritePositionV {
        ReactiveSpritePositionV {
            id: self.id.deep_view(),
            base_image: self.base_image.deep_view(),
            reference_natural_size: self.reference_natural_size.deep_view(),
            poses: self.poses.deep_view(),
        }
    }
}

impl Dup for ReactiveSpritePosition {
    fn dup(&self) -> (r: Self) {
        ReactiveSpritePosition {
            id: self.id.dup(),
            base_image: self.base_image.dup(),
            reference_natural_size: self.reference_natural_size.dup(),
            poses: self.poses.dup(),
        }
    }
}

/// One key binding of a tab, by its canonical key name.
pub struct KeySlot {
    pub label: String,
}

/// Value of [`KeySlot`] in specifications.
pub struct KeySlotV {
    pub label: Seq<char>,
}

impl DeepView for KeySlot {
    type V = KeySlotV;

    open spec fn deep_view(&self) -> KeySlotV {
        KeySlotV {
            label: self.label.deep_view(),
        }
    }
}

impl Dup for KeySlot {
    fn dup(&self) -> (r: Self) {
        KeySlot {
            label: self.label.dup(),
        }
    }
}

/// A user font.
pub struct CustomFont {
    pub id: String,
    pub name: String,
    pub display_name: String,
    pub font_type: FontType,
    pub local_path: Option<String>,
    pub enabled: bool,
    pub css_content: Option<String>,
}

/// Value of [`CustomFont`] in specifications.
pub struct CustomFontV {
    pub id: Seq<char>,
    pub name: Seq<char>,
    pub display_name: Seq<char>,
    pub font_type: FontType,
    pub local_path: Option<Seq<char>>,
    pub enabled: bool,
    pub css_content: Option<Seq<char>>,
}

impl DeepView for CustomFont {
    type V = CustomFontV;

    open spec fn deep_view(&self) -> CustomFontV {
        CustomFontV {
            id: self.id.deep_view(),
            name: self.name.deep_view(),
            display_name: self.display_name.deep_view(),
            font_type: self.font_type,
            local_path: self.local_path.deep_view(),
            enabled: self.enabled,
            css_content: self.css_content.deep_view(),
        }
    }
}

impl Dup for CustomFont {
    fn dup(&self) -> (r: Self) {
        CustomFont {
            id: self.id.dup(),
            name: self.name.dup(),
            display_name: self.display_name.dup(),
            font_type: self.font_type.dup(),
            local_path: self.local_path.dup(),
            enabled: self.enabled,
            css_content: self.css_content.dup(),
        }
    }
}

/// The user fonts.
pub struct FontSettings {
    pub custom_fonts: Vec<CustomFont>,
}

/// Value of [`FontSettings`] in specifications.
pub struct FontSettingsV {
    pub custom_fonts: Seq<CustomFontV>,
}

impl DeepView for FontSettings {
    type V = FontSettingsV;

    open spec fn deep_view(&self) -> FontSettingsV {
        FontSettingsV {
            custom_fonts: self.custom_fonts.deep_view(),
        }
    }
}

impl Dup for FontSettings {
    fn dup(&self) -> (r: Self) {
        FontSettings {
            custom_fonts: self.custom_fonts.dup(),
        }
    }
}

/// A font file carried inside a preset.
pub struct EmbeddedLocalFont {
    pub font_id: String,
    pub extension: Option<String>,
    pub data_base64: String,
}

/// Value of [`EmbeddedLocalFont`] in specifications.
pub struct EmbeddedLocalFontV {
    pub font_id: Seq<char>,
    pub extension: Option<Seq<char>>,
    pub data_base64: Seq<char>,
}

impl DeepView for EmbeddedLocalFont {
    type V = EmbeddedLocalFontV;

    open spec fn deep_view(&self) -> EmbeddedLocalFontV {
        EmbeddedLocalFontV {
            font_id: self.font_id.deep_view(),
            extension: self.extension.deep_view(),
            data_base64: self.data_base64.deep_view(),
        }
    }
}

impl Dup for EmbeddedLocalFont {
    fn dup(&self) -> (r: Self) {
        EmbeddedLocalFont {
            font_id: self.font_id.dup(),
            extension: self.extension.dup(),
            data_base64: self.data_base64.dup(),
        }
    }
}

/// An image file carried inside a preset.
pub struct EmbeddedLocalImage {
    pub image_id: String,
    pub extension: Option<String>,
    pub data_base64: String,
}

/// Value of [`EmbeddedLocalImage`] in specifications.
pub struct EmbeddedLocalImageV {
    pub image_id: Seq<char>,
    pub extension: Option<Seq<char>>,
    pub data_base64: Seq<char>,
}

impl DeepView for EmbeddedLocalImage {
    type V = EmbeddedLocalImageV;

    open spec fn deep_view(&self) -> EmbeddedLocalImageV {
        EmbeddedLocalImageV {
            image_id: self.image_id.deep_view(),
            extension: self.extension.deep_view(),
            data_base64: self.data_base64.deep_view(),
        }
    }
}

impl Dup for EmbeddedLocalImage {
    fn dup(&self) -> (r: Self) {
        EmbeddedLocalImage {
            image_id: self.image_id.dup(),
            extension: self.extension.dup(),
            data_base64: self.data_base64.dup(),
        }
    }
}

/// A sound file carried inside a preset.
pub struct EmbeddedLocalSound {
    pub sound_id: String,
    pub extension: Option<String>,
    pub data_base64: String,
}

/// Value of [`EmbeddedLocalSound`] in specifications.
pub struct EmbeddedLocalSoundV {
    pub sound_id: Seq<char>,
    pub extension: Option<Seq<char>>,
    pub data_base64: Seq<char>,
}

impl DeepView for EmbeddedLocalSound {
    type V = EmbeddedLocalSoundV;

    open spec fn deep_view(&self) -> EmbeddedLocalSoundV {
        EmbeddedLocalSoundV {
            sound_id: self.sound_id.deep_view(),
            extension: self.extension.deep_view(),
            data_base64: self.data_base64.deep_view(),
        }
    }
}

impl Dup for EmbeddedLocalSound {
    fn dup(&self) -> (r: Self) {
        EmbeddedLocalSound {
            sound_id: self.sound_id.dup(),
            extension: self.extension.dup(),
            data_base64: self.data_base64.dup(),
        }
    }
}

/// A user tab.
pub struct CustomTab {
    pub id: String,
    pub name: String,
}

/// Value of [`CustomTab`] in specifications.
pub struct CustomTabV {
    pub id: Seq<char>,
    pub name: Seq<char>,
}

impl DeepView for CustomTab {
    type V = CustomTabV;

    open spec fn deep_view(&self) -> CustomTabV {
        CustomTabV {
            id: self.id.deep_view(),
            name: self.name.deep_view(),
        }
    }
}

impl Dup for CustomTab {
    fn dup(&self) -> (r: Self) {
        CustomTab {
            id: self.id.dup(),
            name: self.name.dup(),
        }
    }
}

/// Global custom style sheet.
pub struct CustomCss {
    pub path: Option<String>,
    pub content: String,
}

/// Value of [`CustomCss`] in specifications.
pub struct CustomCssV {
    pub path: Option<Seq<char>>,
    pub content: Seq<char>,
}

impl DeepView for CustomCss {
    type V = CustomCssV;

    open spec fn deep_view(&self) -> CustomCssV {
        CustomCssV {
            path: self.path.deep_view(),
            content: self.content.deep_view(),
        }
    }
}

impl Dup for CustomCss {
    fn dup(&self) -> (r: Self) {
        CustomCss {
            path: self.path.dup(),
            content: self.content.dup(),
        }
    }
}

/// Style sheet of one tab.
pub struct TabCss {
    pub path: Option<String>,
    pub content: String,
    pub enabled: bool,
}

/// Value of [`TabCss`] in specifications.
pub struct TabCssV {
    pub path: Option<Seq<char>>,
    pub content: Seq<char>,
    pub enabled: bool,
}

impl DeepView for TabCss {
    type V = TabCssV;

    open spec fn deep_view(&self) -> TabCssV {
        TabCssV {
            path: self.path.deep_view(),
            content: self.content.deep_view(),
            enabled: self.enabled,
        }
    }
}

impl Dup for TabCss {
    fn dup(&self) -> (r: Self) {
        TabCss {
            path: self.path.dup(),
            content: self.content.dup(),
            enabled: self.enabled,
        }
    }
}

/// Custom script settings.
pub struct CustomJs {
    pub path: Option<String>,
    pub content: String,
}

/// Value of [`CustomJs`] in specifications.
pub struct CustomJsV {
    pub path: Option<Seq<char>>,
    pub content: Seq<char>,
}

impl DeepView for CustomJs {
    type V = CustomJsV;

    open spec fn deep_view(&self) -> CustomJsV {
        CustomJsV {
            path: self.path.deep_view(),
            content: self.content.deep_view(),
        }
    }
}

impl Dup for CustomJs {
    fn dup(&self) -> (r: Self) {
        CustomJs {
            path: self.path.dup(),
            content: self.content.dup(),
        }
    }
}

/// Global note settings.
pub struct NoteSettings {
    pub speed: u32,
    pub track_height: u32,
    pub reverse: bool,
}

/// Value of [`NoteSettings`] in specifications.
pub struct NoteSettingsV {
    pub speed: u32,
    pub track_height: u32,
    pub reverse: bool,
}

impl DeepView for NoteSettings {
    type V = NoteSettingsV;

    open spec fn deep_view(&self) -> NoteSettingsV {
        NoteSettingsV {
            speed: self.speed,
            track_height: self.track_height,
            reverse: self.reverse,
        }
    }
}

impl Dup for NoteSettings {
    fn dup(&self) -> (r: Self) {
        NoteSettings {
            speed: self.speed,
            track_height: self.track_height,
            reverse: self.reverse,
        }
    }
}

/// Note settings that override the global ones for one tab.
pub struct TabNoteSettings {
    pub speed: Option<u32>,
    pub track_height: Option<u32>,
}

/// Value of [`TabNoteSettings`] in specifications.
pub struct TabNoteSettingsV {
    pub speed: Option<u32>,
    pub track_height: Option<u32>,
}

impl DeepView for TabNoteSettings {
    type V = TabNoteSettingsV;

    open spec fn deep_view(&self) -> TabNoteSettingsV {
        TabNoteSettingsV {
            speed: self.speed.deep_view(),
            track_height: self.track_height.deep_view(),
        }
    }
}

impl Dup for TabNoteSettings {
    fn dup(&self) -> (r: Self) {
        TabNoteSettings {
            speed: self.speed.dup(),
            track_height: self.track_height.dup(),
        }
    }
}

/// A layer group of a tab.
pub struct LayerGroupDef {
    pub id: String,
    pub name: String,
}

/// Value of [`LayerGroupDef`] in specifications.
pub struct LayerGroupDefV {
    pub id: Seq<char>,
    pub name: Seq<char>,
}

impl DeepView for LayerGroupDef {
    type V = LayerGroupDefV;

    open spec fn deep_view(&self) -> LayerGroupDefV {
        LayerGroupDefV {
            id: self.id.deep_view(),
            name: self.name.deep_view(),
        }
    }
}

impl Dup for LayerGroupDef {
    fn dup(&self) -> (r: Self) {
        LayerGroupDef {
            id: self.id.dup(),
            name: self.name.dup(),
        }
    }
}

/// Library data of one stored sound.
pub struct SoundLibraryEntry {
    pub hidden: bool,
    pub source: SoundSource,
    pub original_path: Option<String>,
    pub trim_start_bits: Option<u64>,
    pub trim_end_bits: Option<u64>,
    pub display_name: Option<String>,
}

/// Value of [`SoundLibraryEntry`] in specifications.
pub struct SoundLibraryEntryV {
    pub hidden: bool,
    pub source: SoundSource,
    pub original_path: Option<Seq<char>>,
    pub trim_start_bits: Option<u64>,
    pub trim_end_bits: Option<u64>,
    pub display_name: Option<Seq<char>>,
}

impl DeepView for SoundLibraryEntry {
    type V = SoundLibraryEntryV;

    open spec fn deep_view(&self) -> SoundLibraryEntryV {
        SoundLibraryEntryV {
            hidden: self.hidden,
            source: self.source,
            original_path: self.original_path.deep_view(),
            trim_start_bits: self.trim_start_bits.deep_view(),
            trim_end_bits: self.trim_end_bits.deep_view(),
            display_name: self.display_name.deep_view(),
        }
    }
}

impl Dup for SoundLibraryEntry {
    fn dup(&self) -> (r: Self) {
        SoundLibraryEntry {
            hidden: self.hidden,
            source: self.source.dup(),
            original_path: self.original_path.dup(),
            trim_start_bits: self.trim_start_bits.dup(),
            trim_end_bits: self.trim_end_bits.dup(),
            display_name: self.display_name.dup(),
        }
    }
}

/// A named counter animation.
pub struct CounterAnimationPreset {
    pub id: String,
    pub duration_ms: u32,
    pub scale_bits: u64,
    pub bezier_bits: (u64, u64, u64, u64),
}

/// Value of [`CounterAnimationPreset`] in specifications.
pub struct CounterAnimationPresetV {
    pub id: Seq<char>,
    pub duration_ms: u32,
    pub scale_bits: u64,
    pub bezier_bits: (u64, u64, u64, u64),
}

impl DeepView for CounterAnimationPreset {
    type V = CounterAnimationPresetV;

    open spec fn deep_view(&self) -> CounterAnimationPresetV {
        CounterAnimationPresetV {
            id: self.id.deep_view(),
            duration_ms: self.duration_ms,
            scale_bits: self.scale_bits,
            bezier_bits: self.bezier_bits,
        }
    }
}

impl Dup for CounterAnimationPreset {
    fn dup(&self) -> (r: Self) {
        CounterAnimationPreset {
            id: self.id.dup(),
            duration_ms: self.duration_ms,
            scale_bits: self.scale_bits,
            bezier_bits: self.bezier_bits,
        }
    }
}

/// A preset file: every field may be absent, which older presets rely on.
pub struct PresetFile {
    pub keys: Option<StrMap<Vec<KeySlot>>>,
    pub key_positions: Option<StrMap<Vec<KeyPosition>>>,
    pub stat_positions: Option<StrMap<Vec<StatPosition>>>,
    pub graph_positions: Option<StrMap<Vec<GraphPosition>>>,
    pub knob_positions: Option<StrMap<Vec<KnobPosition>>>,
    pub sprite_positions: Option<StrMap<Vec<ReactiveSpritePosition>>>,
    pub background_color: Option<String>,
    pub note_settings: Option<NoteSettings>,
    pub note_effect: Option<bool>,
    pub laboratory_enabled: Option<bool>,
    pub custom_tabs: Option<Vec<CustomTab>>,
    pub tab_order: Option<Vec<String>>,
    pub bar_count: Option<u8>,
    pub selected_key_type: Option<String>,
    pub use_custom_css: Option<bool>,
    pub custom_css: Option<CustomCss>,
    pub use_custom_js: Option<bool>,
    pub custom_js: Option<CustomJs>,
    pub font_settings: Option<FontSettings>,
    pub tab_note_overrides: Option<StrMap<TabNoteSettings>>,
    pub layer_groups: Option<StrMap<Vec<LayerGroupDef>>>,
    pub tab_css_overrides: Option<StrMap<TabCss>>,
    pub embedded_local_fonts: Option<Vec<EmbeddedLocalFont>>,
    pub embedded_local_images: Option<Vec<EmbeddedLocalImage>>,
    pub embedded_local_sounds: Option<Vec<EmbeddedLocalSound>>,
}

/// Value of [`PresetFile`] in specifications.
pub struct PresetFileV {
    pub keys: Option<Map<Seq<char>, Seq<KeySlotV>>>,
    pub key_positions: Option<Map<Seq<char>, Seq<KeyPositionV>>>,
    pub stat_positions: Option<Map<Seq<char>, Seq<StatPositionV>>>,
    pub graph_positions: Option<Map<Seq<char>, Seq<GraphPositionV>>>,
    pub knob_positions: Option<Map<Seq<char>, Seq<KnobPositionV>>>,
    pub sprite_positions: Option<Map<Seq<char>, Seq<ReactiveSpritePositionV>>>,
    pub background_color: Option<Seq<char>>,
    pub note_settings: Option<NoteSettingsV>,
    pub note_effect: Option<bool>,
    pub laboratory_enabled: Option<bool>,
    pub custom_tabs: Option<Seq<CustomTabV>>,
    pub tab_order: Option<Seq<Seq<char>>>,
    pub bar_count: Option<u8>,
    pub selected_key_type: Option<Seq<char>>,
    pub use_custom_css: Option<bool>,
    pub custom_css: Option<CustomCssV>,
    pub use_custom_js: Option<bool>,
    pub custom_js: Option<CustomJsV>,
    pub font_settings: Option<FontSettingsV>,
    pub tab_note_overrides: Option<Map<Seq<char>, TabNoteSettingsV>>,
    pub layer_groups: Option<Map<Seq<char>, Seq<LayerGroupDefV>>>,
    pub tab_css_overrides: Option<Map<Seq<char>, TabCssV>>,
    pub embedded_local_fonts: Option<Seq<EmbeddedLocalFontV>>,
    pub embedded_local_images: Option<Seq<EmbeddedLocalImageV>>,
    pub embedded_local_sounds: Option<Seq<EmbeddedLocalSoundV>>,
}

impl DeepView for PresetFile {
    type V = PresetFileV;

    open spec fn deep_view(&self) -> PresetFileV {
        PresetFileV {
            keys: self.keys.deep_view(),
            key_positions: self.key_positions.deep_view(),
            stat_positions: self.stat_positions.deep_view(),
            graph_positions: self.graph_positions.deep_view(),
            knob_positions: self.knob_positions.deep_view(),
            sprite_positions: self.sprite_positions.deep_view(),
            background_color: self.background_color.deep_view(),
            note_settings: self.note_settings.deep_view(),
            note_effect: self.note_effect.deep_view(),
            laboratory_enabled: self.laboratory_enabled.deep_view(),
            custom_tabs: self.custom_tabs.deep_view(),
            tab_order: self.tab_order.deep_view(),
            bar_count: self.bar_count.deep_view(),
            selected_key_type: self.selected_key_type.deep_view(),
            use_custom_css: self.use_custom_css.deep_view(),
            custom_css: self.custom_css.deep_view(),
            use_custom_js: self.use_custom_js.deep_view(),
            custom_js: self.custom_js.deep_view(),
            font_settings: self.font_settings.deep_view(),
            tab_note_overrides: self.tab_note_overrides.deep_view(),
            layer_groups: self.layer_groups.deep_view(),
            tab_css_overrides: self.tab_css_overrides.deep_view(),
            embedded_local_fonts: self.embedded_local_fonts.deep_view(),
            embedded_local_images: self.embedded_local_images.deep_view(),
            embedded_local_sounds: self.embedded_local_sounds.deep_view(),
        }
    }
}

impl Dup for PresetFile {
    fn dup(&self) -> (r: Self) {
        PresetFile {
            keys: self.keys.dup(),
            key_positions: self.key_positions.dup(),
            stat_positions: self.stat_positions.dup(),
            graph_positions: self.graph_positions.dup(),
            knob_positions: self.knob_positions.dup(),
            sprite_positions: self.sprite_positions.dup(),
            background_color: self.background_color.dup(),
            note_settings: self.note_settings.dup(),
            note_effect: self.note_effect.dup(),
            laboratory_enabled: self.laboratory_enabled.dup(),
            custom_tabs: self.custom_tabs.dup(),
            tab_order: self.tab_order.dup(),
            bar_count: self.bar_count.dup(),
            selected_key_type: self.selected_key_type.dup(),
            use_custom_css: self.use_custom_css.dup(),
            custom_css: self.custom_css.dup(),
            use_custom_js: self.use_custom_js.dup(),
            custom_js: self.custom_js.dup(),
            font_settings: self.font_settings.dup(),
            tab_note_overrides: self.tab_note_overrides.dup(),
            layer_groups: self.layer_groups.dup(),
            tab_css_overrides: self.tab_css_overrides.dup(),
            embedded_local_fonts: self.embedded_local_fonts.dup(),
            embedded_local_images: self.embedded_local_images.dup(),
            embedded_local_sounds: self.embedded_local_sounds.dup(),
        }
    }
}

/// The empty preset: every field absent.
impl Default for PresetFile {
    fn default() -> (r: Self)
        ensures
            r.keys is None,
            r.key_positions is None,
            r.stat_positions is None,
            r.graph_positions is None,
            r.knob_positions is None,
            r.sprite_positions is None,
            r.background_color is None,
            r.note_settings is None,
            r.note_effect is None,
            r.laboratory_enabled is None,
            r.custom_tabs is None,
            r.tab_order is None,
            r.bar_count is None,
            r.selected_key_type is None,
            r.use_custom_css is None,
            r.custom_css is None,
            r.use_custom_js is None,
            r.custom_js is None,
            r.font_settings is None,
            r.tab_note_overrides is None,
            r.layer_groups is None,
            r.tab_css_overrides is None,
            r.embedded_local_fonts is None,
            r.embedded_local_images is None,
            r.embedded_local_sounds is None,
    {
        PresetFile {
            keys: None,
            key_positions: None,
            stat_positions: None,
            graph_positions: None,
            knob_positions: None,
            sprite_positions: None,
            background_color: None,
            note_settings: None,
            note_effect: None,
            laboratory_enabled: None,
            custom_tabs: None,
            tab_order: None,
            bar_count: None,
            selected_key_type: None,
            use_custom_css: None,
            custom_css: None,
            use_custom_js: None,
            custom_js: None,
            font_settings: None,
            tab_note_overrides: None,
            layer_groups: None,
            tab_css_overrides: None,
            embedded_local_fonts: None,
            embedded_local_images: None,
            embedded_local_sounds: None,
        }
    }
}

/// The stored editor document: layouts per tab and the global settings.
pub struct AppStoreData {
    pub keys: StrMap<Vec<KeySlot>>,
    pub key_positions: StrMap<Vec<KeyPosition>>,
    pub stat_positions: StrMap<Vec<StatPosition>>,
    pub graph_positions: StrMap<Vec<GraphPosition>>,
    pub knob_positions: StrMap<Vec<KnobPosition>>,
    pub sprite_positions: StrMap<Vec<ReactiveSpritePosition>>,
    pub layer_groups: StrMap<Vec<LayerGroupDef>>,
    pub key_counters: StrMap<StrMap<u32>>,
    pub custom_tabs: Vec<CustomTab>,
    pub tab_order: Vec<String>,
    pub bar_count: u8,
    pub selected_key_type: String,
    pub tab_note_overrides: StrMap<TabNoteSettings>,
    pub tab_css_overrides: StrMap<TabCss>,
    pub font_settings: FontSettings,
    pub background_color: String,
    pub note_settings: NoteSettings,
    pub note_effect: bool,
    pub laboratory_enabled: bool,
    pub use_custom_css: bool,
    pub custom_css: CustomCss,
    pub use_custom_js: bool,
    pub custom_js: CustomJs,
    pub custom_css_history: Vec<crate::css_history::CustomCssHistoryEntry>,
    pub sound_library: StrMap<SoundLibraryEntry>,
    pub counter_animation_presets: Vec<CounterAnimationPreset>,
    /// What plugins stored, as JSON texts by store key.
    pub plugin_data: StrMap<String>,
    pub overlay_locked: bool,
    pub overlay_visible: bool,
    pub editor_revision: u64,
}

/// Value of [`AppStoreData`] in specifications.
pub struct AppStoreDataV {
    pub keys: Map<Seq<char>, Seq<KeySlotV>>,
    pub key_positions: Map<Seq<char>, Seq<KeyPositionV>>,
    pub stat_positions: Map<Seq<char>, Seq<StatPositionV>>,
    pub graph_positions: Map<Seq<char>, Seq<GraphPositionV>>,
    pub knob_positions: Map<Seq<char>, Seq<KnobPositionV>>,
    pub sprite_positions: Map<Seq<char>, Seq<ReactiveSpritePositionV>>,
    pub layer_groups: Map<Seq<char>, Seq<LayerGroupDefV>>,
    pub key_counters: Map<Seq<char>, Map<Seq<char>, u32>>,
    pub custom_tabs: Seq<CustomTabV>,
    pub tab_order: Seq<Seq<char>>,
    pub bar_count: u8,
    pub selected_key_type: Seq<char>,
    pub tab_note_overrides: Map<Seq<char>, TabNoteSettingsV>,
    pub tab_css_overrides: Map<Seq<char>, TabCssV>,
    pub font_settings: FontSettingsV,
    pub background_color: Seq<char>,
    pub note_settings: NoteSettingsV,
    pub note_effect: bool,
    pub laboratory_enabled: bool,
    pub use_custom_css: bool,
    pub custom_css: CustomCssV,
    pub use_custom_js: bool,
    pub custom_js: CustomJsV,
    pub custom_css_history: Seq<crate::css_history::CustomCssHistoryEntryV>,
    pub sound_library: Map<Seq<char>, SoundLibraryEntryV>,
    pub counter_animation_presets: Seq<CounterAnimationPresetV>,
    pub plugin_data: Map<Seq<char>, Seq<char>>,
    pub overlay_locked: bool,
    pub overlay_visible: bool,
    pub editor_revision: u64,
}

impl DeepView for AppStoreData {
    type V = AppStoreDataV;

    open spec fn deep_view(&self) -> AppStoreDataV {
        AppStoreDataV {
            keys: self.keys.deep_view(),
            key_positions: self.key_positions.deep_view(),
            stat_positions: self.stat_positions.deep_view(),
            graph_positions: self.graph_positions.deep_view(),
            knob_positions: self.knob_positions.deep_view(),
            sprite_positions: self.sprite_positions.deep_view(),
            layer_groups: self.layer_groups.deep_view(),
            key_counters: self.key_counters.deep_view(),
            custom_tabs: self.custom_tabs.deep_view(),
            tab_order: self.tab_order.deep_view(),
            bar_count: self.bar_count,
            selected_key_type: self.selected_key_type.deep_view(),
            tab_note_overrides: self.tab_note_overrides.deep_view(),
            tab_css_overrides: self.tab_css_overrides.deep_view(),
            font_settings: self.font_settings.deep_view(),
            background_color: self.background_color.deep_view(),
            note_settings: self.note_settings.deep_view(),
            note_effect: self.note_effect,
            laboratory_enabled: self.laboratory_enabled,
            use_custom_css: self.use_custom_css,
            custom_css: self.custom_css.deep_view(),
            use_custom_js: self.use_custom_js,
            custom_js: self.custom_js.deep_view(),
            custom_css_history: self.custom_css_history.deep_view(),
            sound_library: self.sound_library.deep_view(),
            counter_animation_presets: self.counter_animation_presets.deep_view(),
            plugin_data: self.plugin_data.deep_view(),
            overlay_locked: self.overlay_locked,
            overlay_visible: self.overlay_visible,
            editor_revision: self.editor_revision,
        }
    }
}

impl Dup for AppStoreData {
    fn dup(&self) -> (r: Self) {
        AppStoreData {
            keys: self.keys.dup(),
            key_positions: self.key_positions.dup(),
            stat_positions: self.stat_positions.dup(),
            graph_positions: self.graph_positions.dup(),
            knob_positions: self.knob_positions.dup(),
            sprite_positions: self.sprite_positions.dup(),
            layer_groups: self.layer_groups.dup(),
            key_counters: self.key_counters.dup(),
            custom_tabs: self.custom_tabs.dup(),
            tab_order: self.tab_order.dup(),
            bar_count: self.bar_count,
            selected_key_type: self.selected_key_type.dup(),
            tab_note_overrides: self.tab_note_overrides.dup(),
            tab_css_overrides: self.tab_css_overrides.dup(),
            font_settings: self.font_settings.dup(),
            background_color: self.background_color.dup(),
            note_settings: self.note_settings.dup(),
            note_effect: self.note_effect,
            laboratory_enabled: self.laboratory_enabled,
            use_custom_css: self.use_custom_css,
            custom_css: self.custom_css.dup(),
            use_custom_js: self.use_custom_js,
            custom_js: self.custom_js.dup(),
            custom_css_history: self.custom_css_history.dup(),
            sound_library: self.sound_library.dup(),
            counter_animation_presets: self.counter_animation_presets.dup(),
            plugin_data: self.plugin_data.dup(),
            overlay_locked: self.overlay_locked,
            overlay_visible: self.overlay_visible,
            editor_revision: self.editor_revision,
        }
    }
}

} // verus!
