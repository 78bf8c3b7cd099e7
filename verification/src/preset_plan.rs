//! Preparing and applying preset imports. Preparation restores the files that a preset
//! carries and works out every new value; applying writes them into the document.
use crate::codec::{is_uuid_text, new_uuid_text};
use crate::model::{
    AppStoreData, AppStoreDataV, CustomCss, CustomCssV, CustomFont, CustomFontV, CustomJs,
    CustomTab, CustomTabV, EmbeddedLocalFont, FontSettings, FontSettingsV, GraphPosition,
    KeyPosition, KeyPositionV, KeySlot, KeySlotV, KnobPosition, LayerGroupDef, LayerGroupDefV,
    NoteSettings, PresetFile, PresetFileV, ReactiveSpritePosition, ReactiveSpritePositionV,
    StatPosition, TabCss, TabCssV, TabNoteSettings,
};
use crate::preset_export::is_builtin_tab;
use crate::preset_import::{
    align_imported_key_collections, apply_tab_note_override, choose_selected_key_type,
    choose_tab_preset_source_tab, custom_tab_name, keys_aligned, max_len, merge_tab_preset_key_pair,
    or_current, padded, positions_of, rekey_full_preset_elements, rekey_tab_preset_elements,
    resolve_full_preset_layer_groups, resolve_full_preset_settings, select_tab_preset_elements,
    spec_choose_selected, spec_choose_source_tab, spec_select_tab_elements, store_rekeyed,
    strictly_sorted, synthesize_custom_tabs, tab_store_rekeyed, FullPresetPublication,
    ImportedCssPaths,
};
use crate::preset_restore::{
    accepts_plain, font_list, font_restore_outcome, image_list, image_restore_outcome,
    restore_preset_local_fonts_in_dir, restore_preset_local_images_in_dir,
    restore_preset_local_sounds_in_dir, sound_list, sound_restore_outcome, PresetAssetWriter,
};
use crate::strmap::{Dup, StrMap};
use crate::tab_meta::{
    custom_ids, default_keys, default_positions, legacy_tab_order, normalize_bar_count,
    normalize_tab_order, spec_default_keys, spec_default_positions, spec_legacy_tab_order,
    spec_normalize_bar_count, spec_normalize_tab_order, DEFAULT_BAR_COUNT,
};
use crate::text::{chars_of, contains_text, str_eq, string_of};
use crate::web_assets::WebPresetAssets;
use crate::web_css::{spec_validate_css_bytes, validate_css_bytes};
use vstd::prelude::*;

verus! {

/// What importing a preset needs from the host besides its file store: where restored
/// files go, and which style sheet paths are usable.
pub trait PresetImportHost: PresetAssetWriter {
    /// Whether a style sheet path names a usable style sheet.
    spec fn css_path_ok(&self, path: Seq<char>) -> bool;

    spec fn images_dir(&self) -> Seq<char>;

    spec fn sounds_dir(&self) -> Seq<char>;

    spec fn fonts_dir(&self) -> Seq<char>;

    fn images_folder(&self) -> (r: String)
        ensures
            r@ == self.images_dir(),
    ;

    fn sounds_folder(&self) -> (r: String)
        ensures
            r@ == self.sounds_dir(),
    ;

    fn fonts_folder(&self) -> (r: String)
        ensures
            r@ == self.fonts_dir(),
    ;

    /// The folders stay the same as the host grows.
    proof fn lemma_dirs_stay(&self, later: &Self)
        requires
            self.grows_to(later),
        ensures
            later.images_dir() == self.images_dir(),
            later.sounds_dir() == self.sounds_dir(),
            later.fonts_dir() == self.fonts_dir(),
    ;

    /// Drops the path of a global style sheet that is not usable; keeps its text.
    fn normalize_custom_css(&self, css: &mut CustomCss)
        ensures
            final(css).deep_view() == (CustomCssV {
                path: if (old(css).path matches Some(p) && !self.css_path_ok(p@)) {
                    None
                } else {
                    old(css).path.deep_view()
                },
                ..old(css).deep_view()
            }),
    ;

    /// Drops the path of a tab style sheet that is not usable; keeps its text.
    fn normalize_tab_css(&self, css: &mut TabCss)
        ensures
            final(css).deep_view() == (TabCssV {
                path: if (old(css).path matches Some(p) && !self.css_path_ok(p@)) {
                    None
                } else {
                    old(css).path.deep_view()
                },
                ..old(css).deep_view()
            }),
    ;
}

/// A style sheet path with its text kept, or dropped when not usable.
pub open spec fn css_path_kept(ok: bool, path: Option<Seq<char>>) -> Option<Seq<char>> {
    if path is Some && !ok {
        None
    } else {
        path
    }
}

impl PresetImportHost for WebPresetAssets {
    open spec fn css_path_ok(&self, path: Seq<char>) -> bool {
        self.lookup(path) matches Some(b) && spec_validate_css_bytes(path, b) is Ok
    }

    open spec fn images_dir(&self) -> Seq<char> {
        "/assets/images"@
    }

    open spec fn sounds_dir(&self) -> Seq<char> {
        "/assets/sounds"@
    }

    open spec fn fonts_dir(&self) -> Seq<char> {
        "/assets/fonts"@
    }

    fn images_folder(&self) -> (r: String) {
        string_of(&chars_of("/assets/images"))
    }

    fn sounds_folder(&self) -> (r: String) {
        string_of(&chars_of("/assets/sounds"))
    }

    fn fonts_folder(&self) -> (r: String) {
        string_of(&chars_of("/assets/fonts"))
    }

    proof fn lemma_dirs_stay(&self, later: &Self) {
    }

    fn normalize_custom_css(&self, css: &mut CustomCss) {
        let drop = match &css.path {
            Some(p) => !self.valid_css_path(p.as_str()),
            None => false,
        };
        if drop {
            css.path = None;
        }
    }

    fn normalize_tab_css(&self, css: &mut TabCss) {
        let drop = match &css.path {
            Some(p) => !self.valid_css_path(p.as_str()),
            None => false,
        };
        if drop {
            css.path = None;
        }
    }
}

impl WebPresetAssets {
    /// Whether a path names a stored style sheet that is acceptable.
    pub fn valid_css_path(&self, path: &str) -> (r: bool)
        ensures
            r == self.css_path_ok(path@),
    {
        match self.bytes(path) {
            Ok(b) => validate_css_bytes(path, b.as_slice()).is_ok(),
            Err(_) => false,
        }
    }
}

/// Normalizes the style sheet of every tab.
pub fn normalize_tab_css_overrides<H: PresetImportHost>(host: &H, overrides: StrMap<TabCss>) -> (r:
    StrMap<TabCss>)
    ensures
        r@.dom() == overrides@.dom(),
        forall|k: Seq<char>|
            #[trigger] overrides@.contains_key(k) ==> r@[k] == (TabCssV {
                path: css_path_kept(
                    overrides@[k].path matches Some(p) && host.css_path_ok(p),
                    overrides@[k].path,
                ),
                ..overrides@[k]
            }),
        r.wf(),
        r.spec_len() == overrides.spec_len(),
        forall|i: int| 0 <= i < r.spec_len() ==> r.spec_key(i) == overrides.spec_key(i),
        forall|i: int|
            0 <= i < r.spec_len() ==> #[trigger] r.spec_value(i) == (TabCssV {
                path: css_path_kept(
                    overrides.spec_value(i).path matches Some(p) && host.css_path_ok(p),
                    overrides.spec_value(i).path,
                ),
                ..overrides.spec_value(i)
            }),
{
    let mut m = overrides;
    m.check_wf();
    let ghost m0 = m;
    let n = m.len();
    let mut i: usize = 0;
    while i < n
        invariant
            n == m.spec_len(),
            n == m0.spec_len(),
            i <= n,
            m.wf(),
            m0.wf(),
            forall|j: int| 0 <= j < n ==> m.spec_key(j) == m0.spec_key(j),
            forall|j: int| i <= j < n ==> m.spec_value(j) == m0.spec_value(j),
            forall|j: int|
                0 <= j < i ==> #[trigger] m.spec_value(j) == (TabCssV {
                    path: css_path_kept(
                        m0.spec_value(j).path matches Some(p) && host.css_path_ok(p),
                        m0.spec_value(j).path,
                    ),
                    ..m0.spec_value(j)
                }),
        decreases n - i,
    {
        let mut css = m.value_at(i).dup();
        host.normalize_tab_css(&mut css);
        let _ = m.replace_at(i, css);
        i += 1;
    }
    proof {
        assert forall|k: Seq<char>| #[trigger] m.view_map().contains_key(k) <==> m0.view_map().contains_key(k) by {
            if m0@.contains_key(k) {
                let j = m0.lemma_key(k);
                m.lemma_index(j);
            }
            if m@.contains_key(k) {
                let j = m.lemma_key(k);
                m0.lemma_index(j);
            }
        }
        assert(m@.dom() =~= m0@.dom());
        assert forall|k: Seq<char>| #[trigger] m0@.contains_key(k) implies m@[k] == (TabCssV {
            path: css_path_kept(m0@[k].path matches Some(p) && host.css_path_ok(p), m0@[k].path),
            ..m0@[k]
        }) by {
            let j = m0.lemma_key(k);
            m.lemma_index(j);
        }
    }
    m
}

/// New values for the global settings; an absent font list leaves the fonts alone.
pub struct SettingsPatch {
    pub background_color: String,
    pub note_settings: NoteSettings,
    pub note_effect: bool,
    pub laboratory_enabled: bool,
    pub use_custom_css: bool,
    pub custom_css: CustomCss,
    pub font_settings: Option<FontSettings>,
    pub use_custom_js: bool,
    pub custom_js: CustomJs,
}

/// The settings that a patch changed, with their new values.
pub struct SettingsDiff {
    pub background_color: Option<String>,
    pub note_settings: Option<NoteSettings>,
    pub note_effect: Option<bool>,
    pub laboratory_enabled: Option<bool>,
    pub use_custom_css: Option<bool>,
    pub custom_css: Option<CustomCss>,
    pub font_settings: Option<FontSettings>,
    pub use_custom_js: Option<bool>,
    pub custom_js: Option<CustomJs>,
}

/// A new value where it differs from the old one.
pub open spec fn changed<T>(old: T, new: T) -> Option<T> {
    if old == new {
        None
    } else {
        Some(new)
    }
}

fn opt_str_eq(a: &Option<String>, b: &Option<String>) -> (r: bool)
    ensures
        r == (a.deep_view() == b.deep_view()),
{
    match (a, b) {
        (Some(x), Some(y)) => str_eq(x.as_str(), y.as_str()),
        (None, None) => true,
        _ => false,
    }
}

/// The document with a settings patch applied.
pub open spec fn patched(store: AppStoreDataV, patch: SettingsPatch) -> AppStoreDataV {
    AppStoreDataV {
        background_color: patch.background_color@,
        note_settings: patch.note_settings.deep_view(),
        note_effect: patch.note_effect,
        laboratory_enabled: patch.laboratory_enabled,
        use_custom_css: patch.use_custom_css,
        custom_css: patch.custom_css.deep_view(),
        font_settings: match patch.font_settings {
            Some(f) => f.deep_view(),
            None => store.font_settings,
        },
        use_custom_js: patch.use_custom_js,
        custom_js: patch.custom_js.deep_view(),
        ..store
    }
}

/// Writes a settings patch into the document and reports what changed. A font list in the
/// patch is always reported.
pub fn apply_settings_patch(store: &mut AppStoreData, patch: SettingsPatch) -> (r: SettingsDiff)
    ensures
        final(store).deep_view() == patched(old(store).deep_view(), patch),
        r.background_color.deep_view() == changed(old(store).background_color@, patch.background_color@),
        r.note_settings.deep_view() == changed(
            old(store).note_settings.deep_view(),
            patch.note_settings.deep_view(),
        ),
        r.note_effect == changed(old(store).note_effect, patch.note_effect),
        r.laboratory_enabled == changed(old(store).laboratory_enabled, patch.laboratory_enabled),
        r.use_custom_css == changed(old(store).use_custom_css, patch.use_custom_css),
        r.custom_css.deep_view() == changed(old(store).custom_css.deep_view(), patch.custom_css.deep_view()),
        r.font_settings.deep_view() == patch.font_settings.deep_view(),
        r.use_custom_js == changed(old(store).use_custom_js, patch.use_custom_js),
        r.custom_js.deep_view() == changed(old(store).custom_js.deep_view(), patch.custom_js.deep_view()),
{
    let ghost p = patch;
    let SettingsPatch {
        background_color,
        note_settings,
        note_effect,
        laboratory_enabled,
        use_custom_css,
        custom_css,
        font_settings,
        use_custom_js,
        custom_js,
    } = patch;
    let bg = if str_eq(store.background_color.as_str(), background_color.as_str()) {
        None
    } else {
        Some(background_color.dup())
    };
    let ns = if store.note_settings.speed == note_settings.speed && store.note_settings.track_height
        == note_settings.track_height && store.note_settings.reverse == note_settings.reverse {
        None
    } else {
        Some(note_settings.dup())
    };
    let ne = if store.note_effect == note_effect {
        None
    } else {
        Some(note_effect)
    };
    let le = if store.laboratory_enabled == laboratory_enabled {
        None
    } else {
        Some(laboratory_enabled)
    };
    let uc = if store.use_custom_css == use_custom_css {
        None
    } else {
        Some(use_custom_css)
    };
    let cc = if opt_str_eq(&store.custom_css.path, &custom_css.path) && str_eq(
        store.custom_css.content.as_str(),
        custom_css.content.as_str(),
    ) {
        None
    } else {
        Some(custom_css.dup())
    };
    let uj = if store.use_custom_js == use_custom_js {
        None
    } else {
        Some(use_custom_js)
    };
    let cj = if opt_str_eq(&store.custom_js.path, &custom_js.path) && str_eq(
        store.custom_js.content.as_str(),
        custom_js.content.as_str(),
    ) {
        None
    } else {
        Some(custom_js.dup())
    };
    let fs = font_settings.dup();
    store.background_color = background_color;
    store.note_settings = note_settings;
    store.note_effect = note_effect;
    store.laboratory_enabled = laboratory_enabled;
    store.use_custom_css = use_custom_css;
    store.custom_css = custom_css;
    match font_settings {
        Some(f) => {
            store.font_settings = f;
        },
        None => {},
    }
    store.use_custom_js = use_custom_js;
    store.custom_js = custom_js;
    SettingsDiff {
        background_color: bg,
        note_settings: ns,
        note_effect: ne,
        laboratory_enabled: le,
        use_custom_css: uc,
        custom_css: cc,
        font_settings: fs,
        use_custom_js: uj,
        custom_js: cj,
    }
}

/// The style sheet paths of a list of tab style sheets, in order.
pub open spec fn tab_css_paths(vals: Seq<TabCssV>) -> Seq<Seq<char>>
    decreases vals.len(),
{
    if vals.len() == 0 {
        Seq::empty()
    } else {
        let rest = tab_css_paths(vals.drop_last());
        match vals.last().path {
            Some(p) => rest.push(p),
            None => rest,
        }
    }
}

/// The tab style sheets of a map, in entry order.
pub open spec fn css_entries(m: StrMap<TabCss>) -> Seq<TabCssV> {
    Seq::new(m.spec_len(), |i: int| m.spec_value(i))
}

fn collect_tab_css_paths(m: &StrMap<TabCss>) -> (r: Vec<String>)
    ensures
        r.deep_view() == tab_css_paths(css_entries(*m)),
{
    let mut out: Vec<String> = Vec::new();
    let n = m.len();
    let mut i: usize = 0;
    while i < n
        invariant
            n == m.spec_len(),
            i <= n,
            out.deep_view() == tab_css_paths(css_entries(*m).take(i as int)),
        decreases n - i,
    {
        let ghost pre = css_entries(*m).take(i + 1);
        assert(pre.drop_last() =~= css_entries(*m).take(i as int));
        assert(pre.last() == m.spec_value(i as int));
        match &m.value_at(i).path {
            Some(p) => {
                let ghost before = out.deep_view();
                out.push(p.clone());
                assert(out.deep_view() =~= before.push(p@));
            },
            None => {},
        }
        i += 1;
    }
    assert(css_entries(*m).take(n as int) =~= css_entries(*m));
    out
}

/// The custom tabs that a full import synthesizes: every tab that is not built in, in text
/// order, named `Custom 1`, `Custom 2`, and so on.
pub open spec fn tabs_synthesized(keys: Map<Seq<char>, Seq<KeySlotV>>, tabs: Seq<CustomTabV>) -> bool {
    &&& strictly_sorted(custom_ids(tabs))
    &&& forall|x: Seq<char>| #[trigger] custom_ids(tabs).contains(x) <==> (keys.contains_key(x) && !is_builtin_tab(x))
    &&& forall|i: int| 0 <= i < tabs.len() ==> (#[trigger] tabs[i]).name == custom_tab_name((i + 1) as nat)
}

/// A prepared full import: every value that applying it writes into the document.
pub struct FullPresetPlan {
    pub imported_css_paths: ImportedCssPaths,
    pub publication: FullPresetPublication,
    pub keys: StrMap<Vec<KeySlot>>,
    pub positions: StrMap<Vec<KeyPosition>>,
    pub stat_positions: StrMap<Vec<StatPosition>>,
    pub graph_positions: StrMap<Vec<GraphPosition>>,
    pub knob_positions: StrMap<Vec<KnobPosition>>,
    pub sprite_positions: StrMap<Vec<ReactiveSpritePosition>>,
    pub custom_tabs: Vec<CustomTab>,
    pub tab_order: Vec<String>,
    pub bar_count: u8,
    pub requested_selected_key_type: Option<String>,
    pub tab_note_overrides: StrMap<TabNoteSettings>,
    pub preset_layer_groups: StrMap<Vec<LayerGroupDef>>,
    pub preset_tab_css_overrides: Option<StrMap<TabCss>>,
    pub settings_patch: SettingsPatch,
}

/// A global style sheet normalized by the host.
pub open spec fn css_normalized<H: PresetImportHost>(host: H, css: CustomCssV) -> CustomCssV {
    CustomCssV {
        path: css_path_kept(css.path matches Some(p) && host.css_path_ok(p), css.path),
        ..css
    }
}

/// The font step of an import: the preset's fonts restored from `h0` to `h1`, or, without
/// fonts in the preset, nothing done.
pub open spec fn fonts_step<H: PresetImportHost>(
    h0: H,
    h1: H,
    p: PresetFileV,
    fonts: Seq<crate::model::CustomFontV>,
    patch: Option<FontSettingsV>,
) -> bool {
    match p.font_settings {
        Some(fs) => font_restore_outcome(
            h0,
            h1,
            h0.fonts_dir(),
            or_current(p.embedded_local_fonts, Seq::empty()),
            fs.custom_fonts,
            fonts,
        ) && patch == Some(FontSettingsV { custom_fonts: fonts }),
        None => h1 == h0 && patch is None,
    }
}

/// How the files of a full import were restored, from host `h0` to host `hf`: fonts, then
/// images, then sounds, each by its rule.
pub open spec fn full_files_restored<H: PresetImportHost>(
    h0: H,
    hf: H,
    p: PresetFileV,
    keys: Map<Seq<char>, Seq<KeySlotV>>,
    plan: FullPresetPlan,
) -> bool {
    let pos0 = or_current(p.key_positions, spec_default_positions());
    exists|
        h1: H,
        h2: H,
        fonts: Seq<crate::model::CustomFontV>,
        k1: Map<Seq<char>, Seq<KeyPositionV>>,
        s1: Map<Seq<char>, Seq<crate::model::StatPositionV>>,
        g1: Map<Seq<char>, Seq<crate::model::GraphPositionV>>,
        n1: Map<Seq<char>, Seq<crate::model::KnobPositionV>>,
        k2: Map<Seq<char>, Seq<KeyPositionV>>,
    |
        #![trigger fonts_step(h0, h1, p, fonts, plan.settings_patch.font_settings.deep_view()), image_restore_outcome(h1, h2, h0.images_dir(), or_current(p.embedded_local_images, Seq::empty()), pos0, k1, or_current(p.stat_positions, Map::empty()), s1, or_current(p.graph_positions, Map::empty()), g1, or_current(p.knob_positions, Map::empty()), n1, or_current(p.sprite_positions, Map::empty()), plan.sprite_positions@), keys_aligned(keys, k2, plan.keys@, plan.positions@)]
        {
            &&& fonts_step(h0, h1, p, fonts, plan.settings_patch.font_settings.deep_view())
            &&& image_restore_outcome(
                h1,
                h2,
                h0.images_dir(),
                or_current(p.embedded_local_images, Seq::empty()),
                pos0,
                k1,
                or_current(p.stat_positions, Map::empty()),
                s1,
                or_current(p.graph_positions, Map::empty()),
                g1,
                or_current(p.knob_positions, Map::empty()),
                n1,
                or_current(p.sprite_positions, Map::empty()),
                plan.sprite_positions@,
            )
            &&& sound_restore_outcome(
                h2,
                hf,
                h0.sounds_dir(),
                or_current(p.embedded_local_sounds, Seq::empty()),
                k1,
                k2,
                s1,
                plan.stat_positions@,
                g1,
                plan.graph_positions@,
                n1,
                plan.knob_positions@,
            )
            &&& keys_aligned(keys, k2, plan.keys@, plan.positions@)
        }
}

/// Everything a prepared full import holds, from the preset `p` and the document `c`.
pub open spec fn full_plan_values<H: PresetImportHost>(
    h0: H,
    p: PresetFileV,
    c: AppStoreDataV,
    plan: FullPresetPlan,
) -> bool {
    let keys = or_current(p.keys, spec_default_keys());
    let css = css_normalized(h0, or_current(p.custom_css, c.custom_css));
    let js = or_current(p.custom_js, c.custom_js);
    &&& (match p.custom_tabs {
        Some(t) => plan.custom_tabs.deep_view() == t,
        None => tabs_synthesized(keys, plan.custom_tabs.deep_view()),
    })
    &&& plan.tab_order.deep_view() == match p.tab_order {
        Some(o) => spec_normalize_tab_order(o, plan.custom_tabs.deep_view()),
        None => spec_legacy_tab_order(plan.custom_tabs.deep_view()),
    }
    &&& plan.bar_count == spec_normalize_bar_count(
        or_current(p.bar_count, DEFAULT_BAR_COUNT),
        plan.tab_order.deep_view().len(),
    )
    &&& plan.requested_selected_key_type.deep_view() == p.selected_key_type
    &&& plan.tab_note_overrides@ == or_current(p.tab_note_overrides, Map::empty())
    &&& plan.preset_layer_groups@ == or_current(
        p.layer_groups,
        Map::new(|k: Seq<char>| keys.contains_key(k), |k: Seq<char>| Seq::<LayerGroupDefV>::empty()),
    )
    &&& (match p.tab_css_overrides {
        None => plan.preset_tab_css_overrides is None,
        Some(o) => plan.preset_tab_css_overrides matches Some(m) && m@.dom() == o.dom() && forall|k: Seq<char>|
            #[trigger] o.contains_key(k) ==> m@[k] == (TabCssV {
                path: css_path_kept(o[k].path matches Some(q) && h0.css_path_ok(q), o[k].path),
                ..o[k]
            }),
    })
    &&& plan.imported_css_paths.global.deep_view() == (if p.custom_css is Some {
        css.path
    } else {
        None
    })
    &&& plan.imported_css_paths.tabs.deep_view() == match plan.preset_tab_css_overrides {
        Some(m) => tab_css_paths(css_entries(m)),
        None => Seq::empty(),
    }
    &&& plan.settings_patch.background_color@ == or_current(p.background_color, c.background_color)
    &&& plan.settings_patch.note_settings.deep_view() == or_current(p.note_settings, c.note_settings)
    &&& plan.settings_patch.note_effect == or_current(p.note_effect, c.note_effect)
    &&& plan.settings_patch.laboratory_enabled == or_current(p.laboratory_enabled, c.laboratory_enabled)
    &&& plan.settings_patch.use_custom_css == or_current(p.use_custom_css, c.use_custom_css)
    &&& plan.settings_patch.custom_css.deep_view() == css
    &&& plan.settings_patch.use_custom_js == or_current(p.use_custom_js, c.use_custom_js)
    &&& plan.settings_patch.custom_js.deep_view() == js
    &&& plan.publication.use_custom_css == plan.settings_patch.use_custom_css
    &&& plan.publication.custom_css.deep_view() == css
    &&& plan.publication.use_custom_js == plan.settings_patch.use_custom_js
    &&& plan.publication.custom_js.deep_view() == js
}

/// The host accepts the files of an import: its three folders, and new images of every
/// plain extension.
pub open spec fn host_accepts_import<H: PresetImportHost>(h: H) -> bool {
    &&& h.folder_ok(h.images_dir())
    &&& h.folder_ok(h.sounds_dir())
    &&& h.folder_ok(h.fonts_dir())
    &&& accepts_plain(h, h.images_dir())
}

fn take_or_empty<V: vstd::prelude::DeepView>(m: Option<StrMap<V>>) -> (r: StrMap<V>)
    ensures
        r@ == or_current(
            match m {
                Some(x) => Some(x@),
                None => None,
            },
            Map::empty(),
        ),
{
    match m {
        Some(x) => x,
        None => StrMap::new(),
    }
}

/// Prepares a full import: restores the files that the preset carries into the host's
/// folders and works out the new layouts, tabs and settings (see [`full_plan_values`] and
/// [`full_files_restored`]). Fields that older presets lack keep the current settings.
#[verifier::rlimit(60)]
#[verifier::spinoff_prover]
pub fn prepare_full_preset<H: PresetImportHost>(
    preset: PresetFile,
    current: &AppStoreData,
    host: &mut H,
) -> (r: Result<FullPresetPlan, String>)
    ensures
        host_accepts_import(*old(host)) ==> r is Ok,
        r matches Ok(plan) ==> plan.keys@.dom() == or_current(preset.deep_view().keys, spec_default_keys()).dom().union(
            or_current(preset.deep_view().key_positions, spec_default_positions()).dom(),
        ),
        r matches Ok(plan) ==> full_plan_values(*old(host), preset.deep_view(), current.deep_view(), plan)
            && full_files_restored(
            *old(host),
            *final(host),
            preset.deep_view(),
            or_current(preset.deep_view().keys, spec_default_keys()),
            plan,
        ),
{
    let ghost h0 = *host;
    let ghost pv = preset.deep_view();
    let mut preset = preset;
    let has_imported_global_css = preset.custom_css.is_some();
    let resolved = resolve_full_preset_settings(&mut preset, current);
    let PresetFile {
        keys,
        key_positions,
        stat_positions,
        graph_positions,
        knob_positions,
        sprite_positions,
        custom_tabs,
        tab_order,
        bar_count,
        selected_key_type,
        font_settings,
        tab_note_overrides,
        layer_groups,
        tab_css_overrides,
        embedded_local_fonts,
        embedded_local_images,
        embedded_local_sounds,
        ..
    } = preset;
    let mut keys = match keys {
        Some(k) => k,
        None => default_keys(),
    };
    let mut positions = match key_positions {
        Some(k) => k,
        None => default_positions(),
    };
    let mut stat_positions = take_or_empty(stat_positions);
    let mut graph_positions = take_or_empty(graph_positions);
    let mut knob_positions = take_or_empty(knob_positions);
    let mut sprite_positions = take_or_empty(sprite_positions);
    let custom_tabs = match custom_tabs {
        Some(t) => t,
        None => synthesize_custom_tabs(&keys),
    };
    let preset_layer_groups = resolve_full_preset_layer_groups(layer_groups, &keys);
    let preset_tab_css_overrides = match tab_css_overrides {
        Some(o) => Some(normalize_tab_css_overrides(host, o)),
        None => None,
    };
    let ResolvedFullPresetSettingsParts {
        background_color,
        note_settings,
        note_effect,
        laboratory_enabled,
        use_custom_css,
        mut custom_css,
        use_custom_js,
        custom_js,
    } = split_resolved(resolved);
    host.normalize_custom_css(&mut custom_css);
    let global = if has_imported_global_css {
        custom_css.path.dup()
    } else {
        None
    };
    let tabs = match &preset_tab_css_overrides {
        Some(m) => collect_tab_css_paths(m),
        None => {
            let v: Vec<String> = Vec::new();
            assert(v.deep_view() =~= Seq::<Seq<char>>::empty());
            v
        },
    };
    let emb_fonts = embedded_local_fonts.as_ref();
    let emb_images = embedded_local_images.as_ref();
    let emb_sounds = embedded_local_sounds.as_ref();
    let images_dir = host.images_folder();
    let sounds_dir = host.sounds_folder();
    let fonts_dir = host.fonts_folder();
    let ghost h_start = *host;
    let ghost fonts_before = font_settings.deep_view();
    let font_patch = match font_settings {
        Some(fs) => {
            let mut fs = fs;
            match restore_preset_local_fonts_in_dir(host, fonts_dir.as_str(), &mut fs, emb_fonts) {
                Ok(()) => {},
                Err(e) => {
                    return Err(e);
                },
            }
            Some(fs)
        },
        None => {
            proof {
                host.lemma_grows_refl();
            }
            None
        },
    };
    let ghost h1 = *host;
    let ghost pos0 = positions@;
    let ghost stats0 = stat_positions@;
    let ghost graphs0 = graph_positions@;
    let ghost knobs0 = knob_positions@;
    let ghost sprites0 = sprite_positions@;
    proof {
        h0.lemma_grows_rules(&h1);
    }
    match restore_preset_local_images_in_dir(
        host,
        images_dir.as_str(),
        &mut positions,
        &mut stat_positions,
        &mut graph_positions,
        &mut knob_positions,
        &mut sprite_positions,
        emb_images,
    ) {
        Ok(()) => {},
        Err(e) => {
            return Err(e);
        },
    }
    let ghost h2 = *host;
    let ghost k1 = positions@;
    let ghost s1 = stat_positions@;
    let ghost g1 = graph_positions@;
    let ghost n1 = knob_positions@;
    proof {
        h0.lemma_grows_trans(&h1, &h2);
        h0.lemma_grows_rules(&h2);
    }
    match restore_preset_local_sounds_in_dir(
        host,
        sounds_dir.as_str(),
        &mut positions,
        &mut stat_positions,
        &mut graph_positions,
        &mut knob_positions,
        emb_sounds,
    ) {
        Ok(()) => {},
        Err(e) => {
            return Err(e);
        },
    }
    let ghost k2 = positions@;
    let ghost keys0 = keys@;
    align_imported_key_collections(&mut keys, &mut positions);
    let tab_order = match tab_order {
        Some(o) => normalize_tab_order(&o, &custom_tabs),
        None => legacy_tab_order(&custom_tabs),
    };
    let bar_count = normalize_bar_count(
        match bar_count {
            Some(b) => b,
            None => DEFAULT_BAR_COUNT,
        },
        &tab_order,
    );
    let tab_note_overrides = take_or_empty(tab_note_overrides);
    let settings_patch = SettingsPatch {
        background_color,
        note_settings,
        note_effect,
        laboratory_enabled,
        use_custom_css,
        custom_css: custom_css.dup(),
        font_settings: font_patch,
        use_custom_js,
        custom_js: custom_js.dup(),
    };
    let plan = FullPresetPlan {
        imported_css_paths: ImportedCssPaths { global, tabs },
        publication: FullPresetPublication { use_custom_css, custom_css, use_custom_js, custom_js },
        keys,
        positions,
        stat_positions,
        graph_positions,
        knob_positions,
        sprite_positions,
        custom_tabs,
        tab_order,
        bar_count,
        requested_selected_key_type: selected_key_type,
        tab_note_overrides,
        preset_layer_groups,
        preset_tab_css_overrides,
        settings_patch,
    };
    proof {
        assert(image_list(emb_images) == or_current(pv.embedded_local_images, Seq::empty()));
        assert(sound_list(emb_sounds) == or_current(pv.embedded_local_sounds, Seq::empty()));
        assert(font_list(emb_fonts) == or_current(pv.embedded_local_fonts, Seq::empty()));
        let fonts_after = match plan.settings_patch.font_settings.deep_view() {
            Some(f) => f.custom_fonts,
            None => Seq::empty(),
        };
        assert(fonts_step(h0, h1, pv, fonts_after, plan.settings_patch.font_settings.deep_view()));
        assert(image_restore_outcome(h1, h2, h0.images_dir(), or_current(pv.embedded_local_images, Seq::empty()), or_current(pv.key_positions, spec_default_positions()), k1, or_current(pv.stat_positions, Map::empty()), s1, or_current(pv.graph_positions, Map::empty()), g1, or_current(pv.knob_positions, Map::empty()), n1, or_current(pv.sprite_positions, Map::empty()), plan.sprite_positions@));
        assert(keys_aligned(keys0, k2, plan.keys@, plan.positions@));
        assert(full_files_restored(h0, *host, pv, keys0, plan));
        let cv = current.deep_view();
        let keysv = or_current(pv.keys, spec_default_keys());
        assert(keysv == keys0);
        assert(match pv.custom_tabs {
            Some(t) => plan.custom_tabs.deep_view() == t,
            None => tabs_synthesized(keysv, plan.custom_tabs.deep_view()),
        });
        assert(plan.tab_order.deep_view() == match pv.tab_order {
            Some(o) => spec_normalize_tab_order(o, plan.custom_tabs.deep_view()),
            None => spec_legacy_tab_order(plan.custom_tabs.deep_view()),
        });
        assert(plan.tab_note_overrides@ == or_current(pv.tab_note_overrides, Map::empty()));
        assert(plan.preset_layer_groups@ == or_current(
            pv.layer_groups,
            Map::new(|k: Seq<char>| keysv.contains_key(k), |k: Seq<char>| Seq::<LayerGroupDefV>::empty()),
        ));
        assert(plan.imported_css_paths.global.deep_view() == (if pv.custom_css is Some {
            css_normalized(h0, or_current(pv.custom_css, cv.custom_css)).path
        } else {
            None
        }));
        assert(plan.settings_patch.custom_css.deep_view() == css_normalized(h0, or_current(pv.custom_css, cv.custom_css)));
        assert(full_plan_values(h0, pv, cv, plan));
    }
    Ok(plan)
}

/// The parts of resolved global settings.
struct ResolvedFullPresetSettingsParts {
    background_color: String,
    note_settings: NoteSettings,
    note_effect: bool,
    laboratory_enabled: bool,
    use_custom_css: bool,
    custom_css: CustomCss,
    use_custom_js: bool,
    custom_js: CustomJs,
}

fn split_resolved(r: crate::preset_import::ResolvedFullPresetSettings) -> (out: ResolvedFullPresetSettingsParts)
    ensures
        out.background_color == r.background_color,
        out.note_settings == r.note_settings,
        out.note_effect == r.note_effect,
        out.laboratory_enabled == r.laboratory_enabled,
        out.use_custom_css == r.use_custom_css,
        out.custom_css == r.custom_css,
        out.use_custom_js == r.use_custom_js,
        out.custom_js == r.custom_js,
{
    ResolvedFullPresetSettingsParts {
        background_color: r.background_color,
        note_settings: r.note_settings,
        note_effect: r.note_effect,
        laboratory_enabled: r.laboratory_enabled,
        use_custom_css: r.use_custom_css,
        custom_css: r.custom_css,
        use_custom_js: r.use_custom_js,
        custom_js: r.custom_js,
    }
}

/// Why applying an import was refused.
#[derive(Clone, Copy, Debug, PartialEq, Eq, Structural)]
pub enum EditorCommitError {
    /// The selected tab of the result has no key bindings.
    InvalidTabMetadata,
    /// No counter animation preset has the requested id.
    CounterAnimationPresetNotFound,
}

impl EditorCommitError {
    /// The error's code.
    pub fn code(&self) -> (r: &'static str)
        ensures
            r@ == (match self {
                EditorCommitError::InvalidTabMetadata => "invalid-tab-metadata"@,
                EditorCommitError::CounterAnimationPresetNotFound => "COUNTER_ANIMATION_PRESET_NOT_FOUND"@,
            }),
    {
        match self {
            EditorCommitError::InvalidTabMetadata => "invalid-tab-metadata",
            EditorCommitError::CounterAnimationPresetNotFound => "COUNTER_ANIMATION_PRESET_NOT_FOUND",
        }
    }
}

/// What applying a full import reports: the settings that changed, the tab style sheets
/// before, and the new custom tabs, tab order, tab-bar size, note overrides and tab style
/// sheets.
pub type FullPresetApplyResult = (
    SettingsDiff,
    StrMap<TabCss>,
    Vec<CustomTab>,
    Vec<String>,
    u8,
    StrMap<TabNoteSettings>,
    StrMap<TabCss>,
);

/// The document with a full import's layouts, tabs and per-tab settings written, before
/// elements are rekeyed and settings patched.
pub open spec fn full_import_written(store: AppStoreDataV, plan: FullPresetPlan) -> AppStoreDataV {
    AppStoreDataV {
        keys: plan.keys@,
        key_positions: plan.positions@,
        stat_positions: plan.stat_positions@,
        graph_positions: plan.graph_positions@,
        knob_positions: plan.knob_positions@,
        sprite_positions: plan.sprite_positions@,
        custom_tabs: plan.custom_tabs.deep_view(),
        tab_order: plan.tab_order.deep_view(),
        bar_count: plan.bar_count,
        selected_key_type: spec_choose_selected(
            plan.requested_selected_key_type.deep_view(),
            plan.keys@,
            store.selected_key_type,
        ),
        tab_note_overrides: plan.tab_note_overrides@,
        layer_groups: plan.preset_layer_groups@,
        tab_css_overrides: match plan.preset_tab_css_overrides {
            Some(m) => m@,
            None => store.tab_css_overrides,
        },
        ..store
    }
}

impl FullPresetPlan {
    /// Writes a prepared full import into the document: layouts, tabs, per-tab settings,
    /// new element ids and the global settings. Refused when the chosen selected tab has no
    /// key bindings.
    pub fn apply(self, store: &mut AppStoreData) -> (r: Result<FullPresetApplyResult, EditorCommitError>)
        ensures
            ({
                let w = full_import_written(old(store).deep_view(), self);
                &&& r is Ok <==> self.keys@.contains_key(w.selected_key_type)
                &&& r matches Ok(out) ==> {
                    &&& exists|mid: AppStoreDataV|
                        #[trigger] store_rekeyed(w, mid) && final(store).deep_view() == patched(
                            mid,
                            self.settings_patch,
                        )
                    &&& out.1@ == old(store).tab_css_overrides@
                    &&& out.2.deep_view() == final(store).custom_tabs.deep_view()
                    &&& out.3.deep_view() == final(store).tab_order.deep_view()
                    &&& out.4 == final(store).bar_count
                    &&& out.5@ == final(store).tab_note_overrides@
                    &&& out.6@ == final(store).tab_css_overrides@
                }
            }),
    {
        let ghost w = full_import_written(store.deep_view(), self);
        let FullPresetPlan {
            keys,
            positions,
            stat_positions,
            graph_positions,
            knob_positions,
            sprite_positions,
            custom_tabs,
            tab_order,
            bar_count,
            requested_selected_key_type,
            tab_note_overrides,
            preset_layer_groups,
            preset_tab_css_overrides,
            settings_patch,
            ..
        } = self;
        let previous = store.tab_css_overrides.copy();
        let selected = choose_selected_key_type(
            requested_selected_key_type,
            &keys,
            store.selected_key_type.dup(),
        );
        let valid = keys.contains_key(selected.as_str());
        store.keys = keys;
        store.key_positions = positions;
        store.stat_positions = stat_positions;
        store.graph_positions = graph_positions;
        store.knob_positions = knob_positions;
        store.sprite_positions = sprite_positions;
        store.custom_tabs = custom_tabs;
        store.tab_order = tab_order;
        store.bar_count = bar_count;
        store.selected_key_type = selected;
        if !valid {
            return Err(EditorCommitError::InvalidTabMetadata);
        }
        store.tab_note_overrides = tab_note_overrides;
        store.layer_groups = preset_layer_groups;
        match preset_tab_css_overrides {
            Some(m) => {
                store.tab_css_overrides = m;
            },
            None => {},
        }
        proof {
            assert(store.deep_view() == w);
        }
        rekey_full_preset_elements(store);
        let ghost mid = store.deep_view();
        let diff = apply_settings_patch(store, settings_patch);
        proof {
            assert(store_rekeyed(w, mid));
        }
        Ok(
            (
                diff,
                previous,
                store.custom_tabs.dup(),
                store.tab_order.dup(),
                store.bar_count,
                store.tab_note_overrides.copy(),
                store.tab_css_overrides.copy(),
            ),
        )
    }
}

/// The names of fonts.
pub open spec fn font_names(fonts: Seq<CustomFontV>) -> Seq<Seq<char>> {
    fonts.map_values(|f: CustomFontV| f.name)
}

/// The ids of fonts.
pub open spec fn font_ids(fonts: Seq<CustomFontV>) -> Seq<Seq<char>> {
    fonts.map_values(|f: CustomFontV| f.id)
}

/// The imported fonts that a one-tab import keeps: those whose name is new, each non-empty
/// id once (the first font with it).
pub open spec fn new_fonts(existing_names: Seq<Seq<char>>, fonts: Seq<CustomFontV>) -> Seq<CustomFontV>
    decreases fonts.len(),
{
    if fonts.len() == 0 {
        Seq::empty()
    } else {
        let kept = new_fonts(existing_names, fonts.drop_last());
        let f = fonts.last();
        if !existing_names.contains(f.name) && (f.id.len() == 0 || !font_ids(kept).contains(f.id)) {
            kept.push(f)
        } else {
            kept
        }
    }
}

/// Fonts whose ids were made unique against `taken`: a font whose id is taken gets a new
/// UUID; every font's id is then taken.
pub open spec fn fonts_reidentified(taken: Seq<Seq<char>>, old: Seq<CustomFontV>, new: Seq<CustomFontV>) -> bool {
    &&& new.len() == old.len()
    &&& forall|i: int|
        0 <= i < old.len() ==> {
            let before = taken + font_ids(new.take(i));
            if before.contains(old[i].id) {
                #[trigger] new[i] == (CustomFontV { id: new[i].id, ..old[i] }) && is_uuid_text(new[i].id)
            } else {
                new[i] == old[i]
            }
        }
}

fn font_name_list(fonts: &Vec<CustomFont>) -> (r: Vec<String>)
    ensures
        r.deep_view() == font_names(fonts.deep_view()),
{
    let mut out: Vec<String> = Vec::new();
    let mut i: usize = 0;
    while i < fonts.len()
        invariant
            i <= fonts.len(),
            out.deep_view() =~= font_names(fonts.deep_view()).take(i as int),
        decreases fonts.len() - i,
    {
        let ghost before = out.deep_view();
        out.push(fonts[i].name.clone());
        assert(out.deep_view() =~= before.push(fonts[i as int].name@));
        i += 1;
    }
    out
}

fn font_id_list(fonts: &Vec<CustomFont>) -> (r: Vec<String>)
    ensures
        r.deep_view() == font_ids(fonts.deep_view()),
{
    let mut out: Vec<String> = Vec::new();
    let mut i: usize = 0;
    while i < fonts.len()
        invariant
            i <= fonts.len(),
            out.deep_view() =~= font_ids(fonts.deep_view()).take(i as int),
        decreases fonts.len() - i,
    {
        let ghost before = out.deep_view();
        out.push(fonts[i].id.clone());
        assert(out.deep_view() =~= before.push(fonts[i as int].id@));
        i += 1;
    }
    out
}

/// Keeps the imported fonts with new names, each id once.
fn filter_new_fonts(existing_names: &Vec<String>, fonts: Vec<CustomFont>) -> (r: Vec<CustomFont>)
    ensures
        r.deep_view() == new_fonts(existing_names.deep_view(), fonts.deep_view()),
{
    let mut kept: Vec<CustomFont> = Vec::new();
    let mut seen: Vec<String> = Vec::new();
    let mut i: usize = 0;
    while i < fonts.len()
        invariant
            i <= fonts.len(),
            kept.deep_view() == new_fonts(existing_names.deep_view(), fonts.deep_view().take(i as int)),
            forall|x: Seq<char>| #[trigger] seen.deep_view().contains(x) <==> (font_ids(kept.deep_view()).contains(x) && x.len() > 0),
        decreases fonts.len() - i,
    {
        let ghost pre = fonts.deep_view().take(i + 1);
        assert(pre.drop_last() =~= fonts.deep_view().take(i as int));
        assert(pre.last() == fonts[i as int].deep_view());
        let f = &fonts[i];
        let empty_id = chars_of(f.id.as_str()).len() == 0;
        if !contains_text(existing_names, f.name.as_str()) && (empty_id || !contains_text(&seen, f.id.as_str())) {
            let ghost before = kept.deep_view();
            kept.push(f.dup());
            proof {
                assert(kept.deep_view() =~= before.push(f.deep_view()));
                assert(font_ids(kept.deep_view()) =~= font_ids(before).push(f.id@));
            }
            let ghost sb = seen.deep_view();
            if !empty_id {
                seen.push(f.id.clone());
                assert(seen.deep_view() =~= sb.push(f.id@));
            }
            proof {
                assert forall|x: Seq<char>| #[trigger] seen.deep_view().contains(x) <==> (font_ids(kept.deep_view()).contains(x) && x.len() > 0) by {
                    let ki = font_ids(kept.deep_view());
                    let kb = font_ids(before);
                    if ki.contains(x) && x.len() > 0 {
                        let j = choose|j: int| 0 <= j < ki.len() && ki[j] == x;
                        if j < before.len() {
                            assert(kb[j] == x);
                            assert(sb.contains(x));
                            let q = choose|q: int| 0 <= q < sb.len() && sb[q] == x;
                            assert(seen.deep_view()[q] == x);
                        } else {
                            assert(x == f.id@);
                            assert(!empty_id);
                            assert(seen.deep_view()[sb.len() as int] == x);
                        }
                    }
                    if seen.deep_view().contains(x) {
                        let q = choose|q: int| 0 <= q < seen.deep_view().len() && seen.deep_view()[q] == x;
                        if q < sb.len() {
                            assert(sb[q] == x);
                            assert(sb.contains(x));
                            let j = choose|j: int| 0 <= j < kb.len() && kb[j] == x;
                            assert(ki[j] == x);
                        } else {
                            assert(x == f.id@);
                            assert(ki[before.len() as int] == x);
                        }
                    }
                }
            }
        }
        i += 1;
    }
    assert(fonts.deep_view().take(fonts.len() as int) =~= fonts.deep_view());
    kept
}

/// Gives a new UUID to every font whose id is already taken.
fn reidentify_fonts(taken: Vec<String>, fonts: Vec<CustomFont>) -> (r: Vec<CustomFont>)
    ensures
        fonts_reidentified(taken.deep_view(), fonts.deep_view(), r.deep_view()),
{
    let ghost t0 = taken.deep_view();
    let mut taken = taken;
    let mut out: Vec<CustomFont> = Vec::new();
    let mut i: usize = 0;
    while i < fonts.len()
        invariant
            i <= fonts.len(),
            out.deep_view().len() == i,
            taken.deep_view() == t0 + font_ids(out.deep_view()),
            forall|j: int|
                0 <= j < i ==> {
                    let before = t0 + font_ids(out.deep_view().take(j));
                    if before.contains(fonts.deep_view()[j].id) {
                        #[trigger] out.deep_view()[j] == (CustomFontV { id: out.deep_view()[j].id, ..fonts.deep_view()[j] })
                            && is_uuid_text(out.deep_view()[j].id)
                    } else {
                        out.deep_view()[j] == fonts.deep_view()[j]
                    }
                },
        decreases fonts.len() - i,
    {
        let mut f = fonts[i].dup();
        if contains_text(&taken, f.id.as_str()) {
            f.id = new_uuid_text();
        }
        let ghost before = out.deep_view();
        let ghost tb = taken.deep_view();
        taken.push(f.id.clone());
        assert(taken.deep_view() =~= tb.push(f.id@));
        out.push(f);
        proof {
            assert(out.deep_view() =~= before.push(f.deep_view()));
            assert(font_ids(out.deep_view()) =~= font_ids(before).push(f.id@));
            assert(taken.deep_view() =~= t0 + font_ids(out.deep_view()));
            assert(out.deep_view().take(i as int) =~= before);
            assert forall|j: int| 0 <= j < i implies out.deep_view().take(j) =~= before.take(j) by {}
        }
        i += 1;
    }
    out
}

/// Prepares the fonts of a one-tab import: keeps the fonts with new names (each id once),
/// restores their files, and gives new ids where an id is taken. `None` when no font is new.
pub fn prepare_tab_preset_fonts<H: PresetImportHost>(
    existing_font_settings: &FontSettings,
    imported_font_settings: FontSettings,
    host: &mut H,
    embedded_local_fonts: Option<&Vec<EmbeddedLocalFont>>,
) -> (r: Result<Option<FontSettings>, String>)
    ensures
        ({
            let kept = new_fonts(
                font_names(existing_font_settings.custom_fonts.deep_view()),
                imported_font_settings.custom_fonts.deep_view(),
            );
            &&& kept.len() == 0 ==> (r matches Ok(None) && *final(host) == *old(host))
            &&& kept.len() > 0 ==> (r is Ok <==> (!crate::preset_restore::has_local_font(kept) || old(host).folder_ok(old(host).fonts_dir())))
            &&& kept.len() > 0 && r is Ok ==> (r matches Ok(Some(_)))
            &&& r matches Ok(Some(fs)) ==> kept.len() > 0 && exists|restored: Seq<CustomFontV>|
                #[trigger] font_restore_outcome(
                    *old(host),
                    *final(host),
                    old(host).fonts_dir(),
                    font_list(embedded_local_fonts),
                    kept,
                    restored,
                ) && fonts_reidentified(
                    font_ids(existing_font_settings.custom_fonts.deep_view()),
                    restored,
                    fs.custom_fonts.deep_view(),
                )
            &&& r is Ok ==> old(host).grows_to(&*final(host))
        }),
{
    let names = font_name_list(&existing_font_settings.custom_fonts);
    let kept = filter_new_fonts(&names, imported_font_settings.custom_fonts);
    if kept.len() == 0 {
        proof {
            host.lemma_grows_refl();
        }
        return Ok(None);
    }
    let mut fonts = FontSettings { custom_fonts: kept };
    let dir = host.fonts_folder();
    match restore_preset_local_fonts_in_dir(host, dir.as_str(), &mut fonts, embedded_local_fonts) {
        Ok(()) => {},
        Err(e) => {
            return Err(e);
        },
    }
    let ids = font_id_list(&existing_font_settings.custom_fonts);
    let ghost restored = fonts.custom_fonts.deep_view();
    let out = reidentify_fonts(ids, fonts.custom_fonts);
    Ok(Some(FontSettings { custom_fonts: out }))
}

/// The fonts whose names are not among `names`, in order.
pub open spec fn fonts_named_new(names: Seq<Seq<char>>, fonts: Seq<CustomFontV>) -> Seq<CustomFontV>
    decreases fonts.len(),
{
    if fonts.len() == 0 {
        Seq::empty()
    } else {
        let kept = fonts_named_new(names, fonts.drop_last());
        if names.contains(fonts.last().name) {
            kept
        } else {
            kept.push(fonts.last())
        }
    }
}

/// Merges prepared fonts of a one-tab import into the current fonts: fonts whose name
/// exists by now are dropped, taken ids are renewed, and the rest is appended. `None` when
/// nothing is left to add.
pub fn merge_prepared_tab_preset_fonts(existing_font_settings: &FontSettings, prepared: FontSettings) -> (r:
    Option<FontSettings>)
    ensures
        ({
            let existing = existing_font_settings.custom_fonts.deep_view();
            let kept = fonts_named_new(font_names(existing), prepared.custom_fonts.deep_view());
            &&& r is None <==> kept.len() == 0
            &&& r matches Some(m) ==> exists|added: Seq<CustomFontV>|
                #[trigger] fonts_reidentified(font_ids(existing), kept, added) && m.custom_fonts.deep_view()
                    == existing + added
        }),
{
    let names = font_name_list(&existing_font_settings.custom_fonts);
    let fonts = prepared.custom_fonts;
    let mut kept: Vec<CustomFont> = Vec::new();
    let mut i: usize = 0;
    while i < fonts.len()
        invariant
            i <= fonts.len(),
            kept.deep_view() == fonts_named_new(names.deep_view(), fonts.deep_view().take(i as int)),
        decreases fonts.len() - i,
    {
        let ghost pre = fonts.deep_view().take(i + 1);
        assert(pre.drop_last() =~= fonts.deep_view().take(i as int));
        assert(pre.last() == fonts[i as int].deep_view());
        if !contains_text(&names, fonts[i].name.as_str()) {
            let ghost before = kept.deep_view();
            kept.push(fonts[i].dup());
            assert(kept.deep_view() =~= before.push(fonts[i as int].deep_view()));
        }
        i += 1;
    }
    assert(fonts.deep_view().take(fonts.len() as int) =~= fonts.deep_view());
    if kept.len() == 0 {
        return None;
    }
    let ids = font_id_list(&existing_font_settings.custom_fonts);
    let added = reidentify_fonts(ids, kept);
    let mut merged = existing_font_settings.custom_fonts.dup();
    let ghost m0 = merged.deep_view();
    let mut j: usize = 0;
    while j < added.len()
        invariant
            j <= added.len(),
            merged.deep_view() =~= m0 + added.deep_view().take(j as int),
        decreases added.len() - j,
    {
        let ghost before = merged.deep_view();
        merged.push(added[j].dup());
        assert(merged.deep_view() =~= before.push(added[j as int].deep_view()));
        j += 1;
    }
    assert(added.deep_view().take(added.len() as int) =~= added.deep_view());
    Some(FontSettings { custom_fonts: merged })
}

/// Prepares and merges the fonts of a one-tab import in one go.
pub fn merge_tab_preset_fonts<H: PresetImportHost>(
    existing_font_settings: &FontSettings,
    imported_font_settings: FontSettings,
    host: &mut H,
    embedded_local_fonts: Option<&Vec<EmbeddedLocalFont>>,
) -> (r: Result<Option<FontSettings>, String>)
    ensures
        ({
            let existing = existing_font_settings.custom_fonts.deep_view();
            let kept = new_fonts(font_names(existing), imported_font_settings.custom_fonts.deep_view());
            &&& kept.len() == 0 ==> (r matches Ok(None) && *final(host) == *old(host))
            &&& kept.len() > 0 ==> (r is Ok <==> (!crate::preset_restore::has_local_font(kept) || old(host).folder_ok(old(host).fonts_dir())))
            &&& r matches Ok(Some(m)) ==> exists|restored: Seq<CustomFontV>, renamed: Seq<CustomFontV>, added: Seq<CustomFontV>|
                #![trigger font_restore_outcome(*old(host), *final(host), old(host).fonts_dir(), font_list(embedded_local_fonts), kept, restored), fonts_reidentified(font_ids(existing), restored, renamed), fonts_reidentified(font_ids(existing), fonts_named_new(font_names(existing), renamed), added)]
                font_restore_outcome(
                    *old(host),
                    *final(host),
                    old(host).fonts_dir(),
                    font_list(embedded_local_fonts),
                    kept,
                    restored,
                ) && fonts_reidentified(font_ids(existing), restored, renamed) && fonts_reidentified(
                    font_ids(existing),
                    fonts_named_new(font_names(existing), renamed),
                    added,
                ) && m.custom_fonts.deep_view() == existing + added
        }),
{
    match prepare_tab_preset_fonts(existing_font_settings, imported_font_settings, host, embedded_local_fonts) {
        Err(e) => Err(e),
        Ok(None) => Ok(None),
        Ok(Some(prepared)) => {
            let ghost pv = prepared.custom_fonts.deep_view();
            let merged = merge_prepared_tab_preset_fonts(existing_font_settings, prepared);
            proof {
                if merged is Some {
                    let restored = choose|restored: Seq<CustomFontV>|
                        #[trigger] font_restore_outcome(
                            *old(host),
                            *host,
                            old(host).fonts_dir(),
                            font_list(embedded_local_fonts),
                            new_fonts(font_names(existing_font_settings.custom_fonts.deep_view()), imported_font_settings.custom_fonts.deep_view()),
                            restored,
                        ) && fonts_reidentified(font_ids(existing_font_settings.custom_fonts.deep_view()), restored, pv);
                    let existing = existing_font_settings.custom_fonts.deep_view();
                    let added = choose|added: Seq<CustomFontV>|
                        #[trigger] fonts_reidentified(font_ids(existing), fonts_named_new(font_names(existing), pv), added)
                            && merged->0.custom_fonts.deep_view() == existing + added;
                    assert(font_restore_outcome(
                        *old(host),
                        *host,
                        old(host).fonts_dir(),
                        font_list(embedded_local_fonts),
                        new_fonts(font_names(existing), imported_font_settings.custom_fonts.deep_view()),
                        restored,
                    ));
                    assert(fonts_reidentified(font_ids(existing), restored, pv));
                    assert(fonts_reidentified(font_ids(existing), fonts_named_new(font_names(existing), pv), added));
                }
            }
            Ok(merged)
        },
    }
}

/// The entry of a key, if the map has it.
pub open spec fn entry_of<V>(m: Map<Seq<char>, V>, k: Seq<char>) -> Option<V> {
    if m.contains_key(k) {
        Some(m[k])
    } else {
        None
    }
}

/// A prepared one-tab import: everything that applying it writes into the current tab.
pub struct TabPresetPlan {
    pub imported_css_paths: ImportedCssPaths,
    pub current_tab_id: String,
    pub src_keys: Vec<KeySlot>,
    pub imported_key_positions: Option<Vec<KeyPosition>>,
    pub imported_stat_positions: Option<Vec<StatPosition>>,
    pub imported_graph_positions: Option<Vec<GraphPosition>>,
    pub imported_knob_positions: Option<Vec<KnobPosition>>,
    pub imported_sprite_positions: Option<Vec<ReactiveSpritePosition>>,
    pub has_tab_note_overrides: bool,
    pub imported_override: Option<TabNoteSettings>,
    pub imported_groups: Option<Vec<LayerGroupDef>>,
    pub imported_tab_css: Option<Option<TabCss>>,
    pub prepared_font_settings: Option<FontSettings>,
}

/// The source tab's layouts of a one-tab preset, moved to the current tab.
pub open spec fn tab_layout_source(p: PresetFileV, src: Seq<char>, cur: Seq<char>) -> (
    Map<Seq<char>, Seq<KeyPositionV>>,
    Map<Seq<char>, Seq<crate::model::StatPositionV>>,
    Map<Seq<char>, Seq<crate::model::GraphPositionV>>,
    Map<Seq<char>, Seq<crate::model::KnobPositionV>>,
    Map<Seq<char>, Seq<ReactiveSpritePositionV>>,
) {
    let kp = or_current(p.key_positions, Map::empty());
    (
        if kp.contains_key(src) {
            Map::empty().insert(cur, kp[src])
        } else {
            Map::empty()
        },
        spec_select_tab_elements(p.stat_positions, src, cur),
        spec_select_tab_elements(p.graph_positions, src, cur),
        spec_select_tab_elements(p.knob_positions, src, cur),
        spec_select_tab_elements(p.sprite_positions, src, cur),
    )
}

/// How the layouts of a one-tab import were restored, from host `h0` to `h2`: images, then
/// sounds; the plan holds the current tab's restored layouts.
pub open spec fn tab_files_restored<H: PresetImportHost>(
    h0: H,
    h2: H,
    p: PresetFileV,
    src: Seq<char>,
    plan: TabPresetPlan,
) -> bool {
    let cur = plan.current_tab_id@;
    let l = tab_layout_source(p, src, cur);
    exists|
        h1: H,
        k1: Map<Seq<char>, Seq<KeyPositionV>>,
        s1: Map<Seq<char>, Seq<crate::model::StatPositionV>>,
        g1: Map<Seq<char>, Seq<crate::model::GraphPositionV>>,
        n1: Map<Seq<char>, Seq<crate::model::KnobPositionV>>,
        sp: Map<Seq<char>, Seq<ReactiveSpritePositionV>>,
        k2: Map<Seq<char>, Seq<KeyPositionV>>,
        s2: Map<Seq<char>, Seq<crate::model::StatPositionV>>,
        g2: Map<Seq<char>, Seq<crate::model::GraphPositionV>>,
        n2: Map<Seq<char>, Seq<crate::model::KnobPositionV>>,
    |
        #![trigger image_restore_outcome(h0, h1, h0.images_dir(), or_current(p.embedded_local_images, Seq::empty()), l.0, k1, l.1, s1, l.2, g1, l.3, n1, l.4, sp), sound_restore_outcome(h1, h2, h0.sounds_dir(), or_current(p.embedded_local_sounds, Seq::empty()), k1, k2, s1, s2, g1, g2, n1, n2)]
        {
            &&& image_restore_outcome(
                h0,
                h1,
                h0.images_dir(),
                or_current(p.embedded_local_images, Seq::empty()),
                l.0,
                k1,
                l.1,
                s1,
                l.2,
                g1,
                l.3,
                n1,
                l.4,
                sp,
            )
            &&& sound_restore_outcome(
                h1,
                h2,
                h0.sounds_dir(),
                or_current(p.embedded_local_sounds, Seq::empty()),
                k1,
                k2,
                s1,
                s2,
                g1,
                g2,
                n1,
                n2,
            )
            &&& plan.imported_key_positions.deep_view() == entry_of(k2, cur)
            &&& plan.imported_stat_positions.deep_view() == entry_of(s2, cur)
            &&& plan.imported_graph_positions.deep_view() == entry_of(g2, cur)
            &&& plan.imported_knob_positions.deep_view() == entry_of(n2, cur)
            &&& plan.imported_sprite_positions.deep_view() == entry_of(sp, cur)
        }
}

/// The tab settings that a one-tab import takes from its source tab `src`; style sheets
/// are normalized by host `h`.
pub open spec fn tab_plan_values<H: PresetImportHost>(h: H, p: PresetFileV, src: Seq<char>, plan: TabPresetPlan) -> bool {
    let keys = or_current(p.keys, Map::empty());
    &&& plan.src_keys.deep_view() == keys[src]
    &&& plan.has_tab_note_overrides == p.tab_note_overrides is Some
    &&& plan.imported_override.deep_view() == entry_of(or_current(p.tab_note_overrides, Map::empty()), src)
    &&& plan.imported_groups.deep_view() == match p.layer_groups {
        Some(g) => Some(if g.contains_key(src) { g[src] } else { Seq::empty() }),
        None => None,
    }
    &&& plan.imported_tab_css.deep_view() == match p.tab_css_overrides {
        Some(o) => Some(match entry_of(o, src) {
            Some(c) => Some(TabCssV { path: css_path_kept(c.path matches Some(q) && h.css_path_ok(q), c.path), ..c }),
            None => None,
        }),
        None => None,
    }
    &&& plan.imported_css_paths.global is None
    &&& plan.imported_css_paths.tabs.deep_view() == match plan.imported_tab_css.deep_view() {
        Some(Some(c)) => match c.path {
            Some(q) => seq![q],
            None => Seq::empty(),
        },
        _ => Seq::empty(),
    }
}

fn take_entry<V: vstd::prelude::DeepView>(m: &mut StrMap<V>, k: &str) -> (r: Option<V>)
    ensures
        r.deep_view() == entry_of(old(m)@, k@),
{
    m.remove(k)
}

/// The font step of a one-tab import, from host `h2` to `hf`: the new fonts (see
/// [`new_fonts`]) restored and given free ids, or nothing when no font is new.
pub open spec fn tab_fonts_prepared<H: PresetImportHost>(
    h2: H,
    hf: H,
    p: PresetFileV,
    existing: Seq<CustomFontV>,
    imported: Seq<CustomFontV>,
    plan: TabPresetPlan,
) -> bool {
    if new_fonts(font_names(existing), imported).len() == 0 {
        plan.prepared_font_settings is None && hf == h2
    } else {
        plan.prepared_font_settings is Some && exists|restored: Seq<CustomFontV>|
            #[trigger] font_restore_outcome(
                h2,
                hf,
                h2.fonts_dir(),
                or_current(p.embedded_local_fonts, Seq::empty()),
                new_fonts(font_names(existing), imported),
                restored,
            ) && fonts_reidentified(
                font_ids(existing),
                restored,
                plan.prepared_font_settings->0.custom_fonts.deep_view(),
            )
    }
}

/// Prepares a one-tab import into the current tab: chooses the preset's source tab, restores
/// the files of its layouts, and prepares its fonts. Refused when the preset has no tab or
/// no single source tab can be chosen.
#[verifier::rlimit(80)]
#[verifier::spinoff_prover]
pub fn prepare_tab_preset<H: PresetImportHost>(
    preset: PresetFile,
    current_tab_id: String,
    existing_font_settings: &FontSettings,
    host: &mut H,
) -> (r: Result<TabPresetPlan, String>)
    ensures
        ({
            let p = preset.deep_view();
            let keys = or_current(p.keys, Map::empty());
            let choice = spec_choose_source_tab(keys, p.selected_key_type, current_tab_id@);
            &&& choice matches Err(msg) ==> (r matches Err(e) && e@ == msg && *final(host) == *old(host))
            &&& choice is Ok && host_accepts_import(*old(host)) ==> r is Ok
            &&& r matches Ok(plan) ==> choice matches Ok(src) && plan.current_tab_id@ == current_tab_id@
                && exists|h2: H| #[trigger] tab_files_restored(*old(host), h2, p, src, plan) && tab_plan_values(h2, p, src, plan)
                && match p.font_settings {
                    None => plan.prepared_font_settings is None && *final(host) == h2,
                    Some(fs) => tab_fonts_prepared(h2, *final(host), p, existing_font_settings.custom_fonts.deep_view(), fs.custom_fonts, plan),
                }
        }),
{
    let ghost pv = preset.deep_view();
    let ghost h0 = *host;
    let PresetFile {
        keys,
        key_positions,
        stat_positions,
        graph_positions,
        knob_positions,
        sprite_positions,
        selected_key_type,
        tab_note_overrides,
        layer_groups,
        tab_css_overrides,
        font_settings,
        embedded_local_fonts,
        embedded_local_images,
        embedded_local_sounds,
        ..
    } = preset;
    let imported_keys = take_or_empty(keys);
    let selected_ref: Option<&str> = match &selected_key_type {
        Some(s) => Some(s.as_str()),
        None => None,
    };
    let source = match choose_tab_preset_source_tab(&imported_keys, selected_ref, current_tab_id.as_str()) {
        Ok(s) => s,
        Err(e) => {
            return Err(e);
        },
    };
    proof {
        let keys = imported_keys@;
        let sel = match selected_ref {
            Some(x) => Some(x@),
            None => None,
        };
        if !keys.contains_key(current_tab_id@) && !(sel matches Some(x) && keys.contains_key(x)) {
            if exists|k: Seq<char>| keys.dom() == Set::<Seq<char>>::empty().insert(k) {
                let k = choose|k: Seq<char>| keys.dom() == Set::<Seq<char>>::empty().insert(k);
                assert(keys.dom().contains(k));
            }
        }
        assert(keys.contains_key(source@));
    }
    let src_keys = match imported_keys.get(source.as_str()) {
        Some(k) => k.dup(),
        None => {
            return Err(string_of(&chars_of("invalid-tab-preset")));
        },
    };
    let imported_key_positions = take_or_empty(key_positions);
    let mut src_key_positions: StrMap<Vec<KeyPosition>> = StrMap::new();
    match imported_key_positions.get(source.as_str()) {
        Some(v) => {
            src_key_positions.insert(current_tab_id.dup(), v.dup());
        },
        None => {},
    }
    let mut src_stat_positions = select_tab_preset_elements(stat_positions.as_ref(), source.as_str(), current_tab_id.as_str());
    let mut src_graph_positions = select_tab_preset_elements(graph_positions.as_ref(), source.as_str(), current_tab_id.as_str());
    let mut src_knob_positions = select_tab_preset_elements(knob_positions.as_ref(), source.as_str(), current_tab_id.as_str());
    let mut src_sprite_positions = select_tab_preset_elements(sprite_positions.as_ref(), source.as_str(), current_tab_id.as_str());
    let ghost l = tab_layout_source(pv, source@, current_tab_id@);
    proof {
        assert(src_key_positions@ =~= l.0);
    }
    let has_tab_note_overrides = tab_note_overrides.is_some();
    let note_overrides = take_or_empty(tab_note_overrides);
    let emb_images = embedded_local_images.as_ref();
    let emb_sounds = embedded_local_sounds.as_ref();
    let emb_fonts = embedded_local_fonts.as_ref();
    let images_dir = host.images_folder();
    let sounds_dir = host.sounds_folder();
    match restore_preset_local_images_in_dir(
        host,
        images_dir.as_str(),
        &mut src_key_positions,
        &mut src_stat_positions,
        &mut src_graph_positions,
        &mut src_knob_positions,
        &mut src_sprite_positions,
        emb_images,
    ) {
        Ok(()) => {},
        Err(e) => {
            return Err(e);
        },
    }
    let ghost h1 = *host;
    let ghost k1 = src_key_positions@;
    let ghost s1 = src_stat_positions@;
    let ghost g1 = src_graph_positions@;
    let ghost n1 = src_knob_positions@;
    let ghost sp = src_sprite_positions@;
    proof {
        h0.lemma_grows_rules(&h1);
    }
    match restore_preset_local_sounds_in_dir(
        host,
        sounds_dir.as_str(),
        &mut src_key_positions,
        &mut src_stat_positions,
        &mut src_graph_positions,
        &mut src_knob_positions,
        emb_sounds,
    ) {
        Ok(()) => {},
        Err(e) => {
            return Err(e);
        },
    }
    let ghost h2 = *host;
    proof {
        h0.lemma_grows_trans(&h1, &h2);
        h0.lemma_grows_rules(&h2);
        h0.lemma_dirs_stay(&h2);
    }
    let ghost k2 = src_key_positions@;
    let ghost s2 = src_stat_positions@;
    let ghost g2 = src_graph_positions@;
    let ghost n2 = src_knob_positions@;
    let imported_key = take_entry(&mut src_key_positions, current_tab_id.as_str());
    let imported_stats = take_entry(&mut src_stat_positions, current_tab_id.as_str());
    let imported_graphs = take_entry(&mut src_graph_positions, current_tab_id.as_str());
    let imported_knobs = take_entry(&mut src_knob_positions, current_tab_id.as_str());
    let imported_sprites = take_entry(&mut src_sprite_positions, current_tab_id.as_str());
    let imported_override = match note_overrides.get(source.as_str()) {
        Some(t) => Some(t.dup()),
        None => None,
    };
    let imported_groups = match layer_groups {
        Some(g) => Some(
            match g.get(source.as_str()) {
                Some(v) => v.dup(),
                None => {
                    let e: Vec<LayerGroupDef> = Vec::new();
                    assert(e.deep_view() =~= Seq::<LayerGroupDefV>::empty());
                    e
                },
            },
        ),
        None => None,
    };
    let imported_tab_css = match tab_css_overrides {
        Some(o) => Some(
            match o.get(source.as_str()) {
                Some(c) => {
                    let mut css = c.dup();
                    host.normalize_tab_css(&mut css);
                    Some(css)
                },
                None => None,
            },
        ),
        None => None,
    };
    let tabs = match &imported_tab_css {
        Some(Some(css)) => match &css.path {
            Some(q) => {
                let mut v: Vec<String> = Vec::new();
                v.push(q.clone());
                assert(v.deep_view() =~= seq![q@]);
                v
            },
            None => {
                let v: Vec<String> = Vec::new();
                assert(v.deep_view() =~= Seq::<Seq<char>>::empty());
                v
            },
        },
        _ => {
            let v: Vec<String> = Vec::new();
            assert(v.deep_view() =~= Seq::<Seq<char>>::empty());
            v
        },
    };
    let ghost fonts_view = font_settings.deep_view();
    let prepared_font_settings = match font_settings {
        Some(fs) => match prepare_tab_preset_fonts(existing_font_settings, fs, host, emb_fonts) {
            Ok(p) => p,
            Err(e) => {
                return Err(e);
            },
        },
        None => None,
    };
    let plan = TabPresetPlan {
        imported_css_paths: ImportedCssPaths { global: None, tabs },
        current_tab_id,
        src_keys,
        imported_key_positions: imported_key,
        imported_stat_positions: imported_stats,
        imported_graph_positions: imported_graphs,
        imported_knob_positions: imported_knobs,
        imported_sprite_positions: imported_sprites,
        has_tab_note_overrides,
        imported_override,
        imported_groups,
        imported_tab_css,
        prepared_font_settings,
    };
    proof {
        assert(image_list(emb_images) == or_current(pv.embedded_local_images, Seq::empty()));
        assert(sound_list(emb_sounds) == or_current(pv.embedded_local_sounds, Seq::empty()));
        assert(font_list(emb_fonts) == or_current(pv.embedded_local_fonts, Seq::empty()));
        assert(image_restore_outcome(h0, h1, h0.images_dir(), or_current(pv.embedded_local_images, Seq::empty()), l.0, k1, l.1, s1, l.2, g1, l.3, n1, l.4, sp));
        assert(sound_restore_outcome(h1, h2, h0.sounds_dir(), or_current(pv.embedded_local_sounds, Seq::empty()), k1, k2, s1, s2, g1, g2, n1, n2));
        assert(tab_files_restored(h0, h2, pv, source@, plan));
        assert(tab_plan_values(h2, pv, source@, plan));
        match fonts_view {
            Some(fs) => {
                let existing = existing_font_settings.custom_fonts.deep_view();
                if new_fonts(font_names(existing), fs.custom_fonts).len() > 0 {
                    let restored = choose|restored: Seq<CustomFontV>|
                        #[trigger] font_restore_outcome(
                            h2,
                            *host,
                            h2.fonts_dir(),
                            font_list(emb_fonts),
                            new_fonts(font_names(existing), fs.custom_fonts),
                            restored,
                        ) && fonts_reidentified(font_ids(existing), restored, plan.prepared_font_settings->0.custom_fonts.deep_view());
                    assert(font_restore_outcome(
                        h2,
                        *host,
                        h2.fonts_dir(),
                        or_current(pv.embedded_local_fonts, Seq::empty()),
                        new_fonts(font_names(existing), fs.custom_fonts),
                        restored,
                    ));
                }
                assert(tab_fonts_prepared(h2, *host, pv, existing, fs.custom_fonts, plan));
            },
            None => {},
        }
    }
    Ok(plan)
}

/// What applying a one-tab import reports: the settings that changed (only fonts), the tab
/// style sheets before, and the new note overrides and tab style sheets.
pub type TabPresetApplyResult = (
    Option<SettingsDiff>,
    StrMap<TabCss>,
    StrMap<TabNoteSettings>,
    StrMap<TabCss>,
);

/// The document with a one-tab import's key bindings and layouts written to the tab.
pub open spec fn tab_import_written(store: AppStoreDataV, plan: TabPresetPlan) -> AppStoreDataV {
    let tab = plan.current_tab_id@;
    let keys = plan.src_keys.deep_view();
    let pos = match plan.imported_key_positions.deep_view() {
        Some(p) => p,
        None => positions_of(store.key_positions, tab),
    };
    let n = max_len(keys.len(), pos.len());
    AppStoreDataV {
        keys: store.keys.insert(tab, padded(keys, n, KeySlotV { label: Seq::empty() })),
        key_positions: store.key_positions.insert(tab, padded(pos, n, crate::tab_meta::blank_key_position())),
        stat_positions: match plan.imported_stat_positions.deep_view() {
            Some(v) => store.stat_positions.insert(tab, v),
            None => store.stat_positions,
        },
        graph_positions: match plan.imported_graph_positions.deep_view() {
            Some(v) => store.graph_positions.insert(tab, v),
            None => store.graph_positions,
        },
        knob_positions: match plan.imported_knob_positions.deep_view() {
            Some(v) => store.knob_positions.insert(tab, v),
            None => store.knob_positions,
        },
        sprite_positions: match plan.imported_sprite_positions.deep_view() {
            Some(v) => store.sprite_positions.insert(tab, v),
            None => store.sprite_positions,
        },
        ..store
    }
}

/// The document with a one-tab import's note override, layer groups and style sheet
/// written to the tab.
pub open spec fn tab_settings_written(store: AppStoreDataV, plan: TabPresetPlan) -> AppStoreDataV {
    let tab = plan.current_tab_id@;
    AppStoreDataV {
        tab_note_overrides: if !plan.has_tab_note_overrides {
            store.tab_note_overrides
        } else {
            match plan.imported_override.deep_view() {
                Some(t) => store.tab_note_overrides.insert(tab, t),
                None => store.tab_note_overrides.remove(tab),
            }
        },
        layer_groups: match plan.imported_groups.deep_view() {
            Some(g) => store.layer_groups.insert(tab, g),
            None => store.layer_groups,
        },
        tab_css_overrides: match plan.imported_tab_css.deep_view() {
            Some(Some(c)) => store.tab_css_overrides.insert(tab, c),
            Some(None) => store.tab_css_overrides.remove(tab),
            None => store.tab_css_overrides,
        },
        ..store
    }
}

/// The document after a one-tab import's fonts were merged into `store`'s fonts.
pub open spec fn tab_fonts_merged(store: AppStoreDataV, plan: TabPresetPlan, result: AppStoreDataV, diff: Option<SettingsDiff>) -> bool {
    match plan.prepared_font_settings.deep_view() {
        None => result == store && diff is None,
        Some(pf) => {
            let existing = store.font_settings.custom_fonts;
            let kept = fonts_named_new(font_names(existing), pf.custom_fonts);
            if kept.len() == 0 {
                result == store && diff is None
            } else {
                exists|added: Seq<CustomFontV>|
                    #[trigger] fonts_reidentified(
                        font_ids(store.font_settings.custom_fonts),
                        fonts_named_new(font_names(store.font_settings.custom_fonts), pf.custom_fonts),
                        added,
                    ) && result == (AppStoreDataV {
                        font_settings: FontSettingsV { custom_fonts: store.font_settings.custom_fonts + added },
                        ..store
                    }) && (diff matches Some(d) && d.font_settings.deep_view() == Some(result.font_settings))
            }
        },
    }
}

/// Replaces the fonts and reports that they changed.
fn apply_font_settings(store: &mut AppStoreData, fonts: FontSettings) -> (r: SettingsDiff)
    ensures
        final(store).deep_view() == (AppStoreDataV { font_settings: fonts.deep_view(), ..old(store).deep_view() }),
        r.font_settings.deep_view() == Some(fonts.deep_view()),
{
    let reported = fonts.dup();
    store.font_settings = fonts;
    SettingsDiff {
        background_color: None,
        note_settings: None,
        note_effect: None,
        laboratory_enabled: None,
        use_custom_css: None,
        custom_css: None,
        font_settings: Some(reported),
        use_custom_js: None,
        custom_js: None,
    }
}

impl TabPresetPlan {
    fn write_layouts(&self, store: &mut AppStoreData)
        ensures
            final(store).deep_view() == tab_import_written(old(store).deep_view(), *self),
    {
        let tab = self.current_tab_id.as_str();
        merge_tab_preset_key_pair(store, tab, self.src_keys.dup(), self.imported_key_positions.dup());
        match &self.imported_stat_positions {
            Some(v) => {
                store.stat_positions.insert(self.current_tab_id.dup(), v.dup());
            },
            None => {},
        }
        match &self.imported_graph_positions {
            Some(v) => {
                store.graph_positions.insert(self.current_tab_id.dup(), v.dup());
            },
            None => {},
        }
        match &self.imported_knob_positions {
            Some(v) => {
                store.knob_positions.insert(self.current_tab_id.dup(), v.dup());
            },
            None => {},
        }
        match &self.imported_sprite_positions {
            Some(v) => {
                store.sprite_positions.insert(self.current_tab_id.dup(), v.dup());
            },
            None => {},
        }
    }

    fn write_settings(&self, store: &mut AppStoreData)
        ensures
            final(store).deep_view() == tab_settings_written(old(store).deep_view(), *self),
    {
        let tab = self.current_tab_id.as_str();
        apply_tab_note_override(store, tab, self.has_tab_note_overrides, self.imported_override.dup());
        match &self.imported_groups {
            Some(g) => {
                store.layer_groups.insert(self.current_tab_id.dup(), g.dup());
            },
            None => {},
        }
        match &self.imported_tab_css {
            Some(Some(css)) => {
                store.tab_css_overrides.insert(self.current_tab_id.dup(), css.dup());
            },
            Some(None) => {
                let _ = store.tab_css_overrides.remove(tab);
            },
            None => {},
        }
    }

    fn write_fonts(&self, store: &mut AppStoreData) -> (r: Option<SettingsDiff>)
        ensures
            tab_fonts_merged(old(store).deep_view(), *self, final(store).deep_view(), r),
    {
        match &self.prepared_font_settings {
            Some(prepared) => match merge_prepared_tab_preset_fonts(&store.font_settings, prepared.dup()) {
                Some(fs) => Some(apply_font_settings(store, fs)),
                None => None,
            },
            None => None,
        }
    }

    /// Writes a prepared one-tab import into the current tab: key bindings and layouts, new
    /// element ids, note override, layer groups, style sheet and new fonts.
    pub fn apply(self, store: &mut AppStoreData) -> (r: TabPresetApplyResult)
        ensures
            ({
                let w1 = tab_import_written(old(store).deep_view(), self);
                exists|w2: AppStoreDataV|
                    #[trigger] tab_store_rekeyed(
                        w1,
                        w2,
                        self.current_tab_id@,
                        self.imported_key_positions is Some,
                        self.imported_stat_positions is Some,
                        self.imported_graph_positions is Some,
                        self.imported_knob_positions is Some,
                        self.imported_sprite_positions is Some,
                    ) && tab_fonts_merged(tab_settings_written(w2, self), self, final(store).deep_view(), r.0)
            }),
            r.1@ == old(store).tab_css_overrides@,
            r.2@ == final(store).tab_note_overrides@,
            r.3@ == final(store).tab_css_overrides@,
    {
        let previous = store.tab_css_overrides.copy();
        self.write_layouts(store);
        let ghost w1 = store.deep_view();
        rekey_tab_preset_elements(
            store,
            self.current_tab_id.as_str(),
            self.imported_key_positions.is_some(),
            self.imported_stat_positions.is_some(),
            self.imported_graph_positions.is_some(),
            self.imported_knob_positions.is_some(),
            self.imported_sprite_positions.is_some(),
        );
        let ghost w2 = store.deep_view();
        self.write_settings(store);
        let diff = self.write_fonts(store);
        proof {
            assert(tab_store_rekeyed(
                w1,
                w2,
                self.current_tab_id@,
                self.imported_key_positions is Some,
                self.imported_stat_positions is Some,
                self.imported_graph_positions is Some,
                self.imported_knob_positions is Some,
                self.imported_sprite_positions is Some,
            ));
        }
        (diff, previous, store.tab_note_overrides.copy(), store.tab_css_overrides.copy())
    }
}

} // verus!
