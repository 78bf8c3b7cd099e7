//! The web session's per-tab note settings and overlay commands, and its reads: what each
//! command writes into the document, and what each read answers from it.
use crate::css_commands::{css_history_status, spec_css_history_status, CssHistoryStatus};
use crate::model::{
    AppStoreData, AppStoreDataV, CustomCss, CustomTab, PresetFile, TabCss, TabNoteSettings,
    TabNoteSettingsV,
};
use crate::sounds::{load_original, original_loaded};
use crate::strmap::{Dup, StrMap};
use crate::web_assets::WebAssetMap;
use crate::web_preset::export_preset;
use vstd::prelude::*;

verus! {

/// A command on the per-tab note settings or the overlay.
pub enum SettingCommand {
    /// Set a tab's own note settings, or remove them when there are none.
    NoteTabSet { tab_id: String, settings: Option<TabNoteSettings> },
    /// Remove a tab's own note settings.
    NoteTabClear { tab_id: String },
    /// Lock or unlock the overlay.
    OverlaySetLock { locked: bool },
    /// Show or hide the overlay.
    OverlaySetVisible { visible: bool },
}

/// What a setting command answers.
pub enum SettingOutcome {
    /// The tab's own note settings afterwards.
    NoteTabChanged { tab_id: String, settings: Option<TabNoteSettings> },
    /// The overlay is now locked or unlocked.
    OverlayLocked { locked: bool },
    /// The overlay is now shown or hidden.
    OverlayVisible { visible: bool },
}

/// The per-tab note settings with those of `tab` set, or removed.
pub open spec fn note_overrides_written(
    m: Map<Seq<char>, TabNoteSettingsV>,
    tab: Seq<char>,
    settings: Option<TabNoteSettingsV>,
) -> Map<Seq<char>, TabNoteSettingsV> {
    match settings {
        Some(s) => m.insert(tab, s),
        None => m.remove(tab),
    }
}

/// What a setting command does to the document `old`, giving `new` and answering `out`.
pub open spec fn setting_command_done(
    old: AppStoreDataV,
    c: SettingCommand,
    new: AppStoreDataV,
    out: SettingOutcome,
) -> bool {
    match c {
        SettingCommand::NoteTabSet { tab_id, settings } => {
            &&& new == (AppStoreDataV {
                tab_note_overrides: note_overrides_written(old.tab_note_overrides, tab_id@, settings.deep_view()),
                ..old
            })
            &&& out matches SettingOutcome::NoteTabChanged { tab_id: t, settings: s } && t@ == tab_id@
                && s.deep_view() == settings.deep_view()
        },
        SettingCommand::NoteTabClear { tab_id } => {
            &&& new == (AppStoreDataV { tab_note_overrides: old.tab_note_overrides.remove(tab_id@), ..old })
            &&& out matches SettingOutcome::NoteTabChanged { tab_id: t, settings: s } && t@ == tab_id@ && s is None
        },
        SettingCommand::OverlaySetLock { locked } => {
            &&& new == (AppStoreDataV { overlay_locked: locked, ..old })
            &&& out == SettingOutcome::OverlayLocked { locked }
        },
        SettingCommand::OverlaySetVisible { visible } => {
            &&& new == (AppStoreDataV { overlay_visible: visible, ..old })
            &&& out == SettingOutcome::OverlayVisible { visible }
        },
    }
}

/// Runs a setting command on the document and answers it, as [`setting_command_done`]
/// states.
pub fn apply_setting_command(store: &mut AppStoreData, command: &SettingCommand) -> (r: SettingOutcome)
    ensures
        setting_command_done(old(store).deep_view(), *command, final(store).deep_view(), r),
{
    match command {
        SettingCommand::NoteTabSet { tab_id, settings } => {
            match settings {
                Some(s) => {
                    store.tab_note_overrides.insert(tab_id.dup(), s.dup());
                },
                None => {
                    store.tab_note_overrides.remove(tab_id.as_str());
                },
            }
            let written = match settings {
                Some(s) => Some(s.dup()),
                None => None,
            };
            SettingOutcome::NoteTabChanged { tab_id: tab_id.dup(), settings: written }
        },
        SettingCommand::NoteTabClear { tab_id } => {
            store.tab_note_overrides.remove(tab_id.as_str());
            SettingOutcome::NoteTabChanged { tab_id: tab_id.dup(), settings: None }
        },
        SettingCommand::OverlaySetLock { locked } => {
            store.overlay_locked = *locked;
            SettingOutcome::OverlayLocked { locked: *locked }
        },
        SettingCommand::OverlaySetVisible { visible } => {
            store.overlay_visible = *visible;
            SettingOutcome::OverlayVisible { visible: *visible }
        },
    }
}

/// A read of the web session.
pub enum ReadCommand {
    /// One tab's own note settings.
    NoteTabGet { tab_id: String },
    /// Every tab's own note settings.
    NoteTabGetAll,
    /// One tab's own sheet.
    CssTabGet { tab_id: String },
    /// Every tab's own sheet.
    CssTabGetAll,
    /// The global sheet.
    CssGet,
    /// Whether the global sheet is on.
    CssGetUse,
    /// How each sheet of the history stands in the stored assets.
    CssHistoryGet { assets: WebAssetMap },
    /// Whether the global script is on.
    JsGetUse,
    /// Whether the overlay is shown and locked.
    OverlayGet,
    /// The custom tabs.
    CustomTabsList,
    /// The key counters.
    KeysGetCounters,
    /// A preset of the document (or of its selected tab).
    PresetSave { tab_only: bool, assets: WebAssetMap },
    /// The original of an edited sound.
    SoundLoadOriginal { sound_path: String, assets: WebAssetMap },
}

/// What a read answers.
pub enum ReadAnswer {
    NoteTab { tab_id: String, settings: Option<TabNoteSettings> },
    NoteTabs(StrMap<TabNoteSettings>),
    CssTab { tab_id: String, css: Option<TabCss> },
    CssTabs(StrMap<TabCss>),
    Css(CustomCss),
    Flag(bool),
    CssHistory(Vec<(String, CssHistoryStatus)>),
    Overlay { visible: bool, locked: bool },
    CustomTabs(Vec<CustomTab>),
    Counters(StrMap<StrMap<u32>>),
    Preset(PresetFile),
    SoundOriginal { data_base64: String, extension: String },
}

/// The entry of `k` in `m`, if there is one.
pub open spec fn entry_of<V>(m: Map<Seq<char>, V>, k: Seq<char>) -> Option<V> {
    if m.contains_key(k) {
        Some(m[k])
    } else {
        None
    }
}

/// What a read answers for the document `s`: every read but the preset and the sound
/// original gives the document's own values, and never fails.
pub open spec fn read_answered(s: AppStoreDataV, c: ReadCommand, r: Result<ReadAnswer, String>) -> bool {
    match c {
        ReadCommand::NoteTabGet { tab_id } => r matches Ok(ReadAnswer::NoteTab { tab_id: t, settings }) && t@
            == tab_id@ && settings.deep_view() == entry_of(s.tab_note_overrides, tab_id@),
        ReadCommand::NoteTabGetAll => r matches Ok(ReadAnswer::NoteTabs(m)) && m@ == s.tab_note_overrides,
        ReadCommand::CssTabGet { tab_id } => r matches Ok(ReadAnswer::CssTab { tab_id: t, css }) && t@ == tab_id@
            && css.deep_view() == entry_of(s.tab_css_overrides, tab_id@),
        ReadCommand::CssTabGetAll => r matches Ok(ReadAnswer::CssTabs(m)) && m@ == s.tab_css_overrides,
        ReadCommand::CssGet => r matches Ok(ReadAnswer::Css(c)) && c.deep_view() == s.custom_css,
        ReadCommand::CssGetUse => r == Ok::<ReadAnswer, String>(ReadAnswer::Flag(s.use_custom_css)),
        ReadCommand::CssHistoryGet { assets } => r matches Ok(ReadAnswer::CssHistory(items))
            && items.len() == s.custom_css_history.len() && forall|i: int|
            0 <= i < items.len() ==> (#[trigger] items@[i]).0@ == s.custom_css_history[i].path
                && items@[i].1 == spec_css_history_status(s.custom_css_history[i].path, assets@),
        ReadCommand::JsGetUse => r == Ok::<ReadAnswer, String>(ReadAnswer::Flag(s.use_custom_js)),
        ReadCommand::OverlayGet => r == Ok::<ReadAnswer, String>(
            ReadAnswer::Overlay { visible: s.overlay_visible, locked: s.overlay_locked },
        ),
        ReadCommand::CustomTabsList => r matches Ok(ReadAnswer::CustomTabs(t)) && t.deep_view()
            == s.custom_tabs,
        ReadCommand::KeysGetCounters => r matches Ok(ReadAnswer::Counters(m)) && m@ == s.key_counters,
        ReadCommand::PresetSave { tab_only, assets } => {
            &&& r is Ok <==> crate::web_assets::assets_well_formed(assets@)
            &&& r is Ok ==> (r matches Ok(ReadAnswer::Preset(p)) && crate::web_preset::preset_exported(
                s,
                tab_only,
                assets@,
                p.deep_view(),
            ))
        },
        ReadCommand::SoundLoadOriginal { sound_path, assets } => match r {
            Ok(ReadAnswer::SoundOriginal { data_base64, extension }) => original_loaded(
                s,
                sound_path@,
                assets@,
                Ok::<(String, String), String>((data_base64, extension)),
            ),
            Ok(_) => false,
            Err(e) => original_loaded(s, sound_path@, assets@, Err::<(String, String), String>(e)),
        },
    }
}

/// Answers a read from the document, as [`read_answered`] states; a preset is built as
/// [`export_preset`] states.
pub fn read_command(store: &AppStoreData, command: &ReadCommand) -> (r: Result<ReadAnswer, String>)
    ensures
        read_answered(store.deep_view(), *command, r),
{
    match command {
        ReadCommand::NoteTabGet { tab_id } => {
            let settings = match store.tab_note_overrides.get(tab_id.as_str()) {
                Some(s) => Some(s.dup()),
                None => None,
            };
            Ok(ReadAnswer::NoteTab { tab_id: tab_id.dup(), settings })
        },
        ReadCommand::NoteTabGetAll => Ok(ReadAnswer::NoteTabs(store.tab_note_overrides.copy())),
        ReadCommand::CssTabGet { tab_id } => {
            let css = match store.tab_css_overrides.get(tab_id.as_str()) {
                Some(c) => Some(c.dup()),
                None => None,
            };
            Ok(ReadAnswer::CssTab { tab_id: tab_id.dup(), css })
        },
        ReadCommand::CssTabGetAll => Ok(ReadAnswer::CssTabs(store.tab_css_overrides.copy())),
        ReadCommand::CssGet => Ok(ReadAnswer::Css(store.custom_css.dup())),
        ReadCommand::CssGetUse => Ok(ReadAnswer::Flag(store.use_custom_css)),
        ReadCommand::CssHistoryGet { assets } => {
            let paths = &store.custom_css_history;
            let mut items: Vec<(String, CssHistoryStatus)> = Vec::new();
            let mut i: usize = 0;
            while i < paths.len()
                invariant
                    i <= paths.len(),
                    paths == &store.custom_css_history,
                    items.len() == i,
                    forall|j: int|
                        0 <= j < i ==> (#[trigger] items@[j]).0@ == paths@[j].path@ && items@[j].1
                            == spec_css_history_status(paths@[j].path@, assets@),
                decreases paths.len() - i,
            {
                let status = css_history_status(paths[i].path.as_str(), assets);
                items.push((paths[i].path.dup(), status));
                i += 1;
            }
            Ok(ReadAnswer::CssHistory(items))
        },
        ReadCommand::JsGetUse => Ok(ReadAnswer::Flag(store.use_custom_js)),
        ReadCommand::OverlayGet => Ok(ReadAnswer::Overlay { visible: store.overlay_visible, locked: store.overlay_locked }),
        ReadCommand::CustomTabsList => Ok(ReadAnswer::CustomTabs(store.custom_tabs.dup())),
        ReadCommand::KeysGetCounters => Ok(ReadAnswer::Counters(store.key_counters.copy())),
        ReadCommand::PresetSave { tab_only, assets } => match export_preset(store, *tab_only, assets) {
            Ok(p) => Ok(ReadAnswer::Preset(p)),
            Err(e) => Err(e),
        },
        ReadCommand::SoundLoadOriginal { sound_path, assets } => match load_original(store, sound_path.as_str(), assets) {
            Ok((data_base64, extension)) => Ok(ReadAnswer::SoundOriginal { data_base64, extension }),
            Err(e) => Err(e),
        },
    }
}

/// A tab's note settings read back after they were set are the settings written (none
/// after a clear), whatever the tab held before.
pub proof fn lemma_note_tab_read_after_set(
    old: AppStoreDataV,
    command: SettingCommand,
    new: AppStoreDataV,
    out: SettingOutcome,
    tab_id: String,
    r: Result<ReadAnswer, String>,
)
    requires
        setting_command_done(old, command, new, out),
        (command matches SettingCommand::NoteTabSet { tab_id: t, .. } && t@ == tab_id@) || (
        command matches SettingCommand::NoteTabClear { tab_id: t } && t@ == tab_id@),
        read_answered(new, ReadCommand::NoteTabGet { tab_id }, r),
    ensures
        r matches Ok(ReadAnswer::NoteTab { settings, .. }) && settings.deep_view() == (match command {
            SettingCommand::NoteTabSet { settings: w, .. } => w.deep_view(),
            _ => None,
        }),
{
}

/// The overlay read after a lock or visibility change gives the value written, and the
/// other value as it was.
pub proof fn lemma_overlay_read_after_set(
    old: AppStoreDataV,
    command: SettingCommand,
    new: AppStoreDataV,
    out: SettingOutcome,
    r: Result<ReadAnswer, String>,
)
    requires
        setting_command_done(old, command, new, out),
        read_answered(new, ReadCommand::OverlayGet, r),
    ensures
        command matches SettingCommand::OverlaySetLock { locked } ==> r == Ok::<ReadAnswer, String>(
            ReadAnswer::Overlay { visible: old.overlay_visible, locked },
        ),
        command matches SettingCommand::OverlaySetVisible { visible } ==> r == Ok::<ReadAnswer, String>(
            ReadAnswer::Overlay { visible, locked: old.overlay_locked },
        ),
{
}

} // verus!
