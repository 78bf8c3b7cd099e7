//! The web session's style-sheet commands that need no history of loaded sheets: switching
//! the global sheet on and off, resetting it, setting its text, setting, loading, switching
//! and removing a tab's own sheet, and how a sheet of the history stands in the assets.
use crate::model::{AppStoreData, AppStoreDataV, CustomCss, CustomCssV, TabCss, TabCssV};
use crate::strmap::Dup;
use crate::codec::new_uuid_text;
use crate::text::{chars_of, concat, ends_with, has_suffix, lower_seq, to_lower};
use crate::web_assets::{is_fresh_path, WebAssetMap};
use crate::web_css::{css_content, spec_css_content, CssError, MAX_CSS_BYTES};
use vstd::prelude::*;

verus! {

/// A style-sheet command of the web session.
pub enum CssCommand {
    /// Switch the global sheet on or off.
    Toggle { enabled: bool },
    /// Switch the global sheet off and empty it.
    Reset,
    /// Set the global sheet's text.
    SetContent { content: String },
    /// Set a tab's own sheet, or remove it when there is none.
    TabSet { tab_id: String, css: Option<TabCss> },
    /// Remove a tab's own sheet.
    TabClear { tab_id: String },
    /// Switch a tab's own sheet on or off.
    TabToggle { tab_id: String, enabled: bool },
    /// Load a picked file (its name and base64 text) as a tab's own sheet.
    TabLoad { tab_id: String, file: Option<(String, String)> },
    /// Remove the entries of a path from the history of loaded sheets.
    HistoryRemove { path: String },
}

/// What a style-sheet command answers.
pub enum CssOutcome {
    /// The global sheet is now on or off.
    Toggled { enabled: bool },
    /// The global sheet was reset.
    Reset,
    /// Whether the text was set: a text over [`MAX_CSS_BYTES`] bytes is refused.
    ContentSet { success: bool },
    /// The tab's own sheet afterwards.
    TabChanged { tab_id: String, css: Option<TabCss> },
    /// The history lost the entries of a path.
    HistoryRemoved,
    /// A loaded tab sheet: the new asset (path and base64 text) and the tab's sheet when it
    /// was loaded; otherwise whether a file was picked and why it was refused.
    TabLoaded { tab_id: String, loaded: Option<(String, String, TabCss)>, error: Option<TabLoadError> },
}

/// Why a picked file was not loaded as a sheet.
#[derive(Clone, Copy, Debug, PartialEq, Eq, Structural)]
pub enum TabLoadError {
    /// The file's name does not end in `.css`, letter case aside.
    InvalidExtension,
    /// The file is no usable sheet.
    Css(CssError),
}

/// An empty global sheet.
pub open spec fn empty_custom_css() -> CustomCssV {
    CustomCssV { path: None, content: Seq::empty() }
}

/// A tab sheet as stored: a path whose sheet cannot be read from the assets is dropped.
pub open spec fn tab_css_checked(css: TabCssV, assets: Map<Seq<char>, Seq<char>>) -> TabCssV {
    match css.path {
        Some(p) => if spec_css_content(p, assets) is Err {
            TabCssV { path: None, ..css }
        } else {
            css
        },
        None => css,
    }
}

/// A tab's own sheet switched on or off; an empty one when the tab had none.
pub open spec fn tab_css_toggled(old: Option<TabCssV>, enabled: bool) -> TabCssV {
    match old {
        Some(c) => TabCssV { enabled, ..c },
        None => TabCssV { path: None, content: Seq::empty(), enabled },
    }
}

/// The tab sheets with the sheet of `tab` set, or removed.
pub open spec fn tab_css_written(
    m: Map<Seq<char>, TabCssV>,
    tab: Seq<char>,
    css: Option<TabCssV>,
) -> Map<Seq<char>, TabCssV> {
    match css {
        Some(c) => m.insert(tab, c),
        None => m.remove(tab),
    }
}

/// How loading the picked `file` as the sheet of tab `tab` goes, given the stored `assets`:
/// a name without `.css` is refused; otherwise the file is stored under a fresh path in
/// `/assets/css` and read back as a sheet; a sheet that cannot be read is refused, and a
/// readable one becomes the tab's sheet, switched on.
pub open spec fn tab_loaded(
    old: AppStoreDataV,
    tab: Seq<char>,
    file: Option<(Seq<char>, Seq<char>)>,
    assets: Map<Seq<char>, Seq<char>>,
    new: AppStoreDataV,
    out: CssOutcome,
) -> bool {
    match file {
        None => {
            &&& new == old
            &&& out matches CssOutcome::TabLoaded { tab_id: t, loaded: None, error: None } && t@ == tab
        },
        Some((name, data)) => if !ends_with(lower_seq(name), ".css"@) {
            &&& new == old
            &&& out matches CssOutcome::TabLoaded { tab_id: t, loaded: None, error: Some(e) } && t@ == tab
                && e == TabLoadError::InvalidExtension
        } else {
            &&& out matches CssOutcome::TabLoaded { tab_id: t, loaded, error } && t@ == tab
            &&& exists|p: Seq<char>|
                #![trigger is_fresh_path(p, "/assets/css"@, "css"@)]
                is_fresh_path(p, "/assets/css"@, "css"@) && match spec_css_content(p, assets.insert(p, data)) {
                    Err(e) => new == old && out->error == Some(TabLoadError::Css(e)) && out->loaded is None,
                    Ok(bytes) => {
                        let css = TabCssV { path: Some(p), content: vstd::utf8::decode_utf8(bytes), enabled: true };
                        &&& new == (AppStoreDataV { tab_css_overrides: old.tab_css_overrides.insert(tab, css), ..old })
                        &&& out->error is None
                        &&& out->loaded matches Some(l) && l.0@ == p && l.1@ == data && l.2.deep_view() == css
                    },
                }
        },
    }
}

/// The history entries whose path is not `p`, in order.
pub open spec fn history_without(
    h: Seq<crate::css_history::CustomCssHistoryEntryV>,
    p: Seq<char>,
) -> Seq<crate::css_history::CustomCssHistoryEntryV>
    decreases h.len(),
{
    if h.len() == 0 {
        h
    } else if h.last().path == p {
        history_without(h.drop_last(), p)
    } else {
        history_without(h.drop_last(), p).push(h.last())
    }
}

/// What a style-sheet command does to the document `old` with the stored `assets`, giving
/// `new` and answering `out`.
pub open spec fn css_command_done(
    old: AppStoreDataV,
    c: CssCommand,
    assets: Map<Seq<char>, Seq<char>>,
    new: AppStoreDataV,
    out: CssOutcome,
) -> bool {
    match c {
        CssCommand::Toggle { enabled } => {
            &&& new == (AppStoreDataV { use_custom_css: enabled, ..old })
            &&& out == CssOutcome::Toggled { enabled }
        },
        CssCommand::Reset => {
            &&& new == (AppStoreDataV { use_custom_css: false, custom_css: empty_custom_css(), ..old })
            &&& out is Reset
        },
        CssCommand::SetContent { content } => {
            let fits = vstd::utf8::encode_utf8(content@).len() <= MAX_CSS_BYTES;
            &&& fits ==> new == (AppStoreDataV {
                custom_css: CustomCssV { content: content@, ..old.custom_css },
                ..old
            })
            &&& !fits ==> new == old
            &&& out == CssOutcome::ContentSet { success: fits }
        },
        CssCommand::TabSet { tab_id, css } => {
            let written = match css {
                Some(t) => Some(tab_css_checked(t.deep_view(), assets)),
                None => None,
            };
            &&& new == (AppStoreDataV {
                tab_css_overrides: tab_css_written(old.tab_css_overrides, tab_id@, written),
                ..old
            })
            &&& out matches CssOutcome::TabChanged { tab_id: t, css: o } && t@ == tab_id@
                && o.deep_view() == written
        },
        CssCommand::TabClear { tab_id } => {
            &&& new == (AppStoreDataV { tab_css_overrides: old.tab_css_overrides.remove(tab_id@), ..old })
            &&& out matches CssOutcome::TabChanged { tab_id: t, css: o } && t@ == tab_id@ && o is None
        },
        CssCommand::TabLoad { tab_id, file } => tab_loaded(
            old,
            tab_id@,
            match file {
                Some(f) => Some((f.0@, f.1@)),
                None => None,
            },
            assets,
            new,
            out,
        ),
        CssCommand::HistoryRemove { path } => {
            &&& new == (AppStoreDataV { custom_css_history: history_without(old.custom_css_history, path@), ..old })
            &&& out is HistoryRemoved
        },
        CssCommand::TabToggle { tab_id, enabled } => {
            let toggled = tab_css_toggled(
                if old.tab_css_overrides.contains_key(tab_id@) {
                    Some(old.tab_css_overrides[tab_id@])
                } else {
                    None
                },
                enabled,
            );
            &&& new == (AppStoreDataV {
                tab_css_overrides: old.tab_css_overrides.insert(tab_id@, toggled),
                ..old
            })
            &&& out matches CssOutcome::TabChanged { tab_id: t, css: o } && t@ == tab_id@
                && o.deep_view() == Some(toggled)
        },
    }
}

/// Drops the path of a tab sheet whose sheet cannot be read from the assets.
fn check_tab_css(css: &TabCss, assets: &WebAssetMap) -> (r: TabCss)
    ensures
        r.deep_view() == tab_css_checked(css.deep_view(), assets@),
{
    let mut out = css.dup();
    match &css.path {
        Some(p) => {
            if css_content(p.as_str(), assets).is_err() {
                out.path = None;
            }
        },
        None => {},
    }
    out
}

/// Loads a picked file as a tab's own sheet, as [`tab_loaded`] states.
fn load_tab_css(
    store: &mut AppStoreData,
    tab_id: &String,
    file: &Option<(String, String)>,
    assets: &WebAssetMap,
) -> (r: CssOutcome)
    ensures
        tab_loaded(
            old(store).deep_view(),
            tab_id@,
            match file {
                Some(f) => Some((f.0@, f.1@)),
                None => None,
            },
            assets@,
            final(store).deep_view(),
            r,
        ),
{
    let (name, data) = match file {
        None => {
            return CssOutcome::TabLoaded { tab_id: tab_id.dup(), loaded: None, error: None };
        },
        Some(f) => f,
    };
    if !has_suffix(&to_lower(&chars_of(name.as_str())), &chars_of(".css")) {
        return CssOutcome::TabLoaded {
            tab_id: tab_id.dup(),
            loaded: None,
            error: Some(TabLoadError::InvalidExtension),
        };
    }
    let id = new_uuid_text();
    let a = concat("/assets/css/", id.as_str());
    let path = concat(a.as_str(), ".css");
    let ghost p = path@;
    proof {
        reveal_strlit("/assets/css/");
        reveal_strlit("/assets/css");
        reveal_strlit("/");
        reveal_strlit(".css");
        reveal_strlit(".");
        reveal_strlit("css");
        assert(p =~= "/assets/css"@ + "/"@ + id@ + "."@ + "css"@);
        assert(is_fresh_path(p, "/assets/css"@, "css"@));
    }
    let mut selected = assets.copy();
    selected.insert(path.dup(), data.dup());
    match css_content(path.as_str(), &selected) {
        Err(e) => CssOutcome::TabLoaded { tab_id: tab_id.dup(), loaded: None, error: Some(TabLoadError::Css(e)) },
        Ok(content) => {
            let css = TabCss { path: Some(path.dup()), content, enabled: true };
            store.tab_css_overrides.insert(tab_id.dup(), css.dup());
            CssOutcome::TabLoaded { tab_id: tab_id.dup(), loaded: Some((path, data.dup(), css)), error: None }
        },
    }
}

/// Runs a style-sheet command on the document and answers it, as [`css_command_done`]
/// states.
pub fn apply_css_command(store: &mut AppStoreData, command: &CssCommand, assets: &WebAssetMap) -> (r:
    CssOutcome)
    ensures
        css_command_done(old(store).deep_view(), *command, assets@, final(store).deep_view(), r),
{
    match command {
        CssCommand::Toggle { enabled } => {
            store.use_custom_css = *enabled;
            CssOutcome::Toggled { enabled: *enabled }
        },
        CssCommand::Reset => {
            store.use_custom_css = false;
            store.custom_css = CustomCss { path: None, content: String::new() };
            CssOutcome::Reset
        },
        CssCommand::SetContent { content } => {
            let text = content.as_str();
            let n = text.as_bytes().len();
            if n > MAX_CSS_BYTES {
                return CssOutcome::ContentSet { success: false };
            }
            store.custom_css.content = content.dup();
            CssOutcome::ContentSet { success: true }
        },
        CssCommand::TabSet { tab_id, css } => {
            let written = match css {
                Some(t) => Some(check_tab_css(t, assets)),
                None => None,
            };
            match &written {
                Some(t) => {
                    store.tab_css_overrides.insert(tab_id.dup(), t.dup());
                },
                None => {
                    store.tab_css_overrides.remove(tab_id.as_str());
                },
            }
            CssOutcome::TabChanged { tab_id: tab_id.dup(), css: written }
        },
        CssCommand::TabClear { tab_id } => {
            store.tab_css_overrides.remove(tab_id.as_str());
            CssOutcome::TabChanged { tab_id: tab_id.dup(), css: None }
        },
        CssCommand::TabLoad { tab_id, file } => load_tab_css(store, tab_id, file, assets),
        CssCommand::HistoryRemove { path } => {
            let mut kept: Vec<crate::css_history::CustomCssHistoryEntry> = Vec::new();
            let ghost h = store.custom_css_history.deep_view();
            let mut i: usize = 0;
            while i < store.custom_css_history.len()
                invariant
                    i <= store.custom_css_history.len(),
                    h == store.custom_css_history.deep_view(),
                    kept.deep_view() == history_without(h.take(i as int), path@),
                decreases store.custom_css_history.len() - i,
            {
                proof {
                    assert(h.take(i + 1).drop_last() =~= h.take(i as int));
                    assert(h.take(i + 1).last() == h[i as int]);
                }
                if !crate::text::str_eq(store.custom_css_history[i].path.as_str(), path.as_str()) {
                    let ghost before = kept.deep_view();
                    kept.push(store.custom_css_history[i].dup());
                    assert(kept.deep_view() =~= before.push(h[i as int]));
                }
                i += 1;
            }
            assert(h.take(h.len() as int) =~= h);
            store.custom_css_history = kept;
            CssOutcome::HistoryRemoved
        },
        CssCommand::TabToggle { tab_id, enabled } => {
            let mut css = match store.tab_css_overrides.get(tab_id.as_str()) {
                Some(c) => c.dup(),
                None => TabCss { path: None, content: String::new(), enabled: *enabled },
            };
            css.enabled = *enabled;
            store.tab_css_overrides.insert(tab_id.dup(), css.dup());
            CssOutcome::TabChanged { tab_id: tab_id.dup(), css: Some(css) }
        },
    }
}

/// How a style sheet of the history stands in the stored assets.
#[derive(Clone, Copy, Debug, PartialEq, Eq, Structural)]
pub enum CssHistoryStatus {
    /// It can be read.
    Available,
    /// Nothing is stored at its path.
    Missing,
    /// It is over [`MAX_CSS_BYTES`] bytes.
    TooLarge,
    /// It cannot be used for another reason.
    Invalid,
}

/// How the sheet at `path` stands in `assets`.
pub open spec fn spec_css_history_status(path: Seq<char>, assets: Map<Seq<char>, Seq<char>>) -> CssHistoryStatus {
    if !assets.contains_key(path) {
        CssHistoryStatus::Missing
    } else {
        match spec_css_content(path, assets) {
            Ok(_) => CssHistoryStatus::Available,
            Err(CssError::TooLarge) => CssHistoryStatus::TooLarge,
            Err(_) => CssHistoryStatus::Invalid,
        }
    }
}

/// Tells how a style sheet of the history stands in the stored assets.
pub fn css_history_status(path: &str, assets: &WebAssetMap) -> (r: CssHistoryStatus)
    ensures
        r == spec_css_history_status(path@, assets@),
{
    if !assets.contains_key(path) {
        return CssHistoryStatus::Missing;
    }
    match css_content(path, assets) {
        Ok(_) => CssHistoryStatus::Available,
        Err(CssError::TooLarge) => CssHistoryStatus::TooLarge,
        Err(_) => CssHistoryStatus::Invalid,
    }
}


/// After a tab's sheet is toggled, the tab has a stored sheet whose flag is exactly the one
/// asked for; a sheet it had keeps its path and text, and a tab without one gets an empty
/// sheet. The other tabs' sheets stay, and the answer reports the stored sheet.
pub proof fn lemma_tab_toggle_sets_flag(
    old: AppStoreDataV,
    tab_id: String,
    enabled: bool,
    assets: Map<Seq<char>, Seq<char>>,
    new: AppStoreDataV,
    out: CssOutcome,
)
    requires
        css_command_done(old, CssCommand::TabToggle { tab_id, enabled }, assets, new, out),
    ensures
        new.tab_css_overrides.contains_key(tab_id@),
        new.tab_css_overrides[tab_id@].enabled == enabled,
        old.tab_css_overrides.contains_key(tab_id@) ==> new.tab_css_overrides[tab_id@].path
            == old.tab_css_overrides[tab_id@].path && new.tab_css_overrides[tab_id@].content
            == old.tab_css_overrides[tab_id@].content,
        !old.tab_css_overrides.contains_key(tab_id@) ==> new.tab_css_overrides[tab_id@].path is None
            && new.tab_css_overrides[tab_id@].content.len() == 0,
        forall|t: Seq<char>| t != tab_id@ ==> #[trigger] new.tab_css_overrides.contains_key(t)
            == old.tab_css_overrides.contains_key(t),
        forall|t: Seq<char>| t != tab_id@ && old.tab_css_overrides.contains_key(t) ==> #[trigger]
            new.tab_css_overrides[t] == old.tab_css_overrides[t],
        out matches CssOutcome::TabChanged { css: Some(c), .. } && c.deep_view() == new.tab_css_overrides[tab_id@],
{
}

} // verus!
