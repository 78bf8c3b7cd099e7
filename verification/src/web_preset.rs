//! Presets in the web host: exports and imports are prepared in memory; the host stores the
//! resulting document and the new assets together.
use crate::asset_refs::{decode_image_data_url, spec_decode_image_data_url};
use crate::codec::base64_encoded;
use crate::looks::{
    collection_rewritten, lemma_collection_mono, look_rewritten, rewrite_collection,
    rewrite_sprites, sprites_rewritten, HasLook, LookField, RefStep,
};
use crate::model::{
    AppStoreData, AppStoreDataV, GraphPosition, KeyPosition, KnobPosition, PresetFile, PresetFileV,
    StatPosition,
};
use crate::preset_export::{
    build_full_preset, build_tab_preset, full_preset_fields, payload_exported, selected_tab_source,
    tab_preset_fields,
};
use crate::preset_import::{
    or_current, spec_choose_source_tab, store_rekeyed, tab_store_rekeyed, FullPresetPublication,
};
use crate::preset_plan::{
    full_files_restored, full_import_written, full_plan_values, patched, prepare_full_preset,
    prepare_tab_preset, tab_files_restored, tab_fonts_merged, tab_fonts_prepared,
    tab_import_written, tab_plan_values, tab_settings_written, FullPresetPlan, SettingsDiff,
    TabPresetPlan,
};
use crate::strmap::Dup;
use crate::tab_meta::{spec_default_keys, spec_default_positions};
use crate::text::{chars_of, string_of, trim, trim_chars};
use crate::web_assets::{
    assets_well_formed, decoded_assets, is_fresh_path, WebAssetMap, WebPresetAssets,
};
use vstd::prelude::*;

verus! {

/// A prepared web import: the new document, the new assets, what settings changed and what
/// a full import publishes.
pub struct WebPresetImport {
    pub store: AppStoreData,
    pub asset_writes: WebAssetMap,
    pub settings_diff: Option<SettingsDiff>,
    pub publication: Option<FullPresetPublication>,
}

/// The stored assets of the web host, decoded, with nothing written yet.
pub open spec fn fresh_memory(h: WebPresetAssets, assets: Map<Seq<char>, Seq<char>>) -> bool {
    h.existing_view() == decoded_assets(assets) && h.writes_view() == Map::<Seq<char>, Seq<u8>>::empty()
}

/// Builds a preset of the whole document, or of its selected tab, from the web host's
/// assets. Refused when a stored asset has a bad path or bad base64 text.
/// A preset of the document `store` (of its selected tab where `tab_only`), its files read
/// from the stored `assets`.
pub open spec fn preset_exported(
    store: AppStoreDataV,
    tab_only: bool,
    assets: Map<Seq<char>, Seq<char>>,
    p: PresetFileV,
) -> bool {
    exists|h: WebPresetAssets|
        #[trigger] fresh_memory(h, assets) && (if tab_only {
            payload_exported(h, selected_tab_source(store), p) && tab_preset_fields(p, store)
        } else {
            payload_exported(h, store, p) && full_preset_fields(p, store)
        })
}

pub fn export_preset(store: &AppStoreData, tab_only: bool, assets: &WebAssetMap) -> (r: Result<
    PresetFile,
    String,
>)
    ensures
        r is Ok <==> assets_well_formed(assets@),
        r matches Ok(p) ==> preset_exported(store.deep_view(), tab_only, assets@, p.deep_view()),
{
    let memory = match WebPresetAssets::new(assets) {
        Ok(m) => m,
        Err(e) => {
            return Err(e.message());
        },
    };
    let snapshot = store.dup();
    let r = if tab_only {
        build_tab_preset(snapshot, &memory)
    } else {
        build_full_preset(snapshot, &memory)
    };
    proof {
        assert(fresh_memory(memory, assets@));
    }
    r
}

/// What a prepared full import holds.
pub open spec fn full_import_result(
    store: AppStoreDataV,
    preset: PresetFileV,
    h0: WebPresetAssets,
    hf: WebPresetAssets,
    plan: FullPresetPlan,
    out: WebPresetImport,
) -> bool {
    &&& full_plan_values(h0, preset, store, plan)
    &&& full_files_restored(h0, hf, preset, or_current(preset.keys, spec_default_keys()), plan)
    &&& exists|mid: AppStoreDataV|
        #[trigger] store_rekeyed(full_import_written(store, plan), mid) && out.store.deep_view() == patched(
            mid,
            plan.settings_patch,
        )
    &&& writes_reported(hf, out.asset_writes@)
    &&& out.settings_diff is Some
    &&& out.publication matches Some(p) && p.use_custom_css == plan.publication.use_custom_css
        && p.custom_css.deep_view() == plan.publication.custom_css.deep_view() && p.use_custom_js
        == plan.publication.use_custom_js && p.custom_js.deep_view() == plan.publication.custom_js.deep_view()
}

/// What a prepared one-tab import holds.
pub open spec fn tab_import_result(
    store: AppStoreDataV,
    preset: PresetFileV,
    h0: WebPresetAssets,
    h2: WebPresetAssets,
    hf: WebPresetAssets,
    plan: TabPresetPlan,
    out: WebPresetImport,
) -> bool {
    &&& spec_choose_source_tab(
        or_current(preset.keys, Map::empty()),
        preset.selected_key_type,
        store.selected_key_type,
    ) matches Ok(src) && tab_files_restored(h0, h2, preset, src, plan) && tab_plan_values(h2, preset, src, plan)
    &&& plan.current_tab_id@ == store.selected_key_type
    &&& match preset.font_settings {
        None => plan.prepared_font_settings is None && hf == h2,
        Some(fs) => tab_fonts_prepared(h2, hf, preset, store.font_settings.custom_fonts, fs.custom_fonts, plan),
    }
    &&& exists|w2: AppStoreDataV|
        #[trigger] tab_store_rekeyed(
            tab_import_written(store, plan),
            w2,
            plan.current_tab_id@,
            plan.imported_key_positions is Some,
            plan.imported_stat_positions is Some,
            plan.imported_graph_positions is Some,
            plan.imported_knob_positions is Some,
            plan.imported_sprite_positions is Some,
        ) && tab_fonts_merged(tab_settings_written(w2, plan), plan, out.store.deep_view(), out.settings_diff)
    &&& writes_reported(hf, out.asset_writes@)
    &&& out.publication is None
}

/// The new assets of a preparation as the host stores them: base64 text of each write.
pub open spec fn writes_reported(h: WebPresetAssets, writes: Map<Seq<char>, Seq<char>>) -> bool {
    &&& writes.dom() == h.writes_view().dom()
    &&& forall|k: Seq<char>| #[trigger] writes.contains_key(k) ==> writes[k] == base64_encoded(h.writes_view()[k])
}

/// Whether a full import of `p` into `c` leaves a selected tab with key bindings: the
/// requested tab, the current one or the default `4key`, among the tabs that the preset's key
/// bindings and layouts bring.
pub open spec fn full_import_applies(p: PresetFileV, c: AppStoreDataV) -> bool {
    let tabs = or_current(p.keys, spec_default_keys()).dom().union(
        or_current(p.key_positions, spec_default_positions()).dom(),
    );
    ||| (p.selected_key_type matches Some(s) && tabs.contains(s))
    ||| tabs.contains(c.selected_key_type)
    ||| tabs.contains("4key"@)
}

/// Prepares a web import of a full or one-tab preset against the stored assets, without
/// touching either: the result carries the new document and the new assets. Refused when a
/// stored asset is malformed, when a one-tab preset has no single source tab, or when a
/// full import leaves the selected tab without key bindings.
pub fn prepare_import(
    store: &AppStoreData,
    preset: PresetFile,
    tab_only: bool,
    assets: &WebAssetMap,
) -> (r: Result<WebPresetImport, String>)
    ensures
        !assets_well_formed(assets@) ==> r is Err,
        assets_well_formed(assets@) && tab_only ==> (r is Ok <==> spec_choose_source_tab(
            or_current(preset.deep_view().keys, Map::empty()),
            preset.deep_view().selected_key_type,
            store.deep_view().selected_key_type,
        ) is Ok),
        assets_well_formed(assets@) && !tab_only ==> (r is Ok <==> full_import_applies(
            preset.deep_view(),
            store.deep_view(),
        )),
        tab_only ==> (r matches Ok(out) ==> exists|h0: WebPresetAssets, h2: WebPresetAssets, hf: WebPresetAssets, tp: TabPresetPlan|
            #![trigger fresh_memory(h0, assets@), tab_import_result(store.deep_view(), preset.deep_view(), h0, h2, hf, tp, out)]
            fresh_memory(h0, assets@) && tab_import_result(store.deep_view(), preset.deep_view(), h0, h2, hf, tp, out)),
        !tab_only ==> (r matches Ok(out) ==> exists|h0: WebPresetAssets, hf: WebPresetAssets, fp: FullPresetPlan|
            #![trigger fresh_memory(h0, assets@), full_import_result(store.deep_view(), preset.deep_view(), h0, hf, fp, out)]
            fresh_memory(h0, assets@) && full_import_result(store.deep_view(), preset.deep_view(), h0, hf, fp, out)),
{
    let mut memory = match WebPresetAssets::new(assets) {
        Ok(m) => m,
        Err(e) => {
            return Err(e.message());
        },
    };
    let ghost h0 = memory;
    let ghost pv = preset.deep_view();
    proof {
        reveal_strlit("/assets/images");
        reveal_strlit("/assets/sounds");
        reveal_strlit("/assets/fonts");
        assert(crate::preset_plan::host_accepts_import(h0));
    }
    let mut candidate = store.dup();
    if tab_only {
        let plan = match prepare_tab_preset(preset, store.selected_key_type.dup(), &store.font_settings, &mut memory) {
            Ok(p) => p,
            Err(e) => {
                return Err(e);
            },
        };
        let ghost tp = plan;
        let applied = plan.apply(&mut candidate);
        let (diff, _, _, _) = applied;
        let ghost hf = memory;
        let out = WebPresetImport {
            store: candidate,
            asset_writes: memory.into_writes(),
            settings_diff: diff,
            publication: None,
        };
        proof {
            let sv = store.deep_view();
            let src = spec_choose_source_tab(or_current(pv.keys, Map::empty()), pv.selected_key_type, sv.selected_key_type)->Ok_0;
            let h2 = choose|h2: WebPresetAssets|
                #[trigger] tab_files_restored(h0, h2, pv, src, tp) && tab_plan_values(h2, pv, src, tp) && match pv.font_settings {
                    None => tp.prepared_font_settings is None && hf == h2,
                    Some(fs) => tab_fonts_prepared(h2, hf, pv, sv.font_settings.custom_fonts, fs.custom_fonts, tp),
                };
            assert(tab_import_result(sv, pv, h0, h2, hf, tp, out));
            assert(fresh_memory(h0, assets@));
        }
        Ok(out)
    } else {
        let plan = match prepare_full_preset(preset, store, &mut memory) {
            Ok(p) => p,
            Err(e) => {
                return Err(e);
            },
        };
        let ghost fp = plan;
        let publication = FullPresetPublication {
            use_custom_css: plan.publication.use_custom_css,
            custom_css: plan.publication.custom_css.dup(),
            use_custom_js: plan.publication.use_custom_js,
            custom_js: plan.publication.custom_js.dup(),
        };
        let ghost cv = candidate.deep_view();
        proof {
            reveal_strlit("4key");
            let w = full_import_written(cv, fp);
            assert(cv.selected_key_type == store.deep_view().selected_key_type);
            assert(fp.keys@.dom() =~= or_current(pv.keys, spec_default_keys()).dom().union(
                or_current(pv.key_positions, spec_default_positions()).dom(),
            ));
            assert(fp.requested_selected_key_type.deep_view() == pv.selected_key_type);
            assert(fp.keys@.contains_key(w.selected_key_type) <==> full_import_applies(pv, store.deep_view()));
        }
        let applied = match plan.apply(&mut candidate) {
            Ok(a) => a,
            Err(_) => {
                return Err(crate::text::string_of(&crate::text::chars_of("invalid-tab-metadata")));
            },
        };
        let (diff, _, _, _, _, _, _) = applied;
        let ghost hf = memory;
        let out = WebPresetImport {
            store: candidate,
            asset_writes: memory.into_writes(),
            settings_diff: Some(diff),
            publication: Some(publication),
        };
        proof {
            assert(full_import_result(store.deep_view(), pv, h0, hf, fp, out));
            assert(fresh_memory(h0, assets@));
        }
        Ok(out)
    }
}

/// How an inline image becomes an asset: a reference that is a base64 image data URL names
/// a new file in `/assets/images` written with its bytes; any other reference stays.
pub open spec fn inline_image_migrated(
    log: Seq<(Seq<char>, Seq<u8>)>,
    old: Option<Seq<char>>,
    new: Option<Seq<char>>,
) -> bool {
    match old {
        None => new is None,
        Some(o) => match spec_decode_image_data_url(trim(o)) {
            None => new == old,
            Some(d) => new matches Some(p) && is_fresh_path(p, "/assets/images"@, d.1) && log.contains((p, d.0)),
        },
    }
}

/// The files that a sequence of writes leaves: a later write to a path replaces an earlier one.
pub open spec fn log_writes(log: Seq<(Seq<char>, Seq<u8>)>) -> Map<Seq<char>, Seq<u8>>
    decreases log.len(),
{
    if log.len() == 0 {
        Map::empty()
    } else {
        log_writes(log.drop_last()).insert(log.last().0, log.last().1)
    }
}

/// Where no path is written twice, every write of the log is what the files hold.
pub proof fn lemma_log_writes_distinct(log: Seq<(Seq<char>, Seq<u8>)>)
    requires
        forall|i: int, j: int| 0 <= i < j < log.len() ==> log[i].0 != log[j].0,
    ensures
        forall|i: int| 0 <= i < log.len() ==> #[trigger] log_writes(log).contains_key(log[i].0)
            && log_writes(log)[log[i].0] == log[i].1,
    decreases log.len(),
{
    if log.len() > 0 {
        let pre = log.drop_last();
        assert forall|i: int, j: int| 0 <= i < j < pre.len() implies pre[i].0 != pre[j].0 by {
            assert(pre[i] == log[i] && pre[j] == log[j]);
        }
        lemma_log_writes_distinct(pre);
        assert forall|i: int| 0 <= i < log.len() implies #[trigger] log_writes(log).contains_key(log[i].0)
            && log_writes(log)[log[i].0] == log[i].1 by {
            if i < log.len() - 1 {
                assert(pre[i] == log[i]);
                assert(log_writes(pre).contains_key(pre[i].0));
                assert(log[i].0 != log[log.len() - 1].0);
            }
        }
    }
}

/// State of the inline image migration: the host and the files written so far.
pub struct InlineImages {
    pub host: WebPresetAssets,
    pub log: Ghost<Seq<(Seq<char>, Seq<u8>)>>,
}

impl RefStep for InlineImages {
    open spec fn inv(&self) -> bool {
        self.host.writes_view() == log_writes(self.log@)
    }

    open spec fn ok(&self, old: Option<Seq<char>>, new: Option<Seq<char>>) -> bool {
        inline_image_migrated(self.log@, old, new)
    }

    open spec fn grows(&self, later: &Self) -> bool {
        &&& self.log@.is_prefix_of(later.log@)
        &&& later.host.existing_view() == self.host.existing_view()
    }

    proof fn lemma_grows_refl(&self) {
        assert(self.log@.is_prefix_of(self.log@));
    }

    proof fn lemma_grows_trans(&self, mid: &Self, later: &Self) {
        assert forall|i: int| 0 <= i < self.log@.len() implies self.log@[i] == later.log@[i] by {
            assert(self.log@[i] == mid.log@[i]);
        }
    }

    proof fn lemma_ok_mono(&self, later: &Self, old: Option<Seq<char>>, new: Option<Seq<char>>) {
        if old is Some && spec_decode_image_data_url(trim(old->0)) is Some {
            let d = spec_decode_image_data_url(trim(old->0))->0;
            let p = new->0;
            let i = choose|i: int| 0 <= i < self.log@.len() && self.log@[i] == (p, d.0);
            assert(later.log@[i] == (p, d.0));
        }
    }

    fn step(&mut self, r: Option<String>) -> (out: Option<String>) {
        let current = match r {
            None => {
                return None;
            },
            Some(c) => c,
        };
        let t = trim_chars(&chars_of(current.as_str()));
        match decode_image_data_url(&t) {
            None => Some(current),
            Some((bytes, ext)) => {
                let ghost bv = bytes@;
                let ghost before = *self;
                proof {
                    crate::asset_refs::lemma_data_url_extension_plain(t@);
                    reveal_strlit("/assets/images");
                }
                match self.host.import_bytes(bytes, "/assets/images", ext.as_str()) {
                    Ok(p) => {
                        self.log = Ghost(self.log@.push((p@, bv)));
                        proof {
                            assert(self.log@.drop_last() =~= before.log@);
                            assert(self.log@.last() == (p@, bv));
                            assert(self.log@[before.log@.len() as int] == (p@, bv));
                        }
                        Some(p)
                    },
                    Err(_) => {
                        proof {
                            assert(false);
                        }
                        Some(current)
                    },
                }
            },
        }
    }
}

/// An element whose inline images became assets, nothing else changed.
pub open spec fn inline_look_migrated<E: HasLook>(log: Seq<(Seq<char>, Seq<u8>)>, old: E::V, new: E::V) -> bool {
    let lo = E::look_of(old);
    let ln = E::look_of(new);
    &&& new == E::with_look(old, crate::looks::with_images(lo, ln.active_image, ln.inactive_image))
    &&& inline_image_migrated(log, lo.active_image, ln.active_image)
    &&& inline_image_migrated(log, lo.inactive_image, ln.inactive_image)
}

/// Every element of every tab had its inline images migrated.
pub open spec fn inline_collection_migrated<E: HasLook>(
    log: Seq<(Seq<char>, Seq<u8>)>,
    old: Map<Seq<char>, Seq<E::V>>,
    new: Map<Seq<char>, Seq<E::V>>,
) -> bool {
    &&& new.dom() == old.dom()
    &&& forall|k: Seq<char>|
        #[trigger] old.contains_key(k) ==> new[k].len() == old[k].len() && forall|i: int|
            0 <= i < old[k].len() ==> inline_look_migrated::<E>(log, old[k][i], #[trigger] new[k][i])
}

proof fn lemma_inline_collection<E: HasLook>(s: &InlineImages, old: Map<Seq<char>, Seq<E::V>>, new: Map<Seq<char>, Seq<E::V>>)
    requires
        collection_rewritten::<E, InlineImages>(LookField::Images, s, old, new),
    ensures
        inline_collection_migrated::<E>(s.log@, old, new),
{
    assert forall|k: Seq<char>| #[trigger] old.contains_key(k) implies new[k].len() == old[k].len() && forall|i: int|
        0 <= i < old[k].len() ==> inline_look_migrated::<E>(s.log@, old[k][i], #[trigger] new[k][i]) by {
        assert forall|i: int| 0 <= i < old[k].len() implies inline_look_migrated::<E>(s.log@, old[k][i], #[trigger] new[k][i]) by {
            assert(look_rewritten::<E, InlineImages>(LookField::Images, s, old[k][i], new[k][i]));
        }
    }
}

/// The document after its inline images became assets, with the files written.
pub open spec fn inline_images_migrated(
    log: Seq<(Seq<char>, Seq<u8>)>,
    old: AppStoreDataV,
    new: AppStoreDataV,
) -> bool {
    &&& new == (AppStoreDataV {
        key_positions: new.key_positions,
        stat_positions: new.stat_positions,
        graph_positions: new.graph_positions,
        knob_positions: new.knob_positions,
        sprite_positions: new.sprite_positions,
        ..old
    })
    &&& inline_collection_migrated::<KeyPosition>(log, old.key_positions, new.key_positions)
    &&& inline_collection_migrated::<StatPosition>(log, old.stat_positions, new.stat_positions)
    &&& inline_collection_migrated::<GraphPosition>(log, old.graph_positions, new.graph_positions)
    &&& inline_collection_migrated::<KnobPosition>(log, old.knob_positions, new.knob_positions)
    &&& exists|s: InlineImages| s.log@ == log && #[trigger] sprites_rewritten(&s, old.sprite_positions, new.sprite_positions)
}

/// Turns the inline images of a document (data URLs) into image assets, after its layouts
/// were restored. References that are not data URLs stay, even when their files are
/// missing. Returns the new assets; refused when a stored asset is malformed.
pub fn restore_inline_store_images(store: &mut AppStoreData, assets: &WebAssetMap) -> (r: Result<
    WebAssetMap,
    String,
>)
    ensures
        r is Ok <==> assets_well_formed(assets@),
        r is Err ==> final(store).deep_view() == old(store).deep_view(),
        r matches Ok(w) ==> exists|log: Seq<(Seq<char>, Seq<u8>)>|
            #[trigger] inline_images_migrated(log, old(store).deep_view(), final(store).deep_view())
                && w@.dom() == log_writes(log).dom() && forall|k: Seq<char>|
                #[trigger] w@.contains_key(k) ==> w@[k] == base64_encoded(log_writes(log)[k]),
{
    let memory = match WebPresetAssets::new(assets) {
        Ok(m) => m,
        Err(e) => {
            return Err(e.message());
        },
    };
    let log: Ghost<Seq<(Seq<char>, Seq<u8>)>> = Ghost(Seq::empty());
    let mut state = InlineImages { host: memory, log };
    proof {
        assert(state.host.writes_view() =~= log_writes(state.log@));
    }
    let ghost s0 = state;
    let ghost before = store.deep_view();
    rewrite_collection(LookField::Images, &mut store.key_positions, &mut state);
    let ghost s1 = state;
    rewrite_collection(LookField::Images, &mut store.stat_positions, &mut state);
    let ghost s2 = state;
    rewrite_collection(LookField::Images, &mut store.graph_positions, &mut state);
    let ghost s3 = state;
    rewrite_collection(LookField::Images, &mut store.knob_positions, &mut state);
    let ghost s4 = state;
    rewrite_sprites(&mut store.sprite_positions, &mut state);
    proof {
        s2.lemma_grows_trans(&s3, &s4);
        s2.lemma_grows_trans(&s4, &state);
        s1.lemma_grows_trans(&s2, &state);
        s3.lemma_grows_trans(&s4, &state);
        lemma_collection_mono::<KeyPosition, InlineImages>(LookField::Images, &s1, &state, before.key_positions, store.key_positions@);
        lemma_collection_mono::<StatPosition, InlineImages>(LookField::Images, &s2, &state, before.stat_positions, store.stat_positions@);
        lemma_collection_mono::<GraphPosition, InlineImages>(LookField::Images, &s3, &state, before.graph_positions, store.graph_positions@);
        lemma_collection_mono::<KnobPosition, InlineImages>(LookField::Images, &s4, &state, before.knob_positions, store.knob_positions@);
        lemma_inline_collection::<KeyPosition>(&state, before.key_positions, store.key_positions@);
        lemma_inline_collection::<StatPosition>(&state, before.stat_positions, store.stat_positions@);
        lemma_inline_collection::<GraphPosition>(&state, before.graph_positions, store.graph_positions@);
        lemma_inline_collection::<KnobPosition>(&state, before.knob_positions, store.knob_positions@);
        assert(sprites_rewritten(&state, before.sprite_positions, store.sprite_positions@));
        assert(inline_images_migrated(state.log@, before, store.deep_view()));
    }
    let ghost final_log = state.log@;
    let writes = state.host.into_writes();
    Ok(writes)
}

} // verus!
