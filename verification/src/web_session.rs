//! How the web host's commands are classed: reads leave the document alone, writes go
//! through a prepared candidate.
use crate::preview::one_of;
use crate::text::{chars_of, string_of};
use vstd::prelude::*;

verus! {

/// The commands that only read.
pub open spec fn read_commands() -> Seq<Seq<char>> {
    seq![
        "app_bootstrap"@, "editor_get"@, "history_status"@, "settings_get"@, "keys_get"@,
        "positions_get"@, "stat_positions_get"@, "graph_positions_get"@, "knob_positions_get"@,
        "layer_groups_get"@, "keys_get_counters"@, "custom_tabs_list"@, "note_tab_get"@,
        "note_tab_get_all"@, "plugin_instances_get"@, "plugin_group_refs_get"@,
        "plugin_storage_get"@, "plugin_storage_keys"@, "plugin_storage_has_data"@, "css_get"@,
        "css_get_use"@, "css_history_get"@, "css_tab_get"@, "css_tab_get_all"@, "css_tab_export"@,
        "js_get"@, "js_get_use"@, "overlay_get"@, "counter_animation_list"@, "preset_save"@,
        "preset_save_tab"@, "sound_load_original"@, "sprite_positions_get"@
    ]
}

/// The commands that change the document or its files.
pub open spec fn write_commands() -> Seq<Seq<char>> {
    seq![
        "web_main_disconnected"@, "web_input_press"@, "editor_commit"@, "commit_gesture"@,
        "history_undo"@, "history_redo"@, "settings_update"@, "plugin_authority_reset"@,
        "plugin_instances_commit"@, "plugin_instances_reconcile"@, "plugin_storage_set"@,
        "plugin_storage_remove"@, "plugin_storage_clear"@, "plugin_storage_clear_by_prefix"@,
        "keys_set_mode"@, "custom_tabs_select"@, "custom_tabs_create"@, "custom_tabs_rename"@,
        "custom_tabs_delete"@, "custom_tabs_restore"@, "tabs_reorder"@, "keys_reset_all"@,
        "keys_reset_mode"@, "keys_reset_counters"@, "keys_reset_counters_mode"@,
        "keys_reset_single_counter"@, "keys_set_counters"@, "note_tab_set"@, "note_tab_clear"@,
        "css_toggle"@, "css_set_content"@, "css_reset"@, "css_load"@, "css_tab_set"@,
        "css_tab_toggle"@, "css_tab_clear"@, "css_tab_load"@, "css_history_remove"@,
        "css_history_activate"@, "css_tab_activate_history"@, "js_toggle"@, "js_reset"@,
        "js_set_content"@, "js_load"@, "js_reload"@, "js_remove_plugin"@, "js_set_plugin_enabled"@,
        "counter_animation_create"@, "counter_animation_update"@, "counter_animation_delete"@,
        "overlay_set_lock"@, "overlay_set_visible"@, "overlay_set_anchor"@, "preset_load"@,
        "preset_load_tab"@, "sound_set_hidden"@, "sound_set_enabled"@, "sound_rename"@,
        "sound_delete"@, "sound_list"@, "font_load"@, "image_load"@, "sound_load"@,
        "sound_save_processed_wav"@, "sound_update_processed_wav"@
    ]
}

/// The class of a command: `read`, `write`, or `unsupported` for any other name.
pub open spec fn command_kind(command: Seq<char>) -> Seq<char> {
    if read_commands().contains(command) {
        "read"@
    } else if write_commands().contains(command) {
        "write"@
    } else {
        "unsupported"@
    }
}

/// Classes a web command, as [`command_kind`] states.
pub fn web_command_kind(command: &str) -> (r: String)
    ensures
        r@ == command_kind(command@),
{
    let c = chars_of(command);
    let reads: [&str; 33] = [
        "app_bootstrap", "editor_get", "history_status", "settings_get", "keys_get",
        "positions_get", "stat_positions_get", "graph_positions_get", "knob_positions_get",
        "layer_groups_get", "keys_get_counters", "custom_tabs_list", "note_tab_get",
        "note_tab_get_all", "plugin_instances_get", "plugin_group_refs_get", "plugin_storage_get",
        "plugin_storage_keys", "plugin_storage_has_data", "css_get", "css_get_use",
        "css_history_get", "css_tab_get", "css_tab_get_all", "css_tab_export", "js_get",
        "js_get_use", "overlay_get", "counter_animation_list", "preset_save", "preset_save_tab",
        "sound_load_original", "sprite_positions_get"
    ];
    proof {
        assert(reads@.map_values(|s: &str| s@) =~= read_commands());
    }
    if one_of(&c, &reads) {
        return string_of(&chars_of("read"));
    }
    let writes: [&str; 65] = [
        "web_main_disconnected", "web_input_press", "editor_commit", "commit_gesture",
        "history_undo", "history_redo", "settings_update", "plugin_authority_reset",
        "plugin_instances_commit", "plugin_instances_reconcile", "plugin_storage_set",
        "plugin_storage_remove", "plugin_storage_clear", "plugin_storage_clear_by_prefix",
        "keys_set_mode", "custom_tabs_select", "custom_tabs_create", "custom_tabs_rename",
        "custom_tabs_delete", "custom_tabs_restore", "tabs_reorder", "keys_reset_all",
        "keys_reset_mode", "keys_reset_counters", "keys_reset_counters_mode",
        "keys_reset_single_counter", "keys_set_counters", "note_tab_set", "note_tab_clear",
        "css_toggle", "css_set_content", "css_reset", "css_load", "css_tab_set", "css_tab_toggle",
        "css_tab_clear", "css_tab_load", "css_history_remove", "css_history_activate",
        "css_tab_activate_history", "js_toggle", "js_reset", "js_set_content", "js_load",
        "js_reload", "js_remove_plugin", "js_set_plugin_enabled", "counter_animation_create",
        "counter_animation_update", "counter_animation_delete", "overlay_set_lock",
        "overlay_set_visible", "overlay_set_anchor", "preset_load", "preset_load_tab",
        "sound_set_hidden", "sound_set_enabled", "sound_rename", "sound_delete", "sound_list",
        "font_load", "image_load", "sound_load", "sound_save_processed_wav",
        "sound_update_processed_wav"
    ];
    proof {
        assert(writes@.map_values(|s: &str| s@) =~= write_commands());
    }
    if one_of(&c, &writes) {
        return string_of(&chars_of("write"));
    }
    string_of(&chars_of("unsupported"))
}

} // verus!
