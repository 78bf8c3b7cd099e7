//! Editing-data rules of the key-overlay editor: web assets, presets, tabs and sounds.
pub mod text;
pub mod strmap;
pub mod model;
pub mod codec;
pub mod asset_key;
pub mod web_assets;
pub mod file_url;
pub mod asset_refs;
pub mod looks;
pub mod preset_export;
pub mod preset_restore;
pub mod tab_meta;
pub mod preset_import;
pub mod web_css;
pub mod preset_plan;
pub mod web_preset;
pub mod deep_eq;
pub mod tab_data;
pub mod counter_animation;
pub mod sounds;
pub mod portable_assets;
pub mod css_history;
pub mod xml_events;
pub mod image_content;
pub mod round_trip;
pub mod sound_edits;
pub mod web_resources;
pub mod preview;
pub mod web_session;
pub mod tab_commands;
pub mod css_commands;
pub mod session_reads;
pub mod gesture;
pub mod plugin_storage;
pub mod plugin_authority;
pub mod preview_broker;
