use dmnote_editor_engine::preview::{
    is_allowed_field, is_preview_session_id, patch_kind, validate_payload_size, validate_preview_gradient,
    validate_publish_request, validate_session_id, GradientStop, PatchEntry, PatchValue, PreviewDomain,
    PreviewKind, PreviewPublishRequest, MAX_PREVIEW_BYTES,
};

use dmnote_editor_engine::web_session::web_command_kind;

const SESSION: &str = "123e4567-e89b-12d3-a456-426614174000";

fn stop(color: &str, in_range: bool) -> GradientStop {
    GradientStop { color: Some(color.into()), pos_in_unit_range: in_range }
}

fn gradient(stops: Vec<GradientStop>) -> PatchValue {
    PatchValue::Object { angle_finite: true, stops: Some(stops) }
}

fn request(domain: PreviewDomain, patch: Vec<PatchEntry>) -> PreviewPublishRequest {
    PreviewPublishRequest {
        schema_version: 1,
        session_id: SESSION.into(),
        seq: 1,
        kind: PreviewKind::Patch,
        domain,
        mode: "4key".into(),
        targets: vec![0, 1],
        patch,
    }
}

fn entry(field: &str, value: PatchValue) -> PatchEntry {
    PatchEntry { field: field.into(), value }
}

#[test]
fn well_formed_patches_pass() {
    let patch = vec![
        entry("dx", PatchValue::Other),
        entry("backgroundGradient", gradient(vec![stop("#000", true), stop("#fff", true)])),
        entry("fontGradient", PatchValue::Null),
    ];
    assert_eq!(validate_publish_request(&request(PreviewDomain::KeyPosition, patch), 100), Ok(()));
    let sprite = vec![entry("pivot", PatchValue::Other), entry("poses", PatchValue::Other)];
    assert_eq!(validate_publish_request(&request(PreviewDomain::SpritePosition, sprite), 100), Ok(()));
    assert_eq!(patch_kind(), PreviewKind::Patch);
}

#[test]
fn request_header_is_checked_in_order() {
    let mut r = request(PreviewDomain::KeyPosition, vec![]);
    r.schema_version = 2;
    r.kind = PreviewKind::Cancel;
    assert_eq!(validate_publish_request(&r, 10).unwrap_err(), "unsupported preview schema version");
    r.schema_version = 1;
    assert_eq!(
        validate_publish_request(&r, 10).unwrap_err(),
        "editor_preview_publish only accepts patch messages"
    );
    r.kind = PreviewKind::Patch;
    r.session_id = "not-a-uuid".into();
    assert_eq!(validate_publish_request(&r, 10).unwrap_err(), "preview sessionId must be a UUID");
    r.session_id = SESSION.into();
    r.targets = vec![0; 513];
    assert_eq!(validate_publish_request(&r, 10).unwrap_err(), "preview target count exceeds 512");
    r.targets = vec![0; 512];
    assert_eq!(validate_publish_request(&r, 10), Ok(()));
    assert_eq!(
        validate_publish_request(&r, MAX_PREVIEW_BYTES + 1).unwrap_err(),
        "preview payload exceeds the 65536 byte limit"
    );
}

#[test]
fn fields_outside_the_domain_are_refused_first() {
    let patch = vec![
        entry("dx", PatchValue::Other),
        entry("borderGradient", PatchValue::Other),
        entry("pivot", PatchValue::Other),
        entry("count", PatchValue::Other),
    ];
    assert_eq!(
        validate_publish_request(&request(PreviewDomain::GraphPosition, patch), 10).unwrap_err(),
        "preview patch field 'pivot' is not allowed"
    );
    assert!(is_allowed_field(PreviewDomain::SpritePosition, "referenceNaturalSize"));
    assert!(!is_allowed_field(PreviewDomain::SpritePosition, "fontSize"));
    assert!(is_allowed_field(PreviewDomain::KnobPosition, "fontStrikethrough"));
    assert!(!is_allowed_field(PreviewDomain::KeyPosition, "layerName"));
}

#[test]
fn gradient_values_are_checked() {
    let f = "activeFontGradient";
    assert_eq!(validate_preview_gradient(f, &PatchValue::Null), Ok(()));
    assert_eq!(
        validate_preview_gradient(f, &PatchValue::Other).unwrap_err(),
        "preview field 'activeFontGradient' must be null or a gradient object"
    );
    let no_angle = PatchValue::Object { angle_finite: false, stops: None };
    assert_eq!(
        validate_preview_gradient(f, &no_angle).unwrap_err(),
        "preview field 'activeFontGradient' must carry a finite angle"
    );
    let no_stops = PatchValue::Object { angle_finite: true, stops: None };
    assert_eq!(
        validate_preview_gradient(f, &no_stops).unwrap_err(),
        "preview field 'activeFontGradient' must carry gradient stops"
    );
    assert_eq!(
        validate_preview_gradient(f, &gradient(vec![stop("#000", true)])).unwrap_err(),
        "preview field 'activeFontGradient' must contain between 2 and 8 stops"
    );
    assert!(validate_preview_gradient(f, &gradient((0..9).map(|_| stop("#000", true)).collect())).is_err());
    assert_eq!(validate_preview_gradient(f, &gradient((0..8).map(|_| stop("#000", true)).collect())), Ok(()));
    let blank = gradient(vec![stop("#000", true), stop("   ", true)]);
    assert_eq!(
        validate_preview_gradient(f, &blank).unwrap_err(),
        "preview field 'activeFontGradient' stops must carry a color and a pos between 0 and 1"
    );
    let out_of_range = gradient(vec![stop("#000", true), stop("#fff", false)]);
    assert!(validate_preview_gradient(f, &out_of_range).is_err());
    let colorless = gradient(vec![stop("#000", true), GradientStop { color: None, pos_in_unit_range: true }]);
    assert!(validate_preview_gradient(f, &colorless).is_err());
    let patch = vec![entry("shadow", PatchValue::Other), entry("borderGradient", no_stops)];
    assert_eq!(
        validate_publish_request(&request(PreviewDomain::KeyPosition, patch), 10).unwrap_err(),
        "preview field 'borderGradient' must carry gradient stops"
    );
}

#[test]
fn session_ids_and_sizes() {
    assert!(is_preview_session_id(SESSION));
    assert!(!is_preview_session_id("session-1"));
    assert_eq!(validate_session_id(SESSION), Ok(()));
    assert_eq!(validate_payload_size(MAX_PREVIEW_BYTES), Ok(()));
    assert!(validate_payload_size(MAX_PREVIEW_BYTES + 1).is_err());
}

#[test]
fn web_commands_are_classed_as_reads_writes_or_unsupported() {
    assert_eq!(web_command_kind("editor_get"), "read");
    assert_eq!(web_command_kind("sound_load_original"), "read");
    assert_eq!(web_command_kind("preset_save_tab"), "read");
    assert_eq!(web_command_kind("sound_delete"), "write");
    assert_eq!(web_command_kind("editor_commit"), "write");
    assert_eq!(web_command_kind("sound_update_processed_wav"), "write");
    assert_eq!(web_command_kind("editor_get "), "unsupported");
    assert_eq!(web_command_kind(""), "unsupported");
}
