//! Validation of live preview messages: an editor window publishes a patch of element
//! fields for a preview session, and only well-formed patches of known fields pass.
use crate::codec::{parse_uuid_ok, uuid_parses};
use crate::text::{chars_of, concat, ends_with, has_suffix, seq_eq, string_of, trim, trim_chars};
use vstd::prelude::*;

verus! {

/// The preview message format that this library speaks.
pub const PREVIEW_SCHEMA_VERSION: u16 = 1;

/// Largest serialized preview message, in bytes.
pub const MAX_PREVIEW_BYTES: usize = 65536;

/// Most elements that one preview message may aim at.
pub const MAX_PREVIEW_TARGETS: usize = 512;

/// How many finished preview sessions are remembered.
pub const TOMBSTONE_CAPACITY: usize = 1024;

/// Most preview sessions open at once.
pub const MAX_ACTIVE_PREVIEW_SESSIONS: usize = 1024;

/// Whether a preview message carries a patch or cancels the session.
#[derive(Clone, Copy, Debug, PartialEq, Eq, Structural)]
pub enum PreviewKind {
    Patch,
    Cancel,
}

/// The kind of element that a preview patch changes.
#[derive(Clone, Copy, Debug, PartialEq, Eq, Structural)]
pub enum PreviewDomain {
    KeyPosition,
    StatPosition,
    GraphPosition,
    KnobPosition,
    SpritePosition,
}

/// The kind that a publish request has when it names none.
pub fn patch_kind() -> (r: PreviewKind)
    ensures
        r == PreviewKind::Patch,
{
    PreviewKind::Patch
}

/// Fields of key, statistic, graph and knob elements that a preview may change.
pub open spec fn key_position_patch_fields() -> Seq<Seq<char>> {
    seq![
        "dx"@, "dy"@, "width"@, "height"@, "rotation"@, "hidden"@, "activeImage"@,
        "inactiveImage"@, "soundEnabled"@, "soundPath"@, "soundVolume"@, "activeTransparent"@,
        "idleTransparent"@, "noteColor"@, "noteOpacity"@, "noteOpacityTop"@, "noteOpacityBottom"@,
        "noteBorderRadius"@, "noteWidth"@, "noteAlignment"@, "noteEffectEnabled"@,
        "noteGlowEnabled"@, "noteGlowSyncPaint"@, "noteGlowSize"@, "noteGlowOpacity"@,
        "noteGlowOpacityTop"@, "noteGlowOpacityBottom"@, "noteGlowColor"@, "noteAutoYCorrection"@,
        "noteOffsetX"@, "noteOffsetY"@, "noteBorderWidth"@, "noteBorderColor"@,
        "noteBorderOpacity"@, "noteBorderSide"@, "className"@, "zIndex"@, "counter"@,
        "backgroundColor"@, "activeBackgroundColor"@, "borderColor"@, "activeBorderColor"@,
        "backgroundGradient"@, "activeBackgroundGradient"@, "borderGradient"@,
        "activeBorderGradient"@, "borderWidth"@, "borderRadius"@, "shadow"@, "activeShadow"@,
        "fontSize"@, "fontColor"@, "activeFontColor"@, "fontGradient"@, "activeFontGradient"@,
        "graphAnimationEnabled"@, "fontFamily"@, "idleImageFit"@, "activeImageFit"@, "imageFit"@,
        "idleImageTransform"@, "activeImageTransform"@, "useInlineStyles"@, "displayText"@,
        "fontWeight"@, "fontItalic"@, "fontUnderline"@, "fontStrikethrough"@
    ]
}

/// Fields of sprite elements that a preview may change.
pub open spec fn sprite_position_patch_fields() -> Seq<Seq<char>> {
    seq![
        "dx"@, "dy"@, "width"@, "height"@, "rotation"@, "pivot"@, "idleTransform"@, "poses"@,
        "pressDurationMs"@, "transitionMs"@, "transitionEasing"@, "baseImage"@,
        "referenceNaturalSize"@
    ]
}

/// The fields that a preview of a domain may change.
pub open spec fn allowed_fields(domain: PreviewDomain) -> Seq<Seq<char>> {
    match domain {
        PreviewDomain::SpritePosition => sprite_position_patch_fields(),
        _ => key_position_patch_fields(),
    }
}

/// Whether a preview of the domain may change the field.
pub fn is_allowed_field(domain: PreviewDomain, field: &str) -> (r: bool)
    ensures
        r == allowed_fields(domain).contains(field@),
{
    let f = chars_of(field);
    match domain {
        PreviewDomain::SpritePosition => {
            let names: [&str; 13] = [
                "dx", "dy", "width", "height", "rotation", "pivot", "idleTransform", "poses",
                "pressDurationMs", "transitionMs", "transitionEasing", "baseImage",
                "referenceNaturalSize"
            ];
            proof {
                assert(names@.map_values(|s: &str| s@) =~= sprite_position_patch_fields());
            }
            one_of(&f, &names)
        },
        _ => {
            let names: [&str; 68] = [
                "dx", "dy", "width", "height", "rotation", "hidden", "activeImage",
                "inactiveImage", "soundEnabled", "soundPath", "soundVolume", "activeTransparent",
                "idleTransparent", "noteColor", "noteOpacity", "noteOpacityTop",
                "noteOpacityBottom", "noteBorderRadius", "noteWidth", "noteAlignment",
                "noteEffectEnabled", "noteGlowEnabled", "noteGlowSyncPaint", "noteGlowSize",
                "noteGlowOpacity", "noteGlowOpacityTop", "noteGlowOpacityBottom", "noteGlowColor",
                "noteAutoYCorrection", "noteOffsetX", "noteOffsetY", "noteBorderWidth",
                "noteBorderColor", "noteBorderOpacity", "noteBorderSide", "className", "zIndex",
                "counter", "backgroundColor", "activeBackgroundColor", "borderColor",
                "activeBorderColor", "backgroundGradient", "activeBackgroundGradient",
                "borderGradient", "activeBorderGradient", "borderWidth", "borderRadius", "shadow",
                "activeShadow", "fontSize", "fontColor", "activeFontColor", "fontGradient",
                "activeFontGradient", "graphAnimationEnabled", "fontFamily", "idleImageFit",
                "activeImageFit", "imageFit", "idleImageTransform", "activeImageTransform",
                "useInlineStyles", "displayText", "fontWeight", "fontItalic", "fontUnderline",
                "fontStrikethrough"
            ];
            proof {
                assert(names@.map_values(|s: &str| s@) =~= key_position_patch_fields());
            }
            one_of(&f, &names)
        },
    }
}

pub(crate) fn one_of(f: &Vec<char>, names: &[&str]) -> (r: bool)
    ensures
        r == names@.map_values(|s: &str| s@).contains(f@),
{
    let ghost views = names@.map_values(|s: &str| s@);
    let mut i: usize = 0;
    while i < names.len()
        invariant
            i <= names.len(),
            views == names@.map_values(|s: &str| s@),
            forall|j: int| 0 <= j < i ==> views[j] != f@,
        decreases names.len() - i,
    {
        if seq_eq(f, &chars_of(names[i])) {
            assert(views[i as int] == f@);
            return true;
        }
        i += 1;
    }
    false
}

/// A stop of a gradient, as far as the check reads it: its color, and whether its position
/// is a finite number from 0 to 1.
pub struct GradientStop {
    pub color: Option<String>,
    pub pos_in_unit_range: bool,
}

/// Value of [`GradientStop`] in specifications.
pub struct GradientStopV {
    pub color: Option<Seq<char>>,
    pub pos_in_unit_range: bool,
}

impl DeepView for GradientStop {
    type V = GradientStopV;

    open spec fn deep_view(&self) -> GradientStopV {
        GradientStopV { color: self.color.deep_view(), pos_in_unit_range: self.pos_in_unit_range }
    }
}

/// A patch value, as far as the gradient check reads it: null, an object (whose angle is a
/// finite number or not, with its stops where it has an array of them), or anything else.
pub enum PatchValue {
    Null,
    Object { angle_finite: bool, stops: Option<Vec<GradientStop>> },
    Other,
}

/// Value of [`PatchValue`] in specifications.
pub enum PatchValueV {
    Null,
    Object { angle_finite: bool, stops: Option<Seq<GradientStopV>> },
    Other,
}

impl DeepView for PatchValue {
    type V = PatchValueV;

    open spec fn deep_view(&self) -> PatchValueV {
        match self {
            PatchValue::Null => PatchValueV::Null,
            PatchValue::Object { angle_finite, stops } => PatchValueV::Object {
                angle_finite: *angle_finite,
                stops: stops.deep_view(),
            },
            PatchValue::Other => PatchValueV::Other,
        }
    }
}

/// A message about a preview field: `preview field '<field>` and the rest.
pub open spec fn field_message(field: Seq<char>, rest: Seq<char>) -> Seq<char> {
    "preview field '"@ + field + rest
}

/// A stop passes when it has a color that is not blank and a position from 0 to 1.
pub open spec fn stop_ok(s: GradientStopV) -> bool {
    s.pos_in_unit_range && match s.color {
        Some(c) => trim(c).len() > 0,
        None => false,
    }
}

/// Why a gradient field's value is refused, if it is: null passes; otherwise it must be
/// an object with a finite angle and two to eight stops that each pass.
pub open spec fn gradient_error(field: Seq<char>, value: PatchValueV) -> Option<Seq<char>> {
    match value {
        PatchValueV::Null => None,
        PatchValueV::Other => Some(field_message(field, "' must be null or a gradient object"@)),
        PatchValueV::Object { angle_finite, stops } => if !angle_finite {
            Some(field_message(field, "' must carry a finite angle"@))
        } else {
            match stops {
                None => Some(field_message(field, "' must carry gradient stops"@)),
                Some(s) => if s.len() < 2 || s.len() > 8 {
                    Some(field_message(field, "' must contain between 2 and 8 stops"@))
                } else if exists|i: int| 0 <= i < s.len() && !stop_ok(#[trigger] s[i]) {
                    Some(field_message(field, "' stops must carry a color and a pos between 0 and 1"@))
                } else {
                    None
                },
            }
        },
    }
}

fn field_error(field: &str, rest: &str) -> (r: String)
    ensures
        r@ == field_message(field@, rest@),
{
    let a = concat("preview field '", field);
    concat(a.as_str(), rest)
}

/// Checks the value of a gradient field, as [`gradient_error`] states.
pub fn validate_preview_gradient(field: &str, value: &PatchValue) -> (r: Result<(), String>)
    ensures
        match gradient_error(field@, value.deep_view()) {
            None => r is Ok,
            Some(m) => r matches Err(e) && e@ == m,
        },
{
    match value {
        PatchValue::Null => Ok(()),
        PatchValue::Other => Err(field_error(field, "' must be null or a gradient object")),
        PatchValue::Object { angle_finite, stops } => {
            if !*angle_finite {
                return Err(field_error(field, "' must carry a finite angle"));
            }
            let stops = match stops {
                Some(s) => s,
                None => {
                    return Err(field_error(field, "' must carry gradient stops"));
                },
            };
            if stops.len() < 2 || stops.len() > 8 {
                return Err(field_error(field, "' must contain between 2 and 8 stops"));
            }
            let ghost sv = stops.deep_view();
            let mut i: usize = 0;
            while i < stops.len()
                invariant
                    i <= stops.len(),
                    sv == stops.deep_view(),
                    2 <= sv.len() <= 8,
                    value.deep_view() == (PatchValueV::Object { angle_finite: true, stops: Some(sv) }),
                    forall|j: int| 0 <= j < i ==> stop_ok(#[trigger] sv[j]),
                decreases stops.len() - i,
            {
                let stop = &stops[i];
                let color_ok = match &stop.color {
                    Some(c) => trim_chars(&chars_of(c.as_str())).len() > 0,
                    None => false,
                };
                assert(sv[i as int] == stop.deep_view());
                if !color_ok || !stop.pos_in_unit_range {
                    assert(!stop_ok(sv[i as int]));
                    return Err(field_error(field, "' stops must carry a color and a pos between 0 and 1"));
                }
                i += 1;
            }
            Ok(())
        },
    }
}

/// Refuses a preview session id that `uuid::Uuid::parse_str` does not accept.
pub fn validate_session_id(session_id: &str) -> (r: Result<(), String>)
    ensures
        r is Ok <==> uuid_parses(session_id@),
        r matches Err(e) ==> e@ == "preview sessionId must be a UUID"@,
{
    if parse_uuid_ok(session_id) {
        Ok(())
    } else {
        Err(string_of(&chars_of("preview sessionId must be a UUID")))
    }
}

/// Whether a text is a preview session id.
pub fn is_preview_session_id(value: &str) -> (r: bool)
    ensures
        r == uuid_parses(value@),
{
    parse_uuid_ok(value)
}

/// Refuses a preview message whose serialized form has more than [`MAX_PREVIEW_BYTES`]
/// bytes; `size` is that length.
pub fn validate_payload_size(size: usize) -> (r: Result<(), String>)
    ensures
        r is Ok <==> size <= MAX_PREVIEW_BYTES,
        r matches Err(e) ==> e@ == "preview payload exceeds the 65536 byte limit"@,
{
    if size > MAX_PREVIEW_BYTES {
        return Err(string_of(&chars_of("preview payload exceeds the 65536 byte limit")));
    }
    Ok(())
}

/// One field of a preview patch with its value.
pub struct PatchEntry {
    pub field: String,
    pub value: PatchValue,
}

/// Value of [`PatchEntry`] in specifications.
pub struct PatchEntryV {
    pub field: Seq<char>,
    pub value: PatchValueV,
}

impl DeepView for PatchEntry {
    type V = PatchEntryV;

    open spec fn deep_view(&self) -> PatchEntryV {
        PatchEntryV { field: self.field@, value: self.value.deep_view() }
    }
}

/// A request to publish a preview patch, as far as its validation reads it; the patch
/// lists its fields in the order of the message.
pub struct PreviewPublishRequest {
    pub schema_version: u16,
    pub session_id: String,
    pub seq: u64,
    pub kind: PreviewKind,
    pub domain: PreviewDomain,
    pub mode: String,
    pub targets: Vec<u32>,
    pub patch: Vec<PatchEntry>,
}

/// The first field of the patch, from entry `i` on, that the domain does not allow.
pub open spec fn first_disallowed(patch: Seq<PatchEntryV>, domain: PreviewDomain, i: int) -> Option<Seq<char>>
    decreases patch.len() - i,
{
    if i < 0 || i >= patch.len() {
        None
    } else if !allowed_fields(domain).contains(patch[i].field) {
        Some(patch[i].field)
    } else {
        first_disallowed(patch, domain, i + 1)
    }
}

/// The first refusal of a gradient field of the patch, from entry `i` on.
pub open spec fn first_gradient_error(patch: Seq<PatchEntryV>, i: int) -> Option<Seq<char>>
    decreases patch.len() - i,
{
    if i < 0 || i >= patch.len() {
        None
    } else if ends_with(patch[i].field, "Gradient"@) && gradient_error(patch[i].field, patch[i].value) is Some {
        gradient_error(patch[i].field, patch[i].value)
    } else {
        first_gradient_error(patch, i + 1)
    }
}

/// Why a publish request is refused, if it is, checked in this order: the format version,
/// the kind, the session id, the number of targets, the patch's fields, its gradient
/// values, and the serialized size `size`.
pub open spec fn publish_error(
    schema_version: u16,
    session_id: Seq<char>,
    kind: PreviewKind,
    domain: PreviewDomain,
    targets: nat,
    patch: Seq<PatchEntryV>,
    size: nat,
) -> Option<Seq<char>> {
    if schema_version != PREVIEW_SCHEMA_VERSION {
        Some("unsupported preview schema version"@)
    } else if kind != PreviewKind::Patch {
        Some("editor_preview_publish only accepts patch messages"@)
    } else if !uuid_parses(session_id) {
        Some("preview sessionId must be a UUID"@)
    } else if targets > MAX_PREVIEW_TARGETS {
        Some("preview target count exceeds 512"@)
    } else if first_disallowed(patch, domain, 0) is Some {
        Some("preview patch field '"@ + first_disallowed(patch, domain, 0)->0 + "' is not allowed"@)
    } else if first_gradient_error(patch, 0) is Some {
        first_gradient_error(patch, 0)
    } else if size > MAX_PREVIEW_BYTES {
        Some("preview payload exceeds the 65536 byte limit"@)
    } else {
        None
    }
}

/// Checks a publish request whose serialized form has `size` bytes, as [`publish_error`]
/// states.
pub fn validate_publish_request(request: &PreviewPublishRequest, size: usize) -> (r: Result<(), String>)
    ensures
        match publish_error(
            request.schema_version,
            request.session_id@,
            request.kind,
            request.domain,
            request.targets@.len(),
            request.patch.deep_view(),
            size as nat,
        ) {
            None => r is Ok,
            Some(m) => r matches Err(e) && e@ == m,
        },
{
    if request.schema_version != PREVIEW_SCHEMA_VERSION {
        return Err(string_of(&chars_of("unsupported preview schema version")));
    }
    if request.kind != PreviewKind::Patch {
        return Err(string_of(&chars_of("editor_preview_publish only accepts patch messages")));
    }
    validate_session_id(request.session_id.as_str())?;
    if request.targets.len() > MAX_PREVIEW_TARGETS {
        return Err(string_of(&chars_of("preview target count exceeds 512")));
    }
    let ghost pv = request.patch.deep_view();
    let n = request.patch.len();
    let mut i: usize = 0;
    while i < n
        invariant
            n == request.patch.len(),
            i <= n,
            pv == request.patch.deep_view(),
            request.schema_version == PREVIEW_SCHEMA_VERSION,
            request.kind == PreviewKind::Patch,
            uuid_parses(request.session_id@),
            request.targets@.len() <= MAX_PREVIEW_TARGETS,
            first_disallowed(pv, request.domain, 0) == first_disallowed(pv, request.domain, i as int),
        decreases n - i,
    {
        let entry = &request.patch[i];
        assert(pv[i as int] == entry.deep_view());
        if !is_allowed_field(request.domain, entry.field.as_str()) {
            assert(first_disallowed(pv, request.domain, i as int) == Some(pv[i as int].field));
            let a = concat("preview patch field '", entry.field.as_str());
            return Err(concat(a.as_str(), "' is not allowed"));
        }
        i += 1;
    }
    let mut i: usize = 0;
    while i < n
        invariant
            n == request.patch.len(),
            i <= n,
            pv == request.patch.deep_view(),
            request.schema_version == PREVIEW_SCHEMA_VERSION,
            request.kind == PreviewKind::Patch,
            uuid_parses(request.session_id@),
            request.targets@.len() <= MAX_PREVIEW_TARGETS,
            first_gradient_error(pv, 0) == first_gradient_error(pv, i as int),
            first_disallowed(pv, request.domain, 0) is None,
        decreases n - i,
    {
        let entry = &request.patch[i];
        assert(pv[i as int] == entry.deep_view());
        if has_suffix(&chars_of(entry.field.as_str()), &chars_of("Gradient")) {
            match validate_preview_gradient(entry.field.as_str(), &entry.value) {
                Ok(()) => {},
                Err(e) => {
                    assert(first_gradient_error(pv, i as int) == gradient_error(pv[i as int].field, pv[i as int].value));
                    return Err(e);
                },
            }
        }
        i += 1;
    }
    validate_payload_size(size)
}

} // verus!
