use dmnote_editor_engine::asset_refs::normalize_image_extension;
use dmnote_editor_engine::image_content::{
    image_bytes_have_supported_content, image_load_response, image_reader_has_supported_content,
    scan_svg_events, svg_scan_step, ScanOutcome, SvgEvent, SvgScan, XmlNamespace,
    INVALID_IMAGE_CONTENT, SVG_PARSE_BUDGET,
};

fn accepted(bytes: &[u8]) -> bool {
    image_bytes_have_supported_content(bytes)
}

fn utf16(text: &str, little_endian: bool) -> Vec<u8> {
    let mut bytes = if little_endian { vec![0xFF, 0xFE] } else { vec![0xFE, 0xFF] };
    for unit in text.encode_utf16() {
        if little_endian {
            bytes.extend_from_slice(&unit.to_le_bytes());
        } else {
            bytes.extend_from_slice(&unit.to_be_bytes());
        }
    }
    bytes
}

#[test]
fn gif_extension_is_kept_without_format_conversion() {
    assert_eq!(normalize_image_extension(Some("GIF")), "gif");
}

#[test]
fn unknown_extension_uses_existing_png_fallback() {
    assert_eq!(normalize_image_extension(Some("unknown")), "png");
    assert_eq!(normalize_image_extension(None), "png");
}

#[test]
fn binary_image_signatures_are_accepted() {
    assert!(accepted(b"\x89PNG\r\n\x1a\n"));
    assert!(accepted(b"GIF89a"));
}

#[test]
fn text_file_with_png_extension_is_rejected() {
    assert!(!accepted(b"plain text"));
}

#[test]
fn long_non_markup_file_is_rejected() {
    let bytes = "plain text ".repeat(2000);
    assert!(!accepted(bytes.as_bytes()));
}

#[test]
fn plain_svg_root_is_accepted() {
    let svg = br#"<svg xmlns="http://www.w3.org/2000/svg"><rect width="64" height="64"/></svg>"#;
    assert!(accepted(svg));
}

#[test]
fn svg_after_declaration_comment_and_doctype_is_accepted() {
    let svg = br#"<?xml version="1.0" encoding="UTF-8"?>
<!-- icon -->
<!DOCTYPE svg PUBLIC "-//W3C//DTD SVG 1.1//EN" "http://www.w3.org/Graphics/SVG/1.1/DTD/svg11.dtd">
<svg xmlns="http://www.w3.org/2000/svg"/>"#;
    assert!(accepted(svg));
}

#[test]
fn svg_behind_a_comment_longer_than_the_signature_prefix_is_accepted() {
    let mut svg = format!("<!--{}-->", "c".repeat(9000)).into_bytes();
    svg.extend_from_slice(br#"<svg xmlns="http://www.w3.org/2000/svg"/>"#);
    assert!(accepted(&svg));
}

#[test]
fn svg_behind_whitespace_longer_than_the_signature_prefix_is_accepted() {
    let mut svg = " ".repeat(9000).into_bytes();
    svg.extend_from_slice(br#"<svg xmlns="http://www.w3.org/2000/svg"/>"#);
    assert!(accepted(&svg));
}

#[test]
fn svg_with_utf8_bom_is_accepted() {
    let mut svg = b"\xef\xbb\xbf".to_vec();
    svg.extend_from_slice(br#"<svg xmlns="http://www.w3.org/2000/svg"/>"#);
    assert!(accepted(&svg));
}

#[test]
fn namespace_prefixed_svg_root_is_accepted() {
    assert!(accepted(br#"<svg:svg xmlns:svg="http://www.w3.org/2000/svg"/>"#));
}

#[test]
fn svg_local_name_in_a_foreign_namespace_is_rejected() {
    assert!(!accepted(br#"<foo:svg xmlns:foo="http://example.com/not-svg"/>"#));
}

#[test]
fn svg_without_namespace_is_rejected() {
    assert!(!accepted(br#"<svg><rect/></svg>"#));
}

#[test]
fn second_root_element_is_rejected() {
    let svg = br#"<svg xmlns="http://www.w3.org/2000/svg"/><svg xmlns="http://www.w3.org/2000/svg"/>"#;
    assert!(!accepted(svg));
}

#[test]
fn trailing_text_after_the_root_is_rejected() {
    assert!(!accepted(br#"<svg xmlns="http://www.w3.org/2000/svg"></svg>trailing"#));
}

#[test]
fn trailing_whitespace_and_comment_after_the_root_are_allowed() {
    let svg = br#"<svg xmlns="http://www.w3.org/2000/svg"></svg>
<!-- done -->
"#;
    assert!(accepted(svg));
}

#[test]
fn utf16_with_an_odd_trailing_byte_is_rejected() {
    let mut bytes = utf16(r#"<svg xmlns="http://www.w3.org/2000/svg"/>"#, true);
    bytes.push(0x20);
    assert!(!accepted(&bytes));
}

#[test]
fn utf16_with_a_lone_surrogate_is_rejected() {
    let mut bytes = utf16(r#"<svg xmlns="http://www.w3.org/2000/svg"/>"#, true);
    bytes.extend_from_slice(&0xD800_u16.to_le_bytes());
    assert!(!accepted(&bytes));
}

#[test]
fn truncated_document_after_the_root_is_rejected() {
    assert!(!accepted(br#"<svg xmlns="http://www.w3.org/2000/svg"><g>"#));
}

#[test]
fn utf16le_svg_is_accepted() {
    assert!(accepted(&utf16(r#"<svg xmlns="http://www.w3.org/2000/svg"><rect/></svg>"#, true)));
}

#[test]
fn utf16be_svg_is_accepted() {
    assert!(accepted(&utf16(r#"<svg xmlns="http://www.w3.org/2000/svg"/>"#, false)));
}

#[test]
fn multibyte_content_does_not_break_detection() {
    let mut svg = br#"<svg xmlns="http://www.w3.org/2000/svg"><text>"#.to_vec();
    svg.extend_from_slice("가".repeat(4096).as_bytes());
    svg.extend_from_slice(b"</text></svg>");
    assert!(accepted(&svg));
}

#[test]
fn markup_whose_root_is_not_svg_is_rejected() {
    assert!(!accepted(br#"<html><svg></svg></html>"#));
}

#[test]
fn document_larger_than_the_parse_budget_is_accepted_after_the_root() {
    let mut svg = br#"<svg xmlns="http://www.w3.org/2000/svg"><text>"#.to_vec();
    svg.resize(SVG_PARSE_BUDGET as usize + 4096, b'x');
    assert!(accepted(&svg));
}

#[test]
fn budget_boundary_inside_an_attribute_still_accepts() {
    let mut svg = br#"<svg xmlns="http://www.w3.org/2000/svg"><path d=""#.to_vec();
    svg.resize(SVG_PARSE_BUDGET as usize + 4096, b'1');
    svg.extend_from_slice(br#""/></svg>"#);
    assert!(accepted(&svg));
}

#[test]
fn budget_boundary_inside_a_comment_still_accepts() {
    let mut svg = br#"<svg xmlns="http://www.w3.org/2000/svg"><!--"#.to_vec();
    svg.resize(SVG_PARSE_BUDGET as usize + 4096, b'c');
    svg.extend_from_slice(br#"--></svg>"#);
    assert!(accepted(&svg));
}

#[test]
fn utf16_document_larger_than_the_budget_is_accepted_after_the_root() {
    let mut bytes = utf16(r#"<svg xmlns="http://www.w3.org/2000/svg"><text>"#, true);
    while (bytes.len() as u64) < SVG_PARSE_BUDGET + 4096 {
        bytes.extend_from_slice(&(b'x' as u16).to_le_bytes());
    }
    assert!(accepted(&bytes));
}

#[test]
fn malformed_small_document_is_still_rejected() {
    assert!(!accepted(br#"<svg xmlns="http://www.w3.org/2000/svg"><path d="unclosed"#));
}

#[test]
fn prolog_beyond_the_parse_budget_is_rejected() {
    let mut svg = format!("<!--{}-->", "c".repeat(SVG_PARSE_BUDGET as usize)).into_bytes();
    svg.extend_from_slice(br#"<svg xmlns="http://www.w3.org/2000/svg"/>"#);
    assert!(!accepted(&svg));
}

#[test]
fn reader_head_and_size_decide_like_the_whole_bytes() {
    let svg = br#"<svg xmlns="http://www.w3.org/2000/svg"/>"#;
    assert!(image_reader_has_supported_content(svg, svg.len() as u64));
    let cut = br#"<svg xmlns="http://www.w3.org/2000/svg"><g>"#;
    assert!(!image_reader_has_supported_content(cut, cut.len() as u64));
    assert!(image_reader_has_supported_content(cut, SVG_PARSE_BUDGET + 1));
}

fn svg_root() -> (XmlNamespace, Vec<u8>) {
    (XmlNamespace::Bound(b"http://www.w3.org/2000/svg".to_vec()), b"svg".to_vec())
}

#[test]
fn scan_steps_follow_the_root_rules() {
    let start = SvgScan { root_seen: false, root_closed: false, depth: 0 };
    let (ns, local) = svg_root();
    let opened = svg_scan_step(start, &SvgEvent::Start(ns, local), false);
    let inside = SvgScan { root_seen: true, root_closed: false, depth: 1 };
    assert_eq!(opened, ScanOutcome::Undecided(inside));
    assert_eq!(
        svg_scan_step(inside, &SvgEvent::End, false),
        ScanOutcome::Undecided(SvgScan { root_seen: true, root_closed: true, depth: 0 })
    );
    assert_eq!(svg_scan_step(start, &SvgEvent::Text(b" \n\t".to_vec()), false), ScanOutcome::Undecided(start));
    assert_eq!(svg_scan_step(start, &SvgEvent::Text(b"x".to_vec()), false), ScanOutcome::Decided(false));
    assert_eq!(svg_scan_step(start, &SvgEvent::CData, false), ScanOutcome::Decided(false));
    assert_eq!(svg_scan_step(inside, &SvgEvent::CData, false), ScanOutcome::Undecided(inside));
    assert_eq!(svg_scan_step(start, &SvgEvent::Markup, false), ScanOutcome::Undecided(start));
    assert_eq!(svg_scan_step(inside, &SvgEvent::Eof, false), ScanOutcome::Decided(false));
    assert_eq!(svg_scan_step(inside, &SvgEvent::Eof, true), ScanOutcome::Decided(true));
    assert_eq!(svg_scan_step(inside, &SvgEvent::Error, true), ScanOutcome::Decided(true));
    assert_eq!(svg_scan_step(inside, &SvgEvent::Error, false), ScanOutcome::Decided(false));
    let foreign = SvgEvent::Empty(XmlNamespace::Bound(b"http://example.com".to_vec()), b"svg".to_vec());
    assert_eq!(svg_scan_step(start, &foreign, false), ScanOutcome::Decided(false));
    let unbound = SvgEvent::Start(XmlNamespace::Unbound, b"svg".to_vec());
    assert_eq!(svg_scan_step(start, &unbound, false), ScanOutcome::Decided(false));
}

#[test]
fn event_sequences_pass_only_with_one_closed_svg_root() {
    let (ns, local) = svg_root();
    let good = vec![SvgEvent::Markup, SvgEvent::Empty(ns, local), SvgEvent::Text(b"\n".to_vec()), SvgEvent::Eof];
    assert!(scan_svg_events(&good, false));
    let (ns, local) = svg_root();
    let (ns2, local2) = svg_root();
    let two_roots = vec![SvgEvent::Empty(ns, local), SvgEvent::Empty(ns2, local2), SvgEvent::Eof];
    assert!(!scan_svg_events(&two_roots, false));
    let (ns, local) = svg_root();
    let open = vec![SvgEvent::Start(ns, local), SvgEvent::Eof];
    assert!(!scan_svg_events(&open, false));
    let (ns, local) = svg_root();
    let cut = vec![SvgEvent::Start(ns, local)];
    assert!(scan_svg_events(&cut, true));
    assert!(!scan_svg_events(&[], true));
}

#[test]
fn response_serializes_error_code_and_keeps_cancellation_quiet() {
    let invalid = image_load_response(true, None);
    assert!(!invalid.success);
    assert_eq!(invalid.error_code.as_deref(), Some(INVALID_IMAGE_CONTENT));
    assert_eq!(invalid.error_code.as_deref(), Some("invalid-image-content"));
    assert!(invalid.image_path.is_none());
    let cancelled = image_load_response(false, None);
    assert!(!cancelled.success);
    assert!(cancelled.error_code.is_none());
    assert!(cancelled.error.is_none());
    let imported = image_load_response(true, Some("/images/a.png".to_string()));
    assert!(imported.success && imported.error.is_none() && imported.error_code.is_none());
    assert_eq!(imported.image_path.as_deref(), Some("/images/a.png"));
}
