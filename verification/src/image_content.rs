//! Whether a file holds an image: a known binary image signature, or an SVG document,
//! found by reading the document as XML and checking that its single root element is the
//! SVG namespace's `svg`.
use crate::xml_events::{
    next_xml_event, resolve_element_name, xml_raw_event, xml_reader, xml_resolved, XmlEvent,
    XmlEventV, XmlNamespaceV,
};
use vstd::prelude::*;

pub use crate::xml_events::XmlNamespace;

verus! {

/// How many leading bytes the binary signature check looks at.
pub const IMAGE_PREFIX_LENGTH: usize = 8192;

/// How many bytes of a document the SVG check reads.
pub const SVG_PARSE_BUDGET: u64 = 16777216;

/// At most this many XML events are read: a document within the parse budget cannot yield
/// more, since every event but the last consumes input.
pub const MAX_SVG_EVENTS: u64 = 67108864;

/// Whether `infer` recognises the bytes as a file type of its image kind.
pub uninterp spec fn infer_image(bytes: Seq<u8>) -> bool;

/// The bytes hold `t` (an ASCII text) from index `at` on.
pub open spec fn text_at(b: Seq<u8>, at: int, t: Seq<char>) -> bool {
    b.len() >= at + t.len() && b.subrange(at, at + t.len()) == ascii_bytes(t)
}

/// A ZIP local header naming an Office part first: the inputs on which `infer`'s Office
/// document matcher reads a 32-bit offset and adds to it in `usize`, which overflows where
/// `usize` has 32 bits. Such bytes are documents, not images.
pub open spec fn office_zip_header(b: Seq<u8>) -> bool {
    &&& b.len() >= 4 && b[0] == 0x50 && b[1] == 0x4B && b[2] == 0x03 && b[3] == 0x04
    &&& text_at(b, 30, "[Content_Types].xml"@) || text_at(b, 30, "_rels/.rels"@) || text_at(b, 30, "docProps"@)
}

/// Whether the library finds an image signature in some bytes: `infer`'s answer, except
/// that where `usize` has 32 bits an Office ZIP header is not handed to `infer` and counts
/// as no image.
pub open spec fn image_signature(b: Seq<u8>) -> bool {
    if usize::BITS == 64 || !office_zip_header(b) {
        infer_image(b)
    } else {
        false
    }
}

/// Calls `infer::get` and tells whether the type found is of the image kind
/// (`MatcherType::Image`). The answer depends on the bytes alone; where `usize` has 32
/// bits, the Office document matcher overflows on the headers of [`office_zip_header`],
/// which are therefore left out.
#[verifier::external_body]
fn has_image_signature(bytes: &[u8]) -> (r: bool)
    requires
        usize::BITS == 64 || !office_zip_header(bytes@),
    ensures
        r == infer_image(bytes@),
{
    match infer::get(bytes) {
        Some(kind) => kind.matcher_type() == infer::MatcherType::Image,
        None => false,
    }
}

fn has_text_at(b: &[u8], at: usize, t: &str) -> (r: bool)
    ensures
        r == text_at(b@, at as int, t@),
{
    let n = t.unicode_len();
    if at > b.len() || b.len() - at < n {
        return false;
    }
    let r = bytes_are_text(&b[at..at + n], t);
    assert(b@.subrange(at as int, at + n) =~= b@.subrange(at as int, at as int + t@.len()));
    r
}

fn has_office_zip_header(b: &[u8]) -> (r: bool)
    ensures
        r == office_zip_header(b@),
{
    b.len() >= 4 && b[0] == 0x50 && b[1] == 0x4B && b[2] == 0x03 && b[3] == 0x04 && (has_text_at(
        b,
        30,
        "[Content_Types].xml",
    ) || has_text_at(b, 30, "_rels/.rels") || has_text_at(b, 30, "docProps"))
}

/// Whether the library finds an image signature, as [`image_signature`] states.
fn image_signature_of(bytes: &[u8]) -> (r: bool)
    ensures
        r == image_signature(bytes@),
{
    if usize::BITS == 64 || !has_office_zip_header(bytes) {
        has_image_signature(bytes)
    } else {
        false
    }
}

/// An XML event with the namespace and local name of its element resolved.
pub enum SvgEvent {
    Start(XmlNamespace, Vec<u8>),
    Empty(XmlNamespace, Vec<u8>),
    End,
    Text(Vec<u8>),
    CData,
    Markup,
    Eof,
    Error,
}

/// Value of [`SvgEvent`] in specifications.
pub enum SvgEventV {
    Start(XmlNamespaceV, Seq<u8>),
    Empty(XmlNamespaceV, Seq<u8>),
    End,
    Text(Seq<u8>),
    CData,
    Markup,
    Eof,
    Error,
}

impl View for SvgEvent {
    type V = SvgEventV;

    open spec fn view(&self) -> SvgEventV {
        match self {
            SvgEvent::Start(ns, l) => SvgEventV::Start(ns@, l@),
            SvgEvent::Empty(ns, l) => SvgEventV::Empty(ns@, l@),
            SvgEvent::End => SvgEventV::End,
            SvgEvent::Text(t) => SvgEventV::Text(t@),
            SvgEvent::CData => SvgEventV::CData,
            SvgEvent::Markup => SvgEventV::Markup,
            SvgEvent::Eof => SvgEventV::Eof,
            SvgEvent::Error => SvgEventV::Error,
        }
    }
}

/// The `n`-th event of a document as the check reads it: the reader's `n`-th event, an
/// element's name resolved right after it was read, and comments, declarations,
/// processing instructions and document types taken together as markup.
pub open spec fn svg_event_at(input: Seq<u8>, n: nat) -> SvgEventV {
    match xml_raw_event(input, n) {
        XmlEventV::Start(name) => {
            let (ns, local) = xml_resolved(input, n + 1, name);
            SvgEventV::Start(ns, local)
        },
        XmlEventV::Empty(name) => {
            let (ns, local) = xml_resolved(input, n + 1, name);
            SvgEventV::Empty(ns, local)
        },
        XmlEventV::End => SvgEventV::End,
        XmlEventV::Text(t) => SvgEventV::Text(t),
        XmlEventV::CData => SvgEventV::CData,
        XmlEventV::Comment => SvgEventV::Markup,
        XmlEventV::Decl => SvgEventV::Markup,
        XmlEventV::PI => SvgEventV::Markup,
        XmlEventV::DocType => SvgEventV::Markup,
        XmlEventV::Eof => SvgEventV::Eof,
        XmlEventV::Error => SvgEventV::Error,
    }
}

/// The first `k` events of a document as the check reads them.
pub open spec fn svg_events(input: Seq<u8>, k: nat) -> Seq<SvgEventV> {
    Seq::new(k, |i: int| svg_event_at(input, i as nat))
}
/// The bytes of an ASCII text.
pub open spec fn ascii_bytes(t: Seq<char>) -> Seq<u8> {
    t.map_values(|c: char| c as u8)
}

fn bytes_are_text(b: &[u8], t: &str) -> (r: bool)
    ensures
        r == (b@ == ascii_bytes(t@)),
{
    let chars = crate::text::chars_of(t);
    if b.len() != chars.len() {
        assert(ascii_bytes(t@).len() == t@.len());
        return false;
    }
    let mut i: usize = 0;
    while i < b.len()
        invariant
            i <= b.len(),
            b.len() == chars.len(),
            chars@ == t@,
            forall|j: int| 0 <= j < i ==> b@[j] == (t@[j] as u8),
        decreases b.len() - i,
    {
        if b[i] != (chars[i] as u8) {
            assert(ascii_bytes(t@)[i as int] == (t@[i as int] as u8));
            return false;
        }
        i += 1;
    }
    assert(b@ =~= ascii_bytes(t@));
    true
}

/// The root element of an SVG document: the SVG namespace's `svg`.
pub open spec fn is_svg_root(namespace: XmlNamespaceV, local: Seq<u8>) -> bool {
    &&& namespace matches XmlNamespaceV::Bound(ns) && ns == ascii_bytes("http://www.w3.org/2000/svg"@)
    &&& local == ascii_bytes("svg"@)
}

fn svg_root(namespace: &XmlNamespace, local: &[u8]) -> (r: bool)
    ensures
        r == is_svg_root(namespace@, local@),
{
    match namespace {
        XmlNamespace::Bound(ns) => bytes_are_text(ns.as_slice(), "http://www.w3.org/2000/svg")
            && bytes_are_text(local, "svg"),
        _ => false,
    }
}

/// White space as `u8::is_ascii_whitespace` counts it.
pub open spec fn is_xml_space(b: u8) -> bool {
    b == 0x20 || b == 0x09 || b == 0x0A || b == 0x0C || b == 0x0D
}

/// Every byte is white space.
pub open spec fn all_xml_space(t: Seq<u8>) -> bool {
    forall|i: int| 0 <= i < t.len() ==> is_xml_space(#[trigger] t[i])
}

fn all_space(t: &[u8]) -> (r: bool)
    ensures
        r == all_xml_space(t@),
{
    let mut i: usize = 0;
    while i < t.len()
        invariant
            i <= t.len(),
            forall|j: int| 0 <= j < i ==> is_xml_space(#[trigger] t@[j]),
        decreases t.len() - i,
    {
        let b = t[i];
        if !(b == 0x20 || b == 0x09 || b == 0x0A || b == 0x0C || b == 0x0D) {
            return false;
        }
        i += 1;
    }
    true
}

/// Where the check of a document stands: whether the root was seen, whether it closed,
/// and how deep inside it the reader is.
#[derive(Clone, Copy, Debug, PartialEq, Eq, Structural)]
pub struct SvgScan {
    pub root_seen: bool,
    pub root_closed: bool,
    pub depth: u64,
}

/// What one event does to the check: a verdict, or the next state.
#[derive(Clone, Copy, Debug, PartialEq, Eq, Structural)]
pub enum ScanOutcome {
    Undecided(SvgScan),
    Decided(bool),
}

/// The check's start: nothing seen.
pub open spec fn scan_start() -> SvgScan {
    SvgScan { root_seen: false, root_closed: false, depth: 0 }
}

/// One event of the check. Before the root only markup, white space and the root may
/// come, and the root must be the SVG namespace's `svg`; after the root closes only markup
/// and white space may come. At the end of the input the document passes when its root
/// closed; a document cut off by the budget passes once its root was seen, even when the
/// cut makes the reader fail.
pub open spec fn svg_step(st: SvgScan, ev: SvgEventV, truncated: bool) -> ScanOutcome {
    match ev {
        SvgEventV::Start(ns, local) => if st.root_closed {
            ScanOutcome::Decided(false)
        } else if !st.root_seen && !is_svg_root(ns, local) {
            ScanOutcome::Decided(false)
        } else {
            ScanOutcome::Undecided(SvgScan { root_seen: true, depth: (st.depth + 1) as u64, ..st })
        },
        SvgEventV::Empty(ns, local) => if st.root_closed {
            ScanOutcome::Decided(false)
        } else if !st.root_seen {
            if !is_svg_root(ns, local) {
                ScanOutcome::Decided(false)
            } else {
                ScanOutcome::Undecided(SvgScan { root_seen: true, root_closed: true, ..st })
            }
        } else {
            ScanOutcome::Undecided(st)
        },
        SvgEventV::End => {
            let d: u64 = if st.depth > 0 { (st.depth - 1) as u64 } else { 0 };
            ScanOutcome::Undecided(SvgScan { depth: d, root_closed: st.root_closed || (st.root_seen && d == 0), ..st })
        },
        SvgEventV::Text(t) => if (!st.root_seen || st.root_closed) && !all_xml_space(t) {
            ScanOutcome::Decided(false)
        } else {
            ScanOutcome::Undecided(st)
        },
        SvgEventV::CData => if !st.root_seen || st.root_closed {
            ScanOutcome::Decided(false)
        } else {
            ScanOutcome::Undecided(st)
        },
        SvgEventV::Markup => ScanOutcome::Undecided(st),
        SvgEventV::Eof => ScanOutcome::Decided(if truncated { st.root_seen } else { st.root_closed }),
        SvgEventV::Error => ScanOutcome::Decided(truncated && st.root_seen),
    }
}

/// Applies one event to the check.
pub fn svg_scan_step(st: SvgScan, ev: &SvgEvent, truncated: bool) -> (r: ScanOutcome)
    requires
        st.depth < u64::MAX,
    ensures
        r == svg_step(st, ev@, truncated),
{
    match ev {
        SvgEvent::Start(ns, local) => {
            if st.root_closed {
                return ScanOutcome::Decided(false);
            }
            if !st.root_seen && !svg_root(ns, local.as_slice()) {
                return ScanOutcome::Decided(false);
            }
            ScanOutcome::Undecided(SvgScan { root_seen: true, depth: st.depth + 1, ..st })
        },
        SvgEvent::Empty(ns, local) => {
            if st.root_closed {
                return ScanOutcome::Decided(false);
            }
            if !st.root_seen {
                if !svg_root(ns, local.as_slice()) {
                    return ScanOutcome::Decided(false);
                }
                return ScanOutcome::Undecided(SvgScan { root_seen: true, root_closed: true, ..st });
            }
            ScanOutcome::Undecided(st)
        },
        SvgEvent::End => {
            let d: u64 = if st.depth > 0 { st.depth - 1 } else { 0 };
            ScanOutcome::Undecided(SvgScan { depth: d, root_closed: st.root_closed || (st.root_seen && d == 0), ..st })
        },
        SvgEvent::Text(t) => {
            let ts = t.as_slice();
            let space = all_space(ts);
            proof {
                assert(ts@ == t@);
            }
            if (!st.root_seen || st.root_closed) && !space {
                return ScanOutcome::Decided(false);
            }
            ScanOutcome::Undecided(st)
        },
        SvgEvent::CData => {
            if !st.root_seen || st.root_closed {
                return ScanOutcome::Decided(false);
            }
            ScanOutcome::Undecided(st)
        },
        SvgEvent::Markup => ScanOutcome::Undecided(st),
        SvgEvent::Eof => ScanOutcome::Decided(if truncated { st.root_seen } else { st.root_closed }),
        SvgEvent::Error => ScanOutcome::Decided(truncated && st.root_seen),
    }
}

/// The verdict of the check on a sequence of events from state `st`. Events that run out
/// before a verdict count as a reader failure.
pub open spec fn svg_verdict(st: SvgScan, events: Seq<SvgEventV>, truncated: bool) -> bool
    decreases events.len(),
{
    if events.len() == 0 {
        truncated && st.root_seen
    } else {
        match svg_step(st, events[0], truncated) {
            ScanOutcome::Decided(b) => b,
            ScanOutcome::Undecided(next) => svg_verdict(next, events.drop_first(), truncated),
        }
    }
}

/// Every step leaves the depth at most one deeper.
proof fn lemma_step_depth(st: SvgScan, ev: SvgEventV, truncated: bool)
    requires
        st.depth < u64::MAX,
    ensures
        svg_step(st, ev, truncated) matches ScanOutcome::Undecided(n) ==> n.depth <= st.depth + 1,
{
}

/// Checks a whole sequence of events, as read from a document.
pub fn scan_svg_events(events: &[SvgEvent], truncated: bool) -> (r: bool)
    requires
        events@.len() < u64::MAX,
    ensures
        r == svg_verdict(scan_start(), event_views(events@), truncated),
{
    let ghost evs = event_views(events@);
    let mut st = SvgScan { root_seen: false, root_closed: false, depth: 0 };
    let mut i: usize = 0;
    assert(evs.skip(0) =~= evs);
    while i < events.len()
        invariant
            i <= events.len(),
            events@.len() < u64::MAX,
            st.depth <= i,
            evs == event_views(events@),
            svg_verdict(scan_start(), evs, truncated) == svg_verdict(st, evs.skip(i as int), truncated),
        decreases events.len() - i,
    {
        proof {
            let rest = evs.skip(i as int);
            assert(rest[0] == events@[i as int]@);
            assert(rest.drop_first() =~= evs.skip(i + 1));
            lemma_step_depth(st, events@[i as int]@, truncated);
        }
        match svg_scan_step(st, &events[i], truncated) {
            ScanOutcome::Decided(b) => {
                return b;
            },
            ScanOutcome::Undecided(next) => {
                st = next;
            },
        }
        i += 1;
    }
    assert(evs.skip(i as int) =~= Seq::<SvgEventV>::empty());
    truncated && st.root_seen
}

/// The values of a sequence of events.
pub open spec fn event_views(events: Seq<SvgEvent>) -> Seq<SvgEventV> {
    events.map_values(|e: SvgEvent| e@)
}

/// Reads a document's events with `quick_xml` and checks them: the check's verdict on the
/// events that the reader yields, at most [`MAX_SVG_EVENTS`] of them.
fn scan_svg(input: &[u8], truncated: bool) -> (r: bool)
    ensures
        r == svg_verdict(scan_start(), svg_events(input@, MAX_SVG_EVENTS as nat), truncated),
{
    let ghost all = svg_events(input@, MAX_SVG_EVENTS as nat);
    let mut reader = xml_reader(input);
    let mut st = SvgScan { root_seen: false, root_closed: false, depth: 0 };
    let mut count: u64 = 0;
    assert(all.skip(0) =~= all);
    while count < MAX_SVG_EVENTS
        invariant
            count <= MAX_SVG_EVENTS,
            st.depth <= count,
            reader.input() == input@,
            reader.count() == count,
            all == svg_events(input@, MAX_SVG_EVENTS as nat),
            svg_verdict(scan_start(), all, truncated) == svg_verdict(st, all.skip(count as int), truncated),
        decreases MAX_SVG_EVENTS - count,
    {
        let raw = next_xml_event(&mut reader);
        let event = match raw {
            XmlEvent::Start(name) => {
                let (ns, local) = resolve_element_name(&reader, name.as_slice());
                SvgEvent::Start(ns, local)
            },
            XmlEvent::Empty(name) => {
                let (ns, local) = resolve_element_name(&reader, name.as_slice());
                SvgEvent::Empty(ns, local)
            },
            XmlEvent::End => SvgEvent::End,
            XmlEvent::Text(t) => SvgEvent::Text(t),
            XmlEvent::CData => SvgEvent::CData,
            XmlEvent::Comment => SvgEvent::Markup,
            XmlEvent::Decl => SvgEvent::Markup,
            XmlEvent::PI => SvgEvent::Markup,
            XmlEvent::DocType => SvgEvent::Markup,
            XmlEvent::Eof => SvgEvent::Eof,
            XmlEvent::Error => SvgEvent::Error,
        };
        proof {
            assert(event@ == svg_event_at(input@, count as nat));
            let rest = all.skip(count as int);
            assert(rest[0] == all[count as int]);
            assert(rest.drop_first() =~= all.skip(count + 1));
            lemma_step_depth(st, event@, truncated);
        }
        match svg_scan_step(st, &event, truncated) {
            ScanOutcome::Decided(b) => {
                return b;
            },
            ScanOutcome::Undecided(next) => {
                st = next;
            },
        }
        count += 1;
    }
    assert(all.skip(count as int) =~= Seq::<SvgEventV>::empty());
    truncated && st.root_seen
}

/// UTF-16 code units decoded: a unit outside the surrogate range is a character, a high
/// surrogate followed by a low one is the character they encode, and any other surrogate
/// is unpaired (`None`).
pub open spec fn utf16_chars(u: Seq<u16>) -> Seq<Option<char>>
    decreases u.len(),
{
    if u.len() == 0 {
        Seq::empty()
    } else if u[0] < 0xD800 || u[0] >= 0xE000 {
        seq![Some(u[0] as char)] + utf16_chars(u.drop_first())
    } else if u[0] < 0xDC00 && u.len() >= 2 && 0xDC00 <= u[1] && u[1] < 0xE000 {
        seq![Some((0x10000 + (u[0] - 0xD800) * 0x400 + (u[1] - 0xDC00)) as char)] + utf16_chars(u.skip(2))
    } else {
        seq![None] + utf16_chars(u.drop_first())
    }
}

/// No surrogate of the units is unpaired.
pub open spec fn utf16_valid(u: Seq<u16>) -> bool {
    forall|i: int| 0 <= i < utf16_chars(u).len() ==> #[trigger] utf16_chars(u)[i] is Some
}

/// The text of valid units.
pub open spec fn utf16_text(u: Seq<u16>) -> Seq<char> {
    utf16_chars(u).map_values(|o: Option<char>| o->0)
}

/// The text of any units, unpaired surrogates becoming U+FFFD.
pub open spec fn utf16_text_lossy(u: Seq<u16>) -> Seq<char> {
    utf16_chars(u).map_values(
        |o: Option<char>|
            match o {
                Some(c) => c,
                None => '\u{FFFD}',
            },
    )
}

/// Calls `String::from_utf16`, which decodes UTF-16 and fails on an unpaired surrogate.
#[verifier::external_body]
fn string_from_utf16(units: &[u16]) -> (r: Option<String>)
    ensures
        r is Some <==> utf16_valid(units@),
        r matches Some(t) ==> t@ == utf16_text(units@),
{
    String::from_utf16(units).ok()
}

/// Calls `String::from_utf16_lossy`, which decodes UTF-16 and puts U+FFFD in place of each
/// unpaired surrogate.
#[verifier::external_body]
fn string_from_utf16_lossy(units: &[u16]) -> (r: String)
    ensures
        r@ == utf16_text_lossy(units@),
{
    String::from_utf16_lossy(units)
}

/// The 16-bit units of a byte sequence, two bytes each, in the given byte order; a last odd
/// byte is left out.
pub open spec fn utf16_units(body: Seq<u8>, little_endian: bool) -> Seq<u16> {
    Seq::new(
        (body.len() / 2) as nat,
        |i: int|
            if little_endian {
                (body[2 * i] + body[2 * i + 1] * 256) as u16
            } else {
                (body[2 * i] * 256 + body[2 * i + 1]) as u16
            },
    )
}

fn units_of(body: &[u8], little_endian: bool) -> (r: Vec<u16>)
    ensures
        r@ == utf16_units(body@, little_endian),
{
    let n = body.len() / 2;
    let mut out: Vec<u16> = Vec::new();
    let mut i: usize = 0;
    while i < n
        invariant
            n == body.len() / 2,
            i <= n,
            out@ =~= utf16_units(body@, little_endian).take(i as int),
        decreases n - i,
    {
        let a = body[2 * i] as u16;
        let b = body[2 * i + 1] as u16;
        let unit: u16 = if little_endian {
            a + b * 256
        } else {
            a * 256 + b
        };
        out.push(unit);
        i += 1;
    }
    out
}

/// The text of a UTF-16 document after its byte-order mark, and whether the budget cut it
/// off. An uncut document must have whole units and no unpaired surrogate; a cut one is
/// decoded leniently.
pub open spec fn spec_transcode_utf16(raw: Seq<u8>, little_endian: bool) -> Option<(Seq<char>, bool)> {
    let truncated = raw.len() >= SVG_PARSE_BUDGET;
    let body = raw.skip(2);
    let units = utf16_units(body, little_endian);
    if truncated {
        Some((utf16_text_lossy(units), true))
    } else if body.len() % 2 != 0 || !utf16_valid(units) {
        None
    } else {
        Some((utf16_text(units), false))
    }
}

fn transcode_utf16(raw: &[u8], little_endian: bool) -> (r: Option<(String, bool)>)
    requires
        raw@.len() >= 2,
    ensures
        match r {
            None => spec_transcode_utf16(raw@, little_endian) is None,
            Some((t, cut)) => spec_transcode_utf16(raw@, little_endian) == Some((t@, cut)),
        },
{
    let truncated = raw.len() as u64 >= SVG_PARSE_BUDGET;
    let body = &raw[2..raw.len()];
    if !truncated && body.len() % 2 != 0 {
        return None;
    }
    let units = units_of(body, little_endian);
    if truncated {
        Some((string_from_utf16_lossy(units.as_slice()), true))
    } else {
        match string_from_utf16(units.as_slice()) {
            Some(t) => Some((t, false)),
            None => None,
        }
    }
}

/// The input starts with a UTF-16 byte-order mark.
pub open spec fn has_utf16_bom(head: Seq<u8>) -> bool {
    head.len() >= 2 && ((head[0] == 0xFF && head[1] == 0xFE) || (head[0] == 0xFE && head[1] == 0xFF))
}

/// Whether a document is an SVG document, given its first `min(size, budget)` bytes and
/// its size. A UTF-16 document (by its byte-order mark) is decoded first and refused when
/// it cannot be, else its text is read as UTF-8; other documents are read as they are. The
/// check is cut off by the budget where the document is larger than it.
pub open spec fn spec_svg_document(head: Seq<u8>, size: nat) -> bool {
    if has_utf16_bom(head) {
        match spec_transcode_utf16(head, head[0] == 0xFF) {
            None => false,
            Some((text, cut)) => svg_verdict(
                scan_start(),
                svg_events(vstd::utf8::encode_utf8(text), MAX_SVG_EVENTS as nat),
                cut,
            ),
        }
    } else {
        svg_verdict(scan_start(), svg_events(head, MAX_SVG_EVENTS as nat), size > SVG_PARSE_BUDGET)
    }
}

fn is_svg_document(head: &[u8], size: u64) -> (r: bool)
    ensures
        r == spec_svg_document(head@, size as nat),
{
    if head.len() >= 2 && ((head[0] == 0xFF && head[1] == 0xFE) || (head[0] == 0xFE && head[1] == 0xFF)) {
        match transcode_utf16(head, head[0] == 0xFF) {
            None => false,
            Some((text, truncated)) => {
                let t = text.as_str();
                scan_svg(t.as_bytes(), truncated)
            },
        }
    } else {
        scan_svg(head, size > SVG_PARSE_BUDGET)
    }
}

/// The bytes that the signature check looks at.
pub open spec fn signature_prefix(head: Seq<u8>) -> Seq<u8> {
    if head.len() <= IMAGE_PREFIX_LENGTH {
        head
    } else {
        head.take(IMAGE_PREFIX_LENGTH as int)
    }
}

/// Whether a file holds an image, given its first `min(size, budget)` bytes and its size:
/// a binary image signature among the first bytes, or else an SVG document.
pub fn image_reader_has_supported_content(head: &[u8], size: u64) -> (r: bool)
    ensures
        r == (image_signature(signature_prefix(head@)) || spec_svg_document(head@, size as nat)),
{
    let n = if head.len() <= IMAGE_PREFIX_LENGTH {
        head.len()
    } else {
        IMAGE_PREFIX_LENGTH
    };
    let prefix = &head[0..n];
    assert(prefix@ =~= signature_prefix(head@));
    if image_signature_of(prefix) {
        return true;
    }
    is_svg_document(head, size)
}

/// Whether some bytes hold an image: a binary image signature, or an SVG document within
/// the parse budget. A UTF-16 document (by its byte-order mark) that does not decode is
/// no SVG document.
pub fn image_bytes_have_supported_content(bytes: &[u8]) -> (r: bool)
    ensures
        r == (image_signature(signature_prefix(bytes@.take(min_len(bytes@.len())))) || spec_svg_document(
            bytes@.take(min_len(bytes@.len())),
            bytes@.len(),
        )),
{
    let n = if (bytes.len() as u64) <= SVG_PARSE_BUDGET {
        bytes.len()
    } else {
        SVG_PARSE_BUDGET as usize
    };
    let head = &bytes[0..n];
    assert(head@ =~= bytes@.take(min_len(bytes@.len())));
    image_reader_has_supported_content(head, bytes.len() as u64)
}

/// How many bytes of a document the SVG check reads.
pub open spec fn min_len(len: nat) -> int {
    if len <= SVG_PARSE_BUDGET {
        len as int
    } else {
        SVG_PARSE_BUDGET as int
    }
}

/// Error code of a file that holds no supported image.
pub const INVALID_IMAGE_CONTENT: &'static str = "invalid-image-content";

/// Message of a file that holds no supported image.
pub const INVALID_IMAGE_MESSAGE: &'static str = "Selected file is not valid image content";

/// The answer of the image-load command.
pub struct ImageLoadResponse {
    pub success: bool,
    pub error: Option<String>,
    pub error_code: Option<String>,
    pub image_path: Option<String>,
}

/// The answer of the image-load command: nothing at all when no file was picked; the
/// invalid-content error when the picked file held no supported image; otherwise success
/// with the path of the imported copy.
pub fn image_load_response(picked: bool, imported_path: Option<String>) -> (r: ImageLoadResponse)
    ensures
        !picked ==> !r.success && r.error is None && r.error_code is None && r.image_path is None,
        picked && imported_path is None ==> !r.success && r.error.deep_view() == Some(
            INVALID_IMAGE_MESSAGE@,
        ) && r.error_code.deep_view() == Some(INVALID_IMAGE_CONTENT@) && r.image_path is None,
        picked && imported_path is Some ==> r.success && r.error is None && r.error_code is None
            && r.image_path.deep_view() == imported_path.deep_view(),
{
    if !picked {
        return ImageLoadResponse { success: false, error: None, error_code: None, image_path: None };
    }
    match imported_path {
        None => ImageLoadResponse {
            success: false,
            error: Some(INVALID_IMAGE_MESSAGE.to_string()),
            error_code: Some(INVALID_IMAGE_CONTENT.to_string()),
            image_path: None,
        },
        Some(p) => ImageLoadResponse { success: true, error: None, error_code: None, image_path: Some(p) },
    }
}

} // verus!
