//! The rewrite orchestrator: splicing rendered fragments over matched
//! component tags, whitespace normalization, and the version marker.

use vstd::prelude::*;
use vstd::string::StringSliceAdditionalSpecFns;
use vstd::utf8::is_ascii_chars;

use crate::element::{
    binds, invalid_of, missing_of, spec_lookup, FromElementError, FromElementErrorV, RawElement,
};
use crate::htmplates::{
    alert_fragment, flag_lookup, flag_set, footer_fragment, form_alert_fragment,
    form_check_input_fragment, form_submit_fragment, form_text_input_fragment, hr_fragment,
    kind_of_tag, metadata_fragment, opt_or_empty, title_fragment, Alert, AlertStyle, Footer,
    FormAlert, FormCheckInput, FormSubmit, FormTextInput, Hr, HtmplateError, HtmplateErrorKindV,
    HtmplateErrorV, HtmplateKind, Icon, Metadata, Title, ToHtml,
};
use crate::htmplates::{known_tag, style_of};
use crate::icon::{is_icon_name, spec_icon_of};
use crate::location::{resolved_location, Location, LocationV};
use crate::merge::{inject_attributes, inject_attributes_from_original_element};
use crate::text::{append_all, append_range, is_prefix, starts_with};

verus! {

/// Whether a byte is one of the whitespace bytes the normalization pass
/// collapses.
pub open spec fn is_ws_byte(b: u8) -> bool {
    b == 32 || b == 9 || b == 10 || b == 13 || b == 12 || b == 11
}

/// Whether a byte is a line terminator.
pub open spec fn is_nl_byte(b: u8) -> bool {
    b == 10 || b == 13
}

/// Whether position `i` sits inside a whitespace run that already saw a
/// line terminator earlier in the run. Such positions were consumed by the
/// normalization of that terminator.
pub open spec fn absorbed(s: Seq<u8>, i: int) -> bool
    decreases i,
{
    if i <= 0 {
        false
    } else if i > s.len() {
        false
    } else {
        is_ws_byte(s[i - 1]) && (is_nl_byte(s[i - 1]) || absorbed(s, i - 1))
    }
}

/// What position `i` contributes to the newline-collapsed document: nothing
/// if it was consumed by an earlier terminator's run, a single space if it
/// is the first terminator of its run, itself otherwise.
pub open spec fn nl_emit(s: Seq<u8>, i: int) -> Seq<u8> {
    if absorbed(s, i) && is_ws_byte(s[i]) {
        Seq::empty()
    } else if is_nl_byte(s[i]) {
        seq![32u8]
    } else {
        seq![s[i]]
    }
}

/// The newline-collapsed document from position `i` on.
pub open spec fn norm_newlines_from(s: Seq<u8>, i: int) -> Seq<u8>
    decreases s.len() - i,
{
    if i < 0 || i >= s.len() {
        Seq::empty()
    } else {
        nl_emit(s, i) + norm_newlines_from(s, i + 1)
    }
}

/// The first normalization pass: every run of a line terminator plus
/// following whitespace collapses into a single space.
pub open spec fn norm_newlines(s: Seq<u8>) -> Seq<u8> {
    norm_newlines_from(s, 0)
}

/// Collapse every run of a line terminator plus following whitespace into a
/// single space.
pub fn normalize_newlines(s: &[u8]) -> (r: Vec<u8>)
    ensures
        r@ == norm_newlines(s@),
{
    let mut out: Vec<u8> = Vec::new();
    let mut inside_run: bool = false;
    let mut i: usize = 0;
    while i < s.len()
        invariant
            0 <= i <= s@.len(),
            inside_run == absorbed(s@, i as int),
            norm_newlines(s@) == out@ + norm_newlines_from(s@, i as int),
        decreases s@.len() - i,
    {
        let b = s[i];
        let ws = b == 32 || b == 9 || b == 10 || b == 13 || b == 12 || b == 11;
        let nl = b == 10 || b == 13;
        if inside_run && ws {
            // consumed by the run of an earlier terminator
        } else if nl {
            out.push(32);
        } else {
            out.push(b);
        }
        proof {
            let emit = nl_emit(s@, i as int);
            assert(norm_newlines_from(s@, i as int) == emit + norm_newlines_from(s@, i + 1));
            if inside_run && ws {
                assert(emit =~= Seq::<u8>::empty());
            } else if nl {
                assert(emit =~= seq![32u8]);
            } else {
                assert(emit =~= seq![s@[i as int]]);
            }
            assert(norm_newlines(s@) =~= out@ + norm_newlines_from(s@, i + 1));
        }
        inside_run = ws && (nl || inside_run);
        i = i + 1;
    }
    out
}

/// Whether the three bytes starting at `j` are a tag gap: `>`, one
/// whitespace byte, `<`.
pub open spec fn gap_at(s: Seq<u8>, j: int) -> bool {
    0 <= j && j + 2 < s.len() && s[j] == 62 && is_ws_byte(s[j + 1]) && s[j + 2] == 60
}

/// The second normalization pass: the middle of every `>` whitespace `<`
/// triple becomes a newline.
pub open spec fn norm_gaps(s: Seq<u8>) -> Seq<u8> {
    Seq::new(
        s.len(),
        |i: int|
            if gap_at(s, i - 1) {
                10u8
            } else {
                s[i]
            },
    )
}

/// Turn the middle of every `>` whitespace `<` triple into a newline.
pub fn normalize_gaps(s: &[u8]) -> (r: Vec<u8>)
    ensures
        r@ == norm_gaps(s@),
{
    let mut out: Vec<u8> = Vec::new();
    let len = s.len();
    let mut i: usize = 0;
    while i < len
        invariant
            0 <= i <= s@.len(),
            len == s@.len(),
            out@.len() == i,
            forall|j: int| 0 <= j < i ==> out@[j] == (if gap_at(s@, j - 1) {
                10u8
            } else {
                s@[j]
            }),
        decreases s@.len() - i,
    {
        let gap = i >= 1 && i + 1 < len && s[i - 1] == 62 && (s[i] == 32 || s[i] == 9 || s[i] == 10
            || s[i] == 13 || s[i] == 12 || s[i] == 11) && s[i + 1] == 60;
        if gap {
            out.push(10);
        } else {
            out.push(s[i]);
        }
        i = i + 1;
    }
    proof {
        assert(out@ =~= norm_gaps(s@));
    }
    out
}

/// The post-pass whitespace normalization: collapse newline runs, then
/// re-lineate tag gaps.
pub open spec fn normalize(s: Seq<u8>) -> Seq<u8> {
    norm_gaps(norm_newlines(s))
}

/// The version marker prepended to every templated document.
pub open spec fn marker() -> Seq<u8> {
    "<!-- htmplate v0.1.0 -->\n".spec_bytes()
}

/// Normalize a rewritten document and prepend the version marker.
pub fn finish_document(body: &[u8]) -> (r: Vec<u8>)
    ensures
        r@ == marker() + normalize(body@),
{
    let collapsed = normalize_newlines(body);
    let relined = normalize_gaps(collapsed.as_slice());
    let mut out: Vec<u8> = Vec::new();
    append_all(&mut out, "<!-- htmplate v0.1.0 -->\n".as_bytes());
    append_all(&mut out, relined.as_slice());
    out
}

/// The reserved namespace prefix: any element whose tag begins with it is
/// treated as a component.
pub open spec fn reserved_prefix() -> Seq<u8> {
    "htmplate".spec_bytes()
}

/// Whether a tag lies in the reserved component namespace.
pub open spec fn is_reserved_tag(tag: Seq<u8>) -> bool {
    is_prefix(reserved_prefix(), tag)
}

/// Error variants for replacing the htmplates.
#[derive(Debug)]
pub enum ReplaceHtmplateError {
    /// An element did not satisfy its component's schema.
    InvalidHtmplate {
        /// The binding error.
        source: FromElementError,
    },
    /// A component bound but failed to render.
    HtmplateError {
        /// The render error.
        source: HtmplateError,
    },
    /// An element uses the reserved namespace but names no known component.
    HtmplateDoesNotExist {
        /// The unknown tag.
        tag: Vec<u8>,
        /// Where the element starts.
        location: Location,
    },
    /// The underlying rewrite engine itself failed.
    RewriteError {
        /// The engine's message.
        detail: String,
    },
}

/// The mathematical value of a `ReplaceHtmplateError`.
pub enum ReplaceHtmplateErrorV {
    /// An element did not satisfy its component's schema.
    InvalidHtmplate {
        /// The binding error.
        source: FromElementErrorV,
    },
    /// A component bound but failed to render.
    HtmplateError {
        /// The render error.
        source: HtmplateErrorV,
    },
    /// An element uses the reserved namespace but names no known component.
    HtmplateDoesNotExist {
        /// The unknown tag.
        tag: Seq<u8>,
        /// Where the element starts.
        location: LocationV,
    },
    /// The underlying rewrite engine itself failed.
    RewriteError {
        /// The engine's message.
        detail: Seq<char>,
    },
}

impl View for ReplaceHtmplateError {
    type V = ReplaceHtmplateErrorV;

    open spec fn view(&self) -> ReplaceHtmplateErrorV {
        match self {
            ReplaceHtmplateError::InvalidHtmplate { source } => {
                ReplaceHtmplateErrorV::InvalidHtmplate { source: source@ }
            },
            ReplaceHtmplateError::HtmplateError { source } => {
                ReplaceHtmplateErrorV::HtmplateError { source: source@ }
            },
            ReplaceHtmplateError::HtmplateDoesNotExist { tag, location } => {
                ReplaceHtmplateErrorV::HtmplateDoesNotExist { tag: tag@, location: location@ }
            },
            ReplaceHtmplateError::RewriteError { detail } => {
                ReplaceHtmplateErrorV::RewriteError { detail: detail@ }
            },
        }
    }
}

/// The rendered form of a rewrite error: a one-line summary plus its
/// detail.
pub open spec fn replace_error_lines(e: ReplaceHtmplateErrorV) -> Seq<u8> {
    match e {
        ReplaceHtmplateErrorV::InvalidHtmplate { source } => {
            crate::element::from_element_error_lines(source)
        },
        ReplaceHtmplateErrorV::HtmplateError { source } => {
            crate::htmplates::htmplate_error_line(source)
        },
        ReplaceHtmplateErrorV::HtmplateDoesNotExist { tag, location } => {
            "htmplate `".spec_bytes() + tag + "` at `".spec_bytes()
                + crate::location::location_line(location) + "` does not exist".spec_bytes()
        },
        ReplaceHtmplateErrorV::RewriteError { detail } => {
            "rewriting returned an error: ".spec_bytes() + vstd::utf8::encode_utf8(detail)
        },
    }
}

impl ReplaceHtmplateError {
    /// Render the error in bytes: a one-line summary plus its detail.
    pub fn describe_bytes(&self) -> (r: Vec<u8>)
        ensures
            r@ == replace_error_lines(self@),
    {
        let mut out: Vec<u8> = Vec::new();
        match self {
            ReplaceHtmplateError::InvalidHtmplate { source } => {
                let detail = source.describe_bytes();
                append_all(&mut out, detail.as_slice());
            },
            ReplaceHtmplateError::HtmplateError { source } => {
                let detail = source.describe_bytes();
                append_all(&mut out, detail.as_slice());
            },
            ReplaceHtmplateError::HtmplateDoesNotExist { tag, location } => {
                append_all(&mut out, "htmplate `".as_bytes());
                append_all(&mut out, tag.as_slice());
                append_all(&mut out, "` at `".as_bytes());
                let loc = location.describe_bytes();
                append_all(&mut out, loc.as_slice());
                append_all(&mut out, "` does not exist".as_bytes());
            },
            ReplaceHtmplateError::RewriteError { detail } => {
                append_all(&mut out, "rewriting returned an error: ".as_bytes());
                append_all(&mut out, detail.as_str().as_bytes());
            },
        }
        proof {
            assert(out@ =~= replace_error_lines(self@));
        }
        out
    }

    /// Render the error as a one-line summary plus its detail.
    pub fn describe(&self) -> (r: String)
        ensures
            vstd::utf8::valid_utf8(replace_error_lines(self@)) ==> vstd::utf8::encode_utf8(r@)
                == replace_error_lines(self@),
    {
        let bytes = self.describe_bytes();
        crate::text::bytes_to_string_lossy(bytes.as_slice())
    }
}

/// What the orchestrator does with one matched element: splice a fragment
/// over its start tag, keep it untouched, or abort the rewrite.
pub enum ElementOutcome {
    /// The element's start tag is replaced by the fragment.
    Replace(Seq<u8>),
    /// The element is not a component and stays as it is.
    Keep,
    /// The rewrite aborts with this error.
    Fail(ReplaceHtmplateErrorV),
}

/// The attribute with the given name, or empty where it is absent.
pub open spec fn lk_or_empty(attrs: Seq<(Seq<u8>, Seq<u8>)>, name: Seq<u8>) -> Seq<u8> {
    opt_or_empty(spec_lookup(attrs, name))
}

/// Whether the flag attribute with the given name is set.
pub open spec fn lk_flag(attrs: Seq<(Seq<u8>, Seq<u8>)>, name: Seq<u8>) -> bool {
    flag_set(flag_lookup(attrs, name))
}

/// The alert style selected by the `status` attribute.
pub open spec fn lk_status(attrs: Seq<(Seq<u8>, Seq<u8>)>) -> AlertStyle {
    match spec_lookup(attrs, "status".spec_bytes()) {
        Some(v) => match style_of(v) {
            Some(style) => style,
            None => AlertStyle::Basic,
        },
        None => AlertStyle::Basic,
    }
}

/// The fragment a bound component of the given kind renders to, or the
/// render failure. Only meaningful when the element binds against the
/// kind's schema.
pub open spec fn kind_fragment(
    kind: HtmplateKind,
    attrs: Seq<(Seq<u8>, Seq<u8>)>,
    assets: Seq<u8>,
) -> Result<Seq<u8>, HtmplateErrorKindV> {
    match kind {
        HtmplateKind::Title => match spec_lookup(attrs, "icon".spec_bytes()) {
            None => Ok(
                title_fragment(spec_lookup(attrs, "text".spec_bytes()), Seq::empty()),
            ),
            Some(n) => if is_icon_name(n) {
                Ok(
                    title_fragment(
                        spec_lookup(attrs, "text".spec_bytes()),
                        match crate::icon::spec_get_icon_svg(n) {
                            Some(svg) => svg,
                            None => Seq::empty(),
                        },
                    ),
                )
            } else {
                Err(HtmplateErrorKindV::InvalidIcon { icon: n })
            },
        },
        HtmplateKind::Metadata => Ok(metadata_fragment(assets)),
        HtmplateKind::Footer => Ok(footer_fragment()),
        HtmplateKind::Alert => Ok(
            alert_fragment(
                lk_status(attrs),
                spec_lookup(attrs, "text".spec_bytes()),
                lk_flag(attrs, "hidden".spec_bytes()),
            ),
        ),
        HtmplateKind::FormAlert => Ok(form_alert_fragment(lk_or_empty(attrs, "form".spec_bytes()))),
        HtmplateKind::FormTextInput => Ok(
            form_text_input_fragment(
                lk_or_empty(attrs, "form".spec_bytes()) + lk_or_empty(attrs, "id".spec_bytes()),
                lk_or_empty(attrs, "label".spec_bytes()),
                lk_flag(attrs, "required".spec_bytes()),
                lk_flag(attrs, "credential".spec_bytes()),
            ),
        ),
        HtmplateKind::FormCheckInput => Ok(
            form_check_input_fragment(
                lk_or_empty(attrs, "form".spec_bytes()) + lk_or_empty(attrs, "id".spec_bytes()),
                lk_or_empty(attrs, "label".spec_bytes()),
                lk_flag(attrs, "required".spec_bytes()),
            ),
        ),
        HtmplateKind::FormSubmit => Ok(
            form_submit_fragment(lk_or_empty(attrs, "form".spec_bytes())),
        ),
        HtmplateKind::Icon => Ok(
            match spec_lookup(attrs, "icon".spec_bytes()) {
                Some(n) => match spec_icon_of(n) {
                    Some(i) => i.spec_svg(),
                    None => Seq::empty(),
                },
                None => Seq::empty(),
            },
        ),
        HtmplateKind::Hr => Ok(hr_fragment(lk_or_empty(attrs, "text".spec_bytes()))),
    }
}

/// What the orchestrator does with a matched element: dispatch on its tag,
/// bind, render, and merge the caller's attributes into the fragment. An
/// element in the reserved namespace that names no known component always
/// fails; an element outside the reserved namespace is always kept.
pub open spec fn outcome_of(
    tag: Seq<u8>,
    attrs: Seq<(Seq<u8>, Seq<u8>)>,
    start: int,
    html: Seq<u8>,
    path: Seq<char>,
    assets: Seq<u8>,
) -> ElementOutcome {
    match kind_of_tag(tag) {
        Some(kind) => if !binds(kind.spec_schema(), attrs) {
            ElementOutcome::Fail(
                ReplaceHtmplateErrorV::InvalidHtmplate {
                    source: FromElementErrorV {
                        missing_attributes: missing_of(kind.spec_schema(), attrs),
                        invalid_attributes: invalid_of(kind.spec_schema(), attrs),
                        element_tag: tag,
                        element_location: resolved_location(start, html, path),
                    },
                },
            )
        } else {
            match kind_fragment(kind, attrs, assets) {
                Ok(frag) => ElementOutcome::Replace(
                    if kind == HtmplateKind::Metadata {
                        frag
                    } else {
                        inject_attributes(frag, attrs)
                    },
                ),
                Err(k) => ElementOutcome::Fail(
                    ReplaceHtmplateErrorV::HtmplateError {
                        source: HtmplateErrorV {
                            tag,
                            location: resolved_location(start, html, path),
                            kind: k,
                        },
                    },
                ),
            }
        },
        None => if is_reserved_tag(tag) {
            ElementOutcome::Fail(
                ReplaceHtmplateErrorV::HtmplateDoesNotExist {
                    tag,
                    location: resolved_location(start, html, path),
                },
            )
        } else {
            ElementOutcome::Keep
        },
    }
}

/// What processing one matched element produced.
#[derive(Debug)]
pub enum Processed {
    /// The element's start tag is replaced by the fragment.
    Replace(Vec<u8>),
    /// The element is not a component and stays as it is.
    Keep,
    /// The rewrite aborts with this error.
    Fail(ReplaceHtmplateError),
}

/// Build the render-failure error for a component element.
fn render_failed(el: &RawElement, html: &[u8], path: &str, kind: crate::htmplates::HtmplateErrorKind) -> (r:
    ReplaceHtmplateError)
    requires
        html@.len() < usize::MAX,
    ensures
        r@ == (ReplaceHtmplateErrorV::HtmplateError {
            source: HtmplateErrorV {
                tag: el.tag@,
                location: resolved_location(el.start as int, html@, path@),
                kind: kind@,
            },
        }),
{
    ReplaceHtmplateError::HtmplateError {
        source: HtmplateError {
            tag: el.tag.clone(),
            location: Location::from_byte_index(el.start, html, path),
            kind,
        },
    }
}

/// Process one matched element: dispatch on its tag, bind it, render it,
/// and merge the caller's attributes into the fragment.
pub fn process_element(el: &RawElement, html: &[u8], path: &str, assets: &[u8]) -> (r: Processed)
    requires
        html@.len() < usize::MAX,
    ensures
        ({
            let outcome = outcome_of(
                el.tag@,
                el.attrs_view(),
                el.start as int,
                html@,
                path@,
                assets@,
            );
            match r {
                Processed::Replace(f) => outcome == ElementOutcome::Replace(f@),
                Processed::Keep => outcome == ElementOutcome::Keep,
                Processed::Fail(e) => outcome == ElementOutcome::Fail(e@),
            }
        }),
{
    let kind = match crate::htmplates::lookup_kind(el.tag.as_slice()) {
        None => {
            if starts_with(el.tag.as_slice(), "htmplate".as_bytes()) {
                return Processed::Fail(
                    ReplaceHtmplateError::HtmplateDoesNotExist {
                        tag: el.tag.clone(),
                        location: Location::from_byte_index(el.start, html, path),
                    },
                );
            }
            return Processed::Keep;
        },
        Some(kind) => kind,
    };
    match kind {
        HtmplateKind::Title => match Title::from_element(el, html, path) {
            Err(e) => Processed::Fail(ReplaceHtmplateError::InvalidHtmplate { source: e }),
            Ok(t) => {
                let ghost t0 = t;
                match t.to_html() {
                    Ok(frag) => Processed::Replace(
                        inject_attributes_from_original_element(el, frag),
                    ),
                    Err(k) => Processed::Fail(render_failed(el, html, path, k)),
                }
            },
        },
        HtmplateKind::Metadata => match Metadata::from_element(el, html, path) {
            Err(e) => Processed::Fail(ReplaceHtmplateError::InvalidHtmplate { source: e }),
            Ok(t) => match t.to_html(assets) {
                Ok(frag) => Processed::Replace(frag),
                Err(k) => Processed::Fail(render_failed(el, html, path, k)),
            },
        },
        HtmplateKind::Footer => match Footer::from_element(el, html, path) {
            Err(e) => Processed::Fail(ReplaceHtmplateError::InvalidHtmplate { source: e }),
            Ok(t) => {
                let ghost t0 = t;
                match t.to_html() {
                    Ok(frag) => Processed::Replace(
                        inject_attributes_from_original_element(el, frag),
                    ),
                    Err(k) => Processed::Fail(render_failed(el, html, path, k)),
                }
            },
        },
        HtmplateKind::Alert => match Alert::from_element(el, html, path) {
            Err(e) => Processed::Fail(ReplaceHtmplateError::InvalidHtmplate { source: e }),
            Ok(t) => {
                let ghost t0 = t;
                match t.to_html() {
                    Ok(frag) => Processed::Replace(
                        inject_attributes_from_original_element(el, frag),
                    ),
                    Err(k) => Processed::Fail(render_failed(el, html, path, k)),
                }
            },
        },
        HtmplateKind::FormAlert => match FormAlert::from_element(el, html, path) {
            Err(e) => Processed::Fail(ReplaceHtmplateError::InvalidHtmplate { source: e }),
            Ok(t) => {
                let ghost t0 = t;
                match t.to_html() {
                    Ok(frag) => Processed::Replace(
                        inject_attributes_from_original_element(el, frag),
                    ),
                    Err(k) => Processed::Fail(render_failed(el, html, path, k)),
                }
            },
        },
        HtmplateKind::FormTextInput => match FormTextInput::from_element(el, html, path) {
            Err(e) => Processed::Fail(ReplaceHtmplateError::InvalidHtmplate { source: e }),
            Ok(t) => {
                let ghost t0 = t;
                match t.to_html() {
                    Ok(frag) => Processed::Replace(
                        inject_attributes_from_original_element(el, frag),
                    ),
                    Err(k) => Processed::Fail(render_failed(el, html, path, k)),
                }
            },
        },
        HtmplateKind::FormCheckInput => match FormCheckInput::from_element(el, html, path) {
            Err(e) => Processed::Fail(ReplaceHtmplateError::InvalidHtmplate { source: e }),
            Ok(t) => {
                let ghost t0 = t;
                match t.to_html() {
                    Ok(frag) => Processed::Replace(
                        inject_attributes_from_original_element(el, frag),
                    ),
                    Err(k) => Processed::Fail(render_failed(el, html, path, k)),
                }
            },
        },
        HtmplateKind::FormSubmit => match FormSubmit::from_element(el, html, path) {
            Err(e) => Processed::Fail(ReplaceHtmplateError::InvalidHtmplate { source: e }),
            Ok(t) => {
                let ghost t0 = t;
                match t.to_html() {
                    Ok(frag) => Processed::Replace(
                        inject_attributes_from_original_element(el, frag),
                    ),
                    Err(k) => Processed::Fail(render_failed(el, html, path, k)),
                }
            },
        },
        HtmplateKind::Icon => match Icon::from_element(el, html, path) {
            Err(e) => Processed::Fail(ReplaceHtmplateError::InvalidHtmplate { source: e }),
            Ok(t) => {
                let ghost t0 = t;
                match t.to_html() {
                    Ok(frag) => Processed::Replace(
                        inject_attributes_from_original_element(el, frag),
                    ),
                    Err(k) => Processed::Fail(render_failed(el, html, path, k)),
                }
            },
        },
        HtmplateKind::Hr => match Hr::from_element(el, html, path) {
            Err(e) => Processed::Fail(ReplaceHtmplateError::InvalidHtmplate { source: e }),
            Ok(t) => {
                let ghost t0 = t;
                match t.to_html() {
                    Ok(frag) => Processed::Replace(
                        inject_attributes_from_original_element(el, frag),
                    ),
                    Err(k) => Processed::Fail(render_failed(el, html, path, k)),
                }
            },
        },
    }
}

/// The mathematical value of a matched element: its tag, its attributes,
/// and the byte range of its start tag.
pub open spec fn elem_view(e: RawElement) -> (Seq<u8>, Seq<(Seq<u8>, Seq<u8>)>, int, int) {
    (e.tag@, e.attrs_view(), e.start as int, e.end as int)
}

/// The mathematical value of a scan: each element's value, in scan order.
pub open spec fn elems_view(es: Seq<RawElement>) -> Seq<
    (Seq<u8>, Seq<(Seq<u8>, Seq<u8>)>, int, int),
> {
    es.map_values(|e: RawElement| elem_view(e))
}

/// The scan is well formed: each start tag's byte range lies within the
/// document, and the ranges come in document order without overlap.
pub open spec fn wf_elements(
    els: Seq<(Seq<u8>, Seq<(Seq<u8>, Seq<u8>)>, int, int)>,
    len: int,
) -> bool {
    &&& forall|i: int| 0 <= i < els.len() ==> 0 <= (#[trigger] els[i]).2 <= els[i].3 <= len
    &&& forall|i: int| 0 <= i < els.len() - 1 ==> (#[trigger] els[i]).3 <= els[i + 1].2
}

/// Rewrite the document from byte `pos` on, processing the given elements
/// in order. The first failing element aborts the whole rewrite; the start
/// tag of each replaced element is spliced out in favour of its fragment;
/// everything else is copied unchanged.
pub open spec fn rewrite_body(
    html: Seq<u8>,
    els: Seq<(Seq<u8>, Seq<(Seq<u8>, Seq<u8>)>, int, int)>,
    pos: int,
    path: Seq<char>,
    assets: Seq<u8>,
) -> Result<Seq<u8>, ReplaceHtmplateErrorV>
    decreases els.len(),
{
    if els.len() == 0 {
        Ok(html.skip(pos))
    } else {
        let el = els[0];
        match outcome_of(el.0, el.1, el.2, html, path, assets) {
            ElementOutcome::Keep => rewrite_body(html, els.drop_first(), pos, path, assets),
            ElementOutcome::Replace(frag) => match rewrite_body(
                html,
                els.drop_first(),
                el.3,
                path,
                assets,
            ) {
                Ok(rest) => Ok(html.subrange(pos, el.2) + frag + rest),
                Err(e) => Err(e),
            },
            ElementOutcome::Fail(e) => Err(e),
        }
    }
}

/// The whole rewrite: splice every component fragment, normalize the
/// result, and prepend the version marker; or the first error.
pub open spec fn rewrite_spec(
    html: Seq<u8>,
    els: Seq<(Seq<u8>, Seq<(Seq<u8>, Seq<u8>)>, int, int)>,
    path: Seq<char>,
    assets: Seq<u8>,
) -> Result<Seq<u8>, ReplaceHtmplateErrorV> {
    match rewrite_body(html, els, 0, path, assets) {
        Ok(body) => Ok(marker() + normalize(body)),
        Err(e) => Err(e),
    }
}

/// Rewrite a document given the scanned elements: bind, render and splice
/// each component, abort on the first error, then normalize and mark.
pub fn rewrite_document(
    html: &[u8],
    elements: &Vec<RawElement>,
    html_path: &str,
    assets: &[u8],
) -> (r: Result<Vec<u8>, ReplaceHtmplateError>)
    requires
        html@.len() < usize::MAX,
        wf_elements(elems_view(elements@), html@.len() as int),
    ensures
        match r {
            Ok(out) => rewrite_spec(html@, elems_view(elements@), html_path@, assets@)
                == Ok::<Seq<u8>, ReplaceHtmplateErrorV>(out@),
            Err(e) => rewrite_spec(html@, elems_view(elements@), html_path@, assets@)
                == Err::<Seq<u8>, ReplaceHtmplateErrorV>(e@),
        },
{
    let ghost elsv = elems_view(elements@);
    let mut out: Vec<u8> = Vec::new();
    let mut pos: usize = 0;
    let mut i: usize = 0;
    proof {
        assert(elsv.skip(0) =~= elsv);
        if let Ok(rest) = rewrite_body(html@, elsv, 0, html_path@, assets@) {
            assert(out@ + rest =~= rest);
        }
    }
    while i < elements.len()
        invariant
            0 <= i <= elements@.len(),
            elsv == elems_view(elements@),
            elsv.len() == elements@.len(),
            html@.len() < usize::MAX,
            wf_elements(elsv, html@.len() as int),
            0 <= pos <= html@.len(),
            i < elsv.len() ==> pos <= elsv[i as int].2,
            match rewrite_body(html@, elsv.skip(i as int), pos as int, html_path@, assets@) {
                Ok(rest) => rewrite_body(html@, elsv, 0, html_path@, assets@) == Ok::<
                    Seq<u8>,
                    ReplaceHtmplateErrorV,
                >(out@ + rest),
                Err(e) => rewrite_body(html@, elsv, 0, html_path@, assets@) == Err::<
                    Seq<u8>,
                    ReplaceHtmplateErrorV,
                >(e),
            },
        decreases elements@.len() - i,
    {
        let el = &elements[i];
        proof {
            assert(elsv[i as int] == elem_view(elements@[i as int]));
            assert(elsv.skip(i as int)[0] == elsv[i as int]);
            assert(elsv.skip(i as int).drop_first() =~= elsv.skip(i + 1));
        }
        match process_element(el, html, html_path, assets) {
            Processed::Keep => {
                proof {
                    if i + 1 < elsv.len() {
                        assert(elsv[i as int].3 <= elsv[i + 1].2);
                    }
                }
            },
            Processed::Replace(frag) => {
                let ghost out0 = out@;
                append_range(&mut out, html, pos, el.start);
                append_all(&mut out, frag.as_slice());
                proof {
                    assert(out@ =~= out0 + html@.subrange(pos as int, el.start as int) + frag@);
                    if let Ok(rest) = rewrite_body(
                        html@,
                        elsv.skip(i + 1),
                        el.end as int,
                        html_path@,
                        assets@,
                    ) {
                        assert(out0 + (html@.subrange(pos as int, el.start as int) + frag@ + rest)
                            =~= out@ + rest);
                    }
                    if i + 1 < elsv.len() {
                        assert(elsv[i as int].3 <= elsv[i + 1].2);
                    }
                }
                pos = el.end;
            },
            Processed::Fail(e) => {
                return Err(e);
            },
        }
        i = i + 1;
    }
    proof {
        assert(elsv.skip(i as int).len() == 0);
    }
    let len = html.len();
    let ghost out0 = out@;
    append_range(&mut out, html, pos, len);
    proof {
        assert(html@.subrange(pos as int, html@.len() as int) =~= html@.skip(pos as int));
        assert(out@ =~= out0 + html@.skip(pos as int));
    }
    let finished = finish_document(out.as_slice());
    Ok(finished)
}

/// Every registered tag lies in the reserved component namespace.
pub proof fn lemma_registry_tags_reserved()
    ensures
        forall|k: HtmplateKind| is_reserved_tag(#[trigger] k.spec_tag()),
{
    assert forall|k: HtmplateKind| is_reserved_tag(k.spec_tag()) by {
        reveal_strlit("htmplate");
        match k {
            HtmplateKind::Title => {
                reveal_strlit("htmplate:title");
                reveal_strlit(":title");
                assert("htmplate:title"@ =~= "htmplate"@ + ":title"@);
                lemma_tag_has_prefix("htmplate:title", ":title");
            },
            HtmplateKind::Metadata => {
                reveal_strlit("htmplate:metadata");
                reveal_strlit(":metadata");
                assert("htmplate:metadata"@ =~= "htmplate"@ + ":metadata"@);
                lemma_tag_has_prefix("htmplate:metadata", ":metadata");
            },
            HtmplateKind::Footer => {
                reveal_strlit("htmplate:footer");
                reveal_strlit(":footer");
                assert("htmplate:footer"@ =~= "htmplate"@ + ":footer"@);
                lemma_tag_has_prefix("htmplate:footer", ":footer");
            },
            HtmplateKind::Alert => {
                reveal_strlit("htmplate:alert");
                reveal_strlit(":alert");
                assert("htmplate:alert"@ =~= "htmplate"@ + ":alert"@);
                lemma_tag_has_prefix("htmplate:alert", ":alert");
            },
            HtmplateKind::FormAlert => {
                reveal_strlit("htmplate:form-alert");
                reveal_strlit(":form-alert");
                assert("htmplate:form-alert"@ =~= "htmplate"@ + ":form-alert"@);
                lemma_tag_has_prefix("htmplate:form-alert", ":form-alert");
            },
            HtmplateKind::FormTextInput => {
                reveal_strlit("htmplate:form-text-input");
                reveal_strlit(":form-text-input");
                assert("htmplate:form-text-input"@ =~= "htmplate"@ + ":form-text-input"@);
                lemma_tag_has_prefix("htmplate:form-text-input", ":form-text-input");
            },
            HtmplateKind::FormCheckInput => {
                reveal_strlit("htmplate:form-check-input");
                reveal_strlit(":form-check-input");
                assert("htmplate:form-check-input"@ =~= "htmplate"@ + ":form-check-input"@);
                lemma_tag_has_prefix("htmplate:form-check-input", ":form-check-input");
            },
            HtmplateKind::FormSubmit => {
                reveal_strlit("htmplate:form-submit");
                reveal_strlit(":form-submit");
                assert("htmplate:form-submit"@ =~= "htmplate"@ + ":form-submit"@);
                lemma_tag_has_prefix("htmplate:form-submit", ":form-submit");
            },
            HtmplateKind::Icon => {
                reveal_strlit("htmplate:icon");
                reveal_strlit(":icon");
                assert("htmplate:icon"@ =~= "htmplate"@ + ":icon"@);
                lemma_tag_has_prefix("htmplate:icon", ":icon");
            },
            HtmplateKind::Hr => {
                reveal_strlit("htmplate:hr");
                reveal_strlit(":hr");
                assert("htmplate:hr"@ =~= "htmplate"@ + ":hr"@);
                lemma_tag_has_prefix("htmplate:hr", ":hr");
            },
        }
    }
}

/// A tag whose characters are the namespace followed by `rest` carries the
/// namespace prefix. Callers reveal the literals first.
proof fn lemma_tag_has_prefix(tag: &str, rest: &str)
    requires
        tag@ == "htmplate"@ + rest@,
    ensures
        is_reserved_tag(tag.spec_bytes()),
{
    crate::text::lemma_encode_utf8_concat("htmplate"@, rest@);
    assert(tag.spec_bytes() == reserved_prefix() + vstd::utf8::encode_utf8(rest@));
    assert((reserved_prefix() + vstd::utf8::encode_utf8(rest@)).subrange(
        0,
        reserved_prefix().len() as int,
    ) =~= reserved_prefix());
}

/// Law: an element whose tag carries the reserved namespace prefix but
/// names no registered component always fails as an unknown component,
/// with its resolved location; an element whose tag lies outside the
/// namespace is never flagged, whatever its attributes hold.
pub proof fn lemma_unknown_component(
    tag: Seq<u8>,
    attrs: Seq<(Seq<u8>, Seq<u8>)>,
    start: int,
    html: Seq<u8>,
    path: Seq<char>,
    assets: Seq<u8>,
)
    ensures
        is_reserved_tag(tag) && !known_tag(tag) ==> outcome_of(tag, attrs, start, html, path, assets)
            == ElementOutcome::Fail(
            ReplaceHtmplateErrorV::HtmplateDoesNotExist {
                tag,
                location: resolved_location(start, html, path),
            },
        ),
        !is_reserved_tag(tag) ==> outcome_of(tag, attrs, start, html, path, assets)
            == ElementOutcome::Keep,
{
    lemma_registry_tags_reserved();
    if !is_reserved_tag(tag) {
        assert(tag != HtmplateKind::Title.spec_tag());
        assert(tag != HtmplateKind::Metadata.spec_tag());
        assert(tag != HtmplateKind::Footer.spec_tag());
        assert(tag != HtmplateKind::Alert.spec_tag());
        assert(tag != HtmplateKind::FormAlert.spec_tag());
        assert(tag != HtmplateKind::FormTextInput.spec_tag());
        assert(tag != HtmplateKind::FormCheckInput.spec_tag());
        assert(tag != HtmplateKind::FormSubmit.spec_tag());
        assert(tag != HtmplateKind::Icon.spec_tag());
        assert(tag != HtmplateKind::Hr.spec_tag());
        assert(kind_of_tag(tag) is None);
    }
}

/// Law: rewriting a document in which the scan found no elements at all
/// leaves the document untouched apart from whitespace normalization and
/// the version marker.
pub proof fn lemma_rewrite_no_elements(html: Seq<u8>, path: Seq<char>, assets: Seq<u8>)
    ensures
        rewrite_spec(html, Seq::empty(), path, assets) == Ok::<Seq<u8>, ReplaceHtmplateErrorV>(
            marker() + normalize(html),
        ),
{
    assert(html.skip(0) =~= html);
}

/// With only non-component elements from `i` on, the rewrite copies the
/// rest of the document unchanged.
proof fn lemma_rewrite_body_plain(
    html: Seq<u8>,
    els: Seq<(Seq<u8>, Seq<(Seq<u8>, Seq<u8>)>, int, int)>,
    pos: int,
    path: Seq<char>,
    assets: Seq<u8>,
)
    requires
        forall|i: int| 0 <= i < els.len() ==> !is_reserved_tag((#[trigger] els[i]).0),
    ensures
        rewrite_body(html, els, pos, path, assets) == Ok::<Seq<u8>, ReplaceHtmplateErrorV>(
            html.skip(pos),
        ),
    decreases els.len(),
{
    if els.len() > 0 {
        lemma_unknown_component(els[0].0, els[0].1, els[0].2, html, path, assets);
        assert(forall|i: int|
            0 <= i < els.drop_first().len() ==> (#[trigger] els.drop_first()[i]) == els[i + 1]);
        lemma_rewrite_body_plain(html, els.drop_first(), pos, path, assets);
    }
}

/// Law: on a document whose elements all lie outside the component
/// namespace — in particular on a document the rewrite has already
/// consumed every component of — rewriting only normalizes whitespace and
/// prepends the version marker.
pub proof fn lemma_rewrite_plain_document(
    html: Seq<u8>,
    els: Seq<(Seq<u8>, Seq<(Seq<u8>, Seq<u8>)>, int, int)>,
    path: Seq<char>,
    assets: Seq<u8>,
)
    requires
        forall|i: int| 0 <= i < els.len() ==> !is_reserved_tag((#[trigger] els[i]).0),
    ensures
        rewrite_spec(html, els, path, assets) == Ok::<Seq<u8>, ReplaceHtmplateErrorV>(
            marker() + normalize(html),
        ),
{
    lemma_rewrite_body_plain(html, els, 0, path, assets);
    assert(html.skip(0) =~= html);
}


/// No line terminator survives the first normalization pass.
proof fn lemma_norm_newlines_nl_free(s: Seq<u8>, i: int)
    ensures
        forall|k: int|
            0 <= k < norm_newlines_from(s, i).len() ==> !is_nl_byte(
                #[trigger] norm_newlines_from(s, i)[k],
            ),
    decreases s.len() - i,
{
    if !(i < 0 || i >= s.len()) {
        lemma_norm_newlines_nl_free(s, i + 1);
        let emit = nl_emit(s, i);
        let rest = norm_newlines_from(s, i + 1);
        assert forall|k: int| 0 <= k < (emit + rest).len() implies !is_nl_byte(
            (emit + rest)[k],
        ) by {
            if k >= emit.len() {
                assert((emit + rest)[k] == rest[k - emit.len()]);
            }
        }
    }
}

/// In the gap-normalized form of a terminator-free document every line
/// terminator is a created newline: a `>` precedes it and a `<` follows.
proof fn lemma_gap_structure(u: Seq<u8>)
    requires
        forall|k: int| 0 <= k < u.len() ==> !is_nl_byte(#[trigger] u[k]),
    ensures
        forall|k: int|
            0 <= k < norm_gaps(u).len() && is_nl_byte(#[trigger] norm_gaps(u)[k]) ==> {
                &&& norm_gaps(u)[k] == 10u8
                &&& k + 1 < norm_gaps(u).len()
                &&& norm_gaps(u)[k + 1] == 60u8
            },
{
    let t = norm_gaps(u);
    assert forall|k: int| 0 <= k < t.len() && is_nl_byte(t[k]) implies {
        &&& t[k] == 10u8
        &&& k + 1 < t.len()
        &&& t[k + 1] == 60u8
    } by {
        assert(!is_nl_byte(u[k]));
        assert(gap_at(u, k - 1));
        assert(u[k + 1] == 60u8);
        assert(!gap_at(u, k));
    }
}

/// In a document where every terminator is followed by `<`, no whitespace
/// position sits in a run behind a terminator.
proof fn lemma_no_absorbed_ws(t: Seq<u8>, i: int)
    requires
        forall|k: int|
            0 <= k < t.len() && is_nl_byte(#[trigger] t[k]) ==> k + 1 < t.len() && t[k + 1]
                == 60u8,
    ensures
        !(absorbed(t, i) && 0 <= i < t.len() && is_ws_byte(t[i])),
    decreases i,
{
    if absorbed(t, i) && 0 <= i < t.len() && is_ws_byte(t[i]) {
        if is_nl_byte(t[i - 1]) {
            assert(t[i] == 60u8);
        } else {
            lemma_no_absorbed_ws(t, i - 1);
        }
    }
}

/// Collapsing terminators in such a document only rewrites each newline to
/// a space.
proof fn lemma_collapse_is_map(t: Seq<u8>, u2: Seq<u8>, i: int)
    requires
        0 <= i <= t.len(),
        u2.len() == t.len(),
        forall|k: int| 0 <= k < t.len() ==> u2[k] == (if t[k] == 10u8 {
            32u8
        } else {
            #[trigger] t[k]
        }),
        forall|k: int| 0 <= k < t.len() && is_nl_byte(#[trigger] t[k]) ==> t[k] == 10u8,
        forall|k: int| !(absorbed(t, k) && 0 <= k < t.len() && is_ws_byte(#[trigger] t[k])),
    ensures
        norm_newlines_from(t, i) =~= u2.skip(i),
    decreases t.len() - i,
{
    if i < t.len() {
        lemma_collapse_is_map(t, u2, i + 1);
        let emit = nl_emit(t, i);
        assert(!(absorbed(t, i) && is_ws_byte(t[i])));
        if is_nl_byte(t[i]) {
            assert(emit =~= seq![u2[i]]);
        } else {
            assert(emit =~= seq![u2[i]]);
        }
        assert(u2.skip(i) =~= seq![u2[i]] + u2.skip(i + 1));
        assert(norm_newlines_from(t, i) =~= u2.skip(i));
    } else {
        assert(u2.skip(i).len() == 0);
    }
}

/// Law: the post-pass whitespace normalization is idempotent, so a second
/// rewrite re-applies a normalization that changes nothing.
pub proof fn lemma_normalize_idempotent(s: Seq<u8>)
    ensures
        normalize(normalize(s)) == normalize(s),
{
    let u = norm_newlines(s);
    lemma_norm_newlines_nl_free(s, 0);
    assert(forall|k: int| 0 <= k < u.len() ==> !is_nl_byte(#[trigger] u[k]));
    let t = norm_gaps(u);
    lemma_gap_structure(u);
    assert forall|k: int| !(absorbed(t, k) && 0 <= k < t.len() && is_ws_byte(
        #[trigger] t[k],
    )) by {
        lemma_no_absorbed_ws(t, k);
    }
    let u2 = Seq::new(
        t.len(),
        |k: int|
            if t[k] == 10u8 {
                32u8
            } else {
                t[k]
            },
    );
    assert forall|k: int| 0 <= k < t.len() && is_nl_byte(#[trigger] t[k]) implies t[k]
        == 10u8 by {
        assert(!is_nl_byte(u[k]));
    }
    lemma_collapse_is_map(t, u2, 0);
    assert(norm_newlines(t) =~= u2.skip(0));
    assert(u2.skip(0) =~= u2);
    assert forall|k: int| 0 <= k < u2.len() implies norm_gaps(u2)[k] == t[k] by {
        assert forall|j: int| 0 <= j < u.len() implies {
            &&& (u2[j] == 62u8 <==> u[j] == 62u8)
            &&& (u2[j] == 60u8 <==> u[j] == 60u8)
            &&& (is_ws_byte(u2[j]) <==> is_ws_byte(u[j]))
        } by {
            if gap_at(u, j - 1) {
                assert(t[j] == 10u8);
                assert(u2[j] == 32u8);
                assert(is_ws_byte(u[j]));
            } else {
                assert(t[j] == u[j]);
                assert(u[j] != 10u8);
                assert(u2[j] == u[j]);
            }
        }
        assert(gap_at(u2, k - 1) <==> gap_at(u, k - 1));
        if gap_at(u, k - 1) {
            assert(t[k] == 10u8);
        } else {
            assert(t[k] == u[k]);
            assert(u2[k] == t[k]);
        }
    }
    assert(norm_gaps(u2) =~= t);
    assert(normalize(t) == norm_gaps(norm_newlines(t)));
    assert(norm_newlines(t) == u2);
    assert(normalize(t) == t);
}


/// The bytes of the version marker: twenty-five ASCII bytes ending in
/// `>` then a newline, with no other terminator and no other `>`.
proof fn lemma_marker_bytes()
    ensures
        marker().len() == 25,
        marker()[24] == 10u8,
        marker()[23] == 62u8,
        forall|k: int| 0 <= k < 24 ==> !is_nl_byte(#[trigger] marker()[k]),
        forall|k: int| 0 <= k < 23 ==> #[trigger] marker()[k] != 62u8,
{
    reveal_strlit("<!-- htmplate v0.1.0 -->\n");
    let chars = "<!-- htmplate v0.1.0 -->\n"@;
    assert(chars.len() == 25);
    assert(is_ascii_chars(chars));
    vstd::utf8::is_ascii_chars_encode_utf8(chars);
    assert(marker().len() == 25);
    assert(marker()[24] == 10u8) by {
        assert(chars[24] == '\n');
    }
    assert(marker()[23] == 62u8) by {
        assert(chars[23] == '>');
    }
    assert forall|k: int| 0 <= k < 24 implies !is_nl_byte(marker()[k]) by {
        assert(marker()[k] == chars[k] as u8);
    }
    assert forall|k: int| 0 <= k < 23 implies marker()[k] != 62u8 by {
        assert(marker()[k] == chars[k] as u8);
    }
}


/// Normalizing a rewrite output is a fixed point: the output is the
/// version marker followed by a normalized document that starts with a
/// tag, and normalization leaves exactly that shape unchanged.
proof fn lemma_normalize_fixed_point_behind_marker(body: Seq<u8>)
    requires
        normalize(body).len() > 0,
        normalize(body)[0] == 60u8,
    ensures
        normalize(marker() + normalize(body)) == marker() + normalize(body),
{
    let u = norm_newlines(body);
    let t = norm_gaps(u);
    lemma_norm_newlines_nl_free(body, 0);
    assert(forall|k: int| 0 <= k < u.len() ==> !is_nl_byte(#[trigger] u[k]));
    lemma_gap_structure(u);
    lemma_marker_bytes();
    let m = marker();
    let y = m + t;
    assert(t[0] == 60u8);
    assert forall|k: int| 0 <= k < y.len() && is_nl_byte(#[trigger] y[k]) implies y[k] == 10u8
        && k + 1 < y.len() && y[k + 1] == 60u8 by {
        if k < 24 {
            assert(y[k] == m[k]);
        } else if k == 24 {
            assert(y[24] == m[24]);
            assert(y[25] == t[0]);
        } else {
            assert(y[k] == t[k - 25]);
            assert(is_nl_byte(t[k - 25]));
            assert(t[k - 25] == 10u8 && (k - 25) + 1 < t.len() && t[k - 25 + 1] == 60u8);
            assert(y[k + 1] == t[k - 24]);
        }
    }
    assert forall|k: int| !(absorbed(y, k) && 0 <= k < y.len() && is_ws_byte(
        #[trigger] y[k],
    )) by {
        lemma_no_absorbed_ws(y, k);
    }
    let y2 = Seq::new(
        y.len(),
        |k: int|
            if y[k] == 10u8 {
                32u8
            } else {
                y[k]
            },
    );
    lemma_collapse_is_map(y, y2, 0);
    assert(norm_newlines(y) =~= y2.skip(0));
    assert(y2.skip(0) =~= y2);
    // Where the gaps of the combined document lie: the junction between
    // the marker and the body, and the gaps of the body itself.
    assert forall|j: int| 25 <= j implies (gap_at(y2, j) <==> gap_at(u, j - 25)) by {
        assert forall|i: int| 0 <= i < t.len() implies {
            &&& (y2[25 + i] == 62u8 <==> u[i] == 62u8)
            &&& (y2[25 + i] == 60u8 <==> u[i] == 60u8)
            &&& (is_ws_byte(y2[25 + i]) <==> is_ws_byte(u[i]))
        } by {
            assert(y[25 + i] == t[i]);
            if gap_at(u, i - 1) {
                assert(t[i] == 10u8);
                assert(y2[25 + i] == 32u8);
                assert(is_ws_byte(u[i]));
            } else {
                assert(t[i] == u[i]);
                assert(u[i] != 10u8);
                assert(y2[25 + i] == u[i]);
            }
        }
    }
    assert(gap_at(y2, 23)) by {
        assert(y2[23] == 62u8);
        assert(y[24] == 10u8);
        assert(y2[24] == 32u8);
        assert(y[25] == t[0]);
        assert(y2[25] == 60u8);
    }
    assert(!gap_at(y2, 24)) by {
        assert(y2[24] == 32u8);
    }
    assert forall|j: int| 0 <= j < 23 implies !gap_at(y2, j) by {
        assert(y[j] == m[j]);
        assert(y2[j] == m[j] || y2[j] == 32u8);
    }
    assert forall|k: int| 0 <= k < y2.len() implies norm_gaps(y2)[k] == y[k] by {
        if k < 24 {
            assert(y[k] == m[k]);
            assert(!gap_at(y2, k - 1));
            assert(y2[k] == m[k]);
        } else if k == 24 {
            assert(gap_at(y2, 23));
            assert(y[24] == m[24]);
        } else if k == 25 {
            assert(!gap_at(y2, 24));
            assert(y[25] == t[0]);
            assert(y2[25] == 60u8);
        } else {
            let j = k - 25;
            assert(gap_at(y2, k - 1) <==> gap_at(u, j - 1));
            assert(y[k] == t[j]);
            if gap_at(u, j - 1) {
                assert(t[j] == 10u8);
            } else {
                assert(t[j] == u[j]);
                assert(u[j] != 10u8);
                assert(y2[k] == y[k]);
            }
        }
    }
    assert(norm_gaps(y2) =~= y);
    assert(normalize(y) == norm_gaps(norm_newlines(y)));
    assert(norm_newlines(y) == y2);
}

/// Law: rewriting is idempotent on the set of components consumed. An
/// output document holds no component elements, so re-running the rewrite
/// on it consumes nothing and reproduces it byte for byte behind one fresh
/// version marker line. The output must start with a tag right after its
/// marker line; a document whose normalized form opens with loose text or
/// whitespace instead folds that text into the marker line on the second
/// run.
pub proof fn lemma_rewrite_idempotent(
    body: Seq<u8>,
    els: Seq<(Seq<u8>, Seq<(Seq<u8>, Seq<u8>)>, int, int)>,
    path: Seq<char>,
    assets: Seq<u8>,
)
    requires
        forall|i: int| 0 <= i < els.len() ==> !is_reserved_tag((#[trigger] els[i]).0),
        normalize(body).len() > 0,
        normalize(body)[0] == 60u8,
    ensures
        rewrite_spec(marker() + normalize(body), els, path, assets) == Ok::<
            Seq<u8>,
            ReplaceHtmplateErrorV,
        >(marker() + (marker() + normalize(body))),
{
    lemma_rewrite_plain_document(marker() + normalize(body), els, path, assets);
    lemma_normalize_fixed_point_behind_marker(body);
}

/// What the scanner finds in a document: every element start tag, in
/// document order, with its tag name, its attributes, and its byte range.
pub uninterp spec fn scan_of(html: Seq<u8>) -> Seq<(Seq<u8>, Seq<(Seq<u8>, Seq<u8>)>, int, int)>;

/// Whether the scanner itself fails on a document. The scan is a function
/// of the input bytes alone, so its failure is too; `replace_htmplates`
/// may report an engine error only under this condition (or the other two
/// machine limits its contract names).
pub uninterp spec fn scan_err_of(html: Seq<u8>) -> bool;

/// Record one matched element from the plain values the scanner hands
/// over: the tag name, the attributes, and the start tag's byte range.
fn push_element(
    out: &mut Vec<RawElement>,
    tag: String,
    attrs: Vec<(String, String)>,
    start: usize,
    end: usize,
)
    ensures
        final(out)@.len() == old(out)@.len() + 1,
        final(out)@.subrange(0, old(out)@.len() as int) == old(out)@,
        ({
            let el = final(out)@.last();
            &&& el.tag@ == vstd::utf8::encode_utf8(tag@)
            &&& el.start == start
            &&& el.end == end
            &&& el.attrs_view() == attrs@.map_values(
                |a: (String, String)| (vstd::utf8::encode_utf8(a.0@), vstd::utf8::encode_utf8(a.1@)),
            )
        }),
{
    let mut attributes: Vec<crate::element::RawAttribute> = Vec::new();
    let mut i: usize = 0;
    while i < attrs.len()
        invariant
            0 <= i <= attrs@.len(),
            attributes@.map_values(|a: crate::element::RawAttribute| a@) =~= attrs@.take(
                i as int,
            ).map_values(
                |a: (String, String)| (vstd::utf8::encode_utf8(a.0@), vstd::utf8::encode_utf8(a.1@)),
            ),
        decreases attrs@.len() - i,
    {
        let name = attrs[i].0.as_str().as_bytes_vec();
        let value = attrs[i].1.as_str().as_bytes_vec();
        attributes.push(crate::element::RawAttribute { name, value });
        proof {
            assert(attrs@.take(i + 1).map_values(
                |a: (String, String)| (vstd::utf8::encode_utf8(a.0@), vstd::utf8::encode_utf8(a.1@)),
            ) =~= attrs@.take(i as int).map_values(
                |a: (String, String)| (vstd::utf8::encode_utf8(a.0@), vstd::utf8::encode_utf8(a.1@)),
            ) + seq![
                (
                    vstd::utf8::encode_utf8(attrs@[i as int].0@),
                    vstd::utf8::encode_utf8(attrs@[i as int].1@),
                ),
            ]);
            assert(attributes@.map_values(|a: crate::element::RawAttribute| a@)
                =~= attributes@.subrange(0, attributes@.len() - 1).map_values(
                |a: crate::element::RawAttribute| a@,
            ) + seq![attributes@.last()@]);
            assert(attributes@.subrange(0, attributes@.len() - 1) =~= attributes@.drop_last());
        }
        i = i + 1;
    }
    proof {
        assert(attrs@.take(attrs@.len() as int) =~= attrs@);
    }
    let element = RawElement { tag: tag.as_str().as_bytes_vec(), attributes, start, end };
    out.push(element);
    proof {
        assert(final(out)@.subrange(0, old(out)@.len() as int) =~= old(out)@);
    }
}

/// Relies on lol_html's `rewrite_str` with one catch-all element handler:
/// the handler runs once per element start tag in document order;
/// `Element::tag_name` gives the lowercased tag name, `Element::attributes`
/// the attributes in source order, and `Element::source_location` the byte
/// range of the start tag within the source document. Start tag ranges lie
/// within the document and do not overlap.
#[verifier::external_body]
fn scan_elements(html: &str) -> (r: Result<Vec<RawElement>, String>)
    ensures
        r matches Ok(v) ==> elems_view(v@) == scan_of(html.spec_bytes()),
        r matches Ok(v) ==> wf_elements(elems_view(v@), html.spec_bytes().len() as int),
        r is Err ==> scan_err_of(html.spec_bytes()),
{
    let mut out: Vec<RawElement> = Vec::new();
    let settings = lol_html::Settings::new().append_element_content_handler((
        std::borrow::Cow::Owned("*".parse().unwrap()),
        lol_html::ElementContentHandlers::default().element(|el: &mut lol_html::html_content::Element| {
            let range = el.source_location().bytes();
            push_element(&mut out, el.tag_name(), el.attributes().iter().map(|a| (a.name(), a.value())).collect(), range.start, range.end);
            Ok(())
        }),
    ));
    match lol_html::rewrite_str(html, settings) { Ok(_) => Ok(out), Err(e) => Err(e.to_string()) }
}

/// Relies on `String::from_utf8`: on success the returned string's bytes
/// are exactly the input bytes.
#[verifier::external_body]
fn bytes_to_string(v: Vec<u8>) -> (r: Option<String>)
    ensures
        r matches Some(s) ==> vstd::utf8::encode_utf8(s@) == v@,
        r is None ==> !vstd::utf8::valid_utf8(v@),
{
    String::from_utf8(v).ok()
}

/// Replace the htmplates in some source HTML: expand every recognized
/// component element, abort on the first error, normalize whitespace, and
/// prepend the version marker. An engine error may be reported only where
/// the engine can genuinely fail: the document is too large, the scan
/// itself fails, or the rewritten bytes are not valid UTF-8; every other
/// outcome, success or the first element's error, is exactly the rewrite
/// of what the scan found.
pub fn replace_htmplates(html: &str, html_path: &str, path_from_output_to_assets: &str) -> (r:
    Result<String, ReplaceHtmplateError>)
    ensures
        r matches Ok(out) ==> rewrite_spec(
            html.spec_bytes(),
            scan_of(html.spec_bytes()),
            html_path@,
            path_from_output_to_assets.spec_bytes(),
        ) == Ok::<Seq<u8>, ReplaceHtmplateErrorV>(vstd::utf8::encode_utf8(out@)),
        r matches Err(e) ==> ((e@ matches ReplaceHtmplateErrorV::RewriteError { .. } && {
            ||| html.spec_bytes().len() >= usize::MAX
            ||| scan_err_of(html.spec_bytes())
            ||| (rewrite_spec(
                html.spec_bytes(),
                scan_of(html.spec_bytes()),
                html_path@,
                path_from_output_to_assets.spec_bytes(),
            ) matches Ok(body) && !vstd::utf8::valid_utf8(body))
        }) || rewrite_spec(
            html.spec_bytes(),
            scan_of(html.spec_bytes()),
            html_path@,
            path_from_output_to_assets.spec_bytes(),
        ) == Err::<Seq<u8>, ReplaceHtmplateErrorV>(e@)),
{
    let html_bytes = html.as_bytes();
    if html_bytes.len() == usize::MAX {
        return Err(
            ReplaceHtmplateError::RewriteError { detail: "the document is too large".to_owned() },
        );
    }
    let elements = match scan_elements(html) {
        Ok(v) => v,
        Err(detail) => {
            return Err(ReplaceHtmplateError::RewriteError { detail });
        },
    };
    let assets = path_from_output_to_assets.as_bytes();
    match rewrite_document(html_bytes, &elements, html_path, assets) {
        Ok(out_bytes) => match bytes_to_string(out_bytes) {
            Some(s) => Ok(s),
            None => Err(
                ReplaceHtmplateError::RewriteError {
                    detail: "the rewritten document is not valid UTF-8".to_owned(),
                },
            ),
        },
        Err(e) => Err(e),
    }
}

} // verus!
