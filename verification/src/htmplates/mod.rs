//! The component library: every known htmplate, its schema, and its
//! rendering.

mod alert;
mod footer;
mod form;
mod hr;
mod icon;
mod icon_button;
mod metadata;
mod title;

use vstd::prelude::*;
use vstd::string::StringSliceAdditionalSpecFns;

use crate::element::FieldSpec;
use crate::location::{Location, LocationV};
use crate::text::append_all;

pub use alert::{alert_fragment, style_of, Alert, AlertStyle};
pub use footer::{footer_fragment, Footer};
pub use form::{
    form_alert_fragment, form_check_input_fragment, form_submit_fragment,
    form_text_input_fragment, FormAlert, FormCheckInput, FormId, FormSubmit, FormTextInput,
};
pub use hr::{hr_fragment, Hr};
pub use icon::Icon;
pub use icon_button::{icon_button_fragment, IconButton};
pub use metadata::{metadata_fragment, Metadata};
pub use title::{icon_svg_part, title_fragment, Title};

verus! {

/// The value of an optional byte-valued field.
pub open spec fn opt_bytes(o: Option<Vec<u8>>) -> Option<Seq<u8>> {
    match o {
        Some(v) => Some(v@),
        None => None,
    }
}

/// An optional part of a fragment: the value if present, empty otherwise.
pub open spec fn opt_or_empty(o: Option<Seq<u8>>) -> Seq<u8> {
    match o {
        Some(s) => s,
        None => Seq::empty(),
    }
}

/// The boolean that a flag value decodes to.
pub open spec fn flag_of(v: Seq<u8>) -> bool {
    v == "true".spec_bytes()
}

/// The decoded flag attribute named `name`, if present.
pub open spec fn flag_lookup(attrs: Seq<(Seq<u8>, Seq<u8>)>, name: Seq<u8>) -> Option<bool> {
    match crate::element::spec_lookup(attrs, name) {
        Some(v) => Some(flag_of(v)),
        None => None,
    }
}

/// Read and decode a flag attribute from a matched element.
pub fn get_flag(el: &crate::element::RawElement, name: &[u8]) -> (r: Option<bool>)
    ensures
        r == flag_lookup(el.attrs_view(), name@),
{
    match el.get_attribute(name) {
        Some(v) => Some(crate::text::bytes_eq(v.as_slice(), "true".as_bytes())),
        None => None,
    }
}

/// A flag field set to true.
pub open spec fn flag_set(o: Option<bool>) -> bool {
    o == Some(true)
}

/// Fetch a required attribute that binding has shown to be present.
pub(crate) fn required_attribute_of(el: &crate::element::RawElement, name: &[u8]) -> (r: Vec<u8>)
    requires
        crate::element::spec_lookup(el.attrs_view(), name@) is Some,
    ensures
        Some(r@) == crate::element::spec_lookup(el.attrs_view(), name@),
{
    match el.get_attribute(name) {
        Some(v) => v,
        None => {
            proof {
                assert(false);
            }
            vstd::pervasive::unreached()
        },
    }
}

/// Trait for turning an htmplate into its HTML.
pub trait ToHtml: Sized {
    /// Whether rendering succeeds.
    spec fn renders(&self) -> bool;

    /// The fragment produced when rendering succeeds.
    spec fn fragment(&self) -> Seq<u8>;

    /// The failure reported when rendering fails.
    spec fn render_failure(&self) -> HtmplateErrorKindV;

    /// Turn the htmplate into HTML.
    fn to_html(self) -> (r: Result<Vec<u8>, HtmplateErrorKind>)
        ensures
            self.renders() ==> (r matches Ok(v) && v@ == self.fragment()),
            !self.renders() ==> (r matches Err(e) && e@ == self.render_failure()),
    ;
}

/// Error variants for rendering an htmplate: the component bound, but its
/// values are semantically unusable.
#[derive(Debug)]
pub enum HtmplateErrorKind {
    /// An attribute value was semantically invalid.
    InvalidAttribute {
        /// The attribute's name.
        attribute: Vec<u8>,
        /// What the value should have been.
        expected: Vec<u8>,
    },
    /// A referenced icon does not exist.
    InvalidIcon {
        /// The identifier that matched no icon.
        icon: Vec<u8>,
    },
}

/// The mathematical value of a `HtmplateErrorKind`.
pub enum HtmplateErrorKindV {
    /// An attribute value was semantically invalid.
    InvalidAttribute {
        /// The attribute's name.
        attribute: Seq<u8>,
        /// What the value should have been.
        expected: Seq<u8>,
    },
    /// A referenced icon does not exist.
    InvalidIcon {
        /// The identifier that matched no icon.
        icon: Seq<u8>,
    },
}

impl View for HtmplateErrorKind {
    type V = HtmplateErrorKindV;

    open spec fn view(&self) -> HtmplateErrorKindV {
        match self {
            HtmplateErrorKind::InvalidAttribute { attribute, expected } => {
                HtmplateErrorKindV::InvalidAttribute {
                    attribute: attribute@,
                    expected: expected@,
                }
            },
            HtmplateErrorKind::InvalidIcon { icon } => {
                HtmplateErrorKindV::InvalidIcon { icon: icon@ }
            },
        }
    }
}

impl HtmplateErrorKind {
    /// Build an invalid-attribute error.
    pub fn invalid_attribute(attribute: &str, expected: &str) -> (r: HtmplateErrorKind)
        ensures
            r@ == (HtmplateErrorKindV::InvalidAttribute {
                attribute: attribute.spec_bytes(),
                expected: expected.spec_bytes(),
            }),
    {
        HtmplateErrorKind::InvalidAttribute {
            attribute: attribute.as_bytes_vec(),
            expected: expected.as_bytes_vec(),
        }
    }
}

/// The rendered form of a render-error kind, one line.
pub open spec fn error_kind_line(k: HtmplateErrorKindV) -> Seq<u8> {
    match k {
        HtmplateErrorKindV::InvalidAttribute { attribute, expected } => {
            "invalid attribute `".spec_bytes() + attribute + "`, ".spec_bytes() + expected
        },
        HtmplateErrorKindV::InvalidIcon { icon } => {
            "the icon `".spec_bytes() + icon + "` does not exist".spec_bytes()
        },
    }
}

impl HtmplateErrorKind {
    /// Render the error kind as one line, in bytes.
    pub fn describe_bytes(&self) -> (r: Vec<u8>)
        ensures
            r@ == error_kind_line(self@),
    {
        let mut out: Vec<u8> = Vec::new();
        match self {
            HtmplateErrorKind::InvalidAttribute { attribute, expected } => {
                append_all(&mut out, "invalid attribute `".as_bytes());
                append_all(&mut out, attribute.as_slice());
                append_all(&mut out, "`, ".as_bytes());
                append_all(&mut out, expected.as_slice());
            },
            HtmplateErrorKind::InvalidIcon { icon } => {
                append_all(&mut out, "the icon `".as_bytes());
                append_all(&mut out, icon.as_slice());
                append_all(&mut out, "` does not exist".as_bytes());
            },
        }
        proof {
            assert(out@ =~= error_kind_line(self@));
        }
        out
    }

    /// Render the error kind as one line.
    pub fn describe(&self) -> (r: String)
        ensures
            vstd::utf8::valid_utf8(error_kind_line(self@)) ==> vstd::utf8::encode_utf8(r@)
                == error_kind_line(self@),
    {
        let bytes = self.describe_bytes();
        crate::text::bytes_to_string_lossy(bytes.as_slice())
    }
}

/// Error for an htmplate whose rendering failed: which tag, where, and why.
#[derive(Debug)]
pub struct HtmplateError {
    /// The tag of the element that failed.
    pub tag: Vec<u8>,
    /// Where the element starts.
    pub location: Location,
    /// What went wrong.
    pub kind: HtmplateErrorKind,
}

/// The mathematical value of a `HtmplateError`.
pub struct HtmplateErrorV {
    /// The tag of the element that failed.
    pub tag: Seq<u8>,
    /// Where the element starts.
    pub location: LocationV,
    /// What went wrong.
    pub kind: HtmplateErrorKindV,
}

impl View for HtmplateError {
    type V = HtmplateErrorV;

    open spec fn view(&self) -> HtmplateErrorV {
        HtmplateErrorV { tag: self.tag@, location: self.location@, kind: self.kind@ }
    }
}

impl HtmplateError {
    /// Build the error for a reference to an icon that does not exist.
    pub fn invalid_icon(tag: Vec<u8>, location: Location, icon: Vec<u8>) -> (r: HtmplateError)
        ensures
            r@.tag == tag@,
            r@.location == location@,
            r@.kind == (HtmplateErrorKindV::InvalidIcon { icon: icon@ }),
    {
        HtmplateError { tag, location, kind: HtmplateErrorKind::InvalidIcon { icon } }
    }

    /// Render the error in bytes: which tag failed, where, and why.
    pub fn describe_bytes(&self) -> (r: Vec<u8>)
        ensures
            r@ == htmplate_error_line(self@),
    {
        let mut out: Vec<u8> = Vec::new();
        append_all(&mut out, "could not template a `".as_bytes());
        append_all(&mut out, self.tag.as_slice());
        append_all(&mut out, "` at ".as_bytes());
        let loc = self.location.describe_bytes();
        append_all(&mut out, loc.as_slice());
        append_all(&mut out, ": ".as_bytes());
        let kind = self.kind.describe_bytes();
        append_all(&mut out, kind.as_slice());
        proof {
            assert(out@ =~= htmplate_error_line(self@));
        }
        out
    }

    /// Render the error: which tag failed, where, and why.
    pub fn describe(&self) -> (r: String)
        ensures
            vstd::utf8::valid_utf8(htmplate_error_line(self@)) ==> vstd::utf8::encode_utf8(r@)
                == htmplate_error_line(self@),
    {
        let bytes = self.describe_bytes();
        crate::text::bytes_to_string_lossy(bytes.as_slice())
    }
}

/// The rendered form of a render failure: which tag failed, where, and
/// why, one line.
pub open spec fn htmplate_error_line(e: HtmplateErrorV) -> Seq<u8> {
    "could not template a `".spec_bytes() + e.tag + "` at ".spec_bytes()
        + crate::location::location_line(e.location) + ": ".spec_bytes() + error_kind_line(e.kind)
}

/// The kinds of htmplate in the registry, in registry order.
#[derive(Debug, Clone, Copy, PartialEq, Eq, Structural)]
pub enum HtmplateKind {
    /// `htmplate:title`
    Title,
    /// `htmplate:metadata`
    Metadata,
    /// `htmplate:footer`
    Footer,
    /// `htmplate:alert`
    Alert,
    /// `htmplate:form-alert`
    FormAlert,
    /// `htmplate:form-text-input`
    FormTextInput,
    /// `htmplate:form-check-input`
    FormCheckInput,
    /// `htmplate:form-submit`
    FormSubmit,
    /// `htmplate:icon`
    Icon,
    /// `htmplate:hr`
    Hr,
}

impl HtmplateKind {
    /// The tag that elements of this kind carry.
    pub open spec fn spec_tag(self) -> Seq<u8> {
        match self {
            HtmplateKind::Title => "htmplate:title".spec_bytes(),
            HtmplateKind::Metadata => "htmplate:metadata".spec_bytes(),
            HtmplateKind::Footer => "htmplate:footer".spec_bytes(),
            HtmplateKind::Alert => "htmplate:alert".spec_bytes(),
            HtmplateKind::FormAlert => "htmplate:form-alert".spec_bytes(),
            HtmplateKind::FormTextInput => "htmplate:form-text-input".spec_bytes(),
            HtmplateKind::FormCheckInput => "htmplate:form-check-input".spec_bytes(),
            HtmplateKind::FormSubmit => "htmplate:form-submit".spec_bytes(),
            HtmplateKind::Icon => "htmplate:icon".spec_bytes(),
            HtmplateKind::Hr => "htmplate:hr".spec_bytes(),
        }
    }

    /// The tag that elements of this kind carry.
    pub fn tag(&self) -> (r: &'static str)
        ensures
            r.spec_bytes() == self.spec_tag(),
    {
        match self {
            HtmplateKind::Title => "htmplate:title",
            HtmplateKind::Metadata => "htmplate:metadata",
            HtmplateKind::Footer => "htmplate:footer",
            HtmplateKind::Alert => "htmplate:alert",
            HtmplateKind::FormAlert => "htmplate:form-alert",
            HtmplateKind::FormTextInput => "htmplate:form-text-input",
            HtmplateKind::FormCheckInput => "htmplate:form-check-input",
            HtmplateKind::FormSubmit => "htmplate:form-submit",
            HtmplateKind::Icon => "htmplate:icon",
            HtmplateKind::Hr => "htmplate:hr",
        }
    }

    /// The human description of this kind.
    pub open spec fn spec_description(self) -> Seq<char> {
        match self {
            HtmplateKind::Title => "a document title with an optional icon"@,
            HtmplateKind::Metadata => "common document metadata"@,
            HtmplateKind::Footer => "the shared footer"@,
            HtmplateKind::Alert => "an admonition style alert"@,
            HtmplateKind::FormAlert => "an alert for a form"@,
            HtmplateKind::FormTextInput => "a text input for a form"@,
            HtmplateKind::FormCheckInput => "a checkbox input for a form"@,
            HtmplateKind::FormSubmit => "the submit button for a form"@,
            HtmplateKind::Icon => "an SVG icon"@,
            HtmplateKind::Hr => "a horizontal divider with some text content"@,
        }
    }

    /// The human description of this kind.
    pub fn description(&self) -> (r: &'static str)
        ensures
            r@ == self.spec_description(),
    {
        match self {
            HtmplateKind::Title => "a document title with an optional icon",
            HtmplateKind::Metadata => "common document metadata",
            HtmplateKind::Footer => "the shared footer",
            HtmplateKind::Alert => "an admonition style alert",
            HtmplateKind::FormAlert => "an alert for a form",
            HtmplateKind::FormTextInput => "a text input for a form",
            HtmplateKind::FormCheckInput => "a checkbox input for a form",
            HtmplateKind::FormSubmit => "the submit button for a form",
            HtmplateKind::Icon => "an SVG icon",
            HtmplateKind::Hr => "a horizontal divider with some text content",
        }
    }

    /// The schema that elements of this kind are bound against.
    pub open spec fn spec_schema(self) -> Seq<FieldSpec> {
        match self {
            HtmplateKind::Title => Title::spec_schema(),
            HtmplateKind::Metadata => Metadata::spec_schema(),
            HtmplateKind::Footer => Footer::spec_schema(),
            HtmplateKind::Alert => Alert::spec_schema(),
            HtmplateKind::FormAlert => FormAlert::spec_schema(),
            HtmplateKind::FormTextInput => FormTextInput::spec_schema(),
            HtmplateKind::FormCheckInput => FormCheckInput::spec_schema(),
            HtmplateKind::FormSubmit => FormSubmit::spec_schema(),
            HtmplateKind::Icon => Icon::spec_schema(),
            HtmplateKind::Hr => Hr::spec_schema(),
        }
    }

    /// Build the schema that elements of this kind are bound against.
    pub fn schema(&self) -> (r: Vec<FieldSpec>)
        ensures
            r@ == self.spec_schema(),
    {
        match self {
            HtmplateKind::Title => Title::schema(),
            HtmplateKind::Metadata => Metadata::schema(),
            HtmplateKind::Footer => Footer::schema(),
            HtmplateKind::Alert => Alert::schema(),
            HtmplateKind::FormAlert => FormAlert::schema(),
            HtmplateKind::FormTextInput => FormTextInput::schema(),
            HtmplateKind::FormCheckInput => FormCheckInput::schema(),
            HtmplateKind::FormSubmit => FormSubmit::schema(),
            HtmplateKind::Icon => Icon::schema(),
            HtmplateKind::Hr => Hr::schema(),
        }
    }
}

/// The registry, in order.
pub open spec fn spec_all_kinds() -> Seq<HtmplateKind> {
    seq![
        HtmplateKind::Title,
        HtmplateKind::Metadata,
        HtmplateKind::Footer,
        HtmplateKind::Alert,
        HtmplateKind::FormAlert,
        HtmplateKind::FormTextInput,
        HtmplateKind::FormCheckInput,
        HtmplateKind::FormSubmit,
        HtmplateKind::Icon,
        HtmplateKind::Hr,
    ]
}

/// The registry, in order.
pub fn all_kinds() -> (r: Vec<HtmplateKind>)
    ensures
        r@ == spec_all_kinds(),
{
    let mut v: Vec<HtmplateKind> = Vec::new();
    v.push(HtmplateKind::Title);
    v.push(HtmplateKind::Metadata);
    v.push(HtmplateKind::Footer);
    v.push(HtmplateKind::Alert);
    v.push(HtmplateKind::FormAlert);
    v.push(HtmplateKind::FormTextInput);
    v.push(HtmplateKind::FormCheckInput);
    v.push(HtmplateKind::FormSubmit);
    v.push(HtmplateKind::Icon);
    v.push(HtmplateKind::Hr);
    proof {
        assert(v@ =~= spec_all_kinds());
    }
    v
}

/// The registered kind whose tag is `tag`, if any.
pub open spec fn kind_of_tag(tag: Seq<u8>) -> Option<HtmplateKind> {
    if tag == HtmplateKind::Title.spec_tag() {
        Some(HtmplateKind::Title)
    } else if tag == HtmplateKind::Metadata.spec_tag() {
        Some(HtmplateKind::Metadata)
    } else if tag == HtmplateKind::Footer.spec_tag() {
        Some(HtmplateKind::Footer)
    } else if tag == HtmplateKind::Alert.spec_tag() {
        Some(HtmplateKind::Alert)
    } else if tag == HtmplateKind::FormAlert.spec_tag() {
        Some(HtmplateKind::FormAlert)
    } else if tag == HtmplateKind::FormTextInput.spec_tag() {
        Some(HtmplateKind::FormTextInput)
    } else if tag == HtmplateKind::FormCheckInput.spec_tag() {
        Some(HtmplateKind::FormCheckInput)
    } else if tag == HtmplateKind::FormSubmit.spec_tag() {
        Some(HtmplateKind::FormSubmit)
    } else if tag == HtmplateKind::Icon.spec_tag() {
        Some(HtmplateKind::Icon)
    } else if tag == HtmplateKind::Hr.spec_tag() {
        Some(HtmplateKind::Hr)
    } else {
        None
    }
}

/// A tag is known when some registered kind carries it.
pub open spec fn known_tag(tag: Seq<u8>) -> bool {
    kind_of_tag(tag) is Some
}

/// Look up the registered kind for a tag.
pub fn lookup_kind(tag: &[u8]) -> (r: Option<HtmplateKind>)
    ensures
        r == kind_of_tag(tag@),
{
    let kinds = all_kinds();
    let mut i: usize = 0;
    while i < kinds.len()
        invariant
            0 <= i <= kinds@.len(),
            kinds@ == spec_all_kinds(),
            forall|j: int| 0 <= j < i ==> tag@ != (#[trigger] kinds@[j]).spec_tag(),
        decreases kinds@.len() - i,
    {
        if crate::text::bytes_eq(tag, kinds[i].tag().as_bytes()) {
            return Some(kinds[i]);
        }
        i = i + 1;
    }
    None
}

} // verus!
