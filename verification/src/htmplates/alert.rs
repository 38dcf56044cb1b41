//! The alert component.

use vstd::prelude::*;
use vstd::string::StringSliceAdditionalSpecFns;

use crate::element::{
    binds, is_bind_error, is_invalid, is_missing, lemma_invalid_of_complete,
    lemma_missing_of_complete, spec_lookup, Attribute, Decoder, FieldSpec, FromElementError,
    RawElement,
};
use crate::htmplates::{
    flag_lookup, flag_set, get_flag, opt_bytes, opt_or_empty, HtmplateErrorKind,
    HtmplateErrorKindV, ToHtml,
};
use crate::icon::{svg_of, Icon};
use crate::text::{append_all, eq_ignore_ascii_case, lower_bytes};

verus! {

/// The style of an alert, selecting its icon and its class.
#[derive(Debug, Clone, Copy, PartialEq, Eq, Structural)]
pub enum AlertStyle {
    /// an error alert
    Error,
    /// a warning alert
    Warning,
    /// a success alert
    Success,
    /// an informational alert
    Info,
    /// an unstyled alert
    Basic,
}

/// The style named by `v`, matched ignoring ASCII case.
pub open spec fn style_of(v: Seq<u8>) -> Option<AlertStyle> {
    if lower_bytes(v) == lower_bytes("error".spec_bytes()) {
        Some(AlertStyle::Error)
    } else if lower_bytes(v) == lower_bytes("warning".spec_bytes()) {
        Some(AlertStyle::Warning)
    } else if lower_bytes(v) == lower_bytes("success".spec_bytes()) {
        Some(AlertStyle::Success)
    } else if lower_bytes(v) == lower_bytes("info".spec_bytes()) {
        Some(AlertStyle::Info)
    } else if lower_bytes(v) == lower_bytes("basic".spec_bytes()) {
        Some(AlertStyle::Basic)
    } else {
        None
    }
}

impl AlertStyle {
    /// Decode a style keyword, ignoring ASCII case.
    pub fn from_str(s: &[u8]) -> (r: Result<AlertStyle, ()>)
        ensures
            r matches Ok(style) ==> style_of(s@) == Some(style),
            r is Err <==> style_of(s@) is None,
    {
        if eq_ignore_ascii_case(s, "error".as_bytes()) {
            Ok(AlertStyle::Error)
        } else if eq_ignore_ascii_case(s, "warning".as_bytes()) {
            Ok(AlertStyle::Warning)
        } else if eq_ignore_ascii_case(s, "success".as_bytes()) {
            Ok(AlertStyle::Success)
        } else if eq_ignore_ascii_case(s, "info".as_bytes()) {
            Ok(AlertStyle::Info)
        } else if eq_ignore_ascii_case(s, "basic".as_bytes()) {
            Ok(AlertStyle::Basic)
        } else {
            Err(())
        }
    }

    /// The class this style contributes to the alert's root tag.
    pub open spec fn spec_class(self) -> Seq<u8> {
        match self {
            AlertStyle::Error => "error".spec_bytes(),
            AlertStyle::Warning => "warning".spec_bytes(),
            AlertStyle::Success => "success".spec_bytes(),
            AlertStyle::Info => "info".spec_bytes(),
            AlertStyle::Basic => "".spec_bytes(),
        }
    }

    /// The icon shown in an alert of this style.
    pub open spec fn spec_icon(self) -> Icon {
        match self {
            AlertStyle::Error => Icon::AlertCircle,
            AlertStyle::Warning => Icon::Warning,
            AlertStyle::Success => Icon::CheckmarkCircle,
            AlertStyle::Info => Icon::HelpCircle,
            AlertStyle::Basic => Icon::InformationCircle,
        }
    }
}

/// an admonition style alert
pub struct Alert {
    /// one of [error, warning, success, info, basic]
    pub status: AlertStyle,
    /// the alert text
    pub text: Option<Vec<u8>>,
    /// if the alert starts collapsed
    pub hidden: Option<bool>,
}

/// The fragment an alert renders to.
pub open spec fn alert_fragment(status: AlertStyle, text: Option<Seq<u8>>, hidden: bool) -> Seq<
    u8,
> {
    "<div class=\"alert ".spec_bytes() + status.spec_class() + (if hidden {
        " collapse".spec_bytes()
    } else {
        Seq::empty()
    }) + "\">".spec_bytes() + svg_of(status.spec_icon().spec_name()) + opt_or_empty(text)
        + "</div>".spec_bytes()
}

impl Alert {
    /// The schema: a required style keyword, an optional text, an optional
    /// hidden flag.
    pub open spec fn spec_schema() -> Seq<FieldSpec> {
        seq![
            FieldSpec {
                attribute: Attribute {
                    name: "status",
                    description: "one of [error, warning, success, info, basic]",
                    required: true,
                },
                decoder: Decoder::StyleKeyword,
            },
            FieldSpec {
                attribute: Attribute {
                    name: "text",
                    description: "the alert text",
                    required: false,
                },
                decoder: Decoder::Text,
            },
            FieldSpec {
                attribute: Attribute {
                    name: "hidden",
                    description: "\"true\" if the alert starts collapsed",
                    required: false,
                },
                decoder: Decoder::Flag,
            },
        ]
    }

    /// Build the schema.
    pub fn schema() -> (r: Vec<FieldSpec>)
        ensures
            r@ == Alert::spec_schema(),
    {
        let mut v: Vec<FieldSpec> = Vec::new();
        v.push(
            FieldSpec {
                attribute: Attribute {
                    name: "status",
                    description: "one of [error, warning, success, info, basic]",
                    required: true,
                },
                decoder: Decoder::StyleKeyword,
            },
        );
        v.push(
            FieldSpec {
                attribute: Attribute {
                    name: "text",
                    description: "the alert text",
                    required: false,
                },
                decoder: Decoder::Text,
            },
        );
        v.push(
            FieldSpec {
                attribute: Attribute {
                    name: "hidden",
                    description: "\"true\" if the alert starts collapsed",
                    required: false,
                },
                decoder: Decoder::Flag,
            },
        );
        proof {
            assert(v@ =~= Alert::spec_schema());
        }
        v
    }

    /// Bind a matched element to an alert.
    pub fn from_element(el: &RawElement, html: &[u8], path: &str) -> (r: Result<
        Alert,
        FromElementError,
    >)
        requires
            html@.len() < usize::MAX,
        ensures
            r is Ok <==> binds(Alert::spec_schema(), el.attrs_view()),
            r matches Ok(t) ==> (spec_lookup(el.attrs_view(), "status".spec_bytes()) matches Some(
                v,
            ) && style_of(v) == Some(t.status)) && opt_bytes(t.text) == spec_lookup(
                el.attrs_view(),
                "text".spec_bytes(),
            ) && t.hidden == flag_lookup(el.attrs_view(), "hidden".spec_bytes()),
            r matches Err(e) ==> is_bind_error(e, Alert::spec_schema(), *el, html@, path@),
    {
        let schema = Alert::schema();
        match crate::element::validate(&schema, el, html, path) {
            Err(e) => Err(e),
            Ok(()) => {
                proof {
                    lemma_missing_of_complete(Alert::spec_schema(), el.attrs_view());
                    lemma_invalid_of_complete(Alert::spec_schema(), el.attrs_view());
                    assert(!is_missing(Alert::spec_schema()[0], el.attrs_view()));
                    assert(!is_invalid(Alert::spec_schema()[0], el.attrs_view()));
                }
                let status = match el.get_attribute("status".as_bytes()) {
                    Some(v) => match AlertStyle::from_str(v.as_slice()) {
                        Ok(style) => style,
                        Err(()) => {
                            proof {
                                assert(false);
                            }
                            vstd::pervasive::unreached()
                        },
                    },
                    None => {
                        proof {
                            assert(false);
                        }
                        vstd::pervasive::unreached()
                    },
                };
                Ok(
                    Alert {
                        status,
                        text: el.get_attribute("text".as_bytes()),
                        hidden: get_flag(el, "hidden".as_bytes()),
                    },
                )
            },
        }
    }
}

impl ToHtml for Alert {
    open spec fn renders(&self) -> bool {
        true
    }

    open spec fn fragment(&self) -> Seq<u8> {
        alert_fragment(self.status, opt_bytes(self.text), flag_set(self.hidden))
    }

    open spec fn render_failure(&self) -> HtmplateErrorKindV {
        HtmplateErrorKindV::InvalidIcon { icon: Seq::empty() }
    }

    fn to_html(self) -> (r: Result<Vec<u8>, HtmplateErrorKind>) {
        let class: &'static str = match self.status {
            AlertStyle::Error => "error",
            AlertStyle::Warning => "warning",
            AlertStyle::Success => "success",
            AlertStyle::Info => "info",
            AlertStyle::Basic => "",
        };
        let icon: Icon = match self.status {
            AlertStyle::Error => Icon::AlertCircle,
            AlertStyle::Warning => Icon::Warning,
            AlertStyle::Success => Icon::CheckmarkCircle,
            AlertStyle::Info => Icon::HelpCircle,
            AlertStyle::Basic => Icon::InformationCircle,
        };
        let hidden: bool = match self.hidden {
            Some(b) => b,
            None => false,
        };
        let mut out: Vec<u8> = Vec::new();
        append_all(&mut out, "<div class=\"alert ".as_bytes());
        append_all(&mut out, class.as_bytes());
        if hidden {
            append_all(&mut out, " collapse".as_bytes());
        }
        append_all(&mut out, "\">".as_bytes());
        let svg = icon.svg();
        append_all(&mut out, svg.as_slice());
        match &self.text {
            Some(t) => append_all(&mut out, t.as_slice()),
            None => (),
        }
        append_all(&mut out, "</div>".as_bytes());
        proof {
            assert(out@ =~= self.fragment());
        }
        Ok(out)
    }
}

} // verus!
