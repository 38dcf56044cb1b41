//! The icon component.

use vstd::prelude::*;
use vstd::string::StringSliceAdditionalSpecFns;

use crate::element::{
    binds, is_bind_error, is_invalid, is_missing, lemma_invalid_of_complete,
    lemma_missing_of_complete, spec_lookup, Attribute, Decoder, FieldSpec, FromElementError,
    RawElement,
};
use crate::htmplates::{HtmplateErrorKind, HtmplateErrorKindV, ToHtml};
use crate::icon::spec_icon_of;
use crate::text::append_all;

verus! {

/// an SVG icon
///
/// Unlike the title, whose icon is optional decoration checked at render
/// time, this component is nothing but its icon: an identifier that names
/// no icon in the set is rejected while binding.
pub struct Icon {
    /// an identifier for an icon in the icon set
    pub icon: crate::icon::Icon,
}

impl Icon {
    /// The schema: a required icon identifier.
    pub open spec fn spec_schema() -> Seq<FieldSpec> {
        seq![
            FieldSpec {
                attribute: Attribute {
                    name: "icon",
                    description: "an identifier for an icon in the icon set",
                    required: true,
                },
                decoder: Decoder::IconName,
            },
        ]
    }

    /// Build the schema.
    pub fn schema() -> (r: Vec<FieldSpec>)
        ensures
            r@ == Icon::spec_schema(),
    {
        let mut v: Vec<FieldSpec> = Vec::new();
        v.push(
            FieldSpec {
                attribute: Attribute {
                    name: "icon",
                    description: "an identifier for an icon in the icon set",
                    required: true,
                },
                decoder: Decoder::IconName,
            },
        );
        proof {
            assert(v@ =~= Icon::spec_schema());
        }
        v
    }

    /// Bind a matched element to an icon component.
    pub fn from_element(el: &RawElement, html: &[u8], path: &str) -> (r: Result<
        Icon,
        FromElementError,
    >)
        requires
            html@.len() < usize::MAX,
        ensures
            r is Ok <==> binds(Icon::spec_schema(), el.attrs_view()),
            r matches Ok(t) ==> spec_lookup(el.attrs_view(), "icon".spec_bytes()) matches Some(v)
                && spec_icon_of(v) == Some(t.icon),
            r matches Err(e) ==> is_bind_error(e, Icon::spec_schema(), *el, html@, path@),
    {
        let schema = Icon::schema();
        match crate::element::validate(&schema, el, html, path) {
            Err(e) => Err(e),
            Ok(()) => {
                proof {
                    lemma_missing_of_complete(Icon::spec_schema(), el.attrs_view());
                    lemma_invalid_of_complete(Icon::spec_schema(), el.attrs_view());
                    assert(!is_missing(Icon::spec_schema()[0], el.attrs_view()));
                    assert(!is_invalid(Icon::spec_schema()[0], el.attrs_view()));
                }
                let name = crate::htmplates::required_attribute_of(el, "icon".as_bytes());
                match crate::icon::icon_of(name.as_slice()) {
                    Some(icon) => Ok(Icon { icon }),
                    None => {
                        proof {
                            assert(false);
                        }
                        vstd::pervasive::unreached()
                    },
                }
            },
        }
    }
}

impl ToHtml for Icon {
    open spec fn renders(&self) -> bool {
        true
    }

    open spec fn fragment(&self) -> Seq<u8> {
        self.icon.spec_svg()
    }

    open spec fn render_failure(&self) -> HtmplateErrorKindV {
        HtmplateErrorKindV::InvalidIcon { icon: Seq::empty() }
    }

    fn to_html(self) -> (r: Result<Vec<u8>, HtmplateErrorKind>) {
        let svg = self.icon.svg();
        let mut out: Vec<u8> = Vec::new();
        append_all(&mut out, svg.as_slice());
        proof {
            assert(out@ =~= self.fragment());
        }
        Ok(out)
    }
}

} // verus!
