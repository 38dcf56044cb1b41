//! The horizontal divider component.

use vstd::prelude::*;
use vstd::string::StringSliceAdditionalSpecFns;

use crate::element::{
    binds, is_bind_error, is_missing, lemma_missing_of_complete, spec_lookup, Attribute, Decoder,
    FieldSpec, FromElementError, RawElement,
};
use crate::htmplates::required_attribute_of;
use crate::htmplates::{HtmplateErrorKind, HtmplateErrorKindV, ToHtml};
use crate::text::append_all;

verus! {

/// a horizontal divider with some text content
pub struct Hr {
    /// the text in the middle of the divider
    pub text: Vec<u8>,
}

/// The fragment a divider renders to.
pub open spec fn hr_fragment(text: Seq<u8>) -> Seq<u8> {
    "<div class=\"hr\"><hr aria-hidden=\"true\"/><span>".spec_bytes() + text
        + "</span><hr aria-hidden=\"true\"/></div>".spec_bytes()
}

impl Hr {
    /// The schema: a required divider text.
    pub open spec fn spec_schema() -> Seq<FieldSpec> {
        seq![
            FieldSpec {
                attribute: Attribute {
                    name: "text",
                    description: "the text in the middle of the divider",
                    required: true,
                },
                decoder: Decoder::Text,
            },
        ]
    }

    /// Build the schema.
    pub fn schema() -> (r: Vec<FieldSpec>)
        ensures
            r@ == Hr::spec_schema(),
    {
        let mut v: Vec<FieldSpec> = Vec::new();
        v.push(
            FieldSpec {
                attribute: Attribute {
                    name: "text",
                    description: "the text in the middle of the divider",
                    required: true,
                },
                decoder: Decoder::Text,
            },
        );
        proof {
            assert(v@ =~= Hr::spec_schema());
        }
        v
    }

    /// Bind a matched element to a divider.
    pub fn from_element(el: &RawElement, html: &[u8], path: &str) -> (r: Result<
        Hr,
        FromElementError,
    >)
        requires
            html@.len() < usize::MAX,
        ensures
            r is Ok <==> binds(Hr::spec_schema(), el.attrs_view()),
            r matches Ok(t) ==> Some(t.text@) == spec_lookup(el.attrs_view(), "text".spec_bytes()),
            r matches Err(e) ==> is_bind_error(e, Hr::spec_schema(), *el, html@, path@),
    {
        let schema = Hr::schema();
        match crate::element::validate(&schema, el, html, path) {
            Err(e) => Err(e),
            Ok(()) => {
                proof {
                    lemma_missing_of_complete(Hr::spec_schema(), el.attrs_view());
                    assert(!is_missing(Hr::spec_schema()[0], el.attrs_view()));
                }
                let text = required_attribute_of(el, "text".as_bytes());
                Ok(Hr { text })
            },
        }
    }
}

impl ToHtml for Hr {
    open spec fn renders(&self) -> bool {
        true
    }

    open spec fn fragment(&self) -> Seq<u8> {
        hr_fragment(self.text@)
    }

    open spec fn render_failure(&self) -> HtmplateErrorKindV {
        HtmplateErrorKindV::InvalidIcon { icon: Seq::empty() }
    }

    fn to_html(self) -> (r: Result<Vec<u8>, HtmplateErrorKind>) {
        let mut out: Vec<u8> = Vec::new();
        append_all(&mut out, "<div class=\"hr\"><hr aria-hidden=\"true\"/><span>".as_bytes());
        append_all(&mut out, self.text.as_slice());
        append_all(&mut out, "</span><hr aria-hidden=\"true\"/></div>".as_bytes());
        proof {
            assert(out@ =~= self.fragment());
        }
        Ok(out)
    }
}

} // verus!
