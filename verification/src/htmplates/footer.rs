//! The footer component.

use vstd::prelude::*;
use vstd::string::StringSliceAdditionalSpecFns;

use crate::element::{binds, is_bind_error, FieldSpec, FromElementError, RawElement};
use crate::htmplates::{HtmplateErrorKind, HtmplateErrorKindV, ToHtml};
use crate::icon::{svg_of, Icon};
use crate::text::append_all;

verus! {

/// the shared footer
pub struct Footer;

/// The fragment the footer renders to.
pub open spec fn footer_fragment() -> Seq<u8> {
    "<footer><a class=\"button\" href=\"https://github.com/trentshailer\" target=\"_blank\" rel=\"noopener noreferrer\" aria-label=\"Link to Trent Shailer's Git Hub\">".spec_bytes()
        + svg_of("logo-github".spec_bytes()) + "Made by Trent Shailer</a></footer>".spec_bytes()
}

impl Footer {
    /// The schema: no attributes.
    pub open spec fn spec_schema() -> Seq<FieldSpec> {
        Seq::empty()
    }

    /// Build the schema.
    pub fn schema() -> (r: Vec<FieldSpec>)
        ensures
            r@ == Footer::spec_schema(),
    {
        let v: Vec<FieldSpec> = Vec::new();
        proof {
            assert(v@ =~= Footer::spec_schema());
        }
        v
    }

    /// Bind a matched element to a footer.
    pub fn from_element(el: &RawElement, html: &[u8], path: &str) -> (r: Result<
        Footer,
        FromElementError,
    >)
        requires
            html@.len() < usize::MAX,
        ensures
            r is Ok <==> binds(Footer::spec_schema(), el.attrs_view()),
            r matches Err(e) ==> is_bind_error(e, Footer::spec_schema(), *el, html@, path@),
    {
        let schema = Footer::schema();
        match crate::element::validate(&schema, el, html, path) {
            Err(e) => Err(e),
            Ok(()) => Ok(Footer),
        }
    }
}

impl ToHtml for Footer {
    open spec fn renders(&self) -> bool {
        true
    }

    open spec fn fragment(&self) -> Seq<u8> {
        footer_fragment()
    }

    open spec fn render_failure(&self) -> HtmplateErrorKindV {
        HtmplateErrorKindV::InvalidIcon { icon: Seq::empty() }
    }

    fn to_html(self) -> (r: Result<Vec<u8>, HtmplateErrorKind>) {
        let icon = Icon::LogoGithub.svg();
        let mut out: Vec<u8> = Vec::new();
        append_all(
            &mut out,
            "<footer><a class=\"button\" href=\"https://github.com/trentshailer\" target=\"_blank\" rel=\"noopener noreferrer\" aria-label=\"Link to Trent Shailer's Git Hub\">".as_bytes(),
        );
        append_all(&mut out, icon.as_slice());
        append_all(&mut out, "Made by Trent Shailer</a></footer>".as_bytes());
        proof {
            assert(out@ =~= footer_fragment());
        }
        Ok(out)
    }
}

} // verus!
