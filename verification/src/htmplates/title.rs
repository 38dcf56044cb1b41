//! The title component.

use vstd::prelude::*;
use vstd::string::StringSliceAdditionalSpecFns;

use crate::element::{
    binds, is_bind_error, spec_lookup, Attribute, Decoder, FieldSpec, FromElementError, RawElement,
};
use crate::htmplates::{opt_bytes, opt_or_empty, HtmplateErrorKind, HtmplateErrorKindV, ToHtml};
use crate::icon::{get_icon_svg, is_icon_name, spec_get_icon_svg};
use crate::text::append_all;

verus! {

/// a document title with an optional icon
///
/// The icon identifier is deliberately bound as free text and checked only
/// while rendering: a reference to an icon that does not exist is a
/// semantic failure of a well-typed component — a render error — not a
/// malformed attribute. (The icon component, whose whole purpose is the
/// icon, instead rejects an unknown identifier while binding.)
pub struct Title {
    /// the title text
    pub text: Option<Vec<u8>>,
    /// an identifier for an icon in the icon set, checked at render time
    pub icon: Option<Vec<u8>>,
}

/// The icon part of a title fragment: the icon's SVG where the icon exists,
/// empty where none was asked for.
pub open spec fn icon_svg_part(icon: Option<Vec<u8>>) -> Seq<u8> {
    match icon {
        None => Seq::empty(),
        Some(n) => match spec_get_icon_svg(n@) {
            Some(svg) => svg,
            None => Seq::empty(),
        },
    }
}

/// The fragment a title renders to.
pub open spec fn title_fragment(text: Option<Seq<u8>>, icon_svg: Seq<u8>) -> Seq<u8> {
    "<hgroup style=\"display: flex; flex-direction: row; align-items: center; gap: 1rem\">".spec_bytes()
        + icon_svg + "<h1>".spec_bytes() + opt_or_empty(text) + "</h1></hgroup>".spec_bytes()
}

impl Title {
    /// The schema: an optional title text and an optional icon
    /// identifier. The identifier decodes as free text; whether it names a
    /// real icon is decided at render time.
    pub open spec fn spec_schema() -> Seq<FieldSpec> {
        seq![
            FieldSpec {
                attribute: Attribute {
                    name: "text",
                    description: "the title text",
                    required: false,
                },
                decoder: Decoder::Text,
            },
            FieldSpec {
                attribute: Attribute {
                    name: "icon",
                    description: "an identifier for an icon in the icon set",
                    required: false,
                },
                decoder: Decoder::Text,
            },
        ]
    }

    /// Build the schema.
    pub fn schema() -> (r: Vec<FieldSpec>)
        ensures
            r@ == Title::spec_schema(),
    {
        let mut v: Vec<FieldSpec> = Vec::new();
        v.push(
            FieldSpec {
                attribute: Attribute {
                    name: "text",
                    description: "the title text",
                    required: false,
                },
                decoder: Decoder::Text,
            },
        );
        v.push(
            FieldSpec {
                attribute: Attribute {
                    name: "icon",
                    description: "an identifier for an icon in the icon set",
                    required: false,
                },
                decoder: Decoder::Text,
            },
        );
        proof {
            assert(v@ =~= Title::spec_schema());
        }
        v
    }

    /// Bind a matched element to a title.
    pub fn from_element(el: &RawElement, html: &[u8], path: &str) -> (r: Result<
        Title,
        FromElementError,
    >)
        requires
            html@.len() < usize::MAX,
        ensures
            r is Ok <==> binds(Title::spec_schema(), el.attrs_view()),
            r matches Ok(t) ==> opt_bytes(t.text) == spec_lookup(
                el.attrs_view(),
                "text".spec_bytes(),
            ) && opt_bytes(t.icon) == spec_lookup(el.attrs_view(), "icon".spec_bytes()),
            r matches Err(e) ==> is_bind_error(e, Title::spec_schema(), *el, html@, path@),
    {
        let schema = Title::schema();
        match crate::element::validate(&schema, el, html, path) {
            Err(e) => Err(e),
            Ok(()) => Ok(
                Title {
                    text: el.get_attribute("text".as_bytes()),
                    icon: el.get_attribute("icon".as_bytes()),
                },
            ),
        }
    }
}

impl ToHtml for Title {
    open spec fn renders(&self) -> bool {
        match self.icon {
            None => true,
            Some(n) => is_icon_name(n@),
        }
    }

    open spec fn fragment(&self) -> Seq<u8> {
        title_fragment(opt_bytes(self.text), icon_svg_part(self.icon))
    }

    open spec fn render_failure(&self) -> HtmplateErrorKindV {
        HtmplateErrorKindV::InvalidIcon {
            icon: match self.icon {
                Some(n) => n@,
                None => Seq::empty(),
            },
        }
    }

    fn to_html(self) -> (r: Result<Vec<u8>, HtmplateErrorKind>) {
        let icon_svg: Vec<u8> = match &self.icon {
            None => Vec::new(),
            Some(name) => match get_icon_svg(name.as_slice()) {
                Some(svg) => svg,
                None => {
                    return Err(HtmplateErrorKind::InvalidIcon { icon: name.clone() });
                },
            },
        };
        let mut out: Vec<u8> = Vec::new();
        append_all(
            &mut out,
            "<hgroup style=\"display: flex; flex-direction: row; align-items: center; gap: 1rem\">".as_bytes(),
        );
        append_all(&mut out, icon_svg.as_slice());
        append_all(&mut out, "<h1>".as_bytes());
        match &self.text {
            Some(t) => append_all(&mut out, t.as_slice()),
            None => (),
        }
        append_all(&mut out, "</h1></hgroup>".as_bytes());
        proof {
            assert(out@ =~= self.fragment());
        }
        Ok(out)
    }
}

} // verus!
