//! The icon button component.

use vstd::prelude::*;
use vstd::string::StringSliceAdditionalSpecFns;

use crate::element::{
    binds, is_bind_error, is_invalid, lemma_invalid_of_complete, lemma_missing_of_complete,
    spec_lookup, Attribute, Decoder, FieldSpec, FromElementError, RawElement,
};
use crate::htmplates::{
    flag_lookup, flag_set, get_flag, opt_bytes, opt_or_empty, HtmplateErrorKind,
    HtmplateErrorKindV, ToHtml,
};
use crate::text::append_all;

verus! {

/// a button with an icon
pub struct IconButton {
    /// the ID of the button
    pub id: Option<Vec<u8>>,
    /// the button text
    pub text: Option<Vec<u8>>,
    /// an identifier for an icon in the icon set
    pub icon: Option<crate::icon::Icon>,
    /// the link this button redirects to
    pub href: Option<Vec<u8>>,
    /// whether the link opens in a new tab, defaults to false
    pub new_tab: Option<bool>,
    /// whether the button is ghost styled
    pub ghost_style: Option<bool>,
}

/// The classes on an icon button's root tag: `circle` when it has no text,
/// `ghost` when it is ghost styled.
pub open spec fn icon_button_classes(has_text: bool, ghost_style: bool) -> Seq<u8> {
    "button".spec_bytes() + (if has_text {
        Seq::<u8>::empty()
    } else {
        " circle".spec_bytes()
    }) + (if ghost_style {
        " ghost".spec_bytes()
    } else {
        Seq::<u8>::empty()
    })
}

/// The `id` attribute of an icon button, where one was asked for.
pub open spec fn icon_button_id_attr(id: Option<Seq<u8>>) -> Seq<u8> {
    match id {
        Some(v) => " id=\"".spec_bytes() + v + "\"".spec_bytes(),
        None => Seq::empty(),
    }
}

/// The SVG of an icon button's icon, empty where none was asked for.
pub open spec fn icon_button_icon(icon: Option<crate::icon::Icon>) -> Seq<u8> {
    match icon {
        Some(i) => i.spec_svg(),
        None => Seq::empty(),
    }
}

/// The fragment an icon button renders to: an anchor when it has a link, a
/// button otherwise.
pub open spec fn icon_button_fragment(
    id: Option<Seq<u8>>,
    text: Option<Seq<u8>>,
    icon: Option<crate::icon::Icon>,
    href: Option<Seq<u8>>,
    new_tab: bool,
    ghost_style: bool,
) -> Seq<u8> {
    let classes = icon_button_classes(text is Some, ghost_style);
    let inner = icon_button_icon(icon) + opt_or_empty(text);
    match href {
        Some(link) => "<a class=\"".spec_bytes() + classes + "\" href=\"".spec_bytes() + link
            + "\"".spec_bytes() + icon_button_id_attr(id) + (if new_tab {
            " target=\"_blank\" rel=\"noopener noreferrer\"".spec_bytes()
        } else {
            Seq::<u8>::empty()
        }) + ">".spec_bytes() + inner + "</a>".spec_bytes(),
        None => "<button class=\"".spec_bytes() + classes + "\"".spec_bytes()
            + icon_button_id_attr(id) + ">".spec_bytes() + inner + "</button>".spec_bytes(),
    }
}

impl IconButton {
    /// The schema: everything optional.
    pub open spec fn spec_schema() -> Seq<FieldSpec> {
        seq![
            FieldSpec {
                attribute: Attribute {
                    name: "id",
                    description: "the ID of the button",
                    required: false,
                },
                decoder: Decoder::Text,
            },
            FieldSpec {
                attribute: Attribute {
                    name: "text",
                    description: "the button text",
                    required: false,
                },
                decoder: Decoder::Text,
            },
            FieldSpec {
                attribute: Attribute {
                    name: "icon",
                    description: "an identifier for an icon in the icon set",
                    required: false,
                },
                decoder: Decoder::IconName,
            },
            FieldSpec {
                attribute: Attribute {
                    name: "href",
                    description: "the link this button redirects to",
                    required: false,
                },
                decoder: Decoder::Text,
            },
            FieldSpec {
                attribute: Attribute {
                    name: "new-tab",
                    description: "\"true\" if the link opens in a new tab",
                    required: false,
                },
                decoder: Decoder::Flag,
            },
            FieldSpec {
                attribute: Attribute {
                    name: "ghost",
                    description: "\"true\" if the button is ghost styled",
                    required: false,
                },
                decoder: Decoder::Flag,
            },
        ]
    }

    /// Build the schema.
    pub fn schema() -> (r: Vec<FieldSpec>)
        ensures
            r@ == IconButton::spec_schema(),
    {
        let mut v: Vec<FieldSpec> = Vec::new();
        v.push(
            FieldSpec {
                attribute: Attribute {
                    name: "id",
                    description: "the ID of the button",
                    required: false,
                },
                decoder: Decoder::Text,
            },
        );
        v.push(
            FieldSpec {
                attribute: Attribute {
                    name: "text",
                    description: "the button text",
                    required: false,
                },
                decoder: Decoder::Text,
            },
        );
        v.push(
            FieldSpec {
                attribute: Attribute {
                    name: "icon",
                    description: "an identifier for an icon in the icon set",
                    required: false,
                },
                decoder: Decoder::IconName,
            },
        );
        v.push(
            FieldSpec {
                attribute: Attribute {
                    name: "href",
                    description: "the link this button redirects to",
                    required: false,
                },
                decoder: Decoder::Text,
            },
        );
        v.push(
            FieldSpec {
                attribute: Attribute {
                    name: "new-tab",
                    description: "\"true\" if the link opens in a new tab",
                    required: false,
                },
                decoder: Decoder::Flag,
            },
        );
        v.push(
            FieldSpec {
                attribute: Attribute {
                    name: "ghost",
                    description: "\"true\" if the button is ghost styled",
                    required: false,
                },
                decoder: Decoder::Flag,
            },
        );
        proof {
            assert(v@ =~= IconButton::spec_schema());
        }
        v
    }

    /// Bind a matched element to an icon button.
    pub fn from_element(el: &RawElement, html: &[u8], path: &str) -> (r: Result<
        IconButton,
        FromElementError,
    >)
        requires
            html@.len() < usize::MAX,
        ensures
            r is Ok <==> binds(IconButton::spec_schema(), el.attrs_view()),
            r matches Ok(t) ==> {
                &&& opt_bytes(t.id) == spec_lookup(el.attrs_view(), "id".spec_bytes())
                &&& opt_bytes(t.text) == spec_lookup(el.attrs_view(), "text".spec_bytes())
                &&& opt_bytes(t.href) == spec_lookup(el.attrs_view(), "href".spec_bytes())
                &&& t.new_tab == flag_lookup(el.attrs_view(), "new-tab".spec_bytes())
                &&& t.ghost_style == flag_lookup(el.attrs_view(), "ghost".spec_bytes())
                &&& match spec_lookup(el.attrs_view(), "icon".spec_bytes()) {
                    Some(v) => t.icon is Some && crate::icon::spec_icon_of(v) == t.icon,
                    None => t.icon is None,
                }
            },
            r matches Err(e) ==> is_bind_error(e, IconButton::spec_schema(), *el, html@, path@),
    {
        let schema = IconButton::schema();
        match crate::element::validate(&schema, el, html, path) {
            Err(e) => Err(e),
            Ok(()) => {
                proof {
                    lemma_missing_of_complete(IconButton::spec_schema(), el.attrs_view());
                    lemma_invalid_of_complete(IconButton::spec_schema(), el.attrs_view());
                    assert(!is_invalid(IconButton::spec_schema()[2], el.attrs_view()));
                }
                let icon = match el.get_attribute("icon".as_bytes()) {
                    None => None,
                    Some(name) => match crate::icon::icon_of(name.as_slice()) {
                        Some(icon) => Some(icon),
                        None => {
                            proof {
                                assert(false);
                            }
                            vstd::pervasive::unreached()
                        },
                    },
                };
                Ok(
                    IconButton {
                        id: el.get_attribute("id".as_bytes()),
                        text: el.get_attribute("text".as_bytes()),
                        icon,
                        href: el.get_attribute("href".as_bytes()),
                        new_tab: get_flag(el, "new-tab".as_bytes()),
                        ghost_style: get_flag(el, "ghost".as_bytes()),
                    },
                )
            },
        }
    }
}

impl ToHtml for IconButton {
    open spec fn renders(&self) -> bool {
        true
    }

    open spec fn fragment(&self) -> Seq<u8> {
        icon_button_fragment(
            opt_bytes(self.id),
            opt_bytes(self.text),
            self.icon,
            opt_bytes(self.href),
            flag_set(self.new_tab),
            flag_set(self.ghost_style),
        )
    }

    open spec fn render_failure(&self) -> HtmplateErrorKindV {
        HtmplateErrorKindV::InvalidIcon { icon: Seq::empty() }
    }

    fn to_html(self) -> (r: Result<Vec<u8>, HtmplateErrorKind>) {
        let mut classes: Vec<u8> = Vec::new();
        append_all(&mut classes, "button".as_bytes());
        if self.text.is_none() {
            append_all(&mut classes, " circle".as_bytes());
        }
        if matches!(self.ghost_style, Some(true)) {
            append_all(&mut classes, " ghost".as_bytes());
        }
        let mut id_attr: Vec<u8> = Vec::new();
        match &self.id {
            Some(v) => {
                append_all(&mut id_attr, " id=\"".as_bytes());
                append_all(&mut id_attr, v.as_slice());
                append_all(&mut id_attr, "\"".as_bytes());
            },
            None => (),
        }
        let mut inner: Vec<u8> = Vec::new();
        match &self.icon {
            Some(i) => {
                let svg = i.svg();
                append_all(&mut inner, svg.as_slice());
            },
            None => (),
        }
        match &self.text {
            Some(t) => append_all(&mut inner, t.as_slice()),
            None => (),
        }
        let mut out: Vec<u8> = Vec::new();
        match &self.href {
            Some(link) => {
                append_all(&mut out, "<a class=\"".as_bytes());
                append_all(&mut out, classes.as_slice());
                append_all(&mut out, "\" href=\"".as_bytes());
                append_all(&mut out, link.as_slice());
                append_all(&mut out, "\"".as_bytes());
                append_all(&mut out, id_attr.as_slice());
                if matches!(self.new_tab, Some(true)) {
                    append_all(
                        &mut out,
                        " target=\"_blank\" rel=\"noopener noreferrer\"".as_bytes(),
                    );
                }
                append_all(&mut out, ">".as_bytes());
                append_all(&mut out, inner.as_slice());
                append_all(&mut out, "</a>".as_bytes());
            },
            None => {
                append_all(&mut out, "<button class=\"".as_bytes());
                append_all(&mut out, classes.as_slice());
                append_all(&mut out, "\"".as_bytes());
                append_all(&mut out, id_attr.as_slice());
                append_all(&mut out, ">".as_bytes());
                append_all(&mut out, inner.as_slice());
                append_all(&mut out, "</button>".as_bytes());
            },
        }
        proof {
            assert(out@ =~= self.fragment());
        }
        Ok(out)
    }
}

} // verus!
