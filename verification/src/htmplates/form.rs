//! The form components.

use vstd::prelude::*;
use vstd::string::StringSliceAdditionalSpecFns;

use crate::element::{
    binds, is_bind_error, is_invalid, is_missing, lemma_invalid_of_complete,
    lemma_missing_of_complete, spec_lookup, Attribute, Decoder, FieldSpec, FromElementError,
    RawElement,
};
use crate::htmplates::{
    flag_lookup, flag_set, get_flag, HtmplateErrorKind, HtmplateErrorKindV, ToHtml,
};
use crate::icon::svg_of;
use crate::text::append_all;

verus! {

/// A form-scoped identifier: always begins with `/`.
#[derive(Debug)]
pub struct FormId(pub Vec<u8>);

impl FormId {
    /// Decode a form identifier: it must begin with `/`.
    pub fn from_str(s: &[u8]) -> (r: Result<FormId, ()>)
        ensures
            r matches Ok(id) ==> id.0@ == s@,
            r is Ok <==> s@.len() > 0 && s@[0] == 47u8,
    {
        if s.len() > 0 && s[0] == 47u8 {
            let mut v: Vec<u8> = Vec::new();
            append_all(&mut v, s);
            proof {
                assert(v@ =~= s@);
            }
            Ok(FormId(v))
        } else {
            Err(())
        }
    }
}

/// an alert for a form
pub struct FormAlert {
    /// the ID of the form this is for, must start with a `/`
    pub form: FormId,
}

/// The fragment a form alert renders to.
pub open spec fn form_alert_fragment(form: Seq<u8>) -> Seq<u8> {
    "<div class=\"alert error collapse\" aria-hidden=\"true\" id=\"".spec_bytes() + form
        + "/alert\">".spec_bytes() + svg_of("alert-circle".spec_bytes()) + "<div id=\"".spec_bytes()
        + form + "/alert/content\"></div></div>".spec_bytes()
}

impl FormAlert {
    /// The schema: a required form identifier.
    pub open spec fn spec_schema() -> Seq<FieldSpec> {
        seq![
            FieldSpec {
                attribute: Attribute {
                    name: "form",
                    description: "the ID of the form this is for, must start with a `/`",
                    required: true,
                },
                decoder: Decoder::FormPath,
            },
        ]
    }

    /// Build the schema.
    pub fn schema() -> (r: Vec<FieldSpec>)
        ensures
            r@ == FormAlert::spec_schema(),
    {
        let mut v: Vec<FieldSpec> = Vec::new();
        v.push(
            FieldSpec {
                attribute: Attribute {
                    name: "form",
                    description: "the ID of the form this is for, must start with a `/`",
                    required: true,
                },
                decoder: Decoder::FormPath,
            },
        );
        proof {
            assert(v@ =~= FormAlert::spec_schema());
        }
        v
    }

    /// Bind a matched element to a form alert.
    pub fn from_element(el: &RawElement, html: &[u8], path: &str) -> (r: Result<
        FormAlert,
        FromElementError,
    >)
        requires
            html@.len() < usize::MAX,
        ensures
            r is Ok <==> binds(FormAlert::spec_schema(), el.attrs_view()),
            r matches Ok(t) ==> Some(t.form.0@) == spec_lookup(
                el.attrs_view(),
                "form".spec_bytes(),
            ),
            r matches Err(e) ==> is_bind_error(e, FormAlert::spec_schema(), *el, html@, path@),
    {
        let schema = FormAlert::schema();
        match crate::element::validate(&schema, el, html, path) {
            Err(e) => Err(e),
            Ok(()) => {
                proof {
                    lemma_missing_of_complete(FormAlert::spec_schema(), el.attrs_view());
                    assert(!is_missing(FormAlert::spec_schema()[0], el.attrs_view()));
                }
                let form = crate::htmplates::required_attribute_of(el, "form".as_bytes());
                Ok(FormAlert { form: FormId(form) })
            },
        }
    }
}

impl ToHtml for FormAlert {
    open spec fn renders(&self) -> bool {
        true
    }

    open spec fn fragment(&self) -> Seq<u8> {
        form_alert_fragment(self.form.0@)
    }

    open spec fn render_failure(&self) -> HtmplateErrorKindV {
        HtmplateErrorKindV::InvalidIcon { icon: Seq::empty() }
    }

    fn to_html(self) -> (r: Result<Vec<u8>, HtmplateErrorKind>) {
        let icon = crate::icon::Icon::AlertCircle.svg();
        let mut out: Vec<u8> = Vec::new();
        append_all(
            &mut out,
            "<div class=\"alert error collapse\" aria-hidden=\"true\" id=\"".as_bytes(),
        );
        append_all(&mut out, self.form.0.as_slice());
        append_all(&mut out, "/alert\">".as_bytes());
        append_all(&mut out, icon.as_slice());
        append_all(&mut out, "<div id=\"".as_bytes());
        append_all(&mut out, self.form.0.as_slice());
        append_all(&mut out, "/alert/content\"></div></div>".as_bytes());
        proof {
            assert(out@ =~= self.fragment());
        }
        Ok(out)
    }
}

/// the submit button for a form
pub struct FormSubmit {
    /// the ID of the form this submits, must start with a `/`
    pub form: FormId,
}

/// The fragment a form submit button renders to.
pub open spec fn form_submit_fragment(form: Seq<u8>) -> Seq<u8> {
    "<section aria-label=\"submit the form\"><button form=\"".spec_bytes() + form
        + "\" type=\"submit\">Submit</button></section>".spec_bytes()
}

impl FormSubmit {
    /// The schema: a required form identifier.
    pub open spec fn spec_schema() -> Seq<FieldSpec> {
        seq![
            FieldSpec {
                attribute: Attribute {
                    name: "form",
                    description: "the ID of the form this submits, must start with a `/`",
                    required: true,
                },
                decoder: Decoder::FormPath,
            },
        ]
    }

    /// Build the schema.
    pub fn schema() -> (r: Vec<FieldSpec>)
        ensures
            r@ == FormSubmit::spec_schema(),
    {
        let mut v: Vec<FieldSpec> = Vec::new();
        v.push(
            FieldSpec {
                attribute: Attribute {
                    name: "form",
                    description: "the ID of the form this submits, must start with a `/`",
                    required: true,
                },
                decoder: Decoder::FormPath,
            },
        );
        proof {
            assert(v@ =~= FormSubmit::spec_schema());
        }
        v
    }

    /// Bind a matched element to a form submit button.
    pub fn from_element(el: &RawElement, html: &[u8], path: &str) -> (r: Result<
        FormSubmit,
        FromElementError,
    >)
        requires
            html@.len() < usize::MAX,
        ensures
            r is Ok <==> binds(FormSubmit::spec_schema(), el.attrs_view()),
            r matches Ok(t) ==> Some(t.form.0@) == spec_lookup(
                el.attrs_view(),
                "form".spec_bytes(),
            ),
            r matches Err(e) ==> is_bind_error(e, FormSubmit::spec_schema(), *el, html@, path@),
    {
        let schema = FormSubmit::schema();
        match crate::element::validate(&schema, el, html, path) {
            Err(e) => Err(e),
            Ok(()) => {
                proof {
                    lemma_missing_of_complete(FormSubmit::spec_schema(), el.attrs_view());
                    assert(!is_missing(FormSubmit::spec_schema()[0], el.attrs_view()));
                }
                let form = crate::htmplates::required_attribute_of(el, "form".as_bytes());
                Ok(FormSubmit { form: FormId(form) })
            },
        }
    }
}

impl ToHtml for FormSubmit {
    open spec fn renders(&self) -> bool {
        true
    }

    open spec fn fragment(&self) -> Seq<u8> {
        form_submit_fragment(self.form.0@)
    }

    open spec fn render_failure(&self) -> HtmplateErrorKindV {
        HtmplateErrorKindV::InvalidIcon { icon: Seq::empty() }
    }

    fn to_html(self) -> (r: Result<Vec<u8>, HtmplateErrorKind>) {
        let mut out: Vec<u8> = Vec::new();
        append_all(&mut out, "<section aria-label=\"submit the form\"><button form=\"".as_bytes());
        append_all(&mut out, self.form.0.as_slice());
        append_all(&mut out, "\" type=\"submit\">Submit</button></section>".as_bytes());
        proof {
            assert(out@ =~= self.fragment());
        }
        Ok(out)
    }
}

/// The marker shown beside the label of a required input.
pub open spec fn required_marker(required: bool) -> Seq<u8> {
    if required {
        "<span aria-hidden=\"true\"><strong>*</strong></span>".spec_bytes()
    } else {
        Seq::empty()
    }
}

/// The `required` attribute of a required input.
pub open spec fn required_attr(required: bool) -> Seq<u8> {
    if required {
        " required".spec_bytes()
    } else {
        Seq::empty()
    }
}

/// a text input for a form
pub struct FormTextInput {
    /// the id of the input, must start with a `/`
    pub id: FormId,
    /// the id of the form, must start with a `/`
    pub form: FormId,
    /// the input label contents
    pub label: Vec<u8>,
    /// "true" if the input is required
    pub required: Option<bool>,
    /// "true" if the text input is for a credential-like field
    pub credential: Option<bool>,
}

/// The extra attributes given to a credential-like text input.
pub open spec fn credential_attrs(credential: bool) -> Seq<u8> {
    if credential {
        " minlength=\"4\" maxlength=\"64\" autocapitalize=\"off\" autocomplete=\"off\"".spec_bytes()
    } else {
        Seq::empty()
    }
}

/// The fragment a form text input renders to. `base` is the form identifier
/// followed by the input identifier.
pub open spec fn form_text_input_fragment(
    base: Seq<u8>,
    label: Seq<u8>,
    required: bool,
    credential: bool,
) -> Seq<u8> {
    "<section><label id=\"".spec_bytes() + base + "/label\" for=\"".spec_bytes() + base
        + "/input\">".spec_bytes() + required_marker(required) + label + "</label><input id=\"".spec_bytes()
        + base + "/input\" name=\"".spec_bytes() + base
        + "/input\" type=\"text\" placeholder=\"".spec_bytes() + label + "\"".spec_bytes()
        + required_attr(required) + credential_attrs(credential)
        + "/><small class=\"hidden\" aria-hidden=\"true\" id=\"".spec_bytes() + base
        + "/error\">!</small></section>".spec_bytes()
}

impl FormTextInput {
    /// The schema: required input id, form id and label; optional required
    /// and credential flags.
    pub open spec fn spec_schema() -> Seq<FieldSpec> {
        seq![
            FieldSpec {
                attribute: Attribute {
                    name: "id",
                    description: "the id of the input, must start with a `/`",
                    required: true,
                },
                decoder: Decoder::FormPath,
            },
            FieldSpec {
                attribute: Attribute {
                    name: "form",
                    description: "the id of the form, must start with a `/`",
                    required: true,
                },
                decoder: Decoder::FormPath,
            },
            FieldSpec {
                attribute: Attribute {
                    name: "label",
                    description: "the input label contents",
                    required: true,
                },
                decoder: Decoder::Text,
            },
            FieldSpec {
                attribute: Attribute {
                    name: "required",
                    description: "\"true\" if the input is required",
                    required: false,
                },
                decoder: Decoder::Flag,
            },
            FieldSpec {
                attribute: Attribute {
                    name: "credential",
                    description: "\"true\" if the text input is for a credential-like field",
                    required: false,
                },
                decoder: Decoder::Flag,
            },
        ]
    }

    /// Build the schema.
    pub fn schema() -> (r: Vec<FieldSpec>)
        ensures
            r@ == FormTextInput::spec_schema(),
    {
        let mut v: Vec<FieldSpec> = Vec::new();
        v.push(
            FieldSpec {
                attribute: Attribute {
                    name: "id",
                    description: "the id of the input, must start with a `/`",
                    required: true,
                },
                decoder: Decoder::FormPath,
            },
        );
        v.push(
            FieldSpec {
                attribute: Attribute {
                    name: "form",
                    description: "the id of the form, must start with a `/`",
                    required: true,
                },
                decoder: Decoder::FormPath,
            },
        );
        v.push(
            FieldSpec {
                attribute: Attribute {
                    name: "label",
                    description: "the input label contents",
                    required: true,
                },
                decoder: Decoder::Text,
            },
        );
        v.push(
            FieldSpec {
                attribute: Attribute {
                    name: "required",
                    description: "\"true\" if the input is required",
                    required: false,
                },
                decoder: Decoder::Flag,
            },
        );
        v.push(
            FieldSpec {
                attribute: Attribute {
                    name: "credential",
                    description: "\"true\" if the text input is for a credential-like field",
                    required: false,
                },
                decoder: Decoder::Flag,
            },
        );
        proof {
            assert(v@ =~= FormTextInput::spec_schema());
        }
        v
    }

    /// Bind a matched element to a form text input.
    pub fn from_element(el: &RawElement, html: &[u8], path: &str) -> (r: Result<
        FormTextInput,
        FromElementError,
    >)
        requires
            html@.len() < usize::MAX,
        ensures
            r is Ok <==> binds(FormTextInput::spec_schema(), el.attrs_view()),
            r matches Ok(t) ==> {
                &&& Some(t.id.0@) == spec_lookup(el.attrs_view(), "id".spec_bytes())
                &&& Some(t.form.0@) == spec_lookup(el.attrs_view(), "form".spec_bytes())
                &&& Some(t.label@) == spec_lookup(el.attrs_view(), "label".spec_bytes())
                &&& t.required == flag_lookup(el.attrs_view(), "required".spec_bytes())
                &&& t.credential == flag_lookup(el.attrs_view(), "credential".spec_bytes())
            },
            r matches Err(e) ==> is_bind_error(e, FormTextInput::spec_schema(), *el, html@, path@),
    {
        let schema = FormTextInput::schema();
        match crate::element::validate(&schema, el, html, path) {
            Err(e) => Err(e),
            Ok(()) => {
                proof {
                    lemma_missing_of_complete(FormTextInput::spec_schema(), el.attrs_view());
                    assert(!is_missing(FormTextInput::spec_schema()[0], el.attrs_view()));
                    assert(!is_missing(FormTextInput::spec_schema()[1], el.attrs_view()));
                    assert(!is_missing(FormTextInput::spec_schema()[2], el.attrs_view()));
                }
                let id = crate::htmplates::required_attribute_of(el, "id".as_bytes());
                let form = crate::htmplates::required_attribute_of(el, "form".as_bytes());
                let label = crate::htmplates::required_attribute_of(el, "label".as_bytes());
                Ok(
                    FormTextInput {
                        id: FormId(id),
                        form: FormId(form),
                        label,
                        required: get_flag(el, "required".as_bytes()),
                        credential: get_flag(el, "credential".as_bytes()),
                    },
                )
            },
        }
    }
}

impl ToHtml for FormTextInput {
    open spec fn renders(&self) -> bool {
        true
    }

    open spec fn fragment(&self) -> Seq<u8> {
        form_text_input_fragment(
            self.form.0@ + self.id.0@,
            self.label@,
            flag_set(self.required),
            flag_set(self.credential),
        )
    }

    open spec fn render_failure(&self) -> HtmplateErrorKindV {
        HtmplateErrorKindV::InvalidIcon { icon: Seq::empty() }
    }

    fn to_html(self) -> (r: Result<Vec<u8>, HtmplateErrorKind>) {
        let mut base: Vec<u8> = Vec::new();
        append_all(&mut base, self.form.0.as_slice());
        append_all(&mut base, self.id.0.as_slice());
        let required: bool = match self.required {
            Some(b) => b,
            None => false,
        };
        let credential: bool = match self.credential {
            Some(b) => b,
            None => false,
        };
        let mut out: Vec<u8> = Vec::new();
        append_all(&mut out, "<section><label id=\"".as_bytes());
        append_all(&mut out, base.as_slice());
        append_all(&mut out, "/label\" for=\"".as_bytes());
        append_all(&mut out, base.as_slice());
        append_all(&mut out, "/input\">".as_bytes());
        if required {
            append_all(&mut out, "<span aria-hidden=\"true\"><strong>*</strong></span>".as_bytes());
        }
        append_all(&mut out, self.label.as_slice());
        append_all(&mut out, "</label><input id=\"".as_bytes());
        append_all(&mut out, base.as_slice());
        append_all(&mut out, "/input\" name=\"".as_bytes());
        append_all(&mut out, base.as_slice());
        append_all(&mut out, "/input\" type=\"text\" placeholder=\"".as_bytes());
        append_all(&mut out, self.label.as_slice());
        append_all(&mut out, "\"".as_bytes());
        if required {
            append_all(&mut out, " required".as_bytes());
        }
        if credential {
            append_all(
                &mut out,
                " minlength=\"4\" maxlength=\"64\" autocapitalize=\"off\" autocomplete=\"off\"".as_bytes(),
            );
        }
        append_all(&mut out, "/><small class=\"hidden\" aria-hidden=\"true\" id=\"".as_bytes());
        append_all(&mut out, base.as_slice());
        append_all(&mut out, "/error\">!</small></section>".as_bytes());
        proof {
            assert(out@ =~= self.fragment());
        }
        Ok(out)
    }
}

/// a checkbox input for a form
pub struct FormCheckInput {
    /// the id of the input, must start with a `/`
    pub id: FormId,
    /// the id of the form, must start with a `/`
    pub form: FormId,
    /// the input label contents
    pub label: Vec<u8>,
    /// "true" if the input is required
    pub required: Option<bool>,
}

/// The fragment a form checkbox input renders to. `base` is the form
/// identifier followed by the input identifier.
pub open spec fn form_check_input_fragment(base: Seq<u8>, label: Seq<u8>, required: bool) -> Seq<
    u8,
> {
    "<section><label id=\"".spec_bytes() + base + "/label\" for=\"".spec_bytes() + base
        + "/input\">".spec_bytes() + required_marker(required) + label + "</label><input id=\"".spec_bytes()
        + base + "/input\" name=\"".spec_bytes() + base + "/input\" type=\"checkbox\"".spec_bytes()
        + required_attr(required) + "/></section>".spec_bytes()
}

impl FormCheckInput {
    /// The schema: required input id, form id and label; an optional
    /// required flag.
    pub open spec fn spec_schema() -> Seq<FieldSpec> {
        seq![
            FieldSpec {
                attribute: Attribute {
                    name: "id",
                    description: "the id of the input, must start with a `/`",
                    required: true,
                },
                decoder: Decoder::FormPath,
            },
            FieldSpec {
                attribute: Attribute {
                    name: "form",
                    description: "the id of the form, must start with a `/`",
                    required: true,
                },
                decoder: Decoder::FormPath,
            },
            FieldSpec {
                attribute: Attribute {
                    name: "label",
                    description: "the input label contents",
                    required: true,
                },
                decoder: Decoder::Text,
            },
            FieldSpec {
                attribute: Attribute {
                    name: "required",
                    description: "\"true\" if the input is required",
                    required: false,
                },
                decoder: Decoder::Flag,
            },
        ]
    }

    /// Build the schema.
    pub fn schema() -> (r: Vec<FieldSpec>)
        ensures
            r@ == FormCheckInput::spec_schema(),
    {
        let mut v: Vec<FieldSpec> = Vec::new();
        v.push(
            FieldSpec {
                attribute: Attribute {
                    name: "id",
                    description: "the id of the input, must start with a `/`",
                    required: true,
                },
                decoder: Decoder::FormPath,
            },
        );
        v.push(
            FieldSpec {
                attribute: Attribute {
                    name: "form",
                    description: "the id of the form, must start with a `/`",
                    required: true,
                },
                decoder: Decoder::FormPath,
            },
        );
        v.push(
            FieldSpec {
                attribute: Attribute {
                    name: "label",
                    description: "the input label contents",
                    required: true,
                },
                decoder: Decoder::Text,
            },
        );
        v.push(
            FieldSpec {
                attribute: Attribute {
                    name: "required",
                    description: "\"true\" if the input is required",
                    required: false,
                },
                decoder: Decoder::Flag,
            },
        );
        proof {
            assert(v@ =~= FormCheckInput::spec_schema());
        }
        v
    }

    /// Bind a matched element to a form checkbox input.
    pub fn from_element(el: &RawElement, html: &[u8], path: &str) -> (r: Result<
        FormCheckInput,
        FromElementError,
    >)
        requires
            html@.len() < usize::MAX,
        ensures
            r is Ok <==> binds(FormCheckInput::spec_schema(), el.attrs_view()),
            r matches Ok(t) ==> {
                &&& Some(t.id.0@) == spec_lookup(el.attrs_view(), "id".spec_bytes())
                &&& Some(t.form.0@) == spec_lookup(el.attrs_view(), "form".spec_bytes())
                &&& Some(t.label@) == spec_lookup(el.attrs_view(), "label".spec_bytes())
                &&& t.required == flag_lookup(el.attrs_view(), "required".spec_bytes())
            },
            r matches Err(e) ==> is_bind_error(
                e,
                FormCheckInput::spec_schema(),
                *el,
                html@,
                path@,
            ),
    {
        let schema = FormCheckInput::schema();
        match crate::element::validate(&schema, el, html, path) {
            Err(e) => Err(e),
            Ok(()) => {
                proof {
                    lemma_missing_of_complete(FormCheckInput::spec_schema(), el.attrs_view());
                    assert(!is_missing(FormCheckInput::spec_schema()[0], el.attrs_view()));
                    assert(!is_missing(FormCheckInput::spec_schema()[1], el.attrs_view()));
                    assert(!is_missing(FormCheckInput::spec_schema()[2], el.attrs_view()));
                }
                let id = crate::htmplates::required_attribute_of(el, "id".as_bytes());
                let form = crate::htmplates::required_attribute_of(el, "form".as_bytes());
                let label = crate::htmplates::required_attribute_of(el, "label".as_bytes());
                Ok(
                    FormCheckInput {
                        id: FormId(id),
                        form: FormId(form),
                        label,
                        required: get_flag(el, "required".as_bytes()),
                    },
                )
            },
        }
    }
}

impl ToHtml for FormCheckInput {
    open spec fn renders(&self) -> bool {
        true
    }

    open spec fn fragment(&self) -> Seq<u8> {
        form_check_input_fragment(
            self.form.0@ + self.id.0@,
            self.label@,
            flag_set(self.required),
        )
    }

    open spec fn render_failure(&self) -> HtmplateErrorKindV {
        HtmplateErrorKindV::InvalidIcon { icon: Seq::empty() }
    }

    fn to_html(self) -> (r: Result<Vec<u8>, HtmplateErrorKind>) {
        let mut base: Vec<u8> = Vec::new();
        append_all(&mut base, self.form.0.as_slice());
        append_all(&mut base, self.id.0.as_slice());
        let required: bool = match self.required {
            Some(b) => b,
            None => false,
        };
        let mut out: Vec<u8> = Vec::new();
        append_all(&mut out, "<section><label id=\"".as_bytes());
        append_all(&mut out, base.as_slice());
        append_all(&mut out, "/label\" for=\"".as_bytes());
        append_all(&mut out, base.as_slice());
        append_all(&mut out, "/input\">".as_bytes());
        if required {
            append_all(&mut out, "<span aria-hidden=\"true\"><strong>*</strong></span>".as_bytes());
        }
        append_all(&mut out, self.label.as_slice());
        append_all(&mut out, "</label><input id=\"".as_bytes());
        append_all(&mut out, base.as_slice());
        append_all(&mut out, "/input\" name=\"".as_bytes());
        append_all(&mut out, base.as_slice());
        append_all(&mut out, "/input\" type=\"checkbox\"".as_bytes());
        if required {
            append_all(&mut out, " required".as_bytes());
        }
        append_all(&mut out, "/></section>".as_bytes());
        proof {
            assert(out@ =~= self.fragment());
        }
        Ok(out)
    }
}

} // verus!
