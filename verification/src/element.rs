//! Matched elements, attribute schemas, and the binder that validates a
//! matched element against a component's schema.

use vstd::prelude::*;
use vstd::string::StringSliceAdditionalSpecFns;

use crate::location::{resolved_location, Location};
use crate::text::{bytes_eq, eq_ignore_ascii_case, lower_bytes};

verus! {

/// An attribute that a component declares.
#[derive(Debug, Clone, Copy)]
pub struct Attribute {
    /// The attribute name.
    pub name: &'static str,
    /// A description of the attribute, should flow on from "this should be ...".
    pub description: &'static str,
    /// If the attribute is required.
    pub required: bool,
}

/// How a raw attribute value is decoded into a typed field.
#[derive(Debug, Clone, Copy)]
pub enum Decoder {
    /// Any text is accepted.
    Text,
    /// `true` or `false`.
    Flag,
    /// A form identifier: must begin with `/`.
    FormPath,
    /// The identifier of a known icon.
    IconName,
    /// An alert style keyword, matched ignoring ASCII case.
    StyleKeyword,
}

/// One entry of a component's schema: a declared attribute together with the
/// decoder for its value.
#[derive(Debug, Clone, Copy)]
pub struct FieldSpec {
    /// The declared attribute.
    pub attribute: Attribute,
    /// The decoder applied to the raw value.
    pub decoder: Decoder,
}

/// An attribute as it appeared on a matched element.
#[derive(Debug)]
pub struct RawAttribute {
    /// The attribute name, in bytes.
    pub name: Vec<u8>,
    /// The attribute value, in bytes.
    pub value: Vec<u8>,
}

impl View for RawAttribute {
    type V = (Seq<u8>, Seq<u8>);

    open spec fn view(&self) -> (Seq<u8>, Seq<u8>) {
        (self.name@, self.value@)
    }
}

/// A matched element as reported by the scanner: its tag name, its
/// attributes, and the byte range of its start tag in the source document.
#[derive(Debug)]
pub struct RawElement {
    /// The (lowercased) tag name, in bytes.
    pub tag: Vec<u8>,
    /// The attributes, in document order.
    pub attributes: Vec<RawAttribute>,
    /// The byte offset of the start tag's first byte.
    pub start: usize,
    /// The byte offset just past the start tag.
    pub end: usize,
}

impl RawElement {
    /// The attributes as a sequence of (name, value) pairs.
    pub open spec fn attrs_view(&self) -> Seq<(Seq<u8>, Seq<u8>)> {
        self.attributes@.map_values(|a: RawAttribute| a@)
    }

    /// Look up the value of the first attribute with the given name.
    pub fn get_attribute(&self, name: &[u8]) -> (r: Option<Vec<u8>>)
        ensures
            match r {
                Some(v) => spec_lookup(self.attrs_view(), name@) == Some(v@),
                None => spec_lookup(self.attrs_view(), name@) is None,
            },
    {
        let ghost full = self.attrs_view();
        proof {
            assert(full.skip(0) =~= full);
        }
        let mut i: usize = 0;
        while i < self.attributes.len()
            invariant
                0 <= i <= self.attributes@.len(),
                full == self.attrs_view(),
                full.len() == self.attributes@.len(),
                spec_lookup(full, name@) == spec_lookup(full.skip(i as int), name@),
            decreases self.attributes@.len() - i,
        {
            if bytes_eq(self.attributes[i].name.as_slice(), name) {
                let v = self.attributes[i].value.clone();
                proof {
                    assert(full.skip(i as int)[0] == full[i as int]);
                }
                return Some(v);
            }
            proof {
                assert(full.skip(i as int)[0] == full[i as int]);
                assert(full.skip(i as int).drop_first() =~= full.skip(i + 1));
            }
            i = i + 1;
        }
        proof {
            assert(full.skip(i as int).len() == 0);
        }
        None
    }
}

/// The value of the first attribute named `name` among `attrs`.
pub open spec fn spec_lookup(attrs: Seq<(Seq<u8>, Seq<u8>)>, name: Seq<u8>) -> Option<Seq<u8>>
    decreases attrs.len(),
{
    if attrs.len() == 0 {
        None
    } else if attrs[0].0 == name {
        Some(attrs[0].1)
    } else {
        spec_lookup(attrs.drop_first(), name)
    }
}

/// Whether a raw value decodes under the given decoder.
pub open spec fn decode_ok(d: Decoder, v: Seq<u8>) -> bool {
    match d {
        Decoder::Text => true,
        Decoder::Flag => v == "true".spec_bytes() || v == "false".spec_bytes(),
        Decoder::FormPath => v.len() > 0 && v[0] == 47u8,
        Decoder::IconName => crate::icon::is_icon_name(v),
        Decoder::StyleKeyword => style_keyword_ok(v),
    }
}

/// Whether `v` names an alert style, ignoring ASCII case.
pub open spec fn style_keyword_ok(v: Seq<u8>) -> bool {
    ||| lower_bytes(v) == lower_bytes("error".spec_bytes())
    ||| lower_bytes(v) == lower_bytes("warning".spec_bytes())
    ||| lower_bytes(v) == lower_bytes("success".spec_bytes())
    ||| lower_bytes(v) == lower_bytes("info".spec_bytes())
    ||| lower_bytes(v) == lower_bytes("basic".spec_bytes())
}

/// Check whether a raw value decodes under the given decoder.
pub fn decode_check(d: Decoder, v: &[u8]) -> (r: bool)
    ensures
        r == decode_ok(d, v@),
{
    match d {
        Decoder::Text => true,
        Decoder::Flag => bytes_eq(v, "true".as_bytes()) || bytes_eq(v, "false".as_bytes()),
        Decoder::FormPath => v.len() > 0 && v[0] == 47u8,
        Decoder::IconName => crate::icon::check_icon_name(v),
        Decoder::StyleKeyword => {
            eq_ignore_ascii_case(v, "error".as_bytes()) || eq_ignore_ascii_case(
                v,
                "warning".as_bytes(),
            ) || eq_ignore_ascii_case(v, "success".as_bytes()) || eq_ignore_ascii_case(
                v,
                "info".as_bytes(),
            ) || eq_ignore_ascii_case(v, "basic".as_bytes())
        },
    }
}

/// A required attribute of the schema entry is absent from the element.
pub open spec fn is_missing(f: FieldSpec, attrs: Seq<(Seq<u8>, Seq<u8>)>) -> bool {
    f.attribute.required && spec_lookup(attrs, f.attribute.name.spec_bytes()) is None
}

/// The schema entry's attribute is present but its value does not decode.
pub open spec fn is_invalid(f: FieldSpec, attrs: Seq<(Seq<u8>, Seq<u8>)>) -> bool {
    match spec_lookup(attrs, f.attribute.name.spec_bytes()) {
        Some(v) => !decode_ok(f.decoder, v),
        None => false,
    }
}

/// The declared attributes that are required but absent, in schema order.
pub open spec fn missing_of(schema: Seq<FieldSpec>, attrs: Seq<(Seq<u8>, Seq<u8>)>) -> Seq<
    Attribute,
>
    decreases schema.len(),
{
    if schema.len() == 0 {
        Seq::empty()
    } else {
        let rest = missing_of(schema.drop_first(), attrs);
        if is_missing(schema[0], attrs) {
            seq![schema[0].attribute] + rest
        } else {
            rest
        }
    }
}

/// The declared attributes that are present but do not decode, in schema
/// order.
pub open spec fn invalid_of(schema: Seq<FieldSpec>, attrs: Seq<(Seq<u8>, Seq<u8>)>) -> Seq<
    Attribute,
>
    decreases schema.len(),
{
    if schema.len() == 0 {
        Seq::empty()
    } else {
        let rest = invalid_of(schema.drop_first(), attrs);
        if is_invalid(schema[0], attrs) {
            seq![schema[0].attribute] + rest
        } else {
            rest
        }
    }
}

/// The element binds cleanly against the schema: nothing missing, nothing
/// invalid.
pub open spec fn binds(schema: Seq<FieldSpec>, attrs: Seq<(Seq<u8>, Seq<u8>)>) -> bool {
    missing_of(schema, attrs).len() == 0 && invalid_of(schema, attrs).len() == 0
}

/// Looking a name up in attributes extended at the front behaves as a
/// one-step match: the new pair answers for its own name, everything else is
/// answered by the old attributes.
pub proof fn lemma_lookup_cons(
    attrs: Seq<(Seq<u8>, Seq<u8>)>,
    n: Seq<u8>,
    name: Seq<u8>,
    v: Seq<u8>,
)
    ensures
        spec_lookup(seq![(name, v)] + attrs, n) == if n == name {
            Some(v)
        } else {
            spec_lookup(attrs, n)
        },
{
    let cons = seq![(name, v)] + attrs;
    assert(cons[0] == (name, v));
    assert(cons.drop_first() =~= attrs);
}

/// If no schema entry is missing, the missing list is empty.
pub proof fn lemma_missing_of_empty(schema: Seq<FieldSpec>, attrs: Seq<(Seq<u8>, Seq<u8>)>)
    requires
        forall|j: int| 0 <= j < schema.len() ==> !#[trigger] is_missing(schema[j], attrs),
    ensures
        missing_of(schema, attrs).len() == 0,
    decreases schema.len(),
{
    if schema.len() > 0 {
        assert(forall|j: int|
            0 <= j < schema.drop_first().len() ==> schema.drop_first()[j] == schema[j + 1]);
        lemma_missing_of_empty(schema.drop_first(), attrs);
    }
}

/// If exactly one schema entry is missing, the missing list holds exactly
/// its attribute.
pub proof fn lemma_missing_of_singleton(
    schema: Seq<FieldSpec>,
    attrs: Seq<(Seq<u8>, Seq<u8>)>,
    i: int,
)
    requires
        0 <= i < schema.len(),
        is_missing(schema[i], attrs),
        forall|j: int| 0 <= j < schema.len() && j != i ==> !#[trigger] is_missing(
            schema[j],
            attrs,
        ),
    ensures
        missing_of(schema, attrs) == seq![schema[i].attribute],
    decreases schema.len(),
{
    let rest = schema.drop_first();
    assert(forall|j: int| 0 <= j < rest.len() ==> rest[j] == schema[j + 1]);
    if i == 0 {
        lemma_missing_of_empty(rest, attrs);
        assert(missing_of(rest, attrs) =~= Seq::<Attribute>::empty());
        assert(missing_of(schema, attrs) =~= seq![schema[0].attribute]);
    } else {
        assert(!is_missing(schema[0], attrs));
        lemma_missing_of_singleton(rest, attrs, i - 1);
    }
}

/// An empty missing list means no schema entry is missing.
pub proof fn lemma_missing_of_complete(schema: Seq<FieldSpec>, attrs: Seq<(Seq<u8>, Seq<u8>)>)
    requires
        missing_of(schema, attrs).len() == 0,
    ensures
        forall|j: int| 0 <= j < schema.len() ==> !#[trigger] is_missing(schema[j], attrs),
    decreases schema.len(),
{
    if schema.len() > 0 {
        let rest = schema.drop_first();
        assert(forall|j: int| 0 <= j < rest.len() ==> rest[j] == schema[j + 1]);
        lemma_missing_of_complete(rest, attrs);
        assert forall|j: int| 0 <= j < schema.len() implies !is_missing(schema[j], attrs) by {
            if j > 0 {
                assert(!is_missing(rest[j - 1], attrs));
            }
        }
    }
}

/// An empty invalid list means no schema entry is invalid.
pub proof fn lemma_invalid_of_complete(schema: Seq<FieldSpec>, attrs: Seq<(Seq<u8>, Seq<u8>)>)
    requires
        invalid_of(schema, attrs).len() == 0,
    ensures
        forall|j: int| 0 <= j < schema.len() ==> !#[trigger] is_invalid(schema[j], attrs),
    decreases schema.len(),
{
    if schema.len() > 0 {
        let rest = schema.drop_first();
        assert(forall|j: int| 0 <= j < rest.len() ==> rest[j] == schema[j + 1]);
        lemma_invalid_of_complete(rest, attrs);
        assert forall|j: int| 0 <= j < schema.len() implies !is_invalid(schema[j], attrs) by {
            if j > 0 {
                assert(!is_invalid(rest[j - 1], attrs));
            }
        }
    }
}

/// Law: an element missing exactly one required attribute yields a missing
/// list holding exactly that attribute and no others, and supplying that
/// attribute (with any value) empties the missing list.
pub proof fn lemma_missing_attribute_exact(
    schema: Seq<FieldSpec>,
    attrs: Seq<(Seq<u8>, Seq<u8>)>,
    i: int,
    v: Seq<u8>,
)
    requires
        0 <= i < schema.len(),
        is_missing(schema[i], attrs),
        forall|j: int| 0 <= j < schema.len() && j != i ==> !#[trigger] is_missing(
            schema[j],
            attrs,
        ),
    ensures
        missing_of(schema, attrs) == seq![schema[i].attribute],
        missing_of(schema, seq![(schema[i].attribute.name.spec_bytes(), v)] + attrs).len() == 0,
{
    lemma_missing_of_singleton(schema, attrs, i);
    let name = schema[i].attribute.name.spec_bytes();
    let attrs2 = seq![(name, v)] + attrs;
    assert forall|j: int| 0 <= j < schema.len() implies !is_missing(schema[j], attrs2) by {
        lemma_lookup_cons(attrs, schema[j].attribute.name.spec_bytes(), name, v);
        if j != i {
            assert(!is_missing(schema[j], attrs));
        }
    }
    lemma_missing_of_empty(schema, attrs2);
}

/// Error produced when a matched element does not satisfy its component's
/// schema. Lists every offending attribute found in one pass.
#[derive(Debug)]
pub struct FromElementError {
    /// Required attributes that were absent.
    pub missing_attributes: Vec<Attribute>,
    /// Attributes whose value failed to decode.
    pub invalid_attributes: Vec<Attribute>,
    /// The tag of the offending element.
    pub element_tag: Vec<u8>,
    /// Where the offending element starts.
    pub element_location: Location,
}

impl View for FromElementError {
    type V = FromElementErrorV;

    open spec fn view(&self) -> FromElementErrorV {
        FromElementErrorV {
            missing_attributes: self.missing_attributes@,
            invalid_attributes: self.invalid_attributes@,
            element_tag: self.element_tag@,
            element_location: self.element_location@,
        }
    }
}

/// The mathematical value of a `FromElementError`.
pub struct FromElementErrorV {
    /// Required attributes that were absent.
    pub missing_attributes: Seq<Attribute>,
    /// Attributes whose value failed to decode.
    pub invalid_attributes: Seq<Attribute>,
    /// The tag of the offending element.
    pub element_tag: Seq<u8>,
    /// Where the offending element starts.
    pub element_location: crate::location::LocationV,
}

/// The binding error that validation reports for `el` against `schema`:
/// every missing required attribute and every undecodable value, the
/// element's tag, and its resolved location.
pub open spec fn is_bind_error(
    e: FromElementError,
    schema: Seq<FieldSpec>,
    el: RawElement,
    html: Seq<u8>,
    path: Seq<char>,
) -> bool {
    &&& e.missing_attributes@ == missing_of(schema, el.attrs_view())
    &&& e.invalid_attributes@ == invalid_of(schema, el.attrs_view())
    &&& e.element_tag@ == el.tag@
    &&& e.element_location@ == resolved_location(el.start as int, html, path)
}

/// The lines listing missing required attributes, one per attribute.
pub open spec fn missing_lines(attrs: Seq<Attribute>) -> Seq<u8>
    decreases attrs.len(),
{
    if attrs.len() == 0 {
        Seq::empty()
    } else {
        "  missing required attribute `".spec_bytes() + attrs[0].name.spec_bytes()
            + "`, ".spec_bytes() + attrs[0].description.spec_bytes() + "\n".spec_bytes()
            + missing_lines(attrs.drop_first())
    }
}

/// The lines listing present but undecodable attributes, one per attribute.
pub open spec fn invalid_lines(attrs: Seq<Attribute>) -> Seq<u8>
    decreases attrs.len(),
{
    if attrs.len() == 0 {
        Seq::empty()
    } else {
        "  invalid attribute `".spec_bytes() + attrs[0].name.spec_bytes() + "`, ".spec_bytes()
            + attrs[0].description.spec_bytes() + "\n".spec_bytes() + invalid_lines(
            attrs.drop_first(),
        )
    }
}

/// The rendered form of a binding error: the offending element's tag and
/// location, then one line per missing and per invalid attribute.
pub open spec fn from_element_error_lines(e: FromElementErrorV) -> Seq<u8> {
    "invalid `".spec_bytes() + e.element_tag + "` at ".spec_bytes() + crate::location::location_line(
        e.element_location,
    ) + "\n".spec_bytes() + missing_lines(e.missing_attributes) + invalid_lines(
        e.invalid_attributes,
    )
}

impl FromElementError {
    /// Render the error in bytes: the offending element and every missing
    /// or invalid attribute, one line each.
    pub fn describe_bytes(&self) -> (r: Vec<u8>)
        ensures
            r@ == from_element_error_lines(self@),
    {
        let ghost miss = self.missing_attributes@;
        let ghost inv = self.invalid_attributes@;
        let mut out: Vec<u8> = Vec::new();
        crate::text::append_all(&mut out, "invalid `".as_bytes());
        crate::text::append_all(&mut out, self.element_tag.as_slice());
        crate::text::append_all(&mut out, "` at ".as_bytes());
        let loc = self.element_location.describe_bytes();
        crate::text::append_all(&mut out, loc.as_slice());
        crate::text::append_all(&mut out, "\n".as_bytes());
        let ghost header = out@;
        proof {
            assert(miss.skip(0) =~= miss);
        }
        let mut i: usize = 0;
        while i < self.missing_attributes.len()
            invariant
                0 <= i <= self.missing_attributes@.len(),
                miss == self.missing_attributes@,
                header + missing_lines(miss) == out@ + missing_lines(miss.skip(i as int)),
            decreases self.missing_attributes@.len() - i,
        {
            proof {
                assert(miss.skip(i as int)[0] == miss[i as int]);
                assert(miss.skip(i as int).drop_first() =~= miss.skip(i + 1));
            }
            crate::text::append_all(&mut out, "  missing required attribute `".as_bytes());
            crate::text::append_all(&mut out, self.missing_attributes[i].name.as_bytes());
            crate::text::append_all(&mut out, "`, ".as_bytes());
            crate::text::append_all(&mut out, self.missing_attributes[i].description.as_bytes());
            crate::text::append_all(&mut out, "\n".as_bytes());
            proof {
                assert(header + missing_lines(miss) =~= out@ + missing_lines(miss.skip(i + 1)));
            }
            i = i + 1;
        }
        proof {
            assert(missing_lines(miss.skip(miss.len() as int)) =~= Seq::<u8>::empty());
            assert(out@ =~= header + missing_lines(miss));
            assert(inv.skip(0) =~= inv);
        }
        let ghost mid = out@;
        let mut j: usize = 0;
        while j < self.invalid_attributes.len()
            invariant
                0 <= j <= self.invalid_attributes@.len(),
                inv == self.invalid_attributes@,
                mid + invalid_lines(inv) == out@ + invalid_lines(inv.skip(j as int)),
            decreases self.invalid_attributes@.len() - j,
        {
            proof {
                assert(inv.skip(j as int)[0] == inv[j as int]);
                assert(inv.skip(j as int).drop_first() =~= inv.skip(j + 1));
            }
            crate::text::append_all(&mut out, "  invalid attribute `".as_bytes());
            crate::text::append_all(&mut out, self.invalid_attributes[j].name.as_bytes());
            crate::text::append_all(&mut out, "`, ".as_bytes());
            crate::text::append_all(&mut out, self.invalid_attributes[j].description.as_bytes());
            crate::text::append_all(&mut out, "\n".as_bytes());
            proof {
                assert(mid + invalid_lines(inv) =~= out@ + invalid_lines(inv.skip(j + 1)));
            }
            j = j + 1;
        }
        proof {
            assert(invalid_lines(inv.skip(inv.len() as int)) =~= Seq::<u8>::empty());
            assert(out@ =~= from_element_error_lines(self@));
        }
        out
    }

    /// Render the error: the offending element and every missing or
    /// invalid attribute, one line each.
    pub fn describe(&self) -> (r: String)
        ensures
            vstd::utf8::valid_utf8(from_element_error_lines(self@)) ==> vstd::utf8::encode_utf8(
                r@,
            ) == from_element_error_lines(self@),
    {
        let bytes = self.describe_bytes();
        crate::text::bytes_to_string_lossy(bytes.as_slice())
    }
}

/// Validate a matched element against a schema, collecting every missing
/// required attribute and every undecodable value before failing.
pub fn validate(schema: &Vec<FieldSpec>, el: &RawElement, html: &[u8], path: &str) -> (r: Result<
    (),
    FromElementError,
>)
    requires
        html@.len() < usize::MAX,
    ensures
        r is Ok <==> binds(schema@, el.attrs_view()),
        r matches Err(e) ==> is_bind_error(e, schema@, *el, html@, path@),
{
    let ghost attrs = el.attrs_view();
    let mut missing: Vec<Attribute> = Vec::new();
    let mut invalid: Vec<Attribute> = Vec::new();

    proof {
        assert(schema@.skip(0) =~= schema@);
        assert(missing_of(schema@, attrs) =~= missing@ + missing_of(schema@, attrs));
        assert(invalid_of(schema@, attrs) =~= invalid@ + invalid_of(schema@, attrs));
    }
    let mut i: usize = 0;
    while i < schema.len()
        invariant
            0 <= i <= schema@.len(),
            attrs == el.attrs_view(),
            missing_of(schema@, attrs) == missing@ + missing_of(schema@.skip(i as int), attrs),
            invalid_of(schema@, attrs) == invalid@ + invalid_of(schema@.skip(i as int), attrs),
        decreases schema@.len() - i,
    {
        let f = schema[i];
        proof {
            assert(schema@.skip(i as int)[0] == schema@[i as int]);
            assert(schema@.skip(i as int).drop_first() =~= schema@.skip(i + 1));
        }
        match el.get_attribute(f.attribute.name.as_bytes()) {
            None => {
                if f.attribute.required {
                    missing.push(f.attribute);
                }
                proof {
                    if is_missing(schema@[i as int], attrs) {
                        assert(missing_of(schema@, attrs) =~= missing@ + missing_of(
                            schema@.skip(i + 1),
                            attrs,
                        ));
                    }
                    assert(!is_invalid(schema@[i as int], attrs));
                }
            },
            Some(v) => {
                if !decode_check(f.decoder, v.as_slice()) {
                    invalid.push(f.attribute);
                }
                proof {
                    if is_invalid(schema@[i as int], attrs) {
                        assert(invalid_of(schema@, attrs) =~= invalid@ + invalid_of(
                            schema@.skip(i + 1),
                            attrs,
                        ));
                    }
                    assert(!is_missing(schema@[i as int], attrs));
                }
            },
        }
        i = i + 1;
    }
    proof {
        assert(schema@.skip(i as int).len() == 0);
        assert(missing_of(schema@, attrs) =~= missing@);
        assert(invalid_of(schema@, attrs) =~= invalid@);
    }

    if missing.len() == 0 && invalid.len() == 0 {
        Ok(())
    } else {
        Err(
            FromElementError {
                missing_attributes: missing,
                invalid_attributes: invalid,
                element_tag: el.tag.clone(),
                element_location: Location::from_byte_index(el.start, html, path),
            },
        )
    }
}

} // verus!
