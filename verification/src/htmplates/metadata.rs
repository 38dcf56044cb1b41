//! The metadata component.

use vstd::prelude::*;
use vstd::string::StringSliceAdditionalSpecFns;

use crate::element::{binds, is_bind_error, FieldSpec, FromElementError, RawElement};
use crate::htmplates::HtmplateErrorKind;
use crate::text::append_all;

verus! {

/// common document metadata
pub struct Metadata;

/// The fragment the metadata component renders to, given the path from the
/// output document to the shared asset directory.
pub open spec fn metadata_fragment(assets: Seq<u8>) -> Seq<u8> {
    "<meta charset=\"UTF-8\"><meta name=\"viewport\" content=\"width=device-width, initial-scale=1.0\"><meta name=\"author\" content=\"Trent Shailer\"><link rel=\"icon\" type=\"image/x-icon\" href=\"".spec_bytes()
        + assets + "/favicon.ico\"><link rel=\"stylesheet\" href=\"".spec_bytes() + assets
        + "/lib.min.css\">".spec_bytes()
}

impl Metadata {
    /// The schema: no attributes.
    pub open spec fn spec_schema() -> Seq<FieldSpec> {
        Seq::empty()
    }

    /// Build the schema.
    pub fn schema() -> (r: Vec<FieldSpec>)
        ensures
            r@ == Metadata::spec_schema(),
    {
        let v: Vec<FieldSpec> = Vec::new();
        proof {
            assert(v@ =~= Metadata::spec_schema());
        }
        v
    }

    /// Bind a matched element to a metadata component.
    pub fn from_element(el: &RawElement, html: &[u8], path: &str) -> (r: Result<
        Metadata,
        FromElementError,
    >)
        requires
            html@.len() < usize::MAX,
        ensures
            r is Ok <==> binds(Metadata::spec_schema(), el.attrs_view()),
            r matches Err(e) ==> is_bind_error(e, Metadata::spec_schema(), *el, html@, path@),
    {
        let schema = Metadata::schema();
        match crate::element::validate(&schema, el, html, path) {
            Err(e) => Err(e),
            Ok(()) => Ok(Metadata),
        }
    }

    /// Convert the metadata htmplate to HTML. Needs the path from the output
    /// document to the shared asset directory as ambient context.
    pub fn to_html(self, path_from_output_to_assets: &[u8]) -> (r: Result<
        Vec<u8>,
        HtmplateErrorKind,
    >)
        ensures
            r matches Ok(v) && v@ == metadata_fragment(path_from_output_to_assets@),
    {
        let mut out: Vec<u8> = Vec::new();
        append_all(
            &mut out,
            "<meta charset=\"UTF-8\"><meta name=\"viewport\" content=\"width=device-width, initial-scale=1.0\"><meta name=\"author\" content=\"Trent Shailer\"><link rel=\"icon\" type=\"image/x-icon\" href=\"".as_bytes(),
        );
        append_all(&mut out, path_from_output_to_assets);
        append_all(&mut out, "/favicon.ico\"><link rel=\"stylesheet\" href=\"".as_bytes());
        append_all(&mut out, path_from_output_to_assets);
        append_all(&mut out, "/lib.min.css\">".as_bytes());
        proof {
            assert(out@ =~= metadata_fragment(path_from_output_to_assets@));
        }
        Ok(out)
    }
}

} // verus!
