//! Expand reusable `<htmplate:... />` component elements in HTML documents.

pub mod cli;
pub mod element;
pub mod htmplates;
pub mod icon;
pub mod location;
pub mod merge;
pub mod rewrite;
mod text;
pub mod watch;

pub use element::{Attribute, Decoder, FieldSpec, FromElementError, RawAttribute, RawElement};
pub use cli::{filter_details, htmplate_listing, interpret_bundler, interpret_formatter, AssetsSubcommand, BundleScriptError, BundleSubcommand, CommandError, ListSubcommand, TemplateError, TemplateSubcommand, ToolOutcome, WatchError, WatchSubcommand, WriteFormattedError, WriteLibraryError};
pub use location::Location;
pub use merge::{create_or_prepend, create_or_replace, get_new_attribute_index, inject_attributes_from_original_element};
pub use rewrite::{process_element, replace_htmplates, rewrite_document, Processed, ReplaceHtmplateError};
pub use watch::{classify_file, template_target, FileKind, FileStatus, StatusMap};

use vstd::prelude::*;
use vstd::string::StringSliceAdditionalSpecFns;

use crate::htmplates::{spec_all_kinds, HtmplateKind};

verus! {

/// The details for an htmplate.
pub struct HtmplateDetails {
    /// The htmplate's tag.
    pub tag: &'static str,
    /// The htmplate's description.
    pub description: &'static str,
    /// The htmplate's attributes.
    pub attributes: Vec<Attribute>,
}

/// The details describe the given kind: its tag, its description, and its
/// declared attributes, in schema order.
pub open spec fn details_match(d: HtmplateDetails, k: HtmplateKind) -> bool {
    &&& d.tag.spec_bytes() == k.spec_tag()
    &&& d.description@ == k.spec_description()
    &&& d.attributes@ == k.spec_schema().map_values(|f: FieldSpec| f.attribute)
}

impl HtmplateDetails {
    /// The details of one registered kind.
    pub(crate) fn new(kind: HtmplateKind) -> (r: HtmplateDetails)
        ensures
            details_match(r, kind),
    {
        let schema = kind.schema();
        let mut attributes: Vec<Attribute> = Vec::new();
        let mut i: usize = 0;
        while i < schema.len()
            invariant
                0 <= i <= schema@.len(),
                schema@ == kind.spec_schema(),
                attributes@ =~= schema@.take(i as int).map_values(|f: FieldSpec| f.attribute),
            decreases schema@.len() - i,
        {
            attributes.push(schema[i].attribute);
            proof {
                assert(schema@.take(i + 1).map_values(|f: FieldSpec| f.attribute) =~= schema@.take(
                    i as int,
                ).map_values(|f: FieldSpec| f.attribute) + seq![schema@[i as int].attribute]);
            }
            i = i + 1;
        }
        proof {
            assert(schema@.take(schema@.len() as int) =~= schema@);
        }
        HtmplateDetails { tag: kind.tag(), description: kind.description(), attributes }
    }
}

/// Returns the details for all htmplates, in registry order.
pub fn all_htmplate_details() -> (r: Vec<HtmplateDetails>)
    ensures
        r@.len() == spec_all_kinds().len(),
        forall|i: int| 0 <= i < r@.len() ==> details_match(r@[i], spec_all_kinds()[i]),
{
    let kinds = htmplates::all_kinds();
    let mut details: Vec<HtmplateDetails> = Vec::new();
    let mut i: usize = 0;
    while i < kinds.len()
        invariant
            0 <= i <= kinds@.len(),
            kinds@ == spec_all_kinds(),
            details@.len() == i,
            forall|j: int| 0 <= j < i ==> details_match(#[trigger] details@[j], spec_all_kinds()[j]),
        decreases kinds@.len() - i,
    {
        details.push(HtmplateDetails::new(kinds[i]));
        i = i + 1;
    }
    details
}

} // verus!
