//! Merging the attributes a caller wrote on a component tag into the
//! generated root tag of the rendered fragment.
//!
//! `id` and `aria-label` replace any value already on the fragment's root
//! tag; `style` and `class` are prepended to any existing value. A new
//! attribute is inserted immediately before the first `>` or `/>` of the
//! fragment, whichever comes first.

use vstd::prelude::*;
use vstd::string::StringSliceAdditionalSpecFns;

use crate::element::{spec_lookup, RawElement};
use crate::text::{append_all, append_range, find, find_first, find_from, find_from_index};

verus! {

/// Where a new attribute is inserted: immediately before the first `>` or
/// `/>` of the fragment, whichever comes first; at the start when the
/// fragment has no `>` at all.
pub open spec fn insertion_point(h: Seq<u8>) -> int {
    match find_first(h, ">".spec_bytes()) {
        None => 0,
        Some(g) => match find_first(h, "/>".spec_bytes()) {
            None => g,
            Some(s) => if g < s {
                g
            } else {
                s
            },
        },
    }
}

/// `h` with ` name="content" ` inserted at `at`.
pub open spec fn insert_attr(h: Seq<u8>, at: int, name: Seq<u8>, content: Seq<u8>) -> Seq<u8> {
    h.take(at) + " ".spec_bytes() + name + "=\"".spec_bytes() + content + "\" ".spec_bytes()
        + h.skip(at)
}

/// The value of `create_or_replace` on a fragment, for an attribute the
/// caller supplied: if the fragment's root tag already carries the
/// attribute, its quoted value is replaced by `content`; otherwise the
/// attribute is inserted at the insertion point. An attribute match without
/// a closing quote is treated as absent.
pub open spec fn replace_in(h: Seq<u8>, name: Seq<u8>, content: Seq<u8>) -> Seq<u8> {
    let ip = insertion_point(h);
    let pat = name + "=\"".spec_bytes();
    match find_first(h, pat) {
        Some(idx) => if idx < ip {
            let start = idx + pat.len();
            match find_from(h, "\"".spec_bytes(), start) {
                Some(end) => h.take(start) + content + h.skip(end),
                None => insert_attr(h, ip, name, content),
            }
        } else {
            insert_attr(h, ip, name, content)
        },
        None => insert_attr(h, ip, name, content),
    }
}

/// The value of `create_or_prepend` on a fragment, for an attribute the
/// caller supplied: if the fragment's root tag already carries the
/// attribute, `content` and the delimiter are prepended to its value;
/// otherwise the attribute is inserted at the insertion point.
pub open spec fn prepend_in(h: Seq<u8>, name: Seq<u8>, delimiter: Seq<u8>, content: Seq<u8>) -> Seq<
    u8,
> {
    let ip = insertion_point(h);
    let pat = name + "=\"".spec_bytes();
    match find_first(h, pat) {
        Some(idx) => if idx < ip {
            let start = idx + pat.len();
            h.take(start) + content + delimiter + h.skip(start)
        } else {
            insert_attr(h, ip, name, content)
        },
        None => insert_attr(h, ip, name, content),
    }
}

/// One replace step of the merge: a no-op when the caller did not supply
/// the attribute.
pub open spec fn replace_step(
    h: Seq<u8>,
    name: Seq<u8>,
    attrs: Seq<(Seq<u8>, Seq<u8>)>,
) -> Seq<u8> {
    match spec_lookup(attrs, name) {
        Some(content) => replace_in(h, name, content),
        None => h,
    }
}

/// One prepend step of the merge: a no-op when the caller did not supply
/// the attribute.
pub open spec fn prepend_step(
    h: Seq<u8>,
    name: Seq<u8>,
    delimiter: Seq<u8>,
    attrs: Seq<(Seq<u8>, Seq<u8>)>,
) -> Seq<u8> {
    match spec_lookup(attrs, name) {
        Some(content) => prepend_in(h, name, delimiter, content),
        None => h,
    }
}

/// The whole merge: `id` and `aria-label` replace, then `style` and
/// `class` prepend, in that order.
pub open spec fn inject_attributes(h: Seq<u8>, attrs: Seq<(Seq<u8>, Seq<u8>)>) -> Seq<u8> {
    let h1 = replace_step(h, "id".spec_bytes(), attrs);
    let h2 = replace_step(h1, "aria-label".spec_bytes(), attrs);
    let h3 = prepend_step(h2, "style".spec_bytes(), ";".spec_bytes(), attrs);
    prepend_step(h3, "class".spec_bytes(), " ".spec_bytes(), attrs)
}

/// The insertion point lies within the fragment.
pub proof fn lemma_insertion_point_bounds(h: Seq<u8>)
    ensures
        0 <= insertion_point(h) <= h.len(),
{
    crate::text::lemma_find_from_properties(h, ">".spec_bytes(), 0);
    crate::text::lemma_find_from_properties(h, "/>".spec_bytes(), 0);
}

/// Compute the insertion point of a fragment.
pub fn get_new_attribute_index(html: &[u8]) -> (r: usize)
    ensures
        r == insertion_point(html@),
        r <= html@.len(),
{
    proof {
        lemma_insertion_point_bounds(html@);
    }
    match find(html, ">".as_bytes()) {
        None => 0,
        Some(g) => match find(html, "/>".as_bytes()) {
            None => g,
            Some(s) => if g < s {
                g
            } else {
                s
            },
        },
    }
}

/// Insert ` name="content" ` into `html` at `at`.
fn do_insert_attr(html: &mut Vec<u8>, at: usize, name: &[u8], content: &[u8])
    requires
        at <= old(html)@.len(),
    ensures
        final(html)@ == insert_attr(old(html)@, at as int, name@, content@),
{
    let mut out: Vec<u8> = Vec::new();
    append_range(&mut out, html.as_slice(), 0, at);
    append_all(&mut out, " ".as_bytes());
    append_all(&mut out, name);
    append_all(&mut out, "=\"".as_bytes());
    append_all(&mut out, content);
    append_all(&mut out, "\" ".as_bytes());
    let len = html.len();
    append_range(&mut out, html.as_slice(), at, len);
    proof {
        assert(html@.subrange(0, at as int) =~= html@.take(at as int));
        assert(html@.subrange(at as int, html@.len() as int) =~= html@.skip(at as int));
        assert(out@ =~= insert_attr(html@, at as int, name@, content@));
    }
    *html = out;
}

/// Merge one caller attribute into the fragment, replacing any value the
/// fragment's root tag already carries.
pub fn create_or_replace(attribute: &[u8], el: &RawElement, html: &mut Vec<u8>)
    ensures
        final(html)@ == replace_step(old(html)@, attribute@, el.attrs_view()),
{
    let content = match el.get_attribute(attribute) {
        Some(c) => c,
        None => {
            return ;
        },
    };
    let ip = get_new_attribute_index(html.as_slice());
    let mut pat: Vec<u8> = Vec::new();
    append_all(&mut pat, attribute);
    append_all(&mut pat, "=\"".as_bytes());
    proof {
        assert(pat@ =~= attribute@ + "=\"".spec_bytes());
    }
    let hlen: usize = html.len();
    match find(html.as_slice(), pat.as_slice()) {
        Some(idx) if idx < ip => {
            proof {
                crate::text::lemma_find_from_properties(html@, pat@, 0);
                assert(idx + pat@.len() <= hlen);
            }
            let start = idx + pat.len();
            match find_from_index(html.as_slice(), "\"".as_bytes(), start) {
                Some(end) => {
                    proof {
                        crate::text::lemma_find_from_properties(
                            html@,
                            "\"".spec_bytes(),
                            start as int,
                        );
                    }
                    let mut out: Vec<u8> = Vec::new();
                    append_range(&mut out, html.as_slice(), 0, start);
                    append_all(&mut out, content.as_slice());
                    let len = html.len();
                    append_range(&mut out, html.as_slice(), end, len);
                    proof {
                        assert(html@.subrange(0, start as int) =~= html@.take(start as int));
                        assert(html@.subrange(end as int, html@.len() as int) =~= html@.skip(
                            end as int,
                        ));
                        assert(out@ =~= replace_step(html@, attribute@, el.attrs_view()));
                    }
                    *html = out;
                },
                None => {
                    do_insert_attr(html, ip, attribute, content.as_slice());
                },
            }
        },
        _ => {
            do_insert_attr(html, ip, attribute, content.as_slice());
        },
    }
}

/// Merge one caller attribute into the fragment, prepending to any value
/// the fragment's root tag already carries.
pub fn create_or_prepend(attribute: &[u8], delimiter: &[u8], el: &RawElement, html: &mut Vec<u8>)
    ensures
        final(html)@ == prepend_step(old(html)@, attribute@, delimiter@, el.attrs_view()),
{
    let content = match el.get_attribute(attribute) {
        Some(c) => c,
        None => {
            return ;
        },
    };
    let ip = get_new_attribute_index(html.as_slice());
    let mut pat: Vec<u8> = Vec::new();
    append_all(&mut pat, attribute);
    append_all(&mut pat, "=\"".as_bytes());
    proof {
        assert(pat@ =~= attribute@ + "=\"".spec_bytes());
    }
    let hlen: usize = html.len();
    match find(html.as_slice(), pat.as_slice()) {
        Some(idx) if idx < ip => {
            proof {
                crate::text::lemma_find_from_properties(html@, pat@, 0);
                assert(idx + pat@.len() <= hlen);
            }
            let start = idx + pat.len();
            let mut out: Vec<u8> = Vec::new();
            append_range(&mut out, html.as_slice(), 0, start);
            append_all(&mut out, content.as_slice());
            append_all(&mut out, delimiter);
            let len = html.len();
            append_range(&mut out, html.as_slice(), start, len);
            proof {
                assert(html@.subrange(0, start as int) =~= html@.take(start as int));
                assert(html@.subrange(start as int, html@.len() as int) =~= html@.skip(
                    start as int,
                ));
                assert(out@ =~= prepend_step(html@, attribute@, delimiter@, el.attrs_view()));
            }
            *html = out;
        },
        _ => {
            do_insert_attr(html, ip, attribute, content.as_slice());
        },
    }
}

/// Merge the attributes the caller wrote on the component tag into the
/// rendered fragment.
pub fn inject_attributes_from_original_element(el: &RawElement, html: Vec<u8>) -> (r: Vec<u8>)
    ensures
        r@ == inject_attributes(html@, el.attrs_view()),
{
    let mut html = html;
    create_or_replace("id".as_bytes(), el, &mut html);
    create_or_replace("aria-label".as_bytes(), el, &mut html);
    create_or_prepend("style".as_bytes(), ";".as_bytes(), el, &mut html);
    create_or_prepend("class".as_bytes(), " ".as_bytes(), el, &mut html);
    html
}

} // verus!
