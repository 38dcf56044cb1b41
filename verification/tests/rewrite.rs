use htmplate::rewrite::{normalize_gaps, normalize_newlines};
use htmplate::{process_element, replace_htmplates, Processed, RawAttribute, RawElement,
    ReplaceHtmplateError};

#[test]
fn title_component_is_expanded_end_to_end() {
    let out = replace_htmplates("<htmplate:title text=\"Hi\"/>", "page.html", "lib")
        .expect("a well-formed document templates");
    assert!(out.contains("<h1>Hi</h1>"), "output was: {out}");
    assert!(!out.contains("htmplate:title"), "output was: {out}");
    assert!(out.starts_with("<!-- htmplate v0.1.0 -->\n"), "output was: {out}");
}

#[test]
fn surrounding_content_is_preserved_exactly() {
    let out = replace_htmplates("<p>before</p><htmplate:footer/><p>after</p>", "page.html", "lib")
        .expect("templating succeeds");
    assert!(out.contains("<p>before</p>"));
    assert!(out.contains("<p>after</p>"));
    assert!(out.contains("<footer>"));
}

#[test]
fn unknown_component_in_namespace_fails() {
    let err = replace_htmplates("<htmplate:bogus/>", "page.html", "lib")
        .err()
        .expect("an unknown component must fail");
    match err {
        ReplaceHtmplateError::HtmplateDoesNotExist { tag, location } => {
            assert_eq!(tag, b"htmplate:bogus".to_vec());
            assert_eq!(location.line, 1);
            assert_eq!(location.column, 1);
        }
        other => panic!("expected an unknown-component error, got {other:?}"),
    }
}

#[test]
fn elements_outside_the_namespace_are_never_flagged() {
    let out = replace_htmplates(
        "<custom-widget strange=\"attrs\"><b>x</b></custom-widget>",
        "page.html",
        "lib",
    )
    .expect("ordinary elements pass through");
    assert!(out.contains("<custom-widget strange=\"attrs\"><b>x</b></custom-widget>"));
}

#[test]
fn missing_required_attribute_aborts_the_rewrite() {
    let err = replace_htmplates("<p>x</p><htmplate:hr/>", "page.html", "lib")
        .err()
        .expect("a divider without text must fail");
    match err {
        ReplaceHtmplateError::InvalidHtmplate { source } => {
            let missing: Vec<&str> = source.missing_attributes.iter().map(|a| a.name).collect();
            assert_eq!(missing, vec!["text"]);
        }
        other => panic!("expected a binding error, got {other:?}"),
    }
}

#[test]
fn invalid_icon_aborts_with_a_render_error() {
    let err = replace_htmplates("<htmplate:title icon=\"no-such\"/>", "page.html", "lib")
        .err()
        .expect("an unknown icon must fail at render time");
    match err {
        ReplaceHtmplateError::HtmplateError { source } => {
            assert_eq!(source.tag, b"htmplate:title".to_vec());
            match source.kind {
                htmplate::htmplates::HtmplateErrorKind::InvalidIcon { icon } => {
                    assert_eq!(icon, b"no-such".to_vec());
                }
                other => panic!("expected an invalid-icon error, got {other:?}"),
            }
        }
        other => panic!("expected a render error, got {other:?}"),
    }
}

#[test]
fn caller_attributes_are_merged_into_the_fragment() {
    let out = replace_htmplates(
        "<htmplate:footer class=\"fancy\" id=\"foot\"/>",
        "page.html",
        "lib",
    )
    .expect("templating succeeds");
    // The footer's root tag carries neither attribute, so both are
    // inserted on it; the `class="button"` deeper in the fragment lies
    // past the root tag and is left alone.
    assert!(out.contains("id=\"foot\""), "output was: {out}");
    assert!(out.contains("class=\"fancy\""), "output was: {out}");
    assert!(out.contains("class=\"button\""), "output was: {out}");
}

#[test]
fn metadata_uses_the_asset_path_and_skips_the_merge() {
    let out = replace_htmplates(
        "<htmplate:metadata class=\"ignored\"/>",
        "page.html",
        "../assets",
    )
    .expect("templating succeeds");
    assert!(out.contains("href=\"../assets/favicon.ico\""), "output was: {out}");
    assert!(out.contains("href=\"../assets/lib.min.css\""), "output was: {out}");
    assert!(!out.contains("class=\"ignored\""), "output was: {out}");
}

#[test]
fn rerunning_on_the_output_changes_nothing_but_the_marker() {
    let first = replace_htmplates(
        "<main>\n  <htmplate:title text=\"Hi\"/>\n  <p>body</p>\n</main>",
        "page.html",
        "lib",
    )
    .expect("first run succeeds");
    let second = replace_htmplates(&first, "page.html", "lib").expect("second run succeeds");
    // The first output contains no component tags, so the second run
    // consumes nothing and reproduces the first output byte for byte
    // behind one fresh version marker line.
    let marker = "<!-- htmplate v0.1.0 -->\n";
    assert_eq!(second, format!("{marker}{first}"));
    assert!(!second.contains("htmplate:title"));
    assert!(second.contains("<h1>Hi</h1>"));
}

#[test]
fn whitespace_normalization_collapses_newline_runs() {
    assert_eq!(normalize_newlines(b"a\n   b"), b"a b".to_vec());
    assert_eq!(normalize_newlines(b"a \nb"), b"a  b".to_vec());
    assert_eq!(normalize_newlines(b"a\r\n\t\nb"), b"a b".to_vec());
    assert_eq!(normalize_newlines(b"plain"), b"plain".to_vec());
}

#[test]
fn whitespace_normalization_relines_tag_gaps() {
    assert_eq!(normalize_gaps(b"<a> <b>"), b"<a>\n<b>".to_vec());
    assert_eq!(normalize_gaps(b"<a>  <b>"), b"<a>  <b>".to_vec());
    assert_eq!(normalize_gaps(b"<a>x<b>"), b"<a>x<b>".to_vec());
}

#[test]
fn first_error_in_document_order_wins() {
    let err = replace_htmplates(
        "<htmplate:hr/><htmplate:bogus/>",
        "page.html",
        "lib",
    )
    .err()
    .expect("the rewrite must fail");
    assert!(
        matches!(err, ReplaceHtmplateError::InvalidHtmplate { .. }),
        "expected the earlier binding error, got {err:?}"
    );
}

#[test]
fn process_element_keeps_ordinary_elements() {
    let el = RawElement {
        tag: b"div".to_vec(),
        attributes: vec![RawAttribute { name: b"class".to_vec(), value: b"x".to_vec() }],
        start: 0,
        end: 15,
    };
    let outcome = process_element(&el, b"<div class=\"x\">", "page.html", b"lib");
    assert!(matches!(outcome, Processed::Keep));
}

#[test]
fn process_element_flags_reserved_unknowns() {
    let el = RawElement {
        tag: b"htmplatezzz".to_vec(),
        attributes: vec![],
        start: 0,
        end: 13,
    };
    let outcome = process_element(&el, b"<htmplatezzz/>", "page.html", b"lib");
    match outcome {
        Processed::Fail(ReplaceHtmplateError::HtmplateDoesNotExist { tag, .. }) => {
            assert_eq!(tag, b"htmplatezzz".to_vec());
        }
        other => panic!("expected an unknown-component failure, got {other:?}"),
    }
}

#[test]
fn errors_render_with_their_locations() {
    let err = replace_htmplates("<p>x</p>\n<htmplate:bogus/>", "page.html", "lib")
        .err()
        .expect("the rewrite must fail");
    assert_eq!(
        err.describe(),
        "htmplate `htmplate:bogus` at `page.html:2:1` does not exist"
    );
}

#[test]
fn binding_errors_render_every_problem() {
    let err = replace_htmplates("<htmplate:form-submit form=\"login\"/>", "page.html", "lib")
        .err()
        .expect("a form id without a slash must fail");
    let text = err.describe();
    assert!(text.starts_with("invalid `htmplate:form-submit` at page.html:1:1"));
    assert!(text.contains("invalid attribute `form`, the ID of the form this submits, must start with a `/`"));
}
