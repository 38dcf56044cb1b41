use htmplate::htmplates::{Alert, AlertStyle, FormId, FormSubmit, Title};
use htmplate::{RawAttribute, RawElement};

fn element(tag: &str, attrs: &[(&str, &str)]) -> RawElement {
    RawElement {
        tag: tag.as_bytes().to_vec(),
        attributes: attrs
            .iter()
            .map(|(n, v)| RawAttribute {
                name: n.as_bytes().to_vec(),
                value: v.as_bytes().to_vec(),
            })
            .collect(),
        start: 0,
        end: 10,
    }
}

#[test]
fn missing_required_attribute_is_listed_exactly_once() {
    let el = element("htmplate:alert", &[("text", "hello")]);
    let err = Alert::from_element(&el, b"<htmplate:alert text=\"hello\"/>", "page.html")
        .err()
        .expect("binding should fail without the status attribute");
    let missing: Vec<&str> = err.missing_attributes.iter().map(|a| a.name).collect();
    assert_eq!(missing, vec!["status"]);
    assert!(err.invalid_attributes.is_empty());
    assert_eq!(err.element_tag, b"htmplate:alert".to_vec());
}

#[test]
fn supplying_the_attribute_removes_it_from_the_missing_list() {
    let el = element("htmplate:alert", &[("text", "hello"), ("status", "error")]);
    let alert = Alert::from_element(&el, b"x", "page.html")
        .ok()
        .expect("binding should succeed once status is supplied");
    assert!(matches!(alert.status, AlertStyle::Error));
    assert_eq!(alert.text, Some(b"hello".to_vec()));
    assert_eq!(alert.hidden, None);
}

#[test]
fn invalid_attribute_value_is_listed() {
    let el = element("htmplate:alert", &[("status", "bogus")]);
    let err = Alert::from_element(&el, b"x", "page.html")
        .err()
        .expect("an unknown status keyword should not bind");
    let invalid: Vec<&str> = err.invalid_attributes.iter().map(|a| a.name).collect();
    assert_eq!(invalid, vec!["status"]);
    assert!(err.missing_attributes.is_empty());
}

#[test]
fn all_problems_are_collected_in_one_pass() {
    let el = element(
        "htmplate:form-text-input",
        &[("id", "no-slash"), ("form", "/login")],
    );
    let err = htmplate::htmplates::FormTextInput::from_element(&el, b"x", "page.html")
        .err()
        .expect("binding should fail");
    let missing: Vec<&str> = err.missing_attributes.iter().map(|a| a.name).collect();
    let invalid: Vec<&str> = err.invalid_attributes.iter().map(|a| a.name).collect();
    assert_eq!(missing, vec!["label"]);
    assert_eq!(invalid, vec!["id"]);
}

#[test]
fn optional_attributes_may_be_absent() {
    let el = element("htmplate:title", &[]);
    let title = Title::from_element(&el, b"x", "page.html")
        .ok()
        .expect("a title binds with no attributes");
    assert_eq!(title.text, None);
    assert_eq!(title.icon, None);
}

#[test]
fn alert_style_decodes_ignoring_ascii_case() {
    assert!(matches!(AlertStyle::from_str(b"Error"), Ok(AlertStyle::Error)));
    assert!(matches!(AlertStyle::from_str(b"WARNING"), Ok(AlertStyle::Warning)));
    assert!(matches!(AlertStyle::from_str(b"success"), Ok(AlertStyle::Success)));
    assert!(matches!(AlertStyle::from_str(b"Info"), Ok(AlertStyle::Info)));
    assert!(matches!(AlertStyle::from_str(b"basic"), Ok(AlertStyle::Basic)));
    assert!(AlertStyle::from_str(b"loud").is_err());
}

#[test]
fn form_id_must_start_with_a_slash() {
    assert!(FormId::from_str(b"/login").is_ok());
    assert!(FormId::from_str(b"login").is_err());
    assert!(FormId::from_str(b"").is_err());
}

#[test]
fn form_submit_binds_its_form_id() {
    let el = element("htmplate:form-submit", &[("form", "/login")]);
    let submit = FormSubmit::from_element(&el, b"x", "page.html")
        .ok()
        .expect("a form submit binds with a form id");
    assert_eq!(submit.form.0, b"/login".to_vec());
}

#[test]
fn flag_values_must_be_true_or_false() {
    let el = element(
        "htmplate:alert",
        &[("status", "info"), ("hidden", "maybe")],
    );
    let err = Alert::from_element(&el, b"x", "page.html")
        .err()
        .expect("a flag that is neither true nor false should not bind");
    let invalid: Vec<&str> = err.invalid_attributes.iter().map(|a| a.name).collect();
    assert_eq!(invalid, vec!["hidden"]);
}

#[test]
fn binding_error_location_is_resolved() {
    let el = RawElement {
        tag: b"htmplate:alert".to_vec(),
        attributes: vec![],
        start: 4,
        end: 20,
    };
    let err = Alert::from_element(&el, b"ab\ncd", "page.html")
        .err()
        .expect("binding should fail");
    assert_eq!(err.element_location.line, 2);
    assert_eq!(err.element_location.column, 2);
}
