use htmplate::htmplates::{
    Alert, AlertStyle, Footer, FormAlert, FormCheckInput, FormId, FormSubmit, FormTextInput, Hr,
    HtmplateErrorKind, Icon, IconButton, Metadata, Title, ToHtml,
};
use htmplate::{all_htmplate_details, filter_details, htmplate_listing};

fn svg(name: &str) -> String {
    format!("<svg class=\"icon\" aria-hidden=\"true\" data-icon=\"{name}\"></svg>")
}

#[test]
fn title_renders_text_and_icon() {
    let title = Title { text: Some(b"Hi".to_vec()), icon: Some(b"warning".to_vec()) };
    let html = String::from_utf8(title.to_html().expect("renders")).unwrap();
    assert_eq!(
        html,
        format!(
            "<hgroup style=\"display: flex; flex-direction: row; align-items: center; gap: 1rem\">{}<h1>Hi</h1></hgroup>",
            svg("warning")
        )
    );
}

#[test]
fn title_without_attributes_renders_empty_heading() {
    let title = Title { text: None, icon: None };
    let html = String::from_utf8(title.to_html().expect("renders")).unwrap();
    assert!(html.contains("<h1></h1>"));
}

#[test]
fn title_with_unknown_icon_fails_to_render() {
    let title = Title { text: None, icon: Some(b"nope".to_vec()) };
    match title.to_html() {
        Err(HtmplateErrorKind::InvalidIcon { icon }) => assert_eq!(icon, b"nope".to_vec()),
        other => panic!("expected an invalid-icon error, got {other:?}"),
    }
}

#[test]
fn footer_renders_the_shared_footer() {
    let html = String::from_utf8(Footer.to_html().expect("renders")).unwrap();
    assert!(html.starts_with("<footer><a class=\"button\""));
    assert!(html.contains(&svg("logo-github")));
    assert!(html.ends_with("</a></footer>"));
}

#[test]
fn metadata_renders_links_relative_to_the_assets() {
    let html = String::from_utf8(Metadata.to_html(b"../lib").expect("renders")).unwrap();
    assert!(html.contains("href=\"../lib/favicon.ico\""));
    assert!(html.contains("href=\"../lib/lib.min.css\""));
    assert!(html.contains("<meta charset=\"UTF-8\">"));
}

#[test]
fn alert_renders_style_class_and_icon() {
    let alert = Alert {
        status: AlertStyle::Warning,
        text: Some(b"careful".to_vec()),
        hidden: None,
    };
    let html = String::from_utf8(alert.to_html().expect("renders")).unwrap();
    assert_eq!(
        html,
        format!("<div class=\"alert warning\">{}careful</div>", svg("warning"))
    );
}

#[test]
fn hidden_alert_gains_the_collapse_class() {
    let alert = Alert { status: AlertStyle::Error, text: None, hidden: Some(true) };
    let html = String::from_utf8(alert.to_html().expect("renders")).unwrap();
    assert!(html.starts_with("<div class=\"alert error collapse\">"));
}

#[test]
fn form_alert_renders_ids_under_its_form() {
    let alert = FormAlert { form: FormId(b"/login".to_vec()) };
    let html = String::from_utf8(alert.to_html().expect("renders")).unwrap();
    assert!(html.contains("id=\"/login/alert\""));
    assert!(html.contains("id=\"/login/alert/content\""));
}

#[test]
fn form_submit_targets_its_form() {
    let submit = FormSubmit { form: FormId(b"/login".to_vec()) };
    let html = String::from_utf8(submit.to_html().expect("renders")).unwrap();
    assert_eq!(
        html,
        "<section aria-label=\"submit the form\"><button form=\"/login\" type=\"submit\">Submit</button></section>"
    );
}

#[test]
fn form_text_input_renders_required_and_credential_extras() {
    let input = FormTextInput {
        id: FormId(b"/user".to_vec()),
        form: FormId(b"/login".to_vec()),
        label: b"User".to_vec(),
        required: Some(true),
        credential: Some(true),
    };
    let html = String::from_utf8(input.to_html().expect("renders")).unwrap();
    assert!(html.contains("id=\"/login/user/input\""));
    assert!(html.contains("id=\"/login/user/label\""));
    assert!(html.contains("id=\"/login/user/error\""));
    assert!(html.contains("<strong>*</strong>"));
    assert!(html.contains(" required"));
    assert!(html.contains("minlength=\"4\""));
    assert!(html.contains("autocomplete=\"off\""));
}

#[test]
fn optional_form_text_input_renders_without_extras() {
    let input = FormTextInput {
        id: FormId(b"/note".to_vec()),
        form: FormId(b"/post".to_vec()),
        label: b"Note".to_vec(),
        required: None,
        credential: None,
    };
    let html = String::from_utf8(input.to_html().expect("renders")).unwrap();
    assert!(!html.contains("<strong>*</strong>"));
    assert!(!html.contains(" required"));
    assert!(!html.contains("minlength"));
}

#[test]
fn form_check_input_renders_a_checkbox() {
    let input = FormCheckInput {
        id: FormId(b"/agree".to_vec()),
        form: FormId(b"/signup".to_vec()),
        label: b"Agree".to_vec(),
        required: Some(true),
    };
    let html = String::from_utf8(input.to_html().expect("renders")).unwrap();
    assert!(html.contains("type=\"checkbox\""));
    assert!(html.contains("id=\"/signup/agree/input\""));
    assert!(html.contains(" required"));
}

#[test]
fn hr_renders_its_text_between_rules() {
    let hr = Hr { text: b"or".to_vec() };
    let html = String::from_utf8(hr.to_html().expect("renders")).unwrap();
    assert_eq!(
        html,
        "<div class=\"hr\"><hr aria-hidden=\"true\"/><span>or</span><hr aria-hidden=\"true\"/></div>"
    );
}

#[test]
fn icon_component_renders_its_svg() {
    let icon = Icon { icon: htmplate::icon::Icon::HelpCircle };
    let html = String::from_utf8(icon.to_html().expect("renders")).unwrap();
    assert_eq!(html, svg("help-circle"));
}

#[test]
fn icon_button_renders_a_link_with_new_tab_attributes() {
    let button = IconButton {
        id: Some(b"go".to_vec()),
        text: Some(b"Go".to_vec()),
        icon: Some(htmplate::icon::Icon::CheckmarkCircle),
        href: Some(b"/next".to_vec()),
        new_tab: Some(true),
        ghost_style: None,
    };
    let html = String::from_utf8(button.to_html().expect("renders")).unwrap();
    assert!(html.starts_with("<a class=\"button\""));
    assert!(html.contains("href=\"/next\""));
    assert!(html.contains("id=\"go\""));
    assert!(html.contains("target=\"_blank\""));
    assert!(html.ends_with("Go</a>"));
}

#[test]
fn icon_button_without_text_is_a_circle_button() {
    let button = IconButton {
        id: None,
        text: None,
        icon: Some(htmplate::icon::Icon::AlertCircle),
        href: None,
        new_tab: None,
        ghost_style: Some(true),
    };
    let html = String::from_utf8(button.to_html().expect("renders")).unwrap();
    assert!(html.starts_with("<button class=\"button circle ghost\">"));
    assert!(html.ends_with("</button>"));
}

#[test]
fn the_registry_lists_every_component() {
    let details = all_htmplate_details();
    let tags: Vec<&str> = details.iter().map(|d| d.tag).collect();
    assert_eq!(
        tags,
        vec![
            "htmplate:title",
            "htmplate:metadata",
            "htmplate:footer",
            "htmplate:alert",
            "htmplate:form-alert",
            "htmplate:form-text-input",
            "htmplate:form-check-input",
            "htmplate:form-submit",
            "htmplate:icon",
            "htmplate:hr",
        ]
    );
}

#[test]
fn registry_schemas_mark_required_attributes() {
    let details = all_htmplate_details();
    let alert = details.iter().find(|d| d.tag == "htmplate:alert").unwrap();
    let required: Vec<&str> =
        alert.attributes.iter().filter(|a| a.required).map(|a| a.name).collect();
    assert_eq!(required, vec!["status"]);
}

#[test]
fn filtering_retains_matching_tags() {
    let filtered = filter_details(all_htmplate_details(), "FORM");
    let tags: Vec<&str> = filtered.iter().map(|d| d.tag).collect();
    assert_eq!(
        tags,
        vec![
            "htmplate:form-alert",
            "htmplate:form-text-input",
            "htmplate:form-check-input",
            "htmplate:form-submit",
        ]
    );
    assert!(filter_details(all_htmplate_details(), "zzz").is_empty());
}

#[test]
fn the_listing_shows_tags_and_attribute_markers() {
    let listing = htmplate_listing(&all_htmplate_details());
    assert!(listing.contains("<htmplate:title /> a document title with an optional icon"));
    assert!(listing.contains("*[status]: one of [error, warning, success, info, basic]"));
    assert!(listing.contains(" [text]: the title text"));
}

#[test]
fn error_kinds_render_as_one_line() {
    let err = HtmplateErrorKind::invalid_attribute("status", "one of the style keywords");
    assert_eq!(
        err.describe(),
        "invalid attribute `status`, one of the style keywords"
    );
    let icon_err = HtmplateErrorKind::InvalidIcon { icon: b"sparkle".to_vec() };
    assert_eq!(icon_err.describe(), "the icon `sparkle` does not exist");
}

#[test]
fn invalid_icon_errors_carry_tag_and_location() {
    let err = htmplate::htmplates::HtmplateError::invalid_icon(
        b"htmplate:title".to_vec(),
        htmplate::Location::from_byte_index(0, b"x", "page.html"),
        b"sparkle".to_vec(),
    );
    assert_eq!(
        err.describe(),
        "could not template a `htmplate:title` at page.html:1:1: the icon `sparkle` does not exist"
    );
}
