use htmplate::{
    create_or_prepend, create_or_replace, get_new_attribute_index,
    inject_attributes_from_original_element, RawAttribute, RawElement,
};

fn element_with(attrs: &[(&str, &str)]) -> RawElement {
    RawElement {
        tag: b"htmplate:title".to_vec(),
        attributes: attrs
            .iter()
            .map(|(n, v)| RawAttribute {
                name: n.as_bytes().to_vec(),
                value: v.as_bytes().to_vec(),
            })
            .collect(),
        start: 0,
        end: 10,
    }
}

#[test]
fn class_is_prepended_space_joined() {
    let el = element_with(&[("class", "b")]);
    let mut html = b"<div class=\"a\">x</div>".to_vec();
    create_or_prepend(b"class", b" ", &el, &mut html);
    assert_eq!(html, b"<div class=\"b a\">x</div>".to_vec());
}

#[test]
fn absent_id_is_inserted() {
    let el = element_with(&[("id", "x")]);
    let mut html = b"<div class=\"a\">x</div>".to_vec();
    create_or_replace(b"id", &el, &mut html);
    assert_eq!(html, b"<div class=\"a\" id=\"x\" >x</div>".to_vec());
}

#[test]
fn existing_id_is_replaced_outright() {
    let el = element_with(&[("id", "new")]);
    let mut html = b"<div id=\"old\">x</div>".to_vec();
    create_or_replace(b"id", &el, &mut html);
    assert_eq!(html, b"<div id=\"new\">x</div>".to_vec());
}

#[test]
fn style_is_prepended_semicolon_joined() {
    let el = element_with(&[("style", "color: red")]);
    let mut html = b"<p style=\"margin: 0\"></p>".to_vec();
    create_or_prepend(b"style", b";", &el, &mut html);
    assert_eq!(html, b"<p style=\"color: red;margin: 0\"></p>".to_vec());
}

#[test]
fn absent_class_is_inserted_before_self_closing_end() {
    let el = element_with(&[("class", "wide")]);
    let mut html = b"<hr/>".to_vec();
    create_or_prepend(b"class", b" ", &el, &mut html);
    assert_eq!(html, b"<hr class=\"wide\" />".to_vec());
}

#[test]
fn attribute_without_caller_value_is_untouched() {
    let el = element_with(&[]);
    let mut html = b"<div class=\"a\">x</div>".to_vec();
    create_or_prepend(b"class", b" ", &el, &mut html);
    create_or_replace(b"id", &el, &mut html);
    assert_eq!(html, b"<div class=\"a\">x</div>".to_vec());
}

#[test]
fn insertion_point_is_first_gt_or_self_close() {
    assert_eq!(get_new_attribute_index(b"<div>x</div>"), 4);
    assert_eq!(get_new_attribute_index(b"<hr/><p>"), 3);
    assert_eq!(get_new_attribute_index(b"no tags here"), 0);
}

#[test]
fn whole_merge_applies_all_four_attributes() {
    let el = element_with(&[
        ("id", "x"),
        ("aria-label", "title"),
        ("style", "color: red"),
        ("class", "b"),
    ]);
    let html = b"<div class=\"a\">x</div>".to_vec();
    let merged = inject_attributes_from_original_element(&el, html);
    let text = String::from_utf8(merged).expect("merged fragment is UTF-8");
    assert!(text.contains("class=\"b a\""));
    assert!(text.contains("id=\"x\""));
    assert!(text.contains("aria-label=\"title\""));
    assert!(text.contains("style=\"color: red\""));
}

#[test]
fn matches_beyond_the_root_tag_do_not_count() {
    // The `class="..."` further into the fragment lies past the first `>`,
    // so the caller's class is inserted on the root tag instead.
    let el = element_with(&[("class", "b")]);
    let mut html = b"<section><div class=\"a\">x</div></section>".to_vec();
    create_or_prepend(b"class", b" ", &el, &mut html);
    assert_eq!(
        html,
        b"<section class=\"b\" ><div class=\"a\">x</div></section>".to_vec()
    );
}
