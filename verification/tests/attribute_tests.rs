use dilla_renderer::attribute::Attribute;

#[test]
fn test_has_class_present() {
    let mut attribute = Attribute::new();
    attribute.add_attr("class", vec!["example".to_owned(), "test".to_owned()]);

    assert!(attribute.has_class("test"));
}

#[test]
fn test_has_class_absent() {
    let mut attribute = Attribute::new();
    attribute.add_attr("class", vec!["example".to_owned()]);

    assert!(!attribute.has_class("missing"));
}

#[test]
fn test_get_attr_existing() {
    let mut attribute = Attribute::new();
    attribute.add_attr("class", vec!["btn".to_owned(), "active".to_owned()]);

    let class_attrs = attribute.get_attr("class");
    assert_eq!(class_attrs, vec!["btn".to_owned(), "active".to_owned()]);
}

#[test]
fn test_get_attr_non_existing() {
    let attribute = Attribute::new();

    let class_attrs = attribute.get_attr("class");
    assert!(class_attrs.is_empty());
}

#[test]
fn test_add_attr_single_value() {
    let mut attribute = Attribute::new();
    attribute.add_attr("class", vec!["btn".to_owned()]);

    assert_eq!(attribute.get_attr("class"), vec!["btn".to_owned()]);
    assert_eq!(attribute.to_html_string(), " class=\"btn\"");
}

#[test]
fn test_add_attr_multiple_values() {
    let mut attribute = Attribute::new();
    attribute.add_attr("class", vec!["btn".to_owned(), "active".to_owned()]);

    assert_eq!(attribute.get_attr("class"), vec!["btn".to_owned(), "active".to_owned()]);
    assert_eq!(attribute.to_html_string(), " class=\"btn active\"");
}

#[test]
fn test_class_accumulates_and_id_replaces() {
    let mut attribute = Attribute::new();
    attribute.add_attr("class", vec!["x".to_owned()]);
    attribute.add_attr("class", vec!["y".to_owned()]);
    assert_eq!(attribute.get_attr("class"), vec!["x".to_owned(), "y".to_owned()]);

    let mut ids = Attribute::new();
    ids.add_attr("id", vec!["a".to_owned()]);
    ids.add_attr("id", vec!["b".to_owned()]);
    assert_eq!(ids.get_attr("id"), vec!["b".to_owned()]);
}

#[test]
fn test_bare_attribute_serialization() {
    let mut attribute = Attribute::new();
    attribute.add_attr("hidden", Vec::new());
    attribute.add_attr("data-x", vec!["1".to_owned()]);
    assert_eq!(attribute.to_html_string(), " hidden data-x=\"1\"");
}

#[test]
fn test_remove_class_keeps_others() {
    let mut attribute = Attribute::new();
    attribute.add_attr("class", vec!["foo".to_owned(), "bar".to_owned()]);
    attribute.remove_class_by_name("bar");
    assert!(attribute.has_class("foo"));
    assert!(!attribute.has_class("bar"));
}

#[test]
fn test_remove_attribute_by_name() {
    let mut attribute = Attribute::new();
    attribute.add_attr("class", vec!["foo".to_owned()]);
    assert!(attribute.has_attribute("class"));
    attribute.remove_attr_by_name("class");
    assert!(!attribute.has_attribute("class"));
}


#[test]
fn test_attribute_round_trip() {
    // Serialization followed by attribute-list parsing recovers the same
    // name to value-list mapping, bare attributes included.
    let mut attribute = Attribute::new();
    attribute.add_attr("class", vec!["btn".to_owned(), "active".to_owned()]);
    attribute.add_attr("id", vec!["main".to_owned()]);
    attribute.add_attr("hidden", Vec::new());

    let text = attribute.to_html_string();
    assert_eq!(text, " class=\"btn active\" id=\"main\" hidden");

    let parsed = dilla_renderer::attrparse::parse_attr_list(&text).unwrap();
    assert_eq!(parsed, vec![
        ("class".to_owned(), vec!["btn".to_owned(), "active".to_owned()]),
        ("id".to_owned(), vec!["main".to_owned()]),
        ("hidden".to_owned(), Vec::new()),
    ]);
}

#[test]
fn test_heuristic_raw_markup_predicate() {
    assert!(dilla_renderer::engine::looks_like_attribute_text("<a class=\"x\">"));
    assert!(dilla_renderer::engine::looks_like_attribute_text("id=\"y\""));
    assert!(!dilla_renderer::engine::looks_like_attribute_text("plain words"));
}
