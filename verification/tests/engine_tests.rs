use dilla_renderer::engine::{
    clean_id, t, split, prepend, append, merge, has_attribute, has_class, set_attribute,
    add_class, remove_class, remove_attribute, generate_random_string,
};
use dilla_renderer::bubbable::Bubbable;
use dilla_renderer::definition::config;
use dilla_renderer::outside::parse_payload;
use dilla_renderer::value::{JsonValue, to_json_compact};

#[test]
fn test_clean_id_mixed_input() {
    assert_eq!(clean_id("A B_c-d[e]f  %$*#\u{20ac}  \u{e9}\u{e8}\u{e0} G____H"), "a-b-c-d-e-f-g-h");
}

#[test]
fn test_clean_id_plain() {
    assert_eq!(clean_id("Already-Clean"), "already-clean");
    assert_eq!(clean_id("x  y"), "x-y");
}

#[test]
fn test_translation_lookup() {
    // The dictionary is harvested by the bubbling pass, then drives the
    // translation helper.
    let def = config();
    let payload = parse_payload("{\"@trans\":{\"Foo\":\"Baguette\",\"Foo2\":\"Second\"}}").unwrap();
    let mut bubbable = Bubbable::new();
    bubbable.collect(&payload, &def);
    let translation = bubbable.translation_pairs();

    assert_eq!(t("Foo", None, &translation), "Baguette");
    assert_eq!(t("Missing", None, &translation), "Missing");
}

#[test]
fn test_translation_first_wins() {
    let def = config();
    let payload = parse_payload(
        "[{\"@trans\":{\"Foo\":\"First\"}},{\"@trans\":{\"Foo\":\"Again\"}}]",
    )
    .unwrap();
    let mut bubbable = Bubbable::new();
    bubbable.collect(&payload, &def);
    let translation = bubbable.translation_pairs();
    assert_eq!(t("Foo", None, &translation), "First");
}

#[test]
fn test_translation_substitution() {
    let def = config();
    let payload = parse_payload(
        "{\"@trans\":{\"Hello @name!\":\"Bonjour @name!\"}}",
    )
    .unwrap();
    let mut bubbable = Bubbable::new();
    bubbable.collect(&payload, &def);
    let translation = bubbable.translation_pairs();
    let vars = parse_payload("{\"@name\":\"Bob\"}").unwrap();
    assert_eq!(t("Hello @name!", Some(&vars), &translation), "Bonjour Bob!");
}

#[test]
fn test_split_filter() {
    let value = JsonValue::Str("My__split__string".to_owned());
    let parts = split(&value, "__").unwrap();
    assert_eq!(parts, vec!["My".to_owned(), "split".to_owned(), "string".to_owned()]);

    let not_a_string = parse_payload("[1]").unwrap();
    assert!(split(&not_a_string, "_").is_none());
}

#[test]
fn test_prepend_and_append() {
    let one = JsonValue::Str("one".to_owned());
    let r = prepend(&one, "Some").unwrap();
    assert_eq!(to_json_compact(&r), "\"Someone\"");

    let some = JsonValue::Str("Some".to_owned());
    let tail = JsonValue::Str("one".to_owned());
    let r = append(&some, &tail).unwrap();
    assert_eq!(to_json_compact(&r), "\"Someone\"");

    let arr = parse_payload("[\"foo\",\"bar\"]").unwrap();
    let r = prepend(&arr, "lead").unwrap();
    assert_eq!(to_json_compact(&r), "[\"lead\",\"foo\",\"bar\"]");

    let r = append(&arr, &JsonValue::Str("end".to_owned())).unwrap();
    assert_eq!(to_json_compact(&r), "[\"foo\",\"bar\",\"end\"]");

    let num = parse_payload("7").unwrap();
    assert!(prepend(&num, "x").is_none());
}

#[test]
fn test_merge_asymmetry() {
    // A list merged over a single scalar puts the new values first and
    // appends the old value last.
    let a = parse_payload("{\"foo\":\"bar\"}").unwrap();
    let b = parse_payload("{\"foo\":[\"alpha\",\"beta\"]}").unwrap();
    let merged = merge(&a, &b).unwrap();
    assert_eq!(merged.get_attr("foo"), vec![
        "alpha".to_owned(),
        "beta".to_owned(),
        "bar".to_owned(),
    ]);
    assert_eq!(merged.to_html_string(), " foo=\"alpha beta bar\"");
}

#[test]
fn test_merge_fresh_key() {
    let a = parse_payload("{\"foo\":\"bar\"}").unwrap();
    let b = parse_payload("{\"wu\":\"tang\"}").unwrap();
    let merged = merge(&a, &b).unwrap();
    assert_eq!(merged.to_html_string(), " foo=\"bar\" wu=\"tang\"");
}

#[test]
fn test_has_attribute_filter() {
    let v = parse_payload("{\"data\":\"test\"}").unwrap();
    assert!(has_attribute(&v, "data"));
    assert!(!has_attribute(&v, "foo"));
    let s = JsonValue::Str("data".to_owned());
    assert!(!has_attribute(&s, "data"));
}

#[test]
fn test_has_class_filter() {
    let v = parse_payload("{\"data\":\"test\"}").unwrap();
    assert!(!has_class(&v, "bar"));
    let v2 = parse_payload("{\"data\":\"test\",\"class\":\"foo\"}").unwrap();
    assert!(has_class(&v2, "foo"));
    let v3 = parse_payload("{\"class\":[\"a\",\"b\"]}").unwrap();
    assert!(has_class(&v3, "b"));
}

#[test]
fn test_set_attribute_on_plain_map() {
    let v = parse_payload("{\"id\":\"foo\"}").unwrap();
    let r = set_attribute(&v, "href", Some(&JsonValue::Str("bar".to_owned())));
    assert_eq!(to_json_compact(&r), "{\"id\":[\"foo\"],\"href\":[\"bar\"]}");
}

#[test]
fn test_set_attribute_on_element() {
    let v = parse_payload("{\"@element\":\"a\"}").unwrap();
    let r = set_attribute(&v, "href", Some(&JsonValue::Str("x".to_owned())));
    assert_eq!(to_json_compact(&r), "{\"@element\":\"a\",\"href\":\"x\"}");
}

#[test]
fn test_add_class_on_element_node() {
    let v = parse_payload("{\"@element\":\"div\",\"class\":\"bar\"}").unwrap();
    let r = add_class(&v, &JsonValue::Str("foo".to_owned()));
    assert_eq!(to_json_compact(&r), "{\"@element\":\"div\",\"class\":[\"bar\",\"foo\"]}");
}

#[test]
fn test_add_class_on_plain_map() {
    let v = parse_payload("{\"data\":\"test\"}").unwrap();
    let r = add_class(&v, &JsonValue::Str("bar".to_owned()));
    assert_eq!(to_json_compact(&r), "{\"data\":[\"test\"],\"class\":[\"bar\"]}");
}

#[test]
fn test_remove_class_filter() {
    let v = parse_payload("{\"data\":\"test\",\"class\":[\"foo\",\"bar\"]}").unwrap();
    let r = remove_class(&v, "foo");
    assert_eq!(to_json_compact(&r), "{\"class\":[\"bar\"],\"data\":[\"test\"]}");
}

#[test]
fn test_remove_attribute_filter() {
    let v = parse_payload("{\"id\":\"test\",\"data\":\"keep\"}").unwrap();
    let r = remove_attribute(&v, "id");
    assert_eq!(to_json_compact(&r), "{\"data\":[\"keep\"]}");
}

#[test]
fn test_random_placeholder() {
    assert_eq!(generate_random_string(), "no-random");
}


#[test]
fn test_merge_scalar_keeps_existing_after_new() {
    // A scalar merged onto an existing single-valued attribute puts the
    // new value first and the existing value after it.
    let a = parse_payload("{\"foo\":\"bar\"}").unwrap();
    let b = parse_payload("{\"foo\":\"baz\"}").unwrap();
    let merged = merge(&a, &b).unwrap();
    assert_eq!(merged.get_attr("foo"), vec!["baz".to_owned(), "bar".to_owned()]);
}

#[test]
fn test_merge_passes_non_map_through() {
    // Merge does nothing unless both operands are map values: the caller
    // keeps its first operand unchanged.
    let a = JsonValue::Str("keep".to_owned());
    let b = parse_payload("{\"x\":\"y\"}").unwrap();
    assert!(merge(&a, &b).is_none());
    assert!(merge(&b, &a).is_none());
}

#[test]
fn test_set_attribute_on_list_keeps_every_member() {
    // Applied element-wise: nodes gain the attribute, anything else is
    // kept unchanged in place.
    let v = parse_payload("[{\"@element\":\"a\"},7,\"txt\"]").unwrap();
    let r = set_attribute(&v, "href", Some(&JsonValue::Str("x".to_owned())));
    assert_eq!(
        to_json_compact(&r),
        "[{\"@element\":\"a\",\"href\":\"x\"},7,\"txt\"]"
    );
}
