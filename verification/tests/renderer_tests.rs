use dilla_renderer::render;
use dilla_renderer::renderer::Renderer;
use dilla_renderer::definition::config;
use dilla_renderer::outside::parse_payload;

fn simple_trim(s: &str) -> String {
    s.replace('\n', "").replace("  ", "")
}

#[test]
fn test_full_output() {
    let def = config();
    let mut renderer = Renderer::new();
    let json_input = parse_payload(
        "[{\"@element\":\"span\",\"@content\":\"Hello, world!\"},{\"@attached\":[{\"@element\":\"meta\",\"name\":\"test\"}]}]",
    )
    .unwrap();

    renderer.render(&json_input, &def);
    let output = renderer.to_output_string("full");

    let expected = "<!DOCTYPE html><html><head><meta name=\"test\" /><link type=\"text/css\" rel=\"stylesheet\" href=\"default-1.css\" crossorigin=\"anonymous\"><link type=\"text/css\" rel=\"stylesheet\" href=\"default-2.css\" crossorigin=\"anonymous\"></head><body><span>Hello, world!</span><script src=\"default-1.js\" async=\"true\"></script><script src=\"default-2.js\" async=\"true\"></script></body></html>";

    assert_eq!(simple_trim(expected), simple_trim(&output));
}

#[test]
fn test_json_output() {
    let def = config();
    let mut renderer = Renderer::new();
    let json_input = parse_payload(
        "[{\"@element\":\"span\",\"@content\":\"Hello, world!\"},{\"@attached\":[{\"@element\":\"meta\",\"name\":\"test\"}]}]",
    )
    .unwrap();

    renderer.render(&json_input, &def);
    let output = renderer.to_output_string("json");

    let expected: serde_json::Value = serde_json::from_str(
        "{\"attached\": \"\\n<meta name=\\\"test\\\" />\\n\",\
          \"body\": \"\\n<span>\\nHello, world!</span>\\n\",\
          \"system_stylesheet\": \"\\n<link type=\\\"text/css\\\" rel=\\\"stylesheet\\\" href=\\\"default-1.css\\\" crossorigin=\\\"anonymous\\\">\\n<link type=\\\"text/css\\\" rel=\\\"stylesheet\\\" href=\\\"default-2.css\\\" crossorigin=\\\"anonymous\\\">\",\
          \"system_javascript\": {\"default-1.js\": {\"async\": \"true\"}, \"default-2.js\": {\"async\": \"true\"}},\
          \"stylesheet\": \"\\n\",\
          \"javascript\": {},\
          \"variables\": \"\"}",
    )
    .unwrap();
    let output_value: serde_json::Value = serde_json::from_str(&output).unwrap();
    assert_eq!(expected, output_value);
}

#[test]
fn test_all() {
    // The render entry point over several payloads and formats in turn.
    let simple = render("{\"@element\":\"foo\",\"@content\":\"bar\"}", "_test").unwrap();
    assert_eq!(simple_trim(&simple), "<foo>bar</foo>");

    let void_el = render("{\"@element\":\"img\"}", "_test").unwrap();
    assert!(void_el.contains("<img />"));
    assert!(!void_el.contains("</img>"));

    let escaped = render("[\"a < b\"]", "_test").unwrap();
    assert!(escaped.contains("a &lt; b"));

    let full = render(
        "[{\"@element\":\"span\",\"@content\":\"Hello, world!\"},{\"@attached\":[{\"@element\":\"meta\",\"name\":\"test\"}]}]",
        "full",
    )
    .unwrap();
    let full_n = simple_trim(&full);
    assert!(full_n.contains("<meta name=\"test\" />"));
    assert!(full_n.contains("<span>Hello, world!</span>"));
    assert!(full_n.contains("default-1.css"));
    assert!(full_n.contains("default-2.js"));

    let logs = render("{}", "_logs").unwrap();
    assert_eq!(logs, "");

    let unknown = render("{}", "nope").unwrap();
    assert_eq!(unknown, "<!-- Unknown output: nope -->");
}

#[test]
fn test_element_self_closing() {
    // A void element renders self-closing, with no closing tag.
    let out = render("{\"@element\":\"img\",\"src\":\"a.png\"}", "_test").unwrap();
    assert!(out.contains("/>"));
    assert!(!out.contains("</img>"));
    assert!(out.contains(" src=\"a.png\""));
}

#[test]
fn test_simple_element_exact() {
    let out = render("{\"@element\":\"foo\",\"@content\":\"bar\"}", "_test").unwrap();
    assert_eq!(simple_trim(&out), "<foo>bar</foo>");
}

#[test]
fn test_invalid_payload_is_error() {
    let r = render("{not json", "_test");
    assert!(r.is_err());
    assert_eq!(r.err().unwrap().message(), "invalid payload JSON");
}

#[test]
fn test_render_twice_is_identical() {
    let payload = "[{\"@element\":\"span\",\"@content\":\"x\"},{\"@variables\":{\".a\":{\"var-1\":\"#fff\"}}}]";
    let first = render(payload, "_test_full").unwrap();
    let second = render(payload, "_test_full").unwrap();
    assert_eq!(first, second);
}

#[test]
fn test_variables_render_into_style() {
    let payload = "{\"@variables\":{\":root\":{\"var-1\":\"#101010\",\"nope\":\"#fff\"}}}";
    let out = render(payload, "_test_full").unwrap();
    assert!(out.contains(":root {"));
    assert!(out.contains("--var-1: #101010;"));
    assert!(!out.contains("nope"));
}

#[test]
fn test_library_assets_bubble() {
    let payload = "{\"@library\":{\"css\":{\"x.css\":{\"media\":\"screen\"}},\"js\":{\"x.js\":{\"defer\":\"true\"}}}}";
    let out = render(payload, "_test_full").unwrap();
    assert!(out.contains("<link type=\"text/css\" rel=\"stylesheet\" href=\"x.css\" media=\"screen\" />"));
    assert!(out.contains("<script src=\"x.js\" defer=\"true\"></script>"));
}

#[test]
fn test_component_library_dependencies_order() {
    // The component's declared dependencies come before its own assets.
    let payload = "{\"@component\":\"test_with_library\"}";
    let out = render(payload, "_test_full").unwrap();
    let dep = out.find("test.dependency-1.js").unwrap();
    let own = out.find("component-library-1.js").unwrap();
    assert!(dep < own);
}

#[test]
fn test_component_without_template_is_diagnosed() {
    let out = render("{\"@component\":\"test_min\"}", "_test").unwrap();
    assert!(out.contains("<!-- [Error] component: test_min, template not found: test_min -->"));
}

#[test]
fn test_unknown_node_contributes_nothing() {
    let out = render("{\"plain\":\"field\"}", "_test").unwrap();
    assert_eq!(simple_trim(&out), "");
}

#[test]
fn test_scoped_styles_and_theme() {
    let payload = "{\"@element\":\"div\",\"@styles\":[\"style-1\",\"style-2\"],\"@theme\":\"dark\"}";
    let out = render(payload, "_test").unwrap();
    assert!(out.contains("class=\"style-1 style-2\""));
    assert!(out.contains("data-bs-theme=\"dark\""));
}

#[test]
fn test_theme_class_variant() {
    let payload = "{\"@element\":\"div\",\"@theme\":\"dark-class\"}";
    let out = render(payload, "_test").unwrap();
    assert!(out.contains("class=\"dark\""));
}

#[test]
fn test_local_variables_become_style() {
    let payload = "{\"@element\":\"div\",\"@local_variables\":{\"var-1\":\"#222\",\"var-2\":\"#333\"}}";
    let out = render(payload, "_test").unwrap();
    assert!(out.contains("style=\"--var-1: #222; --var-2: #333;\""));
}


#[test]
fn test_format_value_policy() {
    // A renderable-shaped value re-enters the pipeline; a plain map reads
    // as attributes; markup-looking text passes raw; other text is escaped.
    let def = config();
    let node = parse_payload("{\"@element\":\"b\",\"@content\":\"x\"}").unwrap();
    let rendered = dilla_renderer::renderer::format_value(&node, &def);
    assert_eq!(rendered.replace('\n', ""), "<b>x</b>");

    let plain = parse_payload("{\"data\":\"v\"}").unwrap();
    assert_eq!(dilla_renderer::renderer::format_value(&plain, &def), " data=\"v\"");

    let raw = dilla_renderer::value::JsonValue::Str("<i class=\"x\">".to_owned());
    assert_eq!(dilla_renderer::renderer::format_value(&raw, &def), "<i class=\"x\">");

    let text = dilla_renderer::value::JsonValue::Str("a < b".to_owned());
    assert_eq!(dilla_renderer::renderer::format_value(&text, &def), "a &lt; b");
}


#[test]
fn test_component_template_runs() {
    // A design system with one template: the component node resolves to it
    // and the engine executes it over the node's fields.
    let mut def = config();
    def.templates.push(("hello".to_owned(), "Hello {{ name }}!".to_owned()));
    let payload = parse_payload("{\"@component\":\"hello\",\"name\":\"World\"}").unwrap();
    let out = dilla_renderer::render_value_with_definition(&payload, "_test", &def);
    assert!(out.contains("Hello World!"));
}

#[test]
fn test_component_variant_selects_template() {
    let mut def = config();
    def.templates.push(("other.variant".to_owned(), "V:{{ variant }}".to_owned()));
    let payload =
        parse_payload("{\"@component\":\"other\",\"@variant\":\"variant\"}").unwrap();
    let out = dilla_renderer::render_value_with_definition(&payload, "_test", &def);
    assert!(out.contains("V:variant"));
}

#[test]
fn test_inline_template_runs() {
    let def = config();
    let payload = parse_payload("{\"@template\":\"[{{ x }}]\",\"x\":\"y\"}").unwrap();
    let out = dilla_renderer::render_value_with_definition(&payload, "_test", &def);
    assert!(out.contains("[y]"));
}

#[test]
fn test_translation_reaches_templates() {
    // The gathered dictionary rides along in the template context.
    let mut def = config();
    def.templates.push(
        ("greet".to_owned(), "{{ _translation[\"Foo\"] }}".to_owned()),
    );
    let payload = parse_payload(
        "[{\"@trans\":{\"Foo\":\"Baguette\"}},{\"@component\":\"greet\"}]",
    )
    .unwrap();
    let out = dilla_renderer::render_value_with_definition(&payload, "_test", &def);
    assert!(out.contains("Baguette"));
}


#[test]
fn test_template_filter_t_runs_in_pipeline() {
    // A template that uses the translation filter renders through the
    // engine with the gathered dictionary applied.
    let mut def = config();
    def.templates.push(("greeting".to_owned(), "{{ 'Foo'|t }}".to_owned()));
    let payload = parse_payload(
        "[{\"@trans\":{\"Foo\":\"Baguette\"}},{\"@component\":\"greeting\"}]",
    )
    .unwrap();
    let out = dilla_renderer::render_value_with_definition(&payload, "_test", &def);
    assert!(out.contains("Baguette"));
    assert!(!out.contains("[Error]"));
}

#[test]
fn test_template_clean_id_filter_runs() {
    let mut def = config();
    def.templates.push(("anchor".to_owned(), "id=\"{{ label|clean_id }}\"".to_owned()));
    let payload = parse_payload(
        "{\"@component\":\"anchor\",\"label\":\"A B_c\"}",
    )
    .unwrap();
    let out = dilla_renderer::render_value_with_definition(&payload, "_test", &def);
    assert!(out.contains("id=\"a-b-c\""));
}

#[test]
fn test_template_formatter_reenters_pipeline() {
    // Interpolating a renderable-shaped field re-enters the render
    // pipeline instead of printing the raw map.
    let mut def = config();
    def.templates.push(("wrapper".to_owned(), "<div>{{ item }}</div>".to_owned()));
    let payload = parse_payload(
        "{\"@component\":\"wrapper\",\"item\":{\"@element\":\"b\",\"@content\":\"x\"}}",
    )
    .unwrap();
    let out = dilla_renderer::render_value_with_definition(&payload, "_test", &def);
    assert!(simple_trim(&out).contains("<b>x</b>"));
}

#[test]
fn test_template_includes_design_system_templates() {
    let mut def = config();
    def.templates.push(("inner".to_owned(), "[inner]".to_owned()));
    def.templates.push(("outer".to_owned(), "<p>{% include 'inner' %}</p>".to_owned()));
    let payload = parse_payload("{\"@component\":\"outer\"}").unwrap();
    let out = dilla_renderer::render_value_with_definition(&payload, "_test", &def);
    assert!(out.contains("<p>[inner]</p>"));
}
