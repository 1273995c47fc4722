use vstd::prelude::*;

verus! {

use vstd::string::StringExecFns;

/// One theme of the design system: where it applies, which attribute it
/// sets, and the value it sets it to.
#[derive(Clone)]
pub struct Theme {
    pub target: String,
    pub key: String,
    pub val: String,
}

/// A script asset: its url and its HTML attributes, in order.
#[derive(Clone)]
pub struct JsAsset {
    pub url: String,
    pub attrs: Vec<(String, String)>,
}

/// The design system definition: static, read-only tables describing the
/// components, libraries, variables, themes and raw template sources of one
/// design system.  It is built once and handed to the renderer by reference;
/// nothing mutates it at render time.
#[derive(Clone)]
pub struct Definition {
    pub design_system: String,
    /// Component name -> names of the variants that select a variant template.
    pub components_variant_template: Vec<(String, Vec<String>)>,
    /// Components that pull in library assets when they appear in a payload.
    pub components_with_library: Vec<String>,
    /// Component name -> library keys it depends on.
    pub components_library_dependencies: Vec<(String, Vec<String>)>,
    /// Component name -> ready-made stylesheet markup.
    pub components_library_css_html: Vec<(String, String)>,
    /// Component name -> script assets.
    pub components_library_js: Vec<(String, Vec<JsAsset>)>,
    /// Stylesheet markup that every render loads.
    pub default_libraries_css_html: String,
    /// Script assets that every render loads.
    pub default_libraries_js: Vec<JsAsset>,
    /// The keys of the libraries that a payload may name.
    pub libraries_keys: Vec<String>,
    /// Library key -> ready-made stylesheet markup.
    pub libraries_css_html: Vec<(String, String)>,
    /// Library key -> script assets.
    pub libraries_js: Vec<(String, Vec<JsAsset>)>,
    /// The style class names the design system declares.
    pub styles: Vec<String>,
    /// The CSS variable names the design system declares, with defaults.
    pub variables: Vec<(String, String)>,
    /// Theme name -> theme description.
    pub themes: Vec<(String, Theme)>,
    /// Template identifier -> raw template source.
    pub templates: Vec<(String, String)>,
}

fn js_asset(url: &str, attrs: Vec<(String, String)>) -> (r: JsAsset)
    ensures
        r.url@ == url@,
        r.attrs == attrs,
{
    JsAsset { url: url.to_owned(), attrs }
}

fn pair(k: &str, v: &str) -> (r: (String, String))
    ensures
        r.0@ == k@,
        r.1@ == v@,
{
    (k.to_owned(), v.to_owned())
}


/// The complete content of the built-in test design system, field by field
/// over the views of every table.
pub open spec fn spec_config(d: Definition) -> bool {
    d.design_system@ == "test"@
    // variant templates
    && d.components_variant_template@.len() == 1
    && d.components_variant_template@[0].0@ == "other"@
    && d.components_variant_template@[0].1@.len() == 2
    && d.components_variant_template@[0].1@[0]@ == "variant"@
    && d.components_variant_template@[0].1@[1]@ == "variant2"@
    // declared CSS variables
    && d.variables@.len() == 5
    && d.variables@[0].0@ == "var-1"@ && d.variables@[0].1@ == "#111111"@
    && d.variables@[1].0@ == "var-2"@ && d.variables@[1].1@ == "#222222"@
    && d.variables@[2].0@ == "var-3"@ && d.variables@[2].1@ == "#333333"@
    && d.variables@[3].0@ == "var-4"@ && d.variables@[3].1@ == "#444444"@
    && d.variables@[4].0@ == "var-5"@ && d.variables@[4].1@ == "#555555"@
    // themes
    && d.themes@.len() == 4
    && d.themes@[0].0@ == "dark"@ && d.themes@[0].1.target@ == ""@
    && d.themes@[0].1.key@ == "data-bs-theme"@ && d.themes@[0].1.val@ == "dark"@
    && d.themes@[1].0@ == "light"@ && d.themes@[1].1.target@ == ""@
    && d.themes@[1].1.key@ == "data-bs-theme"@ && d.themes@[1].1.val@ == "light"@
    && d.themes@[2].0@ == "dark-class"@ && d.themes@[2].1.target@ == ""@
    && d.themes@[2].1.key@ == "class"@ && d.themes@[2].1.val@ == "dark"@
    && d.themes@[3].0@ == "light-class"@ && d.themes@[3].1.target@ == ""@
    && d.themes@[3].1.key@ == "class"@ && d.themes@[3].1.val@ == "light"@
    // style class names
    && d.styles@.len() == 5
    && d.styles@[0]@ == "style-1"@ && d.styles@[1]@ == "style-2"@ && d.styles@[2]@ == "style-3"@
    && d.styles@[3]@ == "style-4"@ && d.styles@[4]@ == "style-5"@
    // library keys
    && d.libraries_keys@.len() == 2
    && d.libraries_keys@[0]@ == "test/test.dependency"@
    && d.libraries_keys@[1]@ == "test/test.dependency-payload"@
    // always-loaded assets
    && d.default_libraries_css_html@ ==
        "<link type=\"text/css\" rel=\"stylesheet\" href=\"default-1.css\" crossorigin=\"anonymous\">"@
        + "\n"@
        + "<link type=\"text/css\" rel=\"stylesheet\" href=\"default-2.css\" crossorigin=\"anonymous\">"@
    && d.default_libraries_js@.len() == 2
    && d.default_libraries_js@[0].url@ == "default-1.js"@
    && d.default_libraries_js@[0].attrs@.len() == 1
    && d.default_libraries_js@[0].attrs@[0].0@ == "async"@
    && d.default_libraries_js@[0].attrs@[0].1@ == "true"@
    && d.default_libraries_js@[1].url@ == "default-2.js"@
    && d.default_libraries_js@[1].attrs@.len() == 1
    && d.default_libraries_js@[1].attrs@[0].0@ == "async"@
    && d.default_libraries_js@[1].attrs@[0].1@ == "true"@
    // library stylesheets
    && d.libraries_css_html@.len() == 2
    && d.libraries_css_html@[0].0@ == "test/test.dependency"@
    && d.libraries_css_html@[0].1@ ==
        "<link type=\"text/css\" rel=\"stylesheet\" href=\"test.dependency-1.css\" media=\"screen\">"@
        + "\n"@
        + "<link type=\"text/css\" rel=\"stylesheet\" href=\"test.dependency-2.css\" crossorigin=\"anonymous\">"@
    && d.libraries_css_html@[1].0@ == "test/test.dependency-payload"@
    && d.libraries_css_html@[1].1@ ==
        "<link type=\"text/css\" rel=\"stylesheet\" href=\"test.dependency-payload.css\">"@
    // library scripts
    && d.libraries_js@.len() == 2
    && d.libraries_js@[0].0@ == "test/test.dependency"@
    && d.libraries_js@[0].1@.len() == 2
    && d.libraries_js@[0].1@[0].url@ == "test.dependency-1.js"@
    && d.libraries_js@[0].1@[0].attrs@.len() == 1
    && d.libraries_js@[0].1@[0].attrs@[0].0@ == "async"@
    && d.libraries_js@[0].1@[0].attrs@[0].1@ == "true"@
    && d.libraries_js@[0].1@[1].url@ == "test.dependency-2.js"@
    && d.libraries_js@[0].1@[1].attrs@.len() == 1
    && d.libraries_js@[0].1@[1].attrs@[0].0@ == "defer"@
    && d.libraries_js@[0].1@[1].attrs@[0].1@ == "true"@
    && d.libraries_js@[1].0@ == "test/test.dependency-payload"@
    && d.libraries_js@[1].1@.len() == 1
    && d.libraries_js@[1].1@[0].url@ == "test.dependency-payload.js"@
    && d.libraries_js@[1].1@[0].attrs@.len() == 1
    && d.libraries_js@[1].1@[0].attrs@[0].0@ == "async"@
    && d.libraries_js@[1].1@[0].attrs@[0].1@ == "true"@
    // components carrying libraries
    && d.components_with_library@.len() == 3
    && d.components_with_library@[0]@ == "test_with_library"@
    && d.components_with_library@[1]@ == "other"@
    && d.components_with_library@[2]@ == "other.variant"@
    && d.components_library_dependencies@.len() == 1
    && d.components_library_dependencies@[0].0@ == "test_with_library"@
    && d.components_library_dependencies@[0].1@.len() == 1
    && d.components_library_dependencies@[0].1@[0]@ == "test/test.dependency"@
    && d.components_library_css_html@.len() == 2
    && d.components_library_css_html@[0].0@ == "test_with_library"@
    && d.components_library_css_html@[0].1@ ==
        "<link type=\"text/css\" rel=\"stylesheet\" href=\"component-library-1.css\" media=\"screen\">"@
        + "\n"@
        + "<link type=\"text/css\" rel=\"stylesheet\" href=\"component-library-2.css\" media=\"screen\">"@
    && d.components_library_css_html@[1].0@ == "other"@
    && d.components_library_css_html@[1].1@ ==
        "<link type=\"text/css\" rel=\"stylesheet\" href=\"component-library-other.css\" media=\"screen\">"@
    && d.components_library_js@.len() == 2
    && d.components_library_js@[0].0@ == "test_with_library"@
    && d.components_library_js@[0].1@.len() == 2
    && d.components_library_js@[0].1@[0].url@ == "component-library-1.js"@
    && d.components_library_js@[0].1@[0].attrs@.len() == 1
    && d.components_library_js@[0].1@[0].attrs@[0].0@ == "async"@
    && d.components_library_js@[0].1@[0].attrs@[0].1@ == "true"@
    && d.components_library_js@[0].1@[1].url@ == "component-library-2.js"@
    && d.components_library_js@[0].1@[1].attrs@.len() == 1
    && d.components_library_js@[0].1@[1].attrs@[0].0@ == "defer"@
    && d.components_library_js@[0].1@[1].attrs@[0].1@ == "true"@
    && d.components_library_js@[1].0@ == "other.variant"@
    && d.components_library_js@[1].1@.len() == 1
    && d.components_library_js@[1].1@[0].url@ == "component-library-other.variant.js"@
    && d.components_library_js@[1].1@[0].attrs@.len() == 0
    // no raw template sources ship with the test system
    && d.templates@.len() == 0
}

/// The built-in test design system: the tables used when no other design
/// system is selected.
#[verifier::rlimit(100)]
pub fn config() -> (r: Definition)
    ensures
        spec_config(r),
{
    let mut components_variant_template: Vec<(String, Vec<String>)> = Vec::new();
    components_variant_template.push(
        ("other".to_owned(), vec!["variant".to_owned(), "variant2".to_owned()]),
    );

    let mut variables: Vec<(String, String)> = Vec::new();
    variables.push(pair("var-1", "#111111"));
    variables.push(pair("var-2", "#222222"));
    variables.push(pair("var-3", "#333333"));
    variables.push(pair("var-4", "#444444"));
    variables.push(pair("var-5", "#555555"));

    let mut themes: Vec<(String, Theme)> = Vec::new();
    themes.push(
        (
            "dark".to_owned(),
            Theme {
                target: "".to_owned(),
                key: "data-bs-theme".to_owned(),
                val: "dark".to_owned(),
            },
        ),
    );
    themes.push(
        (
            "light".to_owned(),
            Theme {
                target: "".to_owned(),
                key: "data-bs-theme".to_owned(),
                val: "light".to_owned(),
            },
        ),
    );
    themes.push(
        (
            "dark-class".to_owned(),
            Theme { target: "".to_owned(), key: "class".to_owned(), val: "dark".to_owned() },
        ),
    );
    themes.push(
        (
            "light-class".to_owned(),
            Theme { target: "".to_owned(), key: "class".to_owned(), val: "light".to_owned() },
        ),
    );

    let styles: Vec<String> = vec![
        "style-1".to_owned(),
        "style-2".to_owned(),
        "style-3".to_owned(),
        "style-4".to_owned(),
        "style-5".to_owned(),
    ];

    let libraries_keys: Vec<String> = vec![
        "test/test.dependency".to_owned(),
        "test/test.dependency-payload".to_owned(),
    ];

    let mut default_libraries_js: Vec<JsAsset> = Vec::new();
    default_libraries_js.push(js_asset("default-1.js", vec![pair("async", "true")]));
    default_libraries_js.push(js_asset("default-2.js", vec![pair("async", "true")]));

    let default_libraries_css_html: String = concat_lines(
        "<link type=\"text/css\" rel=\"stylesheet\" href=\"default-1.css\" crossorigin=\"anonymous\">",
        "<link type=\"text/css\" rel=\"stylesheet\" href=\"default-2.css\" crossorigin=\"anonymous\">",
    );

    let mut libraries_css_html: Vec<(String, String)> = Vec::new();
    libraries_css_html.push(
        (
            "test/test.dependency".to_owned(),
            concat_lines(
                "<link type=\"text/css\" rel=\"stylesheet\" href=\"test.dependency-1.css\" media=\"screen\">",
                "<link type=\"text/css\" rel=\"stylesheet\" href=\"test.dependency-2.css\" crossorigin=\"anonymous\">",
            ),
        ),
    );
    libraries_css_html.push(
        (
            "test/test.dependency-payload".to_owned(),
            "<link type=\"text/css\" rel=\"stylesheet\" href=\"test.dependency-payload.css\">".to_owned(),
        ),
    );

    let mut libraries_js: Vec<(String, Vec<JsAsset>)> = Vec::new();
    libraries_js.push(
        (
            "test/test.dependency".to_owned(),
            vec![
                js_asset("test.dependency-1.js", vec![pair("async", "true")]),
                js_asset("test.dependency-2.js", vec![pair("defer", "true")]),
            ],
        ),
    );
    libraries_js.push(
        (
            "test/test.dependency-payload".to_owned(),
            vec![js_asset("test.dependency-payload.js", vec![pair("async", "true")])],
        ),
    );

    let components_with_library: Vec<String> = vec![
        "test_with_library".to_owned(),
        "other".to_owned(),
        "other.variant".to_owned(),
    ];

    let mut components_library_dependencies: Vec<(String, Vec<String>)> = Vec::new();
    components_library_dependencies.push(
        ("test_with_library".to_owned(), vec!["test/test.dependency".to_owned()]),
    );

    let mut components_library_css_html: Vec<(String, String)> = Vec::new();
    components_library_css_html.push(
        (
            "test_with_library".to_owned(),
            concat_lines(
                "<link type=\"text/css\" rel=\"stylesheet\" href=\"component-library-1.css\" media=\"screen\">",
                "<link type=\"text/css\" rel=\"stylesheet\" href=\"component-library-2.css\" media=\"screen\">",
            ),
        ),
    );
    components_library_css_html.push(
        (
            "other".to_owned(),
            "<link type=\"text/css\" rel=\"stylesheet\" href=\"component-library-other.css\" media=\"screen\">".to_owned(),
        ),
    );

    let mut components_library_js: Vec<(String, Vec<JsAsset>)> = Vec::new();
    components_library_js.push(
        (
            "test_with_library".to_owned(),
            vec![
                js_asset("component-library-1.js", vec![pair("async", "true")]),
                js_asset("component-library-2.js", vec![pair("defer", "true")]),
            ],
        ),
    );
    components_library_js.push(
        (
            "other.variant".to_owned(),
            vec![js_asset("component-library-other.variant.js", Vec::new())],
        ),
    );

    let templates: Vec<(String, String)> = Vec::new();

    Definition {
        design_system: "test".to_owned(),
        components_variant_template,
        components_with_library,
        components_library_dependencies,
        components_library_css_html,
        components_library_js,
        default_libraries_css_html,
        default_libraries_js,
        libraries_keys,
        libraries_css_html,
        libraries_js,
        styles,
        variables,
        themes,
        templates,
    }
}

fn concat_lines(a: &str, b: &str) -> (r: String)
    ensures
        r@ == a@ + "\n"@ + b@,
{
    let mut out: String = a.to_owned();
    crate::strutil::push_char(&mut out, '\n');
    out.append(b);
    proof {
        reveal_strlit("\n");
        assert(a@ + "\n"@ + b@ =~= a@.push('\n') + b@);
    }
    out
}

} // verus!
