use vstd::prelude::*;

verus! {

use vstd::string::StringExecFns;
use crate::strutil::{push_char, str_eq, spec_join, join_strings, spec_html_escape, html_escape};
use crate::value::{
    JsonValue, JsonView, JsonMap, jv_view, jv_view_seq, jv_view_entries, jm_contains, jm_get,
    jm_index_of, group_jv_view, jv_copy, jm_copy_entries, jv_size, jv_size_seq, jv_size_entries,
    lemma_jv_size_seq_elem, lemma_jv_size_entries_elem, lemma_jm_index_of, spec_json_compact,
    to_json_compact,
};
use crate::assoc::{strs_view, kvs_view, skey_contains, skey_get, assoc_get, group_views};
use crate::definition::{Definition, JsAsset};
use crate::bubbable::{
    Bubbable, BubView, spec_collect, spec_variables_style, spec_js_attrs, kv_index_of, kv_contains,
    lemma_kv_index_of, lemma_kv_index_of_is, group_bub_views,
};
use crate::renderable::{
    Renderable, RenderableType, spec_renderable_type, spec_element_tag, spec_element_attrs,
    spec_render_element, spec_script_html, spec_non_directive, Html,
};
use crate::attribute::{Attribute, spec_attr_json, spec_build_scoped, spec_build_attributes};
use crate::outside::{jinja_render_full, template_output_full_of};

// ---------------------------------------------------------------------------
// The assembled output of one render.
// ---------------------------------------------------------------------------

/// The abstract state of the output under assembly.
#[verifier::ext_equal]
pub struct WrapView {
    pub body: Seq<char>,
    pub head: Seq<char>,
    pub style: Seq<char>,
    pub system_stylesheet: Seq<char>,
    pub system_javascript_src: Seq<(Seq<char>, JsonView)>,
    pub stylesheet: Seq<char>,
    pub javascript_src: Seq<(Seq<char>, JsonView)>,
    pub system_javascript: Seq<char>,
    pub javascript: Seq<char>,
}

/// The parts of one render: body and head markup, inline style text, and
/// the stylesheet and script manifests, split between the design system's
/// own assets and those the payload pulled in.
pub struct RendererWrapper {
    pub body: String,
    pub head: String,
    pub style: String,
    pub system_stylesheet: String,
    pub system_javascript_src: Vec<(String, JsonValue)>,
    pub stylesheet: String,
    pub javascript_src: Vec<(String, JsonValue)>,
    pub system_javascript: String,
    pub javascript: String,
}

impl View for RendererWrapper {
    type V = WrapView;

    open spec fn view(&self) -> WrapView {
        WrapView {
            body: self.body@,
            head: self.head@,
            style: self.style@,
            system_stylesheet: self.system_stylesheet@,
            system_javascript_src: jv_view_entries(self.system_javascript_src@),
            stylesheet: self.stylesheet@,
            javascript_src: jv_view_entries(self.javascript_src@),
            system_javascript: self.system_javascript@,
            javascript: self.javascript@,
        }
    }
}

/// A line added to a buffer: a line break, then the text.
pub open spec fn spec_add_line(buf: Seq<char>, s: Seq<char>) -> Seq<char> {
    buf + "\n"@ + s
}

impl RendererWrapper {
    pub fn new() -> (r: RendererWrapper)
        ensures
            r@ =~= (WrapView {
                body: Seq::empty(),
                head: Seq::empty(),
                style: Seq::empty(),
                system_stylesheet: Seq::empty(),
                system_javascript_src: Seq::empty(),
                stylesheet: Seq::empty(),
                javascript_src: Seq::empty(),
                system_javascript: Seq::empty(),
                javascript: Seq::empty(),
            }),
    {
        RendererWrapper {
            body: String::new(),
            head: String::new(),
            style: String::new(),
            system_stylesheet: String::new(),
            system_javascript_src: Vec::new(),
            stylesheet: String::new(),
            javascript_src: Vec::new(),
            system_javascript: String::new(),
            javascript: String::new(),
        }
    }

    pub fn add_body(&mut self, s: &str)
        ensures
            final(self)@ == (WrapView { body: spec_add_line(old(self)@.body, s@), ..old(self)@ }),
    {
        self.body.append("\n");
        self.body.append(s);
        proof {
            assert(self@ =~= (WrapView { body: spec_add_line(old(self)@.body, s@), ..old(self)@ }));
        }
    }

    pub fn add_head(&mut self, s: &str)
        ensures
            final(self)@ == (WrapView { head: spec_add_line(old(self)@.head, s@), ..old(self)@ }),
    {
        self.head.append("\n");
        self.head.append(s);
        proof {
            assert(self@ =~= (WrapView { head: spec_add_line(old(self)@.head, s@), ..old(self)@ }));
        }
    }

    pub fn add_style(&mut self, s: &str)
        ensures
            final(self)@ == (WrapView { style: spec_add_line(old(self)@.style, s@), ..old(self)@ }),
    {
        self.style.append("\n");
        self.style.append(s);
        proof {
            assert(self@ =~= (WrapView {
                style: spec_add_line(old(self)@.style, s@),
                ..old(self)@
            }));
        }
    }

    pub fn add_system_stylesheet(&mut self, s: &str)
        ensures
            final(self)@ == (WrapView {
                system_stylesheet: spec_add_line(old(self)@.system_stylesheet, s@),
                ..old(self)@
            }),
    {
        self.system_stylesheet.append("\n");
        self.system_stylesheet.append(s);
        proof {
            assert(self@ =~= (WrapView {
                system_stylesheet: spec_add_line(old(self)@.system_stylesheet, s@),
                ..old(self)@
            }));
        }
    }

    pub fn add_system_javascript(&mut self, s: &str)
        ensures
            final(self)@ == (WrapView {
                system_javascript: spec_add_line(old(self)@.system_javascript, s@),
                ..old(self)@
            }),
    {
        self.system_javascript.append("\n");
        self.system_javascript.append(s);
        proof {
            assert(self@ =~= (WrapView {
                system_javascript: spec_add_line(old(self)@.system_javascript, s@),
                ..old(self)@
            }));
        }
    }

    pub fn add_stylesheet(&mut self, s: &str)
        ensures
            final(self)@ == (WrapView {
                stylesheet: spec_add_line(old(self)@.stylesheet, s@),
                ..old(self)@
            }),
    {
        self.stylesheet.append("\n");
        self.stylesheet.append(s);
        proof {
            assert(self@ =~= (WrapView {
                stylesheet: spec_add_line(old(self)@.stylesheet, s@),
                ..old(self)@
            }));
        }
    }

    pub fn add_javascript(&mut self, s: &str)
        ensures
            final(self)@ == (WrapView {
                javascript: spec_add_line(old(self)@.javascript, s@),
                ..old(self)@
            }),
    {
        self.javascript.append("\n");
        self.javascript.append(s);
        proof {
            assert(self@ =~= (WrapView {
                javascript: spec_add_line(old(self)@.javascript, s@),
                ..old(self)@
            }));
        }
    }

    pub fn add_system_javascript_src(&mut self, url: &str, data: JsonValue)
        ensures
            final(self)@ == (WrapView {
                system_javascript_src: spec_src_add(
                    old(self)@.system_javascript_src,
                    url@,
                    jv_view(data),
                ),
                ..old(self)@
            }),
    {
        broadcast use group_jv_view;

        let ghost pre = jv_view_entries(self.system_javascript_src@);
        proof {
            lemma_kv_index_of(pre, url@);
        }
        let mut i: usize = 0;
        while i < self.system_javascript_src.len()
            invariant
                i <= self.system_javascript_src@.len(),
                pre == jv_view_entries(self.system_javascript_src@),
                forall|j: int| 0 <= j < i ==> pre[j].0 != url@,
                self.body == old(self).body,
                self.head == old(self).head,
                self.style == old(self).style,
                self.system_stylesheet == old(self).system_stylesheet,
                self.stylesheet == old(self).stylesheet,
                self.javascript_src == old(self).javascript_src,
                self.system_javascript == old(self).system_javascript,
                self.javascript == old(self).javascript,
                self.system_javascript_src == old(self).system_javascript_src,
            decreases self.system_javascript_src@.len() - i,
        {
            if str_eq(self.system_javascript_src[i].0.as_str(), url) {
                proof {
                    assert(pre[i as int].0 == url@);
                    lemma_kv_index_of_is(pre, url@, i as int);
                }
                let mut tmp: (String, JsonValue) = (String::new(), JsonValue::Null);
                core::mem::swap(&mut tmp, &mut self.system_javascript_src[i]);
                let ghost pre_vec = old(self).system_javascript_src@;
                tmp = (url.to_owned(), data);
                let ghost entry = tmp;
                core::mem::swap(&mut tmp, &mut self.system_javascript_src[i]);
                proof {
                    assert(self.system_javascript_src@ =~= pre_vec.update(i as int, entry));
                    assert(self@ =~= (WrapView {
                        system_javascript_src: spec_src_add(
                            old(self)@.system_javascript_src,
                            url@,
                            jv_view(data),
                        ),
                        ..old(self)@
                    }));
                }
                return ;
            }
            i = i + 1;
        }
        let ghost pre_vec = self.system_javascript_src@;
        self.system_javascript_src.push((url.to_owned(), data));
        proof {
            assert(self.system_javascript_src@.drop_last() =~= pre_vec);
            assert(self@ =~= (WrapView {
                system_javascript_src: spec_src_add(
                    old(self)@.system_javascript_src,
                    url@,
                    jv_view(data),
                ),
                ..old(self)@
            }));
        }
    }

    pub fn add_javascript_src(&mut self, url: &str, data: JsonValue)
        ensures
            final(self)@ == (WrapView {
                javascript_src: spec_src_add(old(self)@.javascript_src, url@, jv_view(data)),
                ..old(self)@
            }),
    {
        broadcast use group_jv_view;

        let ghost pre = jv_view_entries(self.javascript_src@);
        proof {
            lemma_kv_index_of(pre, url@);
        }
        let mut i: usize = 0;
        while i < self.javascript_src.len()
            invariant
                i <= self.javascript_src@.len(),
                pre == jv_view_entries(self.javascript_src@),
                forall|j: int| 0 <= j < i ==> pre[j].0 != url@,
                self.body == old(self).body,
                self.head == old(self).head,
                self.style == old(self).style,
                self.system_stylesheet == old(self).system_stylesheet,
                self.stylesheet == old(self).stylesheet,
                self.system_javascript_src == old(self).system_javascript_src,
                self.system_javascript == old(self).system_javascript,
                self.javascript == old(self).javascript,
                self.javascript_src == old(self).javascript_src,
            decreases self.javascript_src@.len() - i,
        {
            if str_eq(self.javascript_src[i].0.as_str(), url) {
                proof {
                    assert(pre[i as int].0 == url@);
                    lemma_kv_index_of_is(pre, url@, i as int);
                }
                let mut tmp: (String, JsonValue) = (String::new(), JsonValue::Null);
                core::mem::swap(&mut tmp, &mut self.javascript_src[i]);
                let ghost pre_vec = old(self).javascript_src@;
                tmp = (url.to_owned(), data);
                let ghost entry = tmp;
                core::mem::swap(&mut tmp, &mut self.javascript_src[i]);
                proof {
                    assert(self.javascript_src@ =~= pre_vec.update(i as int, entry));
                    assert(self@ =~= (WrapView {
                        javascript_src: spec_src_add(
                            old(self)@.javascript_src,
                            url@,
                            jv_view(data),
                        ),
                        ..old(self)@
                    }));
                }
                return ;
            }
            i = i + 1;
        }
        let ghost pre_vec = self.javascript_src@;
        self.javascript_src.push((url.to_owned(), data));
        proof {
            assert(self.javascript_src@.drop_last() =~= pre_vec);
            assert(self@ =~= (WrapView {
                javascript_src: spec_src_add(old(self)@.javascript_src, url@, jv_view(data)),
                ..old(self)@
            }));
        }
    }
}

/// A script manifest entry set: an existing url keeps its place and takes
/// the new data; a new url goes at the end.
pub open spec fn spec_src_add(
    s: Seq<(Seq<char>, JsonView)>,
    url: Seq<char>,
    v: JsonView,
) -> Seq<(Seq<char>, JsonView)> {
    if kv_contains(s, url) {
        s.update(kv_index_of(s, url), (url, v))
    } else {
        s.push((url, v))
    }
}

// ---------------------------------------------------------------------------
// The recursive walk.
// ---------------------------------------------------------------------------

/// The trimmed component name of a node.
pub open spec fn spec_component_name(d: Seq<(Seq<char>, JsonView)>) -> Seq<char> {
    if jm_contains(d, "@component"@) {
        match jm_get(d, "@component"@) {
            JsonView::Str(s) => if s.len() > 0 {
                crate::strutil::spec_trim(s)
            } else {
                Seq::empty()
            },
            _ => Seq::empty(),
        }
    } else {
        Seq::empty()
    }
}

/// The fields handed to a component template: the plain fields, with the
/// variant echoed when one is given.
pub open spec fn spec_component_fields0(d: Seq<(Seq<char>, JsonView)>) -> Seq<(Seq<char>, JsonView)> {
    if jm_contains(d, "@variant"@) {
        crate::value::spec_jm_insert(spec_non_directive(d), "variant"@, jm_get(d, "@variant"@))
    } else {
        spec_non_directive(d)
    }
}

/// The template identifier: name.variant when the design system declares
/// that variant for the component, else the name itself.
pub open spec fn spec_component_template_id(
    d: Seq<(Seq<char>, JsonView)>,
    name: Seq<char>,
    def: Definition,
) -> Seq<char> {
    if jm_contains(d, "@variant"@) {
        match jm_get(d, "@variant"@) {
            JsonView::Str(variant) => {
                if skey_contains(def.components_variant_template@, name) && crate::assoc::sset_contains(
                    skey_get(def.components_variant_template@, name)@,
                    variant,
                ) {
                    name + "."@ + variant
                } else {
                    name
                }
            },
            _ => name,
        }
    } else {
        name
    }
}

/// The attributes object a component's node carries: a reserved attributes
/// directive wins over a plain attributes field.
pub open spec fn spec_component_attrs(
    d: Seq<(Seq<char>, JsonView)>,
    def: Definition,
) -> Seq<(Seq<char>, Seq<Seq<char>>)> {
    let picked = if jm_contains(d, "@attributes"@) {
        jm_get(d, "@attributes"@)
    } else if jm_contains(d, "attributes"@) {
        jm_get(d, "attributes"@)
    } else {
        JsonView::Null
    };
    let base = spec_build_scoped(Seq::empty(), d, def.variables@, def.themes@);
    if picked is Null {
        base
    } else {
        spec_build_attributes(base, picked)
    }
}

/// The complete template fields of a component node.
pub open spec fn spec_component_fields(
    d: Seq<(Seq<char>, JsonView)>,
    def: Definition,
) -> Seq<(Seq<char>, JsonView)> {
    crate::value::spec_jm_insert(
        spec_component_fields0(d),
        "attributes"@,
        spec_attr_json(spec_component_attrs(d, def)),
    )
}

/// The translation dictionary as a payload object.
pub open spec fn spec_trans_json(tr: Seq<(Seq<char>, Seq<char>)>) -> Seq<(Seq<char>, JsonView)>
    decreases tr,
{
    if tr.len() == 0 {
        Seq::empty()
    } else {
        spec_trans_json(tr.drop_last()).push((tr.last().0, JsonView::Str(tr.last().1)))
    }
}

/// The JSON context text handed to the engine: the fields, then the
/// translation dictionary under its reserved key.
pub open spec fn spec_ctx_text(
    fields: Seq<(Seq<char>, JsonView)>,
    tr: Seq<(Seq<char>, Seq<char>)>,
) -> Seq<char> {
    spec_json_compact(
        JsonView::Object(fields.push(("_translation"@, JsonView::Object(spec_trans_json(tr))))),
    )
}

/// The diagnostic left in place of a component that could not render.
pub open spec fn spec_component_error(name: Seq<char>, tpl: Seq<char>, failed: bool) -> Seq<char> {
    if failed {
        "<!-- [Error] component: "@ + name + ", template render failed: "@ + tpl + " -->"@
    } else {
        "<!-- [Error] component: "@ + name + ", template not found: "@ + tpl + " -->"@
    }
}

/// What a component node renders to: its template executed over its fields
/// and the translations, or an inline diagnostic.
pub open spec fn spec_component_output(
    d: Seq<(Seq<char>, JsonView)>,
    tr: Seq<(Seq<char>, Seq<char>)>,
    def: Definition,
) -> Seq<char> {
    let name = spec_component_name(d);
    let tpl = spec_component_template_id(d, name, def);
    let ctx = spec_ctx_text(spec_component_fields(d, def), tr);
    if skey_contains(def.templates@, tpl) {
        match template_output_full_of(skey_get(def.templates@, tpl)@, ctx, tr, def) {
            Some(s) => s,
            None => spec_component_error(name, tpl, true),
        }
    } else {
        spec_component_error(name, tpl, false)
    }
}

/// The inline template source of a node.
pub open spec fn spec_template_source(d: Seq<(Seq<char>, JsonView)>) -> Seq<char> {
    if jm_contains(d, "@template"@) {
        match jm_get(d, "@template"@) {
            JsonView::Str(s) => s,
            _ => Seq::empty(),
        }
    } else {
        Seq::empty()
    }
}

/// What an inline template node renders to: its source executed over the
/// node's whole data and the translations, or an inline diagnostic.
pub open spec fn spec_template_output(
    d: Seq<(Seq<char>, JsonView)>,
    tr: Seq<(Seq<char>, Seq<char>)>,
    def: Definition,
) -> Seq<char> {
    match template_output_full_of(spec_template_source(d), spec_ctx_text(d, tr), tr, def) {
        Some(s) => s,
        None => "<!-- [Error] template: render failed -->"@,
    }
}

/// The body text one payload value appends: strings escaped, scalars as
/// their token, lists element by element, objects resolved and rendered,
/// each piece behind a line break.
pub open spec fn spec_walk(
    v: JsonView,
    tr: Seq<(Seq<char>, Seq<char>)>,
    def: Definition,
) -> Seq<char>
    decreases jv_size(v), 1int,
{
    match v {
        JsonView::Str(s) => "\n"@ + spec_html_escape(s),
        JsonView::Bool(b) => if b {
            "\n"@ + "true"@
        } else {
            "\n"@ + "false"@
        },
        JsonView::Number(n) => "\n"@ + n,
        JsonView::Array(items) => spec_walk_items(items, items.len() as int, tr, def),
        JsonView::Object(m) => "\n"@ + spec_env_output(m, tr, def),
        JsonView::Null => Seq::empty(),
    }
}

pub open spec fn spec_walk_items(
    items: Seq<JsonView>,
    i: int,
    tr: Seq<(Seq<char>, Seq<char>)>,
    def: Definition,
) -> Seq<char>
    decreases jv_size_seq(items), i,
    when 0 <= i <= items.len()
    via spec_walk_items_decreases
{
    if i <= 0 {
        Seq::empty()
    } else {
        spec_walk_items(items, i - 1, tr, def) + spec_walk(items[i - 1], tr, def)
    }
}

#[via_fn]
proof fn spec_walk_items_decreases(
    items: Seq<JsonView>,
    i: int,
    tr: Seq<(Seq<char>, Seq<char>)>,
    def: Definition,
) {
    if 0 < i <= items.len() {
        lemma_jv_size_seq_elem(items, i - 1);
    }
}

/// What one object node renders to with the engine available: an element
/// renders with its content walked, components and inline templates run
/// through the engine, an unknown node renders to nothing.
pub open spec fn spec_env_output(
    d: Seq<(Seq<char>, JsonView)>,
    tr: Seq<(Seq<char>, Seq<char>)>,
    def: Definition,
) -> Seq<char>
    decreases jv_size_entries(d), 1int,
    via spec_env_output_decreases
{
    match spec_renderable_type(d) {
        RenderableType::Element => spec_render_element(
            spec_element_tag(d),
            spec_element_attrs(d, def),
            spec_env_content(d, def),
        ),
        RenderableType::Component => spec_component_output(d, tr, def),
        RenderableType::Template => spec_template_output(d, tr, def),
        RenderableType::Unknown => Seq::empty(),
    }
}

/// Element content under the engine: the content value walked by a fresh
/// assembler, which starts with no translations.
pub open spec fn spec_env_content(d: Seq<(Seq<char>, JsonView)>, def: Definition) -> Seq<char>
    decreases jv_size_entries(d), 0int,
    via spec_env_content_decreases
{
    if jm_contains(d, "@content"@) {
        spec_walk(jm_get(d, "@content"@), Seq::empty(), def)
    } else {
        Seq::empty()
    }
}

#[via_fn]
proof fn spec_env_output_decreases(
    d: Seq<(Seq<char>, JsonView)>,
    tr: Seq<(Seq<char>, Seq<char>)>,
    def: Definition,
) {
}

#[via_fn]
proof fn spec_env_content_decreases(d: Seq<(Seq<char>, JsonView)>, def: Definition) {
    if jm_contains(d, "@content"@) {
        lemma_jm_index_of(d, "@content"@);
        lemma_jv_size_entries_elem(d, jm_index_of(d, "@content"@));
    }
}

// ---------------------------------------------------------------------------
// Building the output wrapper from the gathered state.
// ---------------------------------------------------------------------------

pub open spec fn spec_system_js_fold(w: WrapView, assets: Seq<JsAsset>) -> WrapView
    decreases assets,
{
    if assets.len() == 0 {
        w
    } else {
        let prev = spec_system_js_fold(w, assets.drop_last());
        let a = assets.last();
        let attrs = JsonView::Object(spec_js_attrs(a.attrs@));
        WrapView {
            system_javascript: spec_add_line(
                prev.system_javascript,
                spec_script_html(a.url@, attrs),
            ),
            system_javascript_src: spec_src_add(prev.system_javascript_src, a.url@, attrs),
            ..prev
        }
    }
}

/// The design system's own assets, loaded on every render.
pub open spec fn spec_wrap_system(w: WrapView, def: Definition) -> WrapView {
    spec_system_js_fold(
        WrapView {
            system_stylesheet: spec_add_line(
                w.system_stylesheet,
                def.default_libraries_css_html@,
            ),
            ..w
        },
        def.default_libraries_js@,
    )
}

pub open spec fn spec_bub_js_fold(w: WrapView, js: Seq<(Seq<char>, JsonView)>) -> WrapView
    decreases js,
{
    if js.len() == 0 {
        w
    } else {
        let prev = spec_bub_js_fold(w, js.drop_last());
        let e = js.last();
        WrapView {
            javascript: spec_add_line(prev.javascript, spec_script_html(e.0, e.1)),
            javascript_src: spec_src_add(prev.javascript_src, e.0, e.1),
            ..prev
        }
    }
}

/// What the bubbled state contributes to the output: the gathered
/// stylesheets joined, the scripts in discovery order, the attached head
/// markup, and the variables style text when there is any.
pub open spec fn spec_wrap_bub(w: WrapView, b: BubView) -> WrapView {
    let w1 = WrapView {
        stylesheet: spec_add_line(w.stylesheet, spec_join(b.css, '\n')),
        ..w
    };
    let w2 = spec_bub_js_fold(w1, b.js);
    let w3 = WrapView { head: spec_add_line(w2.head, b.attached), ..w2 };
    if b.style.len() > 0 {
        WrapView { style: spec_add_line(w3.style, b.style), ..w3 }
    } else {
        w3
    }
}

impl RendererWrapper {
    fn build_system_library(&mut self, def: &Definition)
        ensures
            final(self)@ == spec_wrap_system(old(self)@, *def),
    {
        broadcast use group_jv_view;

        self.add_system_stylesheet(def.default_libraries_css_html.as_str());
        let ghost w1 = self@;
        let mut i: usize = 0;
        while i < def.default_libraries_js.len()
            invariant
                i <= def.default_libraries_js@.len(),
                self@ == spec_system_js_fold(w1, def.default_libraries_js@.take(i as int)),
            decreases def.default_libraries_js@.len() - i,
        {
            let asset = &def.default_libraries_js[i];
            let mut attrs: Vec<(String, JsonValue)> = Vec::new();
            let mut j: usize = 0;
            while j < asset.attrs.len()
                invariant
                    j <= asset.attrs@.len(),
                    jv_view_entries(attrs@) =~= spec_js_attrs(asset.attrs@.take(j as int)),
                decreases asset.attrs@.len() - j,
            {
                let ghost pre = attrs@;
                attrs.push((asset.attrs[j].0.clone(), JsonValue::Str(asset.attrs[j].1.clone())));
                proof {
                    assert(attrs@.drop_last() =~= pre);
                    assert(asset.attrs@.take(j + 1 as int).drop_last() =~= asset.attrs@.take(
                        j as int,
                    ));
                    assert(jv_view_entries(attrs@) =~= spec_js_attrs(
                        asset.attrs@.take(j + 1 as int),
                    ));
                }
                j = j + 1;
            }
            proof {
                assert(asset.attrs@.take(asset.attrs@.len() as int) =~= asset.attrs@);
            }
            let attrs_value = JsonValue::Object(attrs);
            let js = Renderable::script(asset.url.as_str(), &attrs_value).output();
            self.add_system_javascript(js.as_str());
            self.add_system_javascript_src(asset.url.as_str(), attrs_value);
            proof {
                assert(def.default_libraries_js@.take(i + 1 as int).drop_last()
                    =~= def.default_libraries_js@.take(i as int));
                assert(def.default_libraries_js@.take(i + 1 as int).last()
                    == def.default_libraries_js@[i as int]);
                assert(self@ =~= spec_system_js_fold(
                    w1,
                    def.default_libraries_js@.take(i + 1 as int),
                ));
            }
            i = i + 1;
        }
        proof {
            assert(def.default_libraries_js@.take(def.default_libraries_js@.len() as int)
                =~= def.default_libraries_js@);
        }
    }

    fn build_bubbable(&mut self, bubbable: &Bubbable)
        ensures
            final(self)@ == spec_wrap_bub(old(self)@, bubbable@),
    {
        broadcast use group_views, group_jv_view;

        let css = join_strings(&bubbable.library.css, '\n');
        proof {
            assert(strs_view(bubbable.library.css@) =~= bubbable.library.css@.map_values(
                |x: String| x@,
            ));
        }
        self.add_stylesheet(css.as_str());
        let ghost w1 = self@;
        let ghost jsv = jv_view_entries(bubbable.library.js@);
        let mut i: usize = 0;
        while i < bubbable.library.js.len()
            invariant
                i <= bubbable.library.js@.len(),
                jsv == jv_view_entries(bubbable.library.js@),
                self@ == spec_bub_js_fold(w1, jsv.take(i as int)),
            decreases bubbable.library.js@.len() - i,
        {
            let url = &bubbable.library.js[i].0;
            let attrs = jv_copy(&bubbable.library.js[i].1);
            let js = Renderable::script(url.as_str(), &attrs).output();
            self.add_javascript(js.as_str());
            self.add_javascript_src(url.as_str(), attrs);
            proof {
                assert(jsv.take(i + 1 as int).drop_last() =~= jsv.take(i as int));
                assert(jsv.take(i + 1 as int).last() == jsv[i as int]);
                assert(self@ =~= spec_bub_js_fold(w1, jsv.take(i + 1 as int)));
            }
            i = i + 1;
        }
        proof {
            assert(jsv.take(jsv.len() as int) =~= jsv);
        }
        self.add_head(bubbable.attached_build.as_str());
        if !bubbable.style.as_str().is_empty() {
            self.add_style(bubbable.style.as_str());
        }
        proof {
            assert(bubbable@.attached == bubbable.attached_build@);
            assert(self@ =~= spec_wrap_bub(old(self)@, bubbable@));
        }
    }

    /// Folds one render's bubbled state into the output, after the design
    /// system's own assets.
    pub fn build(&mut self, bubbable: &Bubbable, def: &Definition)
        ensures
            final(self)@ == spec_wrap_bub(spec_wrap_system(old(self)@, *def), bubbable@),
    {
        self.build_system_library(def);
        self.build_bubbable(bubbable);
    }
}

// ---------------------------------------------------------------------------
// The renderer: collect, then walk.
// ---------------------------------------------------------------------------

impl Renderable {
    fn set_element_content_env(&mut self, def: &Definition)
        ensures
            final(self).element_content@ == spec_env_content(old(self).data@, *def),
            final(self).data == old(self).data,
            final(self).attributes == old(self).attributes,
            final(self).element_tag == old(self).element_tag,
            final(self).renderable_type == old(self).renderable_type,
            final(self).output == old(self).output,
        decreases jv_size_entries(self.data@), 0int,
    {
        match self.data.get("@content") {
            Some(c) => {
                proof {
                    lemma_jm_index_of(self.data@, "@content"@);
                    lemma_jv_size_entries_elem(self.data@, jm_index_of(self.data@, "@content"@));
                }
                let content = jv_copy(c);
                let mut single = Renderer::new();
                single.do_render_value(&content, def);
                self.element_content = single.output.body;
                proof {
                    assert(Seq::<char>::empty() + spec_walk(
                        jm_get(old(self).data@, "@content"@),
                        Seq::empty(),
                        *def,
                    ) =~= spec_env_content(old(self).data@, *def));
                }
            },
            None => {
                self.element_content = String::new();
            },
        }
    }

    fn render_component_env(&mut self, translation: &Vec<(String, String)>, def: &Definition)
        ensures
            final(self).output@ == spec_component_output(
                old(self).data@,
                kvs_view(translation@),
                *def,
            ),
            final(self).data == old(self).data,
    {
        broadcast use group_views, group_jv_view;

        let name: String = match self.data.get("@component") {
            Some(v) => match v {
                JsonValue::Str(s) => {
                    if s.as_str().is_empty() {
                        String::new()
                    } else {
                        let trimmed = crate::strutil::trim_chars(&crate::strutil::chars_of(
                            s.as_str(),
                        ));
                        crate::strutil::string_from_chars(&trimmed)
                    }
                },
                _ => String::new(),
            },
            None => String::new(),
        };
        proof {
            assert(name@ == spec_component_name(self.data@));
        }
        let mut fields = JsonMap { entries: self.non_directive_fields() };
        let mut tpl: String = name.clone();
        match self.data.get("@variant") {
            Some(variant) => {
                let vcopy = jv_copy(variant);
                fields.insert("variant".to_owned(), vcopy);
                match variant {
                    JsonValue::Str(vs) => {
                        match assoc_get(&def.components_variant_template, name.as_str()) {
                            Some(variants) => {
                                proof {
                                    crate::bubbable::lemma_sset_strs_pub(variants@, vs@);
                                }
                                if crate::assoc::names_contain(variants, vs.as_str()) {
                                    let mut t = name.clone();
                                    t.append(".");
                                    t.append(vs.as_str());
                                    proof {
                                        reveal_strlit(".");
                                        assert(t@ =~= name@ + "."@ + vs@);
                                    }
                                    tpl = t;
                                }
                            },
                            None => {},
                        }
                    },
                    _ => {},
                }
            },
            None => {},
        }
        proof {
            assert(tpl@ == spec_component_template_id(self.data@, name@, *def));
            assert(fields@ == spec_component_fields0(self.data@));
        }
        let picked: Option<JsonValue> = match self.data.get("@attributes") {
            Some(a) => Some(jv_copy(a)),
            None => {
                match self.data.get("attributes") {
                    Some(a) => Some(jv_copy(a)),
                    None => None,
                }
            },
        };
        let mut obj_attributes = Attribute::new();
        obj_attributes.build_scoped(&self.data, def);
        match &picked {
            Some(a) => {
                obj_attributes.build_attributes(a);
            },
            None => {},
        }
        proof {
            assert(obj_attributes@ == spec_component_attrs(self.data@, *def));
        }
        fields.insert("attributes".to_owned(), obj_attributes.to_json_value());
        proof {
            assert(fields@ == spec_component_fields(self.data@, *def));
        }
        let ctx_text = Self::ctx_json(fields, translation);
        proof {
            assert(ctx_text@ == spec_ctx_text(
                spec_component_fields(self.data@, *def),
                kvs_view(translation@),
            ));
        }
        match assoc_get(&def.templates, tpl.as_str()) {
            Some(source) => {
                match jinja_render_full(source.as_str(), ctx_text.as_str(), translation, def) {
                    Some(s) => {
                        self.output = s;
                    },
                    None => {
                        let mut out = String::new();
                        out.append("<!-- [Error] component: ");
                        out.append(name.as_str());
                        out.append(", template render failed: ");
                        out.append(tpl.as_str());
                        out.append(" -->");
                        proof {
                            assert(out@ =~= spec_component_error(name@, tpl@, true));
                        }
                        self.output = out;
                    },
                }
            },
            None => {
                let mut out = String::new();
                out.append("<!-- [Error] component: ");
                out.append(name.as_str());
                out.append(", template not found: ");
                out.append(tpl.as_str());
                out.append(" -->");
                proof {
                    assert(out@ =~= spec_component_error(name@, tpl@, false));
                }
                self.output = out;
            },
        }
    }

    /// The JSON context text for the engine: the fields, then the
    /// translations under their reserved key.
    fn ctx_json(fields: JsonMap, translation: &Vec<(String, String)>) -> (r: String)
        ensures
            r@ == spec_ctx_text(fields@, kvs_view(translation@)),
    {
        broadcast use group_views, group_jv_view;

        let mut trans: Vec<(String, JsonValue)> = Vec::new();
        let mut i: usize = 0;
        while i < translation.len()
            invariant
                i <= translation@.len(),
                jv_view_entries(trans@) =~= spec_trans_json(
                    kvs_view(translation@).take(i as int),
                ),
            decreases translation@.len() - i,
        {
            let ghost pre = trans@;
            trans.push((translation[i].0.clone(), JsonValue::Str(translation[i].1.clone())));
            proof {
                assert(trans@.drop_last() =~= pre);
                assert(kvs_view(translation@).take(i + 1 as int).drop_last() =~= kvs_view(
                    translation@,
                ).take(i as int));
                assert(kvs_view(translation@).take(i + 1 as int).last() == kvs_view(
                    translation@,
                )[i as int]);
                assert(jv_view_entries(trans@) =~= spec_trans_json(
                    kvs_view(translation@).take(i + 1 as int),
                ));
            }
            i = i + 1;
        }
        proof {
            let m = kvs_view(translation@);
            assert(m.take(m.len() as int) =~= m);
        }
        proof {
            assert(jv_view_entries(trans@) == spec_trans_json(kvs_view(translation@)));
        }
        let ghost tv = jv_view_entries(trans@);
        let mut ctx_entries = fields.entries;
        let ghost fv = jv_view_entries(ctx_entries@);
        let ghost pre_push = ctx_entries@;
        ctx_entries.push(("_translation".to_owned(), JsonValue::Object(trans)));
        proof {
            assert(ctx_entries@.drop_last() =~= pre_push);
        }
        let ctx_value = JsonValue::Object(ctx_entries);
        proof {
            assert(ctx_entries@.last().0@ == "_translation"@);
            assert(jv_view(ctx_entries@.last().1) == JsonView::Object(tv));
            assert(jv_view_entries(ctx_entries@.drop_last()) == jv_view_entries(pre_push));
            assert(jv_view_entries(ctx_entries@) == jv_view_entries(pre_push).push(
                ("_translation"@, JsonView::Object(tv)),
            ));
            assert(fv == jv_view_entries(pre_push));
            assert(jv_view(ctx_value) =~~= JsonView::Object(
                fv.push(("_translation"@, JsonView::Object(spec_trans_json(kvs_view(
                    translation@,
                ))))),
            ));
        }
        to_json_compact(&ctx_value)
    }

    fn render_template_env(&mut self, translation: &Vec<(String, String)>, def: &Definition)
        ensures
            final(self).output@ == spec_template_output(
                old(self).data@,
                kvs_view(translation@),
                *def,
            ),
            final(self).data == old(self).data,
    {
        let source: String = match self.data.get("@template") {
            Some(v) => match v {
                JsonValue::Str(s) => s.clone(),
                _ => String::new(),
            },
            None => String::new(),
        };
        proof {
            assert(source@ == spec_template_source(self.data@));
        }
        let data_copy = JsonMap { entries: jm_copy_entries(&self.data.entries) };
        let ctx_text = Self::ctx_json(data_copy, translation);
        match jinja_render_full(source.as_str(), ctx_text.as_str(), translation, def) {
            Some(s) => {
                self.output = s;
            },
            None => {
                let mut out = String::new();
                out.append("<!-- [Error] template: render failed -->");
                self.output = out;
            },
        }
    }

    /// Builds and renders this node with the template engine at hand.
    pub fn build_with_env(&mut self, translation: &Vec<(String, String)>, def: &Definition)
        ensures
            final(self).output@ == spec_env_output(
                old(self).data@,
                kvs_view(translation@),
                *def,
            ),
            final(self).data == old(self).data,
        decreases jv_size_entries(self.data@), 1int,
    {
        self.set_type_from_data();
        match self.renderable_type {
            RenderableType::Element => {
                self.set_element_content_env(def);
                self.set_element_tag();
                self.set_element_attributes(def);
                self.render_element();
            },
            RenderableType::Component => {
                self.render_component_env(translation, def);
            },
            RenderableType::Template => {
                self.render_template_env(translation, def);
            },
            RenderableType::Unknown => {
                self.output = String::new();
            },
        }
    }
}

/// One render in progress: the output under assembly and the translations
/// gathered by the bubbling pass.
pub struct Renderer {
    pub output: RendererWrapper,
    pub translation: Vec<(String, String)>,
}

impl Renderer {
    pub fn new() -> (r: Renderer)
        ensures
            r.output@ == (WrapView {
                body: Seq::empty(),
                head: Seq::empty(),
                style: Seq::empty(),
                system_stylesheet: Seq::empty(),
                system_javascript_src: Seq::empty(),
                stylesheet: Seq::empty(),
                javascript_src: Seq::empty(),
                system_javascript: Seq::empty(),
                javascript: Seq::empty(),
            }),
            kvs_view(r.translation@) =~= Seq::<(Seq<char>, Seq<char>)>::empty(),
            r.translation@ =~= Seq::<(String, String)>::empty(),
    {
        let r = Renderer { output: RendererWrapper::new(), translation: Vec::new() };
        proof {
            assert(r.output@ =~= (WrapView {
                body: Seq::empty(),
                head: Seq::empty(),
                style: Seq::empty(),
                system_stylesheet: Seq::empty(),
                system_javascript_src: Seq::empty(),
                stylesheet: Seq::empty(),
                javascript_src: Seq::empty(),
                system_javascript: Seq::empty(),
                javascript: Seq::empty(),
            }));
        }
        r
    }

    pub fn set_translation(&mut self, translation: Vec<(String, String)>)
        ensures
            final(self).translation == translation,
            final(self).output == old(self).output,
    {
        self.translation = translation;
    }

    /// Walks one payload value, appending what it renders to the body.
    pub fn do_render_value(&mut self, v: &JsonValue, def: &Definition)
        ensures
            final(self).output@ == (WrapView {
                body: old(self).output@.body + spec_walk(
                    jv_view(*v),
                    kvs_view(old(self).translation@),
                    *def,
                ),
                ..old(self).output@
            }),
            final(self).translation == old(self).translation,
        decreases jv_size(jv_view(*v)), 2int,
    {
        broadcast use group_jv_view;

        match v {
            JsonValue::Str(s) => {
                let escaped = html_escape(s.as_str());
                self.output.add_body(escaped.as_str());
            },
            JsonValue::Bool(b) => {
                if *b {
                    self.output.add_body("true");
                } else {
                    self.output.add_body("false");
                }
            },
            JsonValue::Number(n) => {
                let shown = n.clone();
                self.output.add_body(shown.as_str());
            },
            JsonValue::Array(items) => {
                let ghost iv = jv_view_seq(items@);
                let mut i: usize = 0;
                while i < items.len()
                    invariant
                        i <= items@.len(),
                        iv == jv_view_seq(items@),
                        self.translation == old(self).translation,
                        self.output@ == (WrapView {
                            body: old(self).output@.body + spec_walk_items(
                                iv,
                                i as int,
                                kvs_view(old(self).translation@),
                                *def,
                            ),
                            ..old(self).output@
                        }),
                    decreases items@.len() - i,
                {
                    proof {
                        lemma_jv_size_seq_elem(iv, i as int);
                    }
                    self.do_render_value(&items[i], def);
                    proof {
                        assert(self.output@ =~= (WrapView {
                            body: old(self).output@.body + spec_walk_items(
                                iv,
                                i + 1 as int,
                                kvs_view(old(self).translation@),
                                *def,
                            ),
                            ..old(self).output@
                        }));
                    }
                    i = i + 1;
                }
            },
            JsonValue::Object(m) => {
                proof {
                    lemma_jv_view_entries_len_pub(m@);
                }
                let mut renderable = Renderable::new(JsonMap { entries: jm_copy_entries(m) });
                renderable.build_with_env(&self.translation, def);
                let html = renderable.output();
                self.output.add_body(html.as_str());
            },
            JsonValue::Null => {
                proof {
                    assert(old(self).output@.body + Seq::<char>::empty() =~= old(
                        self,
                    ).output@.body);
                    assert(self.output@ =~= (WrapView {
                        body: old(self).output@.body + spec_walk(
                            jv_view(*v),
                            kvs_view(old(self).translation@),
                            *def,
                        ),
                        ..old(self).output@
                    }));
                }
            },
        }
    }

    /// Walks a list of payload values in order.
    pub fn do_render(&mut self, data: &Vec<JsonValue>, def: &Definition)
        ensures
            final(self).output@ == (WrapView {
                body: old(self).output@.body + spec_walk_items(
                    jv_view_seq(data@),
                    data@.len() as int,
                    kvs_view(old(self).translation@),
                    *def,
                ),
                ..old(self).output@
            }),
            final(self).translation == old(self).translation,
    {
        broadcast use group_jv_view;

        let ghost iv = jv_view_seq(data@);
        let mut i: usize = 0;
        while i < data.len()
            invariant
                i <= data@.len(),
                iv == jv_view_seq(data@),
                self.translation == old(self).translation,
                self.output@ == (WrapView {
                    body: old(self).output@.body + spec_walk_items(
                        iv,
                        i as int,
                        kvs_view(old(self).translation@),
                        *def,
                    ),
                    ..old(self).output@
                }),
            decreases data@.len() - i,
        {
            proof {
                lemma_jv_size_seq_elem(iv, i as int);
            }
            self.do_render_value(&data[i], def);
            proof {
                assert(self.output@ =~= (WrapView {
                    body: old(self).output@.body + spec_walk_items(
                        iv,
                        i + 1 as int,
                        kvs_view(old(self).translation@),
                        *def,
                    ),
                    ..old(self).output@
                }));
            }
            i = i + 1;
        }
    }
}

proof fn lemma_jv_view_entries_len_pub(s: Seq<(String, JsonValue)>)
    ensures
        jv_view_entries(s).len() == s.len(),
{
    crate::value::lemma_jv_view_entries_len(s);
}

// ---------------------------------------------------------------------------
// One full render, and the output formats.
// ---------------------------------------------------------------------------

pub open spec fn spec_bub_empty() -> BubView {
    BubView {
        component: Seq::empty(),
        attached: Seq::empty(),
        css: Seq::empty(),
        js: Seq::empty(),
        style: Seq::empty(),
        translation: Seq::empty(),
        variables: Seq::empty(),
    }
}

pub open spec fn spec_wrap_empty() -> WrapView {
    WrapView {
        body: Seq::empty(),
        head: Seq::empty(),
        style: Seq::empty(),
        system_stylesheet: Seq::empty(),
        system_javascript_src: Seq::empty(),
        stylesheet: Seq::empty(),
        javascript_src: Seq::empty(),
        system_javascript: Seq::empty(),
        javascript: Seq::empty(),
    }
}

/// What the bubbling pass leaves for one payload: everything gathered, with
/// the variables already rendered into the style text.
pub open spec fn spec_bub_after(v: JsonView, def: Definition) -> BubView {
    let b = spec_collect(spec_bub_empty(), v, def);
    BubView { style: b.style + spec_variables_style(b.variables, def.variables@), ..b }
}

/// The body text of one render: an array walks element by element; any
/// other value walks as itself.
pub open spec fn spec_render_body(
    v: JsonView,
    tr: Seq<(Seq<char>, Seq<char>)>,
    def: Definition,
) -> Seq<char> {
    match v {
        JsonView::Array(items) => spec_walk_items(items, items.len() as int, tr, def),
        _ => spec_walk(v, tr, def),
    }
}

/// The whole output state after one render of a payload value.
pub open spec fn spec_render_wrap(v: JsonView, def: Definition) -> WrapView {
    let b = spec_bub_after(v, def);
    let w = spec_wrap_bub(spec_wrap_system(spec_wrap_empty(), def), b);
    WrapView { body: w.body + spec_render_body(v, b.translation, def), ..w }
}

impl Renderer {
    /// One full render: the bubbling pass, the asset manifest, then the
    /// walk that produces the body.
    pub fn render(&mut self, json: &JsonValue, def: &Definition)
        requires
            old(self).output@ == spec_wrap_empty(),
            kvs_view(old(self).translation@) == Seq::<(Seq<char>, Seq<char>)>::empty(),
        ensures
            final(self).output@ == spec_render_wrap(jv_view(*json), *def),
            kvs_view(final(self).translation@) == spec_bub_after(jv_view(*json), *def).translation,
    {
        broadcast use group_jv_view;

        let mut bubbable = Bubbable::new();
        proof {
            assert(bubbable@ =~= spec_bub_empty());
        }
        bubbable.collect(json, def);
        bubbable.render_variables(def);
        proof {
            assert(bubbable@ =~= spec_bub_after(jv_view(*json), *def));
        }
        let pairs = bubbable.translation_pairs();
        self.set_translation(pairs);
        self.output.build(&bubbable, def);
        match json {
            JsonValue::Array(items) => {
                self.do_render(items, def);
            },
            _ => {
                self.do_render_value(json, def);
            },
        }
    }

    /// The structured output: every part of the render under its own key.
    pub fn to_output(&self) -> (r: JsonValue)
        ensures
            jv_view(r) == spec_to_output(self.output@),
    {
        broadcast use group_jv_view;

        let mut out: Vec<(String, JsonValue)> = Vec::new();
        let ghost g0 = out@;
        out.push(("attached".to_owned(), JsonValue::Str(self.output.head.clone())));
        let ghost g1 = out@;
        proof {
            assert(g1.drop_last() =~= g0);
            assert(jv_view_entries(g0) =~= Seq::<(Seq<char>, JsonView)>::empty());
            assert(jv_view_entries(g1) =~= seq![("attached"@, JsonView::Str(self.output@.head))]);
        }
        out.push(("body".to_owned(), JsonValue::Str(self.output.body.clone())));
        let ghost g2 = out@;
        proof {
            assert(g2.drop_last() =~= g1);
            assert(jv_view_entries(g2) =~= jv_view_entries(g1).push(
                ("body"@, JsonView::Str(self.output@.body)),
            ));
        }
        out.push(
            (
                "javascript".to_owned(),
                JsonValue::Object(jm_copy_entries(&self.output.javascript_src)),
            ),
        );
        let ghost g3 = out@;
        proof {
            assert(g3.drop_last() =~= g2);
            assert(jv_view_entries(g3) =~= jv_view_entries(g2).push(
                ("javascript"@, JsonView::Object(self.output@.javascript_src)),
            ));
        }
        out.push(("stylesheet".to_owned(), JsonValue::Str(self.output.stylesheet.clone())));
        let ghost g4 = out@;
        proof {
            assert(g4.drop_last() =~= g3);
            assert(jv_view_entries(g4) =~= jv_view_entries(g3).push(
                ("stylesheet"@, JsonView::Str(self.output@.stylesheet)),
            ));
        }
        out.push(
            (
                "system_javascript".to_owned(),
                JsonValue::Object(jm_copy_entries(&self.output.system_javascript_src)),
            ),
        );
        let ghost g5 = out@;
        proof {
            assert(g5.drop_last() =~= g4);
            assert(jv_view_entries(g5) =~= jv_view_entries(g4).push(
                ("system_javascript"@, JsonView::Object(self.output@.system_javascript_src)),
            ));
        }
        out.push(
            (
                "system_stylesheet".to_owned(),
                JsonValue::Str(self.output.system_stylesheet.clone()),
            ),
        );
        let ghost g6 = out@;
        proof {
            assert(g6.drop_last() =~= g5);
            assert(jv_view_entries(g6) =~= jv_view_entries(g5).push(
                ("system_stylesheet"@, JsonView::Str(self.output@.system_stylesheet)),
            ));
        }
        out.push(("variables".to_owned(), JsonValue::Str(self.output.style.clone())));
        let ghost g7 = out@;
        proof {
            assert(g7.drop_last() =~= g6);
            assert(jv_view_entries(g7) =~= jv_view_entries(g6).push(
                ("variables"@, JsonView::Str(self.output@.style)),
            ));
        }
        let r = JsonValue::Object(out);
        proof {
            assert(jv_view_entries(g7) =~~= seq![
                ("attached"@, JsonView::Str(self.output@.head)),
                ("body"@, JsonView::Str(self.output@.body)),
                ("javascript"@, JsonView::Object(self.output@.javascript_src)),
                ("stylesheet"@, JsonView::Str(self.output@.stylesheet)),
                ("system_javascript"@, JsonView::Object(self.output@.system_javascript_src)),
                ("system_stylesheet"@, JsonView::Str(self.output@.system_stylesheet)),
                ("variables"@, JsonView::Str(self.output@.style)),
            ]);
            assert(jv_view(r) =~~= spec_to_output(self.output@));
        }
        r
    }

    /// The output serialized in the chosen format.  An unknown format
    /// yields a visible marker instead of failing.
    pub fn to_output_string(&self, output: &str) -> (r: String)
        ensures
            r@ == spec_to_output_string(self.output@, output@),
    {
        let mut style: String = String::new();
        if !self.output.style.as_str().is_empty() {
            style.append("\n            <style>\n                ");
            style.append(self.output.style.as_str());
            style.append("\n            </style>\n            ");
        }
        proof {
            assert(style@ =~= spec_style_block(self.output@.style));
        }
        if str_eq(output, "_test") {
            let mut r = String::new();
            r.append("\n                ");
            r.append(self.output.body.as_str());
            r.append("\n                ");
            r.append(self.output.stylesheet.as_str());
            r.append("\n                ");
            r.append(self.output.javascript.as_str());
            r.append("\n                ");
            proof {
                assert(r@ =~= spec_to_output_string(self.output@, output@));
            }
            r
        } else if str_eq(output, "_test_full") {
            let mut r = String::new();
            r.append("\n                ");
            r.append(self.output.body.as_str());
            r.append("\n                ");
            r.append(self.output.head.as_str());
            r.append("\n                ");
            r.append(style.as_str());
            r.append("\n                ");
            r.append(self.output.system_stylesheet.as_str());
            r.append("\n                ");
            r.append(self.output.stylesheet.as_str());
            r.append("\n                ");
            r.append(self.output.system_javascript.as_str());
            r.append("\n                ");
            r.append(self.output.javascript.as_str());
            r.append("\n                ");
            proof {
                assert(r@ =~= spec_to_output_string(self.output@, output@));
            }
            r
        } else if str_eq(output, "full") {
            let mut r = String::new();
            r.append("<!DOCTYPE html>\n                <html>\n                    <head>\n                        ");
            r.append(self.output.head.as_str());
            r.append("\n                        ");
            r.append(self.output.system_stylesheet.as_str());
            r.append("\n                        ");
            r.append(self.output.stylesheet.as_str());
            r.append("\n                        ");
            r.append(style.as_str());
            r.append("\n                    </head>\n                    <body>\n                        ");
            r.append(self.output.body.as_str());
            r.append("\n                        ");
            r.append(self.output.system_javascript.as_str());
            r.append("\n                        ");
            r.append(self.output.javascript.as_str());
            r.append("\n                    </body>\n                </html>");
            proof {
                assert(r@ =~= spec_to_output_string(self.output@, output@));
            }
            r
        } else if str_eq(output, "json") {
            let v = self.to_output();
            let r = to_json_compact(&v);
            proof {
                assert(r@ =~= spec_to_output_string(self.output@, output@));
            }
            r
        } else if str_eq(output, "_logs") {
            String::new()
        } else {
            let mut r = String::new();
            r.append("<!-- Unknown output: ");
            r.append(output);
            r.append(" -->");
            proof {
                assert(r@ =~= spec_to_output_string(self.output@, output@));
            }
            r
        }
    }
}

/// The style text wrapped in a style tag, or nothing when it is empty.
pub open spec fn spec_style_block(style: Seq<char>) -> Seq<char> {
    if style.len() == 0 {
        Seq::empty()
    } else {
        "\n            <style>\n                "@ + style + "\n            </style>\n            "@
    }
}

/// The structured output as a payload object, keys in dictionary order.
pub open spec fn spec_to_output(w: WrapView) -> JsonView {
    JsonView::Object(
        seq![
            ("attached"@, JsonView::Str(w.head)),
            ("body"@, JsonView::Str(w.body)),
            ("javascript"@, JsonView::Object(w.javascript_src)),
            ("stylesheet"@, JsonView::Str(w.stylesheet)),
            ("system_javascript"@, JsonView::Object(w.system_javascript_src)),
            ("system_stylesheet"@, JsonView::Str(w.system_stylesheet)),
            ("variables"@, JsonView::Str(w.style)),
        ],
    )
}

/// The serialized output for each format token.
pub open spec fn spec_to_output_string(w: WrapView, fmt: Seq<char>) -> Seq<char> {
    let style = spec_style_block(w.style);
    if fmt == "_test"@ {
        "\n                "@ + w.body + "\n                "@ + w.stylesheet
            + "\n                "@ + w.javascript + "\n                "@
    } else if fmt == "_test_full"@ {
        "\n                "@ + w.body + "\n                "@ + w.head + "\n                "@
            + style + "\n                "@ + w.system_stylesheet + "\n                "@
            + w.stylesheet + "\n                "@ + w.system_javascript + "\n                "@
            + w.javascript + "\n                "@
    } else if fmt == "full"@ {
        "<!DOCTYPE html>\n                <html>\n                    <head>\n                        "@
            + w.head + "\n                        "@ + w.system_stylesheet
            + "\n                        "@ + w.stylesheet + "\n                        "@ + style
            + "\n                    </head>\n                    <body>\n                        "@
            + w.body + "\n                        "@ + w.system_javascript
            + "\n                        "@ + w.javascript
            + "\n                    </body>\n                </html>"@
    } else if fmt == "json"@ {
        spec_json_compact(spec_to_output(w))
    } else if fmt == "_logs"@ {
        Seq::empty()
    } else {
        "<!-- Unknown output: "@ + fmt + " -->"@
    }
}

// ---------------------------------------------------------------------------
// The value-formatting policy.
// ---------------------------------------------------------------------------

/// What a value spliced into template output becomes when it sits inside a
/// container: a renderable object node is rendered through the whole
/// pipeline by a fresh assembler, a list formats element by element, a
/// string passes raw, and anything else adds nothing.
pub open spec fn spec_fmt_rec(v: JsonView, def: Definition) -> Seq<char>
    decreases jv_size(v), 3int,
{
    match v {
        JsonView::Object(d) => "\n"@ + spec_env_output(d, Seq::empty(), def),
        JsonView::Array(items) => spec_fmt_items(items, items.len() as int, def),
        JsonView::Str(s) => s,
        _ => Seq::empty(),
    }
}

pub open spec fn spec_fmt_items(items: Seq<JsonView>, i: int, def: Definition) -> Seq<char>
    decreases jv_size_seq(items), i,
    when 0 <= i <= items.len()
    via spec_fmt_items_decreases
{
    if i <= 0 {
        Seq::empty()
    } else {
        spec_fmt_items(items, i - 1, def) + spec_fmt_rec(items[i - 1], def)
    }
}

#[via_fn]
proof fn spec_fmt_items_decreases(items: Seq<JsonView>, i: int, def: Definition) {
    if 0 < i <= items.len() {
        lemma_jv_size_seq_elem(items, i - 1);
    }
}

/// The whole formatting policy for a value a template interpolates: a
/// renderable-shaped object re-enters the render pipeline, any other map is
/// read as attributes and spliced as attribute text, a list formats element
/// by element, text that already looks like attribute markup passes raw,
/// and any other text is escaped.
pub open spec fn spec_format_value(v: JsonView, def: Definition) -> Seq<char> {
    match v {
        JsonView::Object(d) => {
            if crate::renderable::spec_is_renderable(v) {
                "\n"@ + spec_env_output(d, Seq::empty(), def)
            } else {
                crate::attribute::spec_attr_html(crate::attribute::spec_add_all(Seq::empty(), v))
            }
        },
        JsonView::Array(items) => spec_fmt_items(items, items.len() as int, def),
        JsonView::Str(s) => {
            if crate::strutil::spec_contains_sub(s, "class="@) || crate::strutil::spec_contains_sub(
                s,
                "id="@,
            ) {
                s
            } else {
                spec_html_escape(s)
            }
        },
        JsonView::Number(n) => n,
        JsonView::Bool(b) => if b {
            "true"@
        } else {
            "false"@
        },
        JsonView::Null => Seq::empty(),
    }
}

fn fmt_rec(v: &JsonValue, def: &Definition) -> (r: String)
    ensures
        r@ == spec_fmt_rec(jv_view(*v), *def),
    decreases jv_size(jv_view(*v)), 3int,
{
    broadcast use group_jv_view;

    match v {
        JsonValue::Object(_) => {
            let mut single = Renderer::new();
            single.do_render_value(v, def);
            proof {
                assert(Seq::<char>::empty() + spec_walk(jv_view(*v), Seq::empty(), *def)
                    =~= spec_walk(jv_view(*v), Seq::empty(), *def));
            }
            single.output.body
        },
        JsonValue::Array(items) => {
            let ghost iv = jv_view_seq(items@);
            let mut out = String::new();
            let mut i: usize = 0;
            while i < items.len()
                invariant
                    i <= items@.len(),
                    iv == jv_view_seq(items@),
                    out@ == spec_fmt_items(iv, i as int, *def),
                decreases items@.len() - i,
            {
                proof {
                    lemma_jv_size_seq_elem(iv, i as int);
                }
                let piece = fmt_rec(&items[i], def);
                out.append(piece.as_str());
                i = i + 1;
            }
            out
        },
        JsonValue::Str(s) => s.clone(),
        _ => String::new(),
    }
}

/// Formats one interpolated value by the policy above.
pub fn format_value(v: &JsonValue, def: &Definition) -> (r: String)
    ensures
        r@ == spec_format_value(jv_view(*v), *def),
{
    broadcast use group_jv_view;

    match v {
        JsonValue::Object(_) => {
            if crate::renderable::is_renderable(v) {
                let mut single = Renderer::new();
                single.do_render_value(v, def);
                proof {
                    assert(Seq::<char>::empty() + spec_walk(jv_view(*v), Seq::empty(), *def)
                        =~= spec_walk(jv_view(*v), Seq::empty(), *def));
                }
                single.output.body
            } else {
                let mut attribute = Attribute::new();
                attribute.add_attrs_from_jinja(v);
                attribute.to_html_string()
            }
        },
        JsonValue::Array(_) => fmt_rec(v, def),
        JsonValue::Str(s) => {
            if crate::engine::looks_like_attribute_text(s.as_str()) {
                s.clone()
            } else {
                html_escape(s.as_str())
            }
        },
        JsonValue::Number(n) => n.clone(),
        JsonValue::Bool(b) => {
            if *b {
                "true".to_owned()
            } else {
                "false".to_owned()
            }
        },
        JsonValue::Null => String::new(),
    }
}

} // verus!
