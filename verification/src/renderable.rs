use vstd::prelude::*;

verus! {

use vstd::string::StringExecFns;
use crate::strutil::{push_char, str_eq, spec_has_prefix_at, has_prefix_at};
use crate::value::{
    JsonValue, JsonView, JsonMap, jv_view, jv_view_seq, jv_view_entries, jm_contains, jm_get,
    jm_index_of, group_jv_view, jv_copy, jm_copy_entries, spec_display, display_string, jv_size,
    jv_size_seq, jv_size_entries, lemma_jv_size_seq_elem, lemma_jv_size_entries_elem,
};
use crate::attribute::{
    Attribute, spec_add_attr, spec_add_all, spec_build_scoped, spec_build_attributes,
    spec_attr_html, av_contains, av_vals,
};
use crate::assoc::strs_view;
use crate::definition::Definition;

/// The kind of a payload object node: exactly one of the three renderable
/// kinds, or unknown.
#[derive(Debug, PartialEq, Eq, Structural)]
pub enum RenderableType {
    Component,
    Element,
    Template,
    Unknown,
}

/// Classification by directive key: an element marker wins over a
/// component marker, which wins over an inline template marker.
pub open spec fn spec_renderable_type(d: Seq<(Seq<char>, JsonView)>) -> RenderableType {
    if jm_contains(d, "@element"@) {
        RenderableType::Element
    } else if jm_contains(d, "@component"@) {
        RenderableType::Component
    } else if jm_contains(d, "@template"@) {
        RenderableType::Template
    } else {
        RenderableType::Unknown
    }
}

pub open spec fn spec_type_name(t: RenderableType) -> Seq<char> {
    match t {
        RenderableType::Component => "Component"@,
        RenderableType::Element => "Element"@,
        RenderableType::Template => "Template"@,
        RenderableType::Unknown => "Unknown"@,
    }
}

/// The entries that are not directives: their key has no reserved prefix.
pub open spec fn spec_non_directive(d: Seq<(Seq<char>, JsonView)>) -> Seq<(Seq<char>, JsonView)>
    decreases d,
{
    if d.len() == 0 {
        Seq::empty()
    } else {
        let rest = spec_non_directive(d.drop_last());
        if spec_has_prefix_at(d.last().0) {
            rest
        } else {
            rest.push(d.last())
        }
    }
}

/// The element tag: the element directive's string value, or nothing.
pub open spec fn spec_element_tag(d: Seq<(Seq<char>, JsonView)>) -> Seq<char> {
    if jm_contains(d, "@element"@) {
        match jm_get(d, "@element"@) {
            JsonView::Str(s) => s,
            _ => Seq::empty(),
        }
    } else {
        Seq::empty()
    }
}

/// String items of a content list, concatenated; other items contribute
/// nothing.
pub open spec fn spec_concat_strings(items: Seq<JsonView>) -> Seq<char>
    decreases items,
{
    if items.len() == 0 {
        Seq::empty()
    } else {
        let rest = spec_concat_strings(items.drop_last());
        match items.last() {
            JsonView::Str(s) => rest + s,
            _ => rest,
        }
    }
}

/// The content directive read as plain text: a string as itself, a list as
/// its string items joined.
pub open spec fn spec_content_string(d: Seq<(Seq<char>, JsonView)>) -> Seq<char> {
    if jm_contains(d, "@content"@) {
        match jm_get(d, "@content"@) {
            JsonView::Str(s) => s,
            JsonView::Array(items) => spec_concat_strings(items),
            _ => Seq::empty(),
        }
    } else {
        Seq::empty()
    }
}

/// An element's attributes: the node's scoped directives folded first, then
/// every plain field of the node.
pub open spec fn spec_element_attrs(
    d: Seq<(Seq<char>, JsonView)>,
    def: Definition,
) -> Seq<(Seq<char>, Seq<Seq<char>>)> {
    crate::attribute::spec_add_all_entries(
        spec_build_scoped(Seq::empty(), d, def.variables@, def.themes@),
        spec_non_directive(d),
    )
}

/// The void elements, which render self-closing and carry no content.
pub open spec fn spec_void_element(tag: Seq<char>) -> bool {
    tag == "area"@ || tag == "base"@ || tag == "br"@ || tag == "col"@ || tag == "embed"@ || tag
        == "hr"@ || tag == "img"@ || tag == "input"@ || tag == "link"@ || tag == "meta"@ || tag
        == "source"@ || tag == "track"@ || tag == "wbr"@ || tag == "use"@
}

/// One element's markup: a void tag closes itself with a blank before the
/// slash; any other tag wraps its content.
pub open spec fn spec_render_element(
    tag: Seq<char>,
    attrs: Seq<(Seq<char>, Seq<Seq<char>>)>,
    content: Seq<char>,
) -> Seq<char> {
    if spec_void_element(tag) {
        "<"@ + tag + spec_attr_html(attrs) + " />"@
    } else {
        "<"@ + tag + spec_attr_html(attrs) + ">"@ + content + "</"@ + tag + ">"@
    }
}

/// What building a node without a template engine produces: elements render
/// fully; everything else degrades to a visible warning marker.
pub open spec fn spec_build_output(d: Seq<(Seq<char>, JsonView)>, def: Definition) -> Seq<char> {
    if spec_renderable_type(d) is Element {
        spec_render_element(spec_element_tag(d), spec_element_attrs(d, def), spec_content_string(d))
    } else {
        "[Warn] no render for: "@ + spec_type_name(spec_renderable_type(d))
    }
}

/// Anything that renders to HTML text.
pub trait Html {
    spec fn html_spec(&self) -> Seq<char>;

    fn to_html_string(&self) -> (r: String)
        ensures
            r@ == self.html_spec(),
    ;
}

impl Html for String {
    open spec fn html_spec(&self) -> Seq<char> {
        self@
    }

    fn to_html_string(&self) -> (r: String) {
        self.clone()
    }
}

/// One payload object node resolved for rendering: its kind, its plain
/// fields, its attributes, and the data each kind needs.
pub struct Renderable {
    pub attributes: Attribute,
    pub data: JsonMap,
    pub fields: JsonMap,
    pub output: String,
    pub renderable_type: RenderableType,
    pub component_name: String,
    pub component_template: String,
    pub template_source: String,
    pub element_tag: String,
    pub element_content: String,
}

impl Html for Renderable {
    open spec fn html_spec(&self) -> Seq<char> {
        self.output@
    }

    fn to_html_string(&self) -> (r: String) {
        self.output.clone()
    }
}

impl Renderable {
    pub fn new(data: JsonMap) -> (r: Renderable)
        ensures
            r.data@ == data@,
            r.output@ == Seq::<char>::empty(),
            r.attributes@ =~= Seq::<(Seq<char>, Seq<Seq<char>>)>::empty(),
            r.renderable_type == RenderableType::Unknown,
            r.element_content@ == Seq::<char>::empty(),
            r.element_tag@ == Seq::<char>::empty(),
            r.fields@ =~= Seq::<(Seq<char>, JsonView)>::empty(),
            r.component_name@ == Seq::<char>::empty(),
            r.component_template@ == Seq::<char>::empty(),
            r.template_source@ == Seq::<char>::empty(),
    {
        Renderable {
            attributes: Attribute::new(),
            data,
            fields: JsonMap::new(),
            output: String::new(),
            renderable_type: RenderableType::Unknown,
            component_name: String::new(),
            component_template: String::new(),
            template_source: String::new(),
            element_tag: String::new(),
            element_content: String::new(),
        }
    }

    pub fn output(&self) -> (r: String)
        ensures
            r@ == self.output@,
    {
        self.output.clone()
    }

    pub fn add_attr(&mut self, name: &str, class: String)
        ensures
            final(self).attributes@ == spec_add_attr(
                old(self).attributes@,
                name@,
                seq![class@],
            ),
            final(self).output == old(self).output,
            final(self).data == old(self).data,
    {
        broadcast use crate::assoc::group_views;

        let ghost cv = class@;
        let vals = vec![class];
        proof {
            assert(strs_view(vals@) =~= seq![cv]);
        }
        self.attributes.add_attr(name, vals);
    }

    /// The classification of this node's data.
    pub fn set_type_from_data(&mut self)
        ensures
            final(self).renderable_type == spec_renderable_type(old(self).data@),
            final(self).data == old(self).data,
            final(self).output == old(self).output,
            final(self).attributes == old(self).attributes,
            final(self).element_content == old(self).element_content,
    {
        if self.data.contains_key("@element") {
            self.renderable_type = RenderableType::Element;
        } else if self.data.contains_key("@component") {
            self.renderable_type = RenderableType::Component;
        } else if self.data.contains_key("@template") {
            self.renderable_type = RenderableType::Template;
        } else {
            self.renderable_type = RenderableType::Unknown;
        }
    }

    pub(crate) fn set_element_tag(&mut self)
        ensures
            final(self).element_tag@ == spec_element_tag(old(self).data@),
            final(self).data == old(self).data,
            final(self).output == old(self).output,
            final(self).attributes == old(self).attributes,
            final(self).element_content == old(self).element_content,
            final(self).renderable_type == old(self).renderable_type,
    {
        let tag = match self.data.get("@element") {
            Some(v) => match v {
                JsonValue::Str(s) => s.clone(),
                _ => String::new(),
            },
            None => String::new(),
        };
        self.element_tag = tag;
    }

    /// The content directive as plain text, for the engine-less path.
    fn set_element_content_string(&mut self)
        ensures
            final(self).element_content@ == spec_content_string(old(self).data@),
            final(self).data == old(self).data,
            final(self).output == old(self).output,
            final(self).attributes == old(self).attributes,
            final(self).renderable_type == old(self).renderable_type,
    {
        broadcast use group_jv_view;

        self.element_content = String::new();
        let ghost base = self.element_content@;
        match self.data.get("@content") {
            Some(v) => {
                match v {
                    JsonValue::Str(s) => {
                        self.element_content.append(s.as_str());
                    },
                    JsonValue::Array(items) => {
                        let ghost iv = jv_view_seq(items@);
                        let mut i: usize = 0;
                        while i < items.len()
                            invariant
                                i <= items@.len(),
                                iv == jv_view_seq(items@),
                                self.element_content@ == base + spec_concat_strings(
                                    iv.take(i as int),
                                ),
                                self.data == old(self).data,
                                self.output == old(self).output,
                                self.attributes == old(self).attributes,
                                self.renderable_type == old(self).renderable_type,
                            decreases items@.len() - i,
                        {
                            match &items[i] {
                                JsonValue::Str(s) => {
                                    self.element_content.append(s.as_str());
                                },
                                _ => {},
                            }
                            proof {
                                assert(iv.take(i + 1 as int).drop_last() =~= iv.take(i as int));
                                assert(iv.take(i + 1 as int).last() == iv[i as int]);
                            }
                            i = i + 1;
                        }
                        proof {
                            assert(iv.take(iv.len() as int) =~= iv);
                        }
                    },
                    _ => {},
                }
            },
            None => {},
        }
        proof {
            assert(self.element_content@ =~= spec_content_string(old(self).data@));
        }
    }

    /// A copy of the non-directive entries of this node's data.
    pub fn non_directive_fields(&self) -> (r: Vec<(String, JsonValue)>)
        ensures
            jv_view_entries(r@) == spec_non_directive(self.data@),
    {
        broadcast use group_jv_view;

        let m = &self.data.entries;
        let ghost ents = jv_view_entries(m@);
        let mut out: Vec<(String, JsonValue)> = Vec::new();
        let mut i: usize = 0;
        while i < m.len()
            invariant
                i <= m@.len(),
                ents == jv_view_entries(m@),
                jv_view_entries(out@) =~= spec_non_directive(ents.take(i as int)),
            decreases m@.len() - i,
        {
            let ghost pre = out@;
            if !has_prefix_at(m[i].0.as_str()) {
                let key = m[i].0.clone();
                let val = jv_copy(&m[i].1);
                out.push((key, val));
                proof {
                    assert(out@.drop_last() =~= pre);
                }
            }
            proof {
                assert(ents.take(i + 1 as int).drop_last() =~= ents.take(i as int));
                assert(ents.take(i + 1 as int).last() == ents[i as int]);
                assert(jv_view_entries(out@) =~= spec_non_directive(ents.take(i + 1 as int)));
            }
            i = i + 1;
        }
        proof {
            assert(ents.take(ents.len() as int) =~= ents);
        }
        out
    }

    pub(crate) fn set_element_attributes(&mut self, def: &Definition)
        ensures
            final(self).attributes@ == spec_element_attrs(old(self).data@, *def),
            final(self).data == old(self).data,
            final(self).output == old(self).output,
            final(self).element_content == old(self).element_content,
            final(self).element_tag == old(self).element_tag,
            final(self).renderable_type == old(self).renderable_type,
    {
        let plain = self.non_directive_fields();
        let mut obj_attributes = Attribute::new();
        obj_attributes.build_scoped(&self.data, def);
        let plain_obj = JsonValue::Object(plain);
        obj_attributes.add_attr_from_serde(&plain_obj);
        self.attributes = obj_attributes;
    }

    fn is_void_tag(tag: &str) -> (r: bool)
        ensures
            r == spec_void_element(tag@),
    {
        str_eq(tag, "area") || str_eq(tag, "base") || str_eq(tag, "br") || str_eq(tag, "col")
            || str_eq(tag, "embed") || str_eq(tag, "hr") || str_eq(tag, "img") || str_eq(
            tag,
            "input",
        ) || str_eq(tag, "link") || str_eq(tag, "meta") || str_eq(tag, "source") || str_eq(
            tag,
            "track",
        ) || str_eq(tag, "wbr") || str_eq(tag, "use")
    }

    /// Renders the resolved element into its markup.
    pub fn render_element(&mut self)
        ensures
            final(self).output@ == spec_render_element(
                old(self).element_tag@,
                old(self).attributes@,
                old(self).element_content@,
            ),
            final(self).data == old(self).data,
            final(self).renderable_type == old(self).renderable_type,
    {
        let attrs = self.attributes.to_html_string();
        let mut out = String::new();
        out.append("<");
        out.append(self.element_tag.as_str());
        out.append(attrs.as_str());
        if Self::is_void_tag(self.element_tag.as_str()) {
            out.append(" />");
        } else {
            out.append(">");
            out.append(self.element_content.as_str());
            out.append("</");
            out.append(self.element_tag.as_str());
            out.append(">");
        }
        self.output = out;
    }

    /// Builds and renders this node without a template engine: an element
    /// renders fully, anything else leaves a warning marker.
    pub fn build(&mut self, def: &Definition)
        ensures
            final(self).output@ == spec_build_output(old(self).data@, *def),
            final(self).data == old(self).data,
            final(self).renderable_type == spec_renderable_type(old(self).data@),
    {
        self.set_type_from_data();
        match self.renderable_type {
            RenderableType::Element => {
                self.set_element_content_string();
                self.set_element_tag();
                self.set_element_attributes(def);
                self.render_element();
            },
            RenderableType::Component => {
                let mut out = String::new();
                out.append("[Warn] no render for: ");
                out.append("Component");
                proof {
                    assert(out@ =~= spec_build_output(old(self).data@, *def));
                }
                self.output = out;
            },
            RenderableType::Template => {
                let mut out = String::new();
                out.append("[Warn] no render for: ");
                out.append("Template");
                proof {
                    assert(out@ =~= spec_build_output(old(self).data@, *def));
                }
                self.output = out;
            },
            RenderableType::Unknown => {
                let mut out = String::new();
                out.append("[Warn] no render for: ");
                out.append("Unknown");
                proof {
                    assert(out@ =~= spec_build_output(old(self).data@, *def));
                }
                self.output = out;
            },
        }
    }

    /// A ready-made stylesheet link tag.
    pub fn link(href: &str, attrs: &JsonValue) -> (r: Renderable)
        ensures
            r.output@ == spec_link_html(href@, jv_view(*attrs)),
    {
        broadcast use crate::assoc::group_views;

        let mut defined = Attribute::new();
        let tvals = vec!["text/css".to_owned()];
        proof {
            assert(strs_view(tvals@) =~= seq!["text/css"@]);
        }
        defined.add_attr("type", tvals);
        let rvals = vec!["stylesheet".to_owned()];
        proof {
            assert(strs_view(rvals@) =~= seq!["stylesheet"@]);
        }
        defined.add_attr("rel", rvals);
        let hvals = vec![href.to_owned()];
        proof {
            assert(strs_view(hvals@) =~= seq![href@]);
        }
        defined.add_attr("href", hvals);
        defined.add_attr_from_serde(attrs);
        let mut r = Renderable::new(JsonMap::new());
        r.renderable_type = RenderableType::Element;
        let mut tag = String::new();
        tag.append("link");
        proof {
            assert(tag@ =~= "link"@);
        }
        r.element_tag = tag;
        r.attributes = defined;
        r.render_element();
        r
    }

    /// A ready-made script tag.
    pub fn script(src: &str, attrs: &JsonValue) -> (r: Renderable)
        ensures
            r.output@ == spec_script_html(src@, jv_view(*attrs)),
    {
        broadcast use crate::assoc::group_views;

        let mut defined = Attribute::new();
        let svals = vec![src.to_owned()];
        proof {
            assert(strs_view(svals@) =~= seq![src@]);
        }
        defined.add_attr("src", svals);
        defined.add_attr_from_serde(attrs);
        let mut r = Renderable::new(JsonMap::new());
        r.renderable_type = RenderableType::Element;
        let mut tag = String::new();
        tag.append("script");
        proof {
            assert(tag@ =~= "script"@);
            lemma_script_not_void();
        }
        r.element_tag = tag;
        r.attributes = defined;
        r.render_element();
        r
    }
}

/// The markup of a stylesheet link built for a url with extra attributes.
pub open spec fn spec_link_html(href: Seq<char>, attrs: JsonView) -> Seq<char> {
    spec_render_element(
        "link"@,
        spec_add_all(
            spec_add_attr(
                spec_add_attr(
                    spec_add_attr(Seq::empty(), "type"@, seq!["text/css"@]),
                    "rel"@,
                    seq!["stylesheet"@],
                ),
                "href"@,
                seq![href],
            ),
            attrs,
        ),
        Seq::empty(),
    )
}

/// The markup of a script tag built for a url with extra attributes.
pub open spec fn spec_script_html(src: Seq<char>, attrs: JsonView) -> Seq<char> {
    spec_render_element(
        "script"@,
        spec_add_all(spec_add_attr(Seq::empty(), "src"@, seq![src]), attrs),
        Seq::empty(),
    )
}

/// Whether a payload value carries one of the three renderable markers.
pub open spec fn spec_is_renderable(v: JsonView) -> bool {
    match v {
        JsonView::Object(d) => jm_contains(d, "@element"@) || jm_contains(d, "@component"@)
            || jm_contains(d, "@template"@),
        _ => false,
    }
}

pub fn is_renderable(v: &JsonValue) -> (r: bool)
    ensures
        r == spec_is_renderable(jv_view(*v)),
{
    match v {
        JsonValue::Object(m) => {
            let map = JsonMap { entries: jm_copy_entries(m) };
            let r = map.contains_key("@element") || map.contains_key("@component")
                || map.contains_key("@template");
            r
        },
        _ => false,
    }
}

/// The classification of any payload value: objects by their markers,
/// anything else unknown.
pub open spec fn spec_value_renderable_type(v: JsonView) -> RenderableType {
    match v {
        JsonView::Object(d) => spec_renderable_type(d),
        _ => RenderableType::Unknown,
    }
}

pub fn get_renderable_type_from(v: &JsonValue) -> (r: RenderableType)
    ensures
        r == spec_value_renderable_type(jv_view(*v)),
{
    match v {
        JsonValue::Object(m) => {
            let map = JsonMap { entries: jm_copy_entries(m) };
            if map.contains_key("@element") {
                RenderableType::Element
            } else if map.contains_key("@component") {
                RenderableType::Component
            } else if map.contains_key("@template") {
                RenderableType::Template
            } else {
                RenderableType::Unknown
            }
        },
        _ => RenderableType::Unknown,
    }
}

/// The script tag is not a void element.
proof fn lemma_script_not_void()
    ensures
        !spec_void_element("script"@),
{
    reveal_strlit("script");
    reveal_strlit("area");
    reveal_strlit("base");
    reveal_strlit("br");
    reveal_strlit("col");
    reveal_strlit("embed");
    reveal_strlit("hr");
    reveal_strlit("img");
    reveal_strlit("input");
    reveal_strlit("link");
    reveal_strlit("meta");
    reveal_strlit("source");
    reveal_strlit("track");
    reveal_strlit("wbr");
    reveal_strlit("use");
    assert("script"@.len() == 6);
    assert("area"@.len() == 4);
    assert("base"@.len() == 4);
    assert("br"@.len() == 2);
    assert("col"@.len() == 3);
    assert("embed"@.len() == 5);
    assert("hr"@.len() == 2);
    assert("img"@.len() == 3);
    assert("input"@.len() == 5);
    assert("link"@.len() == 4);
    assert("meta"@.len() == 4);
    assert("source"@.len() == 6);
    assert("track"@.len() == 5);
    assert("wbr"@.len() == 3);
    assert("use"@.len() == 3);
    assert("script"@[1] == 'c');
    assert("source"@[1] == 'o');
}

} // verus!
