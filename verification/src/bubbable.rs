use vstd::prelude::*;

verus! {

use vstd::string::StringExecFns;
use crate::strutil::{push_char, str_eq};
use crate::value::{
    JsonValue, JsonView, jv_view, jv_view_seq, jv_view_entries, jm_contains, jm_get, group_jv_view,
    jv_copy, jv_size, jv_size_seq, jv_size_entries, lemma_jv_size_seq_elem,
    lemma_jv_size_entries_elem, spec_json_compact, to_json_compact, JsonMap,
};
use crate::assoc::{
    strs_view, skey_contains, skey_get, sset_contains, assoc_get, assoc_contains, names_contain,
    group_views,
};
use crate::definition::{Definition, JsAsset};
use crate::renderable::{Renderable, spec_build_output, spec_link_html};

// ---------------------------------------------------------------------------
// The abstract state of the bubbling collector.
// ---------------------------------------------------------------------------

/// What the bubbling pass has gathered: seen components, attached head
/// markup, stylesheet markup and scripts, the variables table, and the
/// translation dictionary.
#[verifier::ext_equal]
pub struct BubView {
    pub component: Seq<Seq<char>>,
    pub attached: Seq<char>,
    pub css: Seq<Seq<char>>,
    pub js: Seq<(Seq<char>, JsonView)>,
    pub style: Seq<char>,
    pub translation: Seq<(Seq<char>, Seq<char>)>,
    pub variables: Seq<(Seq<char>, Seq<(Seq<char>, JsonView)>)>,
}

/// Whether one of the strings is exactly `x`.
pub open spec fn sseq_contains(s: Seq<Seq<char>>, x: Seq<char>) -> bool {
    exists|i: int| 0 <= i < s.len() && #[trigger] s[i] == x
}

/// Index of the first entry with this key, or -1, over view-level pairs.
pub open spec fn kv_index_of<T>(s: Seq<(Seq<char>, T)>, k: Seq<char>) -> int
    decreases s,
{
    if s.len() == 0 {
        -1
    } else if s[0].0 == k {
        0
    } else {
        let r = kv_index_of(s.drop_first(), k);
        if r < 0 {
            -1
        } else {
            r + 1
        }
    }
}

pub open spec fn kv_contains<T>(s: Seq<(Seq<char>, T)>, k: Seq<char>) -> bool {
    kv_index_of(s, k) >= 0
}

pub proof fn lemma_kv_index_of<T>(s: Seq<(Seq<char>, T)>, k: Seq<char>)
    ensures
        kv_index_of(s, k) == -1 ==> forall|j: int| 0 <= j < s.len() ==> s[j].0 != k,
        kv_index_of(s, k) >= 0 ==> 0 <= kv_index_of(s, k) < s.len() && s[kv_index_of(s, k)].0
            == k && forall|j: int| 0 <= j < kv_index_of(s, k) ==> s[j].0 != k,
    decreases s,
{
    if s.len() > 0 && s[0].0 != k {
        lemma_kv_index_of(s.drop_first(), k);
        assert forall|j: int| 1 <= j < s.len() implies s.drop_first()[j - 1] == s[j] by {}
    }
}

pub proof fn lemma_kv_index_of_is<T>(s: Seq<(Seq<char>, T)>, k: Seq<char>, i: int)
    requires
        0 <= i < s.len(),
        s[i].0 == k,
        forall|j: int| 0 <= j < i ==> s[j].0 != k,
    ensures
        kv_index_of(s, k) == i,
    decreases s,
{
    if i > 0 {
        lemma_kv_index_of_is(s.drop_first(), k, i - 1);
        assert forall|j: int| 1 <= j < s.len() implies s.drop_first()[j - 1] == s[j] by {}
    }
}

// ---------------------------------------------------------------------------
// Library assets.
// ---------------------------------------------------------------------------

/// A stylesheet added only when its markup is not already present.
pub open spec fn spec_css_add_unique(b: BubView, css: Seq<char>) -> BubView {
    if sseq_contains(b.css, css) {
        b
    } else {
        BubView { css: b.css.push(css), ..b }
    }
}

/// A script added only when its url is not already present: the first
/// occurrence wins.
pub open spec fn spec_js_add_first(b: BubView, url: Seq<char>, v: JsonView) -> BubView {
    if kv_contains(b.js, url) {
        b
    } else {
        BubView { js: b.js.push((url, v)), ..b }
    }
}

/// A script asset's attributes as an object of plain strings.
pub open spec fn spec_js_attrs(attrs: Seq<(String, String)>) -> Seq<(Seq<char>, JsonView)>
    decreases attrs,
{
    if attrs.len() == 0 {
        Seq::empty()
    } else {
        spec_js_attrs(attrs.drop_last()).push(
            (attrs.last().0@, JsonView::Str(attrs.last().1@)),
        )
    }
}

pub open spec fn spec_add_js_assets(b: BubView, assets: Seq<JsAsset>) -> BubView
    decreases assets,
{
    if assets.len() == 0 {
        b
    } else {
        let prev = spec_add_js_assets(b, assets.drop_last());
        spec_js_add_first(
            prev,
            assets.last().url@,
            JsonView::Object(spec_js_attrs(assets.last().attrs@)),
        )
    }
}

/// One library key's assets pulled in: its stylesheet markup if not already
/// present, and its scripts url by url, first occurrence winning.
pub open spec fn spec_add_library_assets(b: BubView, key: Seq<char>, def: Definition) -> BubView {
    let b1 = if skey_contains(def.libraries_css_html@, key) {
        spec_css_add_unique(b, skey_get(def.libraries_css_html@, key)@)
    } else {
        b
    };
    if skey_contains(def.libraries_js@, key) {
        spec_add_js_assets(b1, skey_get(def.libraries_js@, key)@)
    } else {
        b1
    }
}

/// A payload-named library dependency: only keys the design system declares
/// are honoured.
pub open spec fn spec_library_dependency(b: BubView, key: Seq<char>, def: Definition) -> BubView {
    if sset_contains(def.libraries_keys@, key) {
        spec_add_library_assets(b, key, def)
    } else {
        b
    }
}

/// A component's own assets: its stylesheet markup added outright, and its
/// scripts first-wins.
pub open spec fn spec_component_own_assets(b: BubView, name: Seq<char>, def: Definition) -> BubView {
    let b1 = if skey_contains(def.components_library_css_html@, name) {
        BubView { css: b.css.push(skey_get(def.components_library_css_html@, name)@), ..b }
    } else {
        b
    };
    if skey_contains(def.components_library_js@, name) {
        spec_add_js_assets(b1, skey_get(def.components_library_js@, name)@)
    } else {
        b1
    }
}

/// A component's declared dependencies, in order, keys outside the declared
/// set skipped.
pub open spec fn spec_component_dependencies_from(
    b: BubView,
    deps: Seq<String>,
    def: Definition,
) -> BubView
    decreases deps,
{
    if deps.len() == 0 {
        b
    } else {
        let prev = spec_component_dependencies_from(b, deps.drop_last(), def);
        spec_library_dependency(prev, deps.last()@, def)
    }
}

pub open spec fn spec_component_dependencies(b: BubView, name: Seq<char>, def: Definition) -> BubView {
    if skey_contains(def.components_library_dependencies@, name) {
        spec_component_dependencies_from(
            b,
            skey_get(def.components_library_dependencies@, name)@,
            def,
        )
    } else {
        b
    }
}

/// One component name handled once: dependencies first, then its own
/// assets, then the name marked as seen.
pub open spec fn spec_component_step(b: BubView, name: Seq<char>, def: Definition) -> BubView {
    if !sseq_contains(b.component, name) && sset_contains(def.components_with_library@, name) {
        let b1 = spec_component_dependencies(b, name, def);
        let b2 = spec_component_own_assets(b1, name, def);
        BubView { component: b2.component.push(name), ..b2 }
    } else {
        b
    }
}

/// The variant-qualified component name, when the node names a declared
/// variant of a component that has variant templates.
pub open spec fn spec_component_name_variant(
    name: Seq<char>,
    d: Seq<(Seq<char>, JsonView)>,
    def: Definition,
) -> Seq<char> {
    if jm_contains(d, "@variant"@) {
        match jm_get(d, "@variant"@) {
            JsonView::Str(variant) => {
                if variant.len() > 0 && skey_contains(def.components_variant_template@, name)
                    && sset_contains(skey_get(def.components_variant_template@, name)@, variant) {
                    name + "."@ + variant
                } else {
                    name
                }
            },
            _ => name,
        }
    } else {
        name
    }
}

/// The component directive: when the design system has components with
/// libraries, the plain name and (when one applies) the variant-qualified
/// name each pull in their assets once.
pub open spec fn spec_handle_component(
    b: BubView,
    v: JsonView,
    d: Seq<(Seq<char>, JsonView)>,
    def: Definition,
) -> BubView {
    if def.components_with_library@.len() == 0 {
        b
    } else {
        match v {
            JsonView::Str(name) => {
                let name_variant = if skey_contains(def.components_variant_template@, name) {
                    spec_component_name_variant(name, d, def)
                } else {
                    Seq::empty()
                };
                spec_component_step(spec_component_step(b, name, def), name_variant, def)
            },
            _ => b,
        }
    }
}

// ---------------------------------------------------------------------------
// The other bubbled directives.
// ---------------------------------------------------------------------------

/// Attached nodes rendered without a template engine, each followed by a
/// line break.
pub open spec fn spec_attached_items(b: BubView, items: Seq<JsonView>, def: Definition) -> BubView
    decreases items,
{
    if items.len() == 0 {
        b
    } else {
        let prev = spec_attached_items(b, items.drop_last(), def);
        match items.last() {
            JsonView::Object(ents) => BubView {
                attached: prev.attached + spec_build_output(ents, def) + "\n"@,
                ..prev
            },
            _ => prev,
        }
    }
}

pub open spec fn spec_handle_attached(b: BubView, v: JsonView, def: Definition) -> BubView {
    match v {
        JsonView::Array(items) => spec_attached_items(b, items, def),
        JsonView::Object(ents) => BubView {
            attached: b.attached + spec_build_output(ents, def) + "\n"@,
            ..b
        },
        _ => b,
    }
}

/// A scope's variable set with one name overwritten or appended.
pub open spec fn spec_group_set(
    g: Seq<(Seq<char>, JsonView)>,
    k: Seq<char>,
    v: JsonView,
) -> Seq<(Seq<char>, JsonView)> {
    if jm_contains(g, k) {
        g.update(crate::value::jm_index_of(g, k), (k, v))
    } else {
        g.push((k, v))
    }
}

pub open spec fn spec_vars_group_merge(
    g: Seq<(Seq<char>, JsonView)>,
    inner: Seq<(Seq<char>, JsonView)>,
) -> Seq<(Seq<char>, JsonView)>
    decreases inner,
{
    if inner.len() == 0 {
        g
    } else {
        spec_group_set(
            spec_vars_group_merge(g, inner.drop_last()),
            inner.last().0,
            inner.last().1,
        )
    }
}

/// One variables scope folded in: the scope is created when absent, and an
/// object value overwrites its names one by one.
pub open spec fn spec_vars_scope(
    vars: Seq<(Seq<char>, Seq<(Seq<char>, JsonView)>)>,
    scope: Seq<char>,
    v: JsonView,
) -> Seq<(Seq<char>, Seq<(Seq<char>, JsonView)>)> {
    let base = if kv_contains(vars, scope) {
        vars
    } else {
        vars.push((scope, Seq::empty()))
    };
    let i = kv_index_of(base, scope);
    match v {
        JsonView::Object(inner) => base.update(
            i,
            (scope, spec_vars_group_merge(base[i].1, inner)),
        ),
        _ => base,
    }
}

pub open spec fn spec_vars_scopes(
    vars: Seq<(Seq<char>, Seq<(Seq<char>, JsonView)>)>,
    groups: Seq<(Seq<char>, JsonView)>,
) -> Seq<(Seq<char>, Seq<(Seq<char>, JsonView)>)>
    decreases groups,
{
    if groups.len() == 0 {
        vars
    } else {
        spec_vars_scope(
            spec_vars_scopes(vars, groups.drop_last()),
            groups.last().0,
            groups.last().1,
        )
    }
}

pub open spec fn spec_handle_variables(b: BubView, v: JsonView) -> BubView {
    match v {
        JsonView::Object(groups) => BubView {
            variables: spec_vars_scopes(b.variables, groups),
            ..b
        },
        _ => b,
    }
}

/// Explicit library entries named by the payload.
pub open spec fn spec_dependencies_items(b: BubView, items: Seq<JsonView>, def: Definition) -> BubView
    decreases items,
{
    if items.len() == 0 {
        b
    } else {
        let prev = spec_dependencies_items(b, items.drop_last(), def);
        match items.last() {
            JsonView::Str(name) => spec_library_dependency(prev, name, def),
            _ => spec_library_dependency(prev, Seq::empty(), def),
        }
    }
}

pub open spec fn spec_css_entries(b: BubView, ents: Seq<(Seq<char>, JsonView)>) -> BubView
    decreases ents,
{
    if ents.len() == 0 {
        b
    } else {
        let prev = spec_css_entries(b, ents.drop_last());
        spec_css_add_unique(prev, spec_link_html(ents.last().0, ents.last().1))
    }
}

pub open spec fn spec_js_entries(b: BubView, ents: Seq<(Seq<char>, JsonView)>) -> BubView
    decreases ents,
{
    if ents.len() == 0 {
        b
    } else {
        let prev = spec_js_entries(b, ents.drop_last());
        spec_js_add_first(prev, ents.last().0, ents.last().1)
    }
}

pub open spec fn spec_library_entry(b: BubView, kind: Seq<char>, v: JsonView, def: Definition) -> BubView {
    if !(v is Object || v is Array) {
        b
    } else if kind == "dependencies"@ {
        match v {
            JsonView::Array(items) => spec_dependencies_items(b, items, def),
            _ => b,
        }
    } else if kind == "css"@ {
        match v {
            JsonView::Object(ents) => spec_css_entries(b, ents),
            _ => b,
        }
    } else if kind == "js"@ {
        match v {
            JsonView::Object(ents) => spec_js_entries(b, ents),
            _ => b,
        }
    } else {
        b
    }
}

pub open spec fn spec_library_entries(
    b: BubView,
    ents: Seq<(Seq<char>, JsonView)>,
    def: Definition,
) -> BubView
    decreases ents,
{
    if ents.len() == 0 {
        b
    } else {
        spec_library_entry(
            spec_library_entries(b, ents.drop_last(), def),
            ents.last().0,
            ents.last().1,
            def,
        )
    }
}

pub open spec fn spec_handle_library(b: BubView, v: JsonView, def: Definition) -> BubView {
    match v {
        JsonView::Object(ents) => spec_library_entries(b, ents, def),
        _ => b,
    }
}

/// Translations: the first occurrence of each original wins; the stored
/// text is the translated value's JSON rendering.
pub open spec fn spec_trans_entries(
    tr: Seq<(Seq<char>, Seq<char>)>,
    ents: Seq<(Seq<char>, JsonView)>,
) -> Seq<(Seq<char>, Seq<char>)>
    decreases ents,
{
    if ents.len() == 0 {
        tr
    } else {
        let prev = spec_trans_entries(tr, ents.drop_last());
        if kv_contains(prev, ents.last().0) {
            prev
        } else {
            prev.push((ents.last().0, spec_json_compact(ents.last().1)))
        }
    }
}

pub open spec fn spec_handle_trans(b: BubView, v: JsonView) -> BubView {
    match v {
        JsonView::Object(ents) => BubView {
            translation: spec_trans_entries(b.translation, ents),
            ..b
        },
        _ => b,
    }
}

// ---------------------------------------------------------------------------
// The walk.
// ---------------------------------------------------------------------------

/// One full bubbling pass over a payload value: directive keys dispatch to
/// their handler and are not walked into; all other values are walked.
pub open spec fn spec_collect(b: BubView, v: JsonView, def: Definition) -> BubView
    decreases jv_size(v), 0int,
{
    match v {
        JsonView::Object(ents) => spec_collect_upto(b, ents, ents.len() as int, def),
        JsonView::Array(items) => spec_collect_items_upto(b, items, items.len() as int, def),
        _ => b,
    }
}

/// The first `i` entries of an object folded in, in order.
pub open spec fn spec_collect_upto(
    b: BubView,
    whole: Seq<(Seq<char>, JsonView)>,
    i: int,
    def: Definition,
) -> BubView
    decreases jv_size_entries(whole), i,
    when 0 <= i <= whole.len()
    via spec_collect_upto_decreases
{
    if i <= 0 {
        b
    } else {
        let prev = spec_collect_upto(b, whole, i - 1, def);
        let e = whole[i - 1];
        if e.0 == "@component"@ {
            spec_handle_component(prev, e.1, whole, def)
        } else if e.0 == "@attached"@ {
            spec_handle_attached(prev, e.1, def)
        } else if e.0 == "@variables"@ {
            spec_handle_variables(prev, e.1)
        } else if e.0 == "@library"@ {
            spec_handle_library(prev, e.1, def)
        } else if e.0 == "@trans"@ {
            spec_handle_trans(prev, e.1)
        } else {
            spec_collect(prev, e.1, def)
        }
    }
}

#[via_fn]
proof fn spec_collect_upto_decreases(
    b: BubView,
    whole: Seq<(Seq<char>, JsonView)>,
    i: int,
    def: Definition,
) {
    if 0 < i <= whole.len() {
        lemma_jv_size_entries_elem(whole, i - 1);
    }
}

/// The first `i` items of a list folded in, in order.
pub open spec fn spec_collect_items_upto(
    b: BubView,
    items: Seq<JsonView>,
    i: int,
    def: Definition,
) -> BubView
    decreases jv_size_seq(items), i,
    when 0 <= i <= items.len()
    via spec_collect_items_upto_decreases
{
    if i <= 0 {
        b
    } else {
        spec_collect(spec_collect_items_upto(b, items, i - 1, def), items[i - 1], def)
    }
}

#[via_fn]
proof fn spec_collect_items_upto_decreases(
    b: BubView,
    items: Seq<JsonView>,
    i: int,
    def: Definition,
) {
    if 0 < i <= items.len() {
        lemma_jv_size_seq_elem(items, i - 1);
    }
}

// ---------------------------------------------------------------------------
// The executable collector.
// ---------------------------------------------------------------------------

/// The views of the variables table, scope by scope.
pub open spec fn vars_view(s: Seq<(String, JsonMap)>) -> Seq<(Seq<char>, Seq<(Seq<char>, JsonView)>)>
    decreases s,
{
    if s.len() == 0 {
        Seq::empty()
    } else {
        vars_view(s.drop_last()).push((s.last().0@, s.last().1@))
    }
}

pub broadcast proof fn lemma_vars_view_len(s: Seq<(String, JsonMap)>)
    ensures
        #[trigger] vars_view(s).len() == s.len(),
    decreases s,
{
    if s.len() > 0 {
        lemma_vars_view_len(s.drop_last());
    }
}

pub broadcast proof fn lemma_vars_view_index(s: Seq<(String, JsonMap)>, i: int)
    requires
        0 <= i < s.len(),
    ensures
        #[trigger] vars_view(s)[i] == (s[i].0@, s[i].1@),
    decreases s,
{
    lemma_vars_view_len(s);
    if s.len() > 0 && i < s.len() - 1 {
        lemma_vars_view_index(s.drop_last(), i);
    }
}

pub broadcast group group_bub_views {
    lemma_vars_view_len,
    lemma_vars_view_index,
}

pub proof fn lemma_sset_strs_pub(v: Seq<String>, k: Seq<char>)
    ensures
        sset_contains(v, k) == sseq_contains(strs_view(v), k),
{
    broadcast use group_views;

    if sset_contains(v, k) {
        let i = choose|i: int| 0 <= i < v.len() && #[trigger] v[i]@ == k;
        assert(strs_view(v)[i] == k);
    }
    if sseq_contains(strs_view(v), k) {
        let i = choose|i: int| 0 <= i < strs_view(v).len() && #[trigger] strs_view(v)[i] == k;
        assert(v[i]@ == k);
    }
}

/// The CSS and JS assets gathered for one render.
pub struct Library {
    pub css: Vec<String>,
    pub js: Vec<(String, JsonValue)>,
}

impl Library {
    fn new() -> (r: Library)
        ensures
            strs_view(r.css@) =~= Seq::<Seq<char>>::empty(),
            jv_view_entries(r.js@) =~= Seq::<(Seq<char>, JsonView)>::empty(),
    {
        Library { css: Vec::new(), js: Vec::new() }
    }

    fn add_css(&mut self, css: String)
        ensures
            strs_view(final(self).css@) == strs_view(old(self).css@).push(css@),
            final(self).js == old(self).js,
    {
        let ghost pre = self.css@;
        self.css.push(css);
        proof {
            assert(self.css@.drop_last() =~= pre);
        }
    }

    fn has_js(&self, key: &str) -> (r: bool)
        ensures
            r == kv_contains(jv_view_entries(self.js@), key@),
    {
        broadcast use group_jv_view;

        proof {
            lemma_kv_index_of(jv_view_entries(self.js@), key@);
        }
        let mut i: usize = 0;
        while i < self.js.len()
            invariant
                i <= self.js@.len(),
                forall|j: int| 0 <= j < i ==> jv_view_entries(self.js@)[j].0 != key@,
            decreases self.js@.len() - i,
        {
            if str_eq(self.js[i].0.as_str(), key) {
                proof {
                    lemma_kv_index_of_is(jv_view_entries(self.js@), key@, i as int);
                }
                return true;
            }
            i = i + 1;
        }
        false
    }

    fn add_js(&mut self, key: String, value: JsonValue)
        ensures
            kv_contains(jv_view_entries(old(self).js@), key@) ==> *final(self) == *old(self),
            !kv_contains(jv_view_entries(old(self).js@), key@) ==> jv_view_entries(
                final(self).js@,
            ) == jv_view_entries(old(self).js@).push((key@, jv_view(value)))
                && final(self).css == old(self).css,
    {
        broadcast use group_jv_view;

        if !self.has_js(key.as_str()) {
            let ghost pre = self.js@;
            self.js.push((key, value));
            proof {
                assert(self.js@.drop_last() =~= pre);
            }
        }
    }
}

/// The bubbling collector: one pass over the whole payload gathers attached
/// head markup, library assets, CSS variables and translations, wherever
/// they sit in the tree.
pub struct Bubbable {
    pub component: Vec<String>,
    pub attached_build: String,
    pub library: Library,
    pub style: String,
    pub translation: Vec<(String, String)>,
    pub variables: Vec<(String, JsonMap)>,
}

impl View for Bubbable {
    type V = BubView;

    open spec fn view(&self) -> BubView {
        BubView {
            component: strs_view(self.component@),
            attached: self.attached_build@,
            css: strs_view(self.library.css@),
            js: jv_view_entries(self.library.js@),
            style: self.style@,
            translation: crate::assoc::kvs_view(self.translation@),
            variables: vars_view(self.variables@),
        }
    }
}

impl Bubbable {
    pub fn new() -> (r: Bubbable)
        ensures
            r@.component =~= Seq::<Seq<char>>::empty(),
            r@.attached =~= Seq::<char>::empty(),
            r@.css =~= Seq::<Seq<char>>::empty(),
            r@.js =~= Seq::<(Seq<char>, JsonView)>::empty(),
            r@.style =~= Seq::<char>::empty(),
            r@.translation =~= Seq::<(Seq<char>, Seq<char>)>::empty(),
            r@.variables =~= Seq::<(Seq<char>, Seq<(Seq<char>, JsonView)>)>::empty(),
    {
        Bubbable {
            component: Vec::new(),
            attached_build: String::new(),
            library: Library::new(),
            style: String::new(),
            translation: Vec::new(),
            variables: Vec::new(),
        }
    }

    /// The translation dictionary gathered so far, as owned pairs.
    pub fn translation_pairs(&self) -> (r: Vec<(String, String)>)
        ensures
            crate::assoc::kvs_view(r@) == self@.translation,
    {
        broadcast use group_views;

        let mut out: Vec<(String, String)> = Vec::new();
        let mut i: usize = 0;
        while i < self.translation.len()
            invariant
                i <= self.translation@.len(),
                crate::assoc::kvs_view(out@) =~= crate::assoc::kvs_view(
                    self.translation@,
                ).take(i as int),
            decreases self.translation@.len() - i,
        {
            let ghost pre = out@;
            out.push((self.translation[i].0.clone(), self.translation[i].1.clone()));
            proof {
                assert(out@.drop_last() =~= pre);
                assert(crate::assoc::kvs_view(out@) =~= crate::assoc::kvs_view(
                    self.translation@,
                ).take(i + 1 as int));
            }
            i = i + 1;
        }
        proof {
            let m = crate::assoc::kvs_view(self.translation@);
            assert(m.take(m.len() as int) =~= m);
        }
        out
    }

    fn add_library_assets(&mut self, key: &str, def: &Definition)
        ensures
            final(self)@ == spec_add_library_assets(old(self)@, key@, *def),
    {
        broadcast use group_views;

        match assoc_get(&def.libraries_css_html, key) {
            Some(html) => {
                if !names_contain(&self.library.css, html.as_str()) {
                    proof {
                        lemma_sset_strs_pub(self.library.css@, html@);
                    }
                    self.library.add_css(html.clone());
                } else {
                    proof {
                        lemma_sset_strs_pub(self.library.css@, html@);
                    }
                }
            },
            None => {},
        }
        match assoc_get(&def.libraries_js, key) {
            Some(assets) => {
                self.add_js_assets(assets);
            },
            None => {},
        }
    }

    fn add_js_assets(&mut self, assets: &Vec<JsAsset>)
        ensures
            final(self)@ == spec_add_js_assets(old(self)@, assets@),
    {
        broadcast use group_views, group_jv_view;

        let mut i: usize = 0;
        while i < assets.len()
            invariant
                i <= assets@.len(),
                self@ == spec_add_js_assets(old(self)@, assets@.take(i as int)),
            decreases assets@.len() - i,
        {
            let asset = &assets[i];
            let mut attrs: Vec<(String, JsonValue)> = Vec::new();
            let mut j: usize = 0;
            while j < asset.attrs.len()
                invariant
                    j <= asset.attrs@.len(),
                    jv_view_entries(attrs@) =~= spec_js_attrs(asset.attrs@.take(j as int)),
                decreases asset.attrs@.len() - j,
            {
                let ghost pre = attrs@;
                attrs.push((asset.attrs[j].0.clone(), JsonValue::Str(asset.attrs[j].1.clone())));
                proof {
                    assert(attrs@.drop_last() =~= pre);
                    assert(asset.attrs@.take(j + 1 as int).drop_last() =~= asset.attrs@.take(
                        j as int,
                    ));
                    assert(jv_view_entries(attrs@) =~= spec_js_attrs(
                        asset.attrs@.take(j + 1 as int),
                    ));
                }
                j = j + 1;
            }
            proof {
                assert(asset.attrs@.take(asset.attrs@.len() as int) =~= asset.attrs@);
            }
            self.library.add_js(asset.url.clone(), JsonValue::Object(attrs));
            proof {
                assert(assets@.take(i + 1 as int).drop_last() =~= assets@.take(i as int));
                assert(assets@.take(i + 1 as int).last() == assets@[i as int]);
                assert(self@ =~= spec_add_js_assets(old(self)@, assets@.take(i + 1 as int)));
            }
            i = i + 1;
        }
        proof {
            assert(assets@.take(assets@.len() as int) =~= assets@);
        }
    }

    fn build_library_dependencies(&mut self, name: &str, def: &Definition)
        ensures
            final(self)@ == spec_library_dependency(old(self)@, name@, *def),
    {
        if names_contain(&def.libraries_keys, name) {
            self.add_library_assets(name, def);
        }
    }

    fn build_component_library_component(&mut self, name: &str, def: &Definition)
        ensures
            final(self)@ == spec_component_own_assets(old(self)@, name@, *def),
    {
        broadcast use group_views;

        match assoc_get(&def.components_library_css_html, name) {
            Some(html) => {
                self.library.add_css(html.clone());
            },
            None => {},
        }
        match assoc_get(&def.components_library_js, name) {
            Some(assets) => {
                self.add_js_assets(assets);
            },
            None => {},
        }
    }

    fn build_component_library_dependencies(&mut self, name: &str, def: &Definition)
        ensures
            final(self)@ == spec_component_dependencies(old(self)@, name@, *def),
    {
        match assoc_get(&def.components_library_dependencies, name) {
            Some(deps) => {
                let deps = crate::value::copy_string_vec(deps);
                let mut i: usize = 0;
                while i < deps.len()
                    invariant
                        i <= deps@.len(),
                        self@ == spec_component_dependencies_from(
                            old(self)@,
                            deps@.take(i as int),
                            *def,
                        ),
                    decreases deps@.len() - i,
                {
                    self.build_library_dependencies(deps[i].as_str(), def);
                    proof {
                        assert(deps@.take(i + 1 as int).drop_last() =~= deps@.take(i as int));
                        assert(deps@.take(i + 1 as int).last() == deps@[i as int]);
                    }
                    i = i + 1;
                }
                proof {
                    assert(deps@.take(deps@.len() as int) =~= deps@);
                }
            },
            None => {},
        }
    }

    fn component_step(&mut self, name: &str, def: &Definition)
        ensures
            final(self)@ == spec_component_step(old(self)@, name@, *def),
    {
        broadcast use group_views;

        proof {
            lemma_sset_strs_pub(self.component@, name@);
        }
        if !names_contain(&self.component, name) && names_contain(
            &def.components_with_library,
            name,
        ) {
            self.build_component_library_dependencies(name, def);
            self.build_component_library_component(name, def);
            let ghost pre = self.component@;
            self.component.push(name.to_owned());
            proof {
                assert(self.component@.drop_last() =~= pre);
            }
        }
    }

    fn component_name_from_data(
        &self,
        name: &str,
        whole: &Vec<(String, JsonValue)>,
        def: &Definition,
    ) -> (r: String)
        ensures
            r@ == spec_component_name_variant(name@, jv_view_entries(whole@), *def),
    {
        broadcast use group_views;

        match crate::value::jm_find(whole, "@variant") {
            Some(v) => {
                match v {
                    JsonValue::Str(variant) => {
                        if variant.as_str().is_empty() {
                            return name.to_owned();
                        }
                        match assoc_get(&def.components_variant_template, name) {
                            Some(variants) => {
                                proof {
                                    lemma_sset_strs_pub(variants@, variant@);
                                }
                                if names_contain(variants, variant.as_str()) {
                                    let mut out: String = name.to_owned();
                                    out.append(".");
                                    out.append(variant.as_str());
                                    proof {
                                        reveal_strlit(".");
                                        assert(out@ =~= name@ + "."@ + variant@);
                                    }
                                    out
                                } else {
                                    name.to_owned()
                                }
                            },
                            None => name.to_owned(),
                        }
                    },
                    _ => name.to_owned(),
                }
            },
            None => name.to_owned(),
        }
    }

    fn handle_component(
        &mut self,
        value: &JsonValue,
        whole: &Vec<(String, JsonValue)>,
        def: &Definition,
    )
        ensures
            final(self)@ == spec_handle_component(
                old(self)@,
                jv_view(*value),
                jv_view_entries(whole@),
                *def,
            ),
    {
        if def.components_with_library.len() == 0 {
            return ;
        }
        match value {
            JsonValue::Str(name) => {
                let mut name_variant = String::new();
                if assoc_contains(&def.components_variant_template, name.as_str()) {
                    name_variant = self.component_name_from_data(name.as_str(), whole, def);
                }
                self.component_step(name.as_str(), def);
                self.component_step(name_variant.as_str(), def);
            },
            _ => {},
        }
    }

    fn handle_attached(&mut self, value: &JsonValue, def: &Definition)
        ensures
            final(self)@ == spec_handle_attached(old(self)@, jv_view(*value), *def),
    {
        broadcast use group_jv_view;

        match value {
            JsonValue::Array(items) => {
                let ghost iv = jv_view_seq(items@);
                let mut i: usize = 0;
                while i < items.len()
                    invariant
                        i <= items@.len(),
                        iv == jv_view_seq(items@),
                        self@ == spec_attached_items(old(self)@, iv.take(i as int), *def),
                    decreases items@.len() - i,
                {
                    match &items[i] {
                        JsonValue::Object(m) => {
                            let copied = crate::value::jm_copy_entries(m);
                            let mut renderable = Renderable::new(JsonMap { entries: copied });
                            renderable.build(def);
                            let html = renderable.output();
                            self.attached_build.append(html.as_str());
                            push_char(&mut self.attached_build, '\n');
                            proof {
                                reveal_strlit("\n");
                                assert(self.attached_build@ =~= spec_attached_items(
                                    old(self)@,
                                    iv.take(i as int),
                                    *def,
                                ).attached + spec_build_output(jv_view_entries(m@), *def)
                                    + "\n"@);
                            }
                        },
                        _ => {},
                    }
                    proof {
                        assert(iv.take(i + 1 as int).drop_last() =~= iv.take(i as int));
                        assert(iv.take(i + 1 as int).last() == iv[i as int]);
                        assert(self@ =~= spec_attached_items(
                            old(self)@,
                            iv.take(i + 1 as int),
                            *def,
                        ));
                    }
                    i = i + 1;
                }
                proof {
                    assert(iv.take(iv.len() as int) =~= iv);
                }
            },
            JsonValue::Object(m) => {
                let copied = crate::value::jm_copy_entries(m);
                let mut renderable = Renderable::new(JsonMap { entries: copied });
                renderable.build(def);
                let html = renderable.output();
                self.attached_build.append(html.as_str());
                push_char(&mut self.attached_build, '\n');
                proof {
                    reveal_strlit("\n");
                    assert(self.attached_build@ =~= old(self)@.attached + spec_build_output(
                        jv_view_entries(m@),
                        *def,
                    ) + "\n"@);
                    assert(self@ =~= spec_handle_attached(old(self)@, jv_view(*value), *def));
                }
            },
            _ => {},
        }
    }

    fn trans_contains(&self, k: &str) -> (r: bool)
        ensures
            r == kv_contains(crate::assoc::kvs_view(self.translation@), k@),
    {
        broadcast use group_views;

        proof {
            lemma_kv_index_of(crate::assoc::kvs_view(self.translation@), k@);
        }
        let mut j: usize = 0;
        while j < self.translation.len()
            invariant
                j <= self.translation@.len(),
                forall|t: int|
                    0 <= t < j ==> crate::assoc::kvs_view(self.translation@)[t].0 != k@,
            decreases self.translation@.len() - j,
        {
            if str_eq(self.translation[j].0.as_str(), k) {
                proof {
                    assert(crate::assoc::kvs_view(self.translation@)[j as int].0 == k@);
                    lemma_kv_index_of_is(crate::assoc::kvs_view(self.translation@), k@, j as int);
                }
                return true;
            }
            j = j + 1;
        }
        false
    }

    fn handle_trans(&mut self, value: &JsonValue)
        ensures
            final(self)@ == spec_handle_trans(old(self)@, jv_view(*value)),
    {
        broadcast use group_views, group_jv_view;

        match value {
            JsonValue::Object(ents) => {
                let ghost ev = jv_view_entries(ents@);
                let mut i: usize = 0;
                while i < ents.len()
                    invariant
                        i <= ents@.len(),
                        ev == jv_view_entries(ents@),
                        crate::assoc::kvs_view(self.translation@) == spec_trans_entries(
                            old(self)@.translation,
                            ev.take(i as int),
                        ),
                        self.component == old(self).component,
                        self.attached_build == old(self).attached_build,
                        self.library.css == old(self).library.css,
                        self.library.js == old(self).library.js,
                        self.style == old(self).style,
                        self.variables == old(self).variables,
                    decreases ents@.len() - i,
                {
                    let found = self.trans_contains(ents[i].0.as_str());
                    proof {
                        assert(ev[i as int].0 == ents@[i as int].0@);
                    }
                    if !found {
                        let key = ents[i].0.clone();
                        let text = to_json_compact(&ents[i].1);
                        let ghost pre = self.translation@;
                        self.translation.push((key, text));
                        proof {
                            assert(self.translation@.drop_last() =~= pre);
                        }
                    }
                    proof {
                        assert(ev.take(i + 1 as int).drop_last() =~= ev.take(i as int));
                        assert(ev.take(i + 1 as int).last() == ev[i as int]);
                        assert(crate::assoc::kvs_view(self.translation@) =~= spec_trans_entries(
                            old(self)@.translation,
                            ev.take(i + 1 as int),
                        ));
                    }
                    i = i + 1;
                }
                proof {
                    assert(ev.take(ev.len() as int) =~= ev);
                    assert(self@ =~= spec_handle_trans(old(self)@, jv_view(*value)));
                }
            },
            _ => {},
        }
    }
}

impl Bubbable {
    fn vars_index_of(&self, scope: &str) -> (r: Option<usize>)
        ensures
            match r {
                Some(i) => kv_index_of(vars_view(self.variables@), scope@) == i && i
                    < self.variables@.len(),
                None => !kv_contains(vars_view(self.variables@), scope@),
            },
    {
        broadcast use group_bub_views;

        proof {
            lemma_kv_index_of(vars_view(self.variables@), scope@);
        }
        let mut j: usize = 0;
        while j < self.variables.len()
            invariant
                j <= self.variables@.len(),
                forall|t: int| 0 <= t < j ==> vars_view(self.variables@)[t].0 != scope@,
            decreases self.variables@.len() - j,
        {
            if str_eq(self.variables[j].0.as_str(), scope) {
                proof {
                    assert(vars_view(self.variables@)[j as int].0 == scope@);
                    lemma_kv_index_of_is(vars_view(self.variables@), scope@, j as int);
                }
                return Some(j);
            }
            j = j + 1;
        }
        None
    }

    fn handle_one_scope(&mut self, scope: &str, gval: &JsonValue)
        ensures
            final(self)@ == (BubView {
                variables: spec_vars_scope(old(self)@.variables, scope@, jv_view(*gval)),
                ..old(self)@
            }),
    {
        broadcast use group_bub_views, group_jv_view;

        let idx: usize = match self.vars_index_of(scope) {
            Some(i) => i,
            None => {
                let ghost pre = self.variables@;
                self.variables.push((scope.to_owned(), JsonMap::new()));
                proof {
                    assert(self.variables@.drop_last() =~= pre);
                    assert(vars_view(self.variables@) =~= vars_view(pre).push(
                        (scope@, Seq::empty()),
                    ));
                    lemma_kv_index_of(vars_view(pre), scope@);
                    lemma_kv_index_of_is(
                        vars_view(self.variables@),
                        scope@,
                        vars_view(pre).len() as int,
                    );
                }
                self.variables.len() - 1
            },
        };
        let ghost base = vars_view(self.variables@);
        proof {
            lemma_kv_index_of(base, scope@);
            assert(kv_index_of(base, scope@) == idx);
            assert(base[idx as int].0 == scope@);
        }
        match gval {
            JsonValue::Object(inner) => {
                let ghost iv = jv_view_entries(inner@);
                let ghost pre_vec = self.variables@;
                let mut tmp: (String, JsonMap) = (String::new(), JsonMap::new());
                core::mem::swap(&mut tmp, &mut self.variables[idx]);
                proof {
                    assert(tmp == pre_vec[idx as int]);
                    assert(tmp.0@ == scope@);
                    assert(tmp.1@ == base[idx as int].1);
                }
                let ghost g0 = tmp.1@;
                let mut j: usize = 0;
                while j < inner.len()
                    invariant
                        j <= inner@.len(),
                        iv == jv_view_entries(inner@),
                        tmp.0@ == scope@,
                        tmp.1@ == spec_vars_group_merge(g0, iv.take(j as int)),
                    decreases inner@.len() - j,
                {
                    let key = inner[j].0.clone();
                    let val = jv_copy(&inner[j].1);
                    let ghost gpre = tmp.1@;
                    let ghost kview = key@;
                    let ghost vview = jv_view(val);
                    tmp.1.insert(key, val);
                    proof {
                        assert(kview == iv[j as int].0);
                        assert(vview == iv[j as int].1);
                        assert(tmp.1@ =~~= spec_group_set(gpre, kview, vview));
                        assert(iv.take(j + 1 as int).drop_last() =~= iv.take(j as int));
                        assert(iv.take(j + 1 as int).last() == iv[j as int]);
                        assert(tmp.1@ =~~= spec_vars_group_merge(g0, iv.take(j + 1 as int)));
                    }
                    j = j + 1;
                }
                proof {
                    assert(iv.take(iv.len() as int) =~= iv);
                }
                let ghost entry = tmp;
                core::mem::swap(&mut tmp, &mut self.variables[idx]);
                proof {
                    assert(self.variables@ == pre_vec.update(idx as int, entry)) by {
                        assert(self.variables@ =~= pre_vec.update(idx as int, entry));
                    }
                    assert(vars_view(self.variables@) =~~= base.update(
                        idx as int,
                        (scope@, spec_vars_group_merge(base[idx as int].1, iv)),
                    ));
                    assert(self@ =~= BubView {
                        variables: spec_vars_scope(old(self)@.variables, scope@, jv_view(*gval)),
                        ..old(self)@
                    });
                }
            },
            _ => {
                proof {
                    assert(self@ =~= BubView {
                        variables: spec_vars_scope(old(self)@.variables, scope@, jv_view(*gval)),
                        ..old(self)@
                    });
                }
            },
        }
    }

    fn handle_variables(&mut self, value: &JsonValue)
        ensures
            final(self)@ == spec_handle_variables(old(self)@, jv_view(*value)),
    {
        broadcast use group_jv_view;

        match value {
            JsonValue::Object(groups) => {
                let ghost gv = jv_view_entries(groups@);
                let mut i: usize = 0;
                while i < groups.len()
                    invariant
                        i <= groups@.len(),
                        gv == jv_view_entries(groups@),
                        self@ == (BubView {
                            variables: spec_vars_scopes(old(self)@.variables, gv.take(i as int)),
                            ..old(self)@
                        }),
                    decreases groups@.len() - i,
                {
                    self.handle_one_scope(groups[i].0.as_str(), &groups[i].1);
                    proof {
                        assert(gv.take(i + 1 as int).drop_last() =~= gv.take(i as int));
                        assert(gv.take(i + 1 as int).last() == gv[i as int]);
                        assert(self@ =~= BubView {
                            variables: spec_vars_scopes(
                                old(self)@.variables,
                                gv.take(i + 1 as int),
                            ),
                            ..old(self)@
                        });
                    }
                    i = i + 1;
                }
                proof {
                    assert(gv.take(gv.len() as int) =~= gv);
                    assert(self@ =~= spec_handle_variables(old(self)@, jv_view(*value)));
                }
            },
            _ => {},
        }
    }

    fn handle_library(&mut self, value: &JsonValue, def: &Definition)
        ensures
            final(self)@ == spec_handle_library(old(self)@, jv_view(*value), *def),
    {
        broadcast use group_jv_view;

        match value {
            JsonValue::Object(ents) => {
                let ghost ev = jv_view_entries(ents@);
                let mut i: usize = 0;
                while i < ents.len()
                    invariant
                        i <= ents@.len(),
                        ev == jv_view_entries(ents@),
                        self@ == spec_library_entries(old(self)@, ev.take(i as int), *def),
                    decreases ents@.len() - i,
                {
                    self.library_entry(ents[i].0.as_str(), &ents[i].1, def);
                    proof {
                        assert(ev.take(i + 1 as int).drop_last() =~= ev.take(i as int));
                        assert(ev.take(i + 1 as int).last() == ev[i as int]);
                    }
                    i = i + 1;
                }
                proof {
                    assert(ev.take(ev.len() as int) =~= ev);
                }
            },
            _ => {},
        }
    }

    fn library_entry(&mut self, kind: &str, v: &JsonValue, def: &Definition)
        ensures
            final(self)@ == spec_library_entry(old(self)@, kind@, jv_view(*v), *def),
    {
        broadcast use group_views, group_jv_view;

        let is_container = match v {
            JsonValue::Object(_) => true,
            JsonValue::Array(_) => true,
            _ => false,
        };
        if !is_container {
            return ;
        }
        if str_eq(kind, "dependencies") {
            match v {
                JsonValue::Array(items) => {
                    let ghost iv = jv_view_seq(items@);
                    let mut i: usize = 0;
                    while i < items.len()
                        invariant
                            i <= items@.len(),
                            iv == jv_view_seq(items@),
                            self@ == spec_dependencies_items(old(self)@, iv.take(i as int), *def),
                        decreases items@.len() - i,
                    {
                        match &items[i] {
                            JsonValue::Str(name) => {
                                self.build_library_dependencies(name.as_str(), def);
                            },
                            _ => {
                                self.build_library_dependencies("", def);
                                proof {
                                    reveal_strlit("");
                                    assert(""@ =~= Seq::<char>::empty());
                                }
                            },
                        }
                        proof {
                            assert(iv.take(i + 1 as int).drop_last() =~= iv.take(i as int));
                            assert(iv.take(i + 1 as int).last() == iv[i as int]);
                        }
                        i = i + 1;
                    }
                    proof {
                        assert(iv.take(iv.len() as int) =~= iv);
                    }
                },
                _ => {},
            }
        } else if str_eq(kind, "css") {
            match v {
                JsonValue::Object(ents) => {
                    let ghost ev = jv_view_entries(ents@);
                    let mut i: usize = 0;
                    while i < ents.len()
                        invariant
                            i <= ents@.len(),
                            ev == jv_view_entries(ents@),
                            self@ == spec_css_entries(old(self)@, ev.take(i as int)),
                        decreases ents@.len() - i,
                    {
                        let rendered = Renderable::link(ents[i].0.as_str(), &ents[i].1).output();
                        proof {
                            lemma_sset_strs_pub(self.library.css@, rendered@);
                        }
                        if !names_contain(&self.library.css, rendered.as_str()) {
                            self.library.add_css(rendered);
                        }
                        proof {
                            assert(ev.take(i + 1 as int).drop_last() =~= ev.take(i as int));
                            assert(ev.take(i + 1 as int).last() == ev[i as int]);
                            assert(self@ =~= spec_css_entries(old(self)@, ev.take(i + 1 as int)));
                        }
                        i = i + 1;
                    }
                    proof {
                        assert(ev.take(ev.len() as int) =~= ev);
                    }
                },
                _ => {},
            }
        } else if str_eq(kind, "js") {
            match v {
                JsonValue::Object(ents) => {
                    let ghost ev = jv_view_entries(ents@);
                    let mut i: usize = 0;
                    while i < ents.len()
                        invariant
                            i <= ents@.len(),
                            ev == jv_view_entries(ents@),
                            self@ == spec_js_entries(old(self)@, ev.take(i as int)),
                        decreases ents@.len() - i,
                    {
                        let url = ents[i].0.clone();
                        let attrs = jv_copy(&ents[i].1);
                        self.library.add_js(url, attrs);
                        proof {
                            assert(ev.take(i + 1 as int).drop_last() =~= ev.take(i as int));
                            assert(ev.take(i + 1 as int).last() == ev[i as int]);
                            assert(self@ =~= spec_js_entries(old(self)@, ev.take(i + 1 as int)));
                        }
                        i = i + 1;
                    }
                    proof {
                        assert(ev.take(ev.len() as int) =~= ev);
                    }
                },
                _ => {},
            }
        }
    }

    /// One pass over the payload: directives are handled where they stand,
    /// and everything else is walked into.
    pub fn collect(&mut self, data: &JsonValue, def: &Definition)
        ensures
            final(self)@ == spec_collect(old(self)@, jv_view(*data), *def),
        decreases jv_size(jv_view(*data)),
    {
        broadcast use group_jv_view;

        match data {
            JsonValue::Object(ents) => {
                let ghost ev = jv_view_entries(ents@);
                let mut i: usize = 0;
                while i < ents.len()
                    invariant
                        i <= ents@.len(),
                        ev == jv_view_entries(ents@),
                        self@ == spec_collect_upto(old(self)@, ev, i as int, *def),
                    decreases ents@.len() - i,
                {
                    proof {
                        lemma_jv_size_entries_elem(ev, i as int);
                    }
                    let key = &ents[i].0;
                    if str_eq(key.as_str(), "@component") {
                        self.handle_component(&ents[i].1, ents, def);
                    } else if str_eq(key.as_str(), "@attached") {
                        self.handle_attached(&ents[i].1, def);
                    } else if str_eq(key.as_str(), "@variables") {
                        self.handle_variables(&ents[i].1);
                    } else if str_eq(key.as_str(), "@library") {
                        self.handle_library(&ents[i].1, def);
                    } else if str_eq(key.as_str(), "@trans") {
                        self.handle_trans(&ents[i].1);
                    } else {
                        self.collect(&ents[i].1, def);
                    }
                    i = i + 1;
                }
            },
            JsonValue::Array(items) => {
                let ghost iv = jv_view_seq(items@);
                let mut i: usize = 0;
                while i < items.len()
                    invariant
                        i <= items@.len(),
                        iv == jv_view_seq(items@),
                        self@ == spec_collect_items_upto(old(self)@, iv, i as int, *def),
                    decreases items@.len() - i,
                {
                    proof {
                        lemma_jv_size_seq_elem(iv, i as int);
                    }
                    self.collect(&items[i], def);
                    i = i + 1;
                }
            },
            _ => {},
        }
    }
}

// ---------------------------------------------------------------------------
// Rendering the variables table as CSS text.
// ---------------------------------------------------------------------------

/// One scope's variable declarations: string values under declared names
/// become custom property lines; everything else is dropped.
pub open spec fn spec_scope_decls(
    g: Seq<(Seq<char>, JsonView)>,
    vars: Seq<(String, String)>,
) -> Seq<char>
    decreases g,
{
    if g.len() == 0 {
        Seq::empty()
    } else {
        let rest = spec_scope_decls(g.drop_last(), vars);
        match g.last().1 {
            JsonView::Str(s) => {
                if skey_contains(vars, g.last().0) {
                    rest + "  --"@ + g.last().0 + ": "@ + crate::strutil::spec_unquoted(s) + ";\n"@
                } else {
                    rest
                }
            },
            _ => rest,
        }
    }
}

/// The whole variables table as CSS scope blocks, in gathering order.
pub open spec fn spec_variables_style(
    table: Seq<(Seq<char>, Seq<(Seq<char>, JsonView)>)>,
    vars: Seq<(String, String)>,
) -> Seq<char>
    decreases table,
{
    if table.len() == 0 {
        Seq::empty()
    } else {
        spec_variables_style(table.drop_last(), vars) + table.last().0 + " {\n"@ + spec_scope_decls(
            table.last().1,
            vars,
        ) + "}\n"@
    }
}

impl Bubbable {
    /// Turns the gathered variables into CSS text appended to the style
    /// field.
    pub fn render_variables(&mut self, def: &Definition)
        ensures
            final(self)@ == (BubView {
                style: old(self)@.style + spec_variables_style(
                    old(self)@.variables,
                    def.variables@,
                ),
                ..old(self)@
            }),
    {
        broadcast use group_bub_views, group_jv_view;

        let ghost table = vars_view(self.variables@);
        let mut i: usize = 0;
        while i < self.variables.len()
            invariant
                i <= self.variables@.len(),
                table == vars_view(self.variables@),
                self.style@ == old(self).style@ + spec_variables_style(
                    table.take(i as int),
                    def.variables@,
                ),
                self.variables == old(self).variables,
                self.component == old(self).component,
                self.attached_build == old(self).attached_build,
                self.library.css == old(self).library.css,
                self.library.js == old(self).library.js,
                self.translation == old(self).translation,
            decreases self.variables@.len() - i,
        {
            self.style.append(self.variables[i].0.as_str());
            self.style.append(" {\n");
            let ghost g = table[i as int].1;
            let group = &self.variables[i].1;
            let ghost decl_base = self.style@;
            let mut j: usize = 0;
            while j < group.entries.len()
                invariant
                    j <= group.entries@.len(),
                    g == group@,
                    i < self.variables@.len(),
                    group == &self.variables@[i as int].1,
                    self.style@ == decl_base + spec_scope_decls(g.take(j as int), def.variables@),
                    self.variables == old(self).variables,
                    self.component == old(self).component,
                    self.attached_build == old(self).attached_build,
                    self.library.css == old(self).library.css,
                    self.library.js == old(self).library.js,
                    self.translation == old(self).translation,
                decreases group.entries@.len() - j,
            {
                match &group.entries[j].1 {
                    JsonValue::Str(s) => {
                        if assoc_contains(&def.variables, group.entries[j].0.as_str()) {
                            self.style.append("  --");
                            self.style.append(group.entries[j].0.as_str());
                            self.style.append(": ");
                            let cs = crate::strutil::chars_of(s.as_str());
                            let mut k: usize = 0;
                            let ghost sbase = self.style@;
                            while k < cs.len()
                                invariant
                                    k <= cs@.len(),
                                    cs@ == s@,
                                    self.style@ == sbase + crate::strutil::spec_unquoted(cs@.take(k as int)),
                                    self.variables == old(self).variables,
                                    self.component == old(self).component,
                                    self.attached_build == old(self).attached_build,
                                    self.library.css == old(self).library.css,
                                    self.library.js == old(self).library.js,
                                    self.translation == old(self).translation,
                                decreases cs@.len() - k,
                            {
                                if cs[k] != '"' {
                                    push_char(&mut self.style, cs[k]);
                                }
                                proof {
                                    assert(cs@.take(k + 1 as int).drop_last() =~= cs@.take(
                                        k as int,
                                    ));
                                    assert(cs@.take(k + 1 as int).last() == cs@[k as int]);
                                }
                                k = k + 1;
                            }
                            proof {
                                assert(cs@.take(cs@.len() as int) =~= cs@);
                            }
                            self.style.append(";\n");
                        }
                    },
                    _ => {},
                }
                proof {
                    assert(g.take(j + 1 as int).drop_last() =~= g.take(j as int));
                    assert(g.take(j + 1 as int).last() == g[j as int]);
                    assert(self.style@ =~= decl_base + spec_scope_decls(
                        g.take(j + 1 as int),
                        def.variables@,
                    ));
                }
                j = j + 1;
            }
            proof {
                assert(g.take(g.len() as int) =~= g);
            }
            self.style.append("}\n");
            proof {
                assert(table.take(i + 1 as int).drop_last() =~= table.take(i as int));
                assert(table.take(i + 1 as int).last() == table[i as int]);
                assert(self.style@ =~= old(self).style@ + spec_variables_style(
                    table.take(i + 1 as int),
                    def.variables@,
                ));
            }
            i = i + 1;
        }
        proof {
            assert(table.take(table.len() as int) =~= table);
            assert(self@ =~= BubView {
                style: old(self)@.style + spec_variables_style(
                    old(self)@.variables,
                    def.variables@,
                ),
                ..old(self)@
            });
        }
    }
}

} // verus!
