use vstd::prelude::*;

verus! {

use vstd::string::StringExecFns;
use crate::strutil::{
    push_char, str_eq, chars_of, string_from_chars, trim_end_chars, spec_trim_end, spec_join,
    join_strings,
};
use crate::assoc::{strs_view, pairs_view, group_views};
use crate::value::{JsonValue, JsonView, JsonMap, jv_view, group_jv_view, spec_display};
use crate::definition::Definition;
use crate::scoped::{Scoped, ThemeEffect, spec_scoped_styles, spec_scoped_local_vars,
    spec_theme_effect, spec_string_items};

// The view of an attribute set: names with their value lists, in order.

/// Index of the first attribute with this name, or -1.
pub open spec fn av_index_of(a: Seq<(Seq<char>, Seq<Seq<char>>)>, name: Seq<char>) -> int
    decreases a,
{
    if a.len() == 0 {
        -1
    } else if a[0].0 == name {
        0
    } else {
        let r = av_index_of(a.drop_first(), name);
        if r < 0 {
            -1
        } else {
            r + 1
        }
    }
}

pub open spec fn av_contains(a: Seq<(Seq<char>, Seq<Seq<char>>)>, name: Seq<char>) -> bool {
    av_index_of(a, name) >= 0
}

/// The value list of the first attribute with this name; meaningful only
/// when one exists.
pub open spec fn av_vals(a: Seq<(Seq<char>, Seq<Seq<char>>)>, name: Seq<char>) -> Seq<Seq<char>> {
    a[av_index_of(a, name)].1
}

pub proof fn lemma_av_index_of(a: Seq<(Seq<char>, Seq<Seq<char>>)>, name: Seq<char>)
    ensures
        av_index_of(a, name) == -1 ==> forall|j: int| 0 <= j < a.len() ==> a[j].0 != name,
        av_index_of(a, name) >= 0 ==> 0 <= av_index_of(a, name) < a.len() && a[av_index_of(
            a,
            name,
        )].0 == name && forall|j: int| 0 <= j < av_index_of(a, name) ==> a[j].0 != name,
    decreases a,
{
    if a.len() > 0 && a[0].0 != name {
        lemma_av_index_of(a.drop_first(), name);
        assert forall|j: int| 1 <= j < a.len() implies a.drop_first()[j - 1] == a[j] by {}
    }
}

pub proof fn lemma_av_index_of_is(a: Seq<(Seq<char>, Seq<Seq<char>>)>, name: Seq<char>, i: int)
    requires
        0 <= i < a.len(),
        a[i].0 == name,
        forall|j: int| 0 <= j < i ==> a[j].0 != name,
    ensures
        av_index_of(a, name) == i,
    decreases a,
{
    if i > 0 {
        lemma_av_index_of_is(a.drop_first(), name, i - 1);
        assert forall|j: int| 1 <= j < a.len() implies a.drop_first()[j - 1] == a[j] by {}
    }
}

/// Removal that moves the last entry into the hole, keeping the removal
/// constant-time at the price of one position.
pub open spec fn spec_swap_remove_at(
    a: Seq<(Seq<char>, Seq<Seq<char>>)>,
    i: int,
) -> Seq<(Seq<char>, Seq<Seq<char>>)> {
    a.update(i, a.last()).drop_last()
}

/// What adding values under a name does: class and style accumulate, any
/// other existing name is first removed (the hole taken by the last entry)
/// and the new entry appended.
pub open spec fn spec_add_attr(
    a: Seq<(Seq<char>, Seq<Seq<char>>)>,
    name: Seq<char>,
    vals: Seq<Seq<char>>,
) -> Seq<(Seq<char>, Seq<Seq<char>>)> {
    let a1 = if name != "class"@ && name != "style"@ && av_contains(a, name) {
        spec_swap_remove_at(a, av_index_of(a, name))
    } else {
        a
    };
    if av_contains(a1, name) {
        a1.update(av_index_of(a1, name), (name, av_vals(a1, name) + vals))
    } else {
        a1.push((name, vals))
    }
}

/// An attribute set: an ordered mapping from attribute name to a list of
/// values, with class and style accumulating on re-addition and every
/// other name replaced wholesale.
pub struct Attribute {
    attrs: Vec<(String, Vec<String>)>,
}

impl View for Attribute {
    type V = Seq<(Seq<char>, Seq<Seq<char>>)>;

    closed spec fn view(&self) -> Seq<(Seq<char>, Seq<Seq<char>>)> {
        pairs_view(self.attrs@)
    }
}

impl Attribute {
    pub fn new() -> (r: Attribute)
        ensures
            r@ =~= Seq::<(Seq<char>, Seq<Seq<char>>)>::empty(),
    {
        Attribute { attrs: Vec::new() }
    }

    fn find(&self, name: &str) -> (r: Option<usize>)
        ensures
            match r {
                Some(i) => av_index_of(self@, name@) == i && i < self.attrs@.len() && i
                    < self@.len() && self@[i as int].0 == name@ && self@[i as int].1 == strs_view(
                    self.attrs@[i as int].1@,
                ) && self.attrs@[i as int].0@ == name@,
                None => !av_contains(self@, name@),
            },
    {
        broadcast use group_views;

        proof {
            lemma_av_index_of(self@, name@);
        }
        let mut i: usize = 0;
        while i < self.attrs.len()
            invariant
                i <= self.attrs@.len(),
                forall|j: int| 0 <= j < i ==> self@[j].0 != name@,
            decreases self.attrs@.len() - i,
        {
            if str_eq(self.attrs[i].0.as_str(), name) {
                proof {
                    lemma_av_index_of_is(self@, name@, i as int);
                }
                return Some(i);
            }
            i = i + 1;
        }
        None
    }

    /// Whether an attribute with this name exists.
    pub fn has_attribute(&self, name: &str) -> (r: bool)
        ensures
            r == av_contains(self@, name@),
    {
        match self.find(name) {
            Some(_) => true,
            None => false,
        }
    }

    /// Whether the class attribute holds this exact class token.
    pub fn has_class(&self, class: &str) -> (r: bool)
        ensures
            r == spec_has_class(self@, class@),
    {
        broadcast use group_views;

        match self.find("class") {
            Some(i) => {
                let vals = &self.attrs[i].1;
                let mut j: usize = 0;
                while j < vals.len()
                    invariant
                        j <= vals@.len(),
                        forall|k: int| 0 <= k < j ==> vals@[k]@ != class@,
                        strs_view(vals@) == av_vals(self@, "class"@),
                    decreases vals@.len() - j,
                {
                    if str_eq(vals[j].as_str(), class) {
                        proof {
                            assert(av_vals(self@, "class"@)[j as int] == class@);
                        }
                        return true;
                    }
                    j = j + 1;
                }
                proof {
                    assert(forall|k: int|
                        0 <= k < strs_view(vals@).len() ==> strs_view(vals@)[k] != class@);
                }
                false
            },
            None => false,
        }
    }

    /// The value list under this name, or an empty list when it is absent.
    pub fn get_attr(&self, name: &str) -> (r: Vec<String>)
        ensures
            av_contains(self@, name@) ==> strs_view(r@) == av_vals(self@, name@),
            !av_contains(self@, name@) ==> r@.len() == 0,
    {
        match self.find(name) {
            Some(i) => crate::value::copy_string_vec(&self.attrs[i].1),
            None => Vec::new(),
        }
    }

    /// Adds values under a name: appends to class or style, replaces any
    /// other existing name.
    pub fn add_attr(&mut self, name: &str, values: Vec<String>)
        ensures
            final(self)@ == spec_add_attr(old(self)@, name@, strs_view(values@)),
    {
        broadcast use group_views;

        let ghost a0 = self@;
        let is_cs = str_eq(name, "class") || str_eq(name, "style");
        if !is_cs {
            match self.find(name) {
                Some(i) => {
                    let _ = self.attrs.swap_remove(i);
                    proof {
                        assert(self@ =~= spec_swap_remove_at(a0, i as int));
                    }
                },
                None => {},
            }
        }
        let ghost a1 = self@;
        proof {
            assert(a1 == if name@ != "class"@ && name@ != "style"@ && av_contains(a0, name@) {
                spec_swap_remove_at(a0, av_index_of(a0, name@))
            } else {
                a0
            });
        }
        match self.find(name) {
            Some(i) => {
                let mut tmp: (String, Vec<String>) = (String::new(), Vec::new());
                core::mem::swap(&mut tmp, &mut self.attrs[i]);
                let ghost old_vals = tmp.1@;
                let mut vals = values;
                tmp.1.append(&mut vals);
                proof {
                    assert(strs_view(tmp.1@) =~= strs_view(old_vals) + strs_view(values@));
                }
                core::mem::swap(&mut tmp, &mut self.attrs[i]);
                proof {
                    assert(self@ =~= a1.update(
                        i as int,
                        (name@, av_vals(a1, name@) + strs_view(values@)),
                    ));
                }
            },
            None => {
                let ghost pre = self.attrs@;
                self.attrs.push((name.to_owned(), values));
                proof {
                    assert(self.attrs@.drop_last() =~= pre);
                    assert(self@ =~= a1.push((name@, strs_view(values@))));
                }
            },
        }
    }

    /// Removes the attribute with this name; the last entry takes its place.
    pub fn remove_attr_by_name(&mut self, name: &str)
        ensures
            av_contains(old(self)@, name@) ==> final(self)@ =~= spec_swap_remove_at(
                old(self)@,
                av_index_of(old(self)@, name@),
            ),
            !av_contains(old(self)@, name@) ==> final(self)@ =~= old(self)@,
    {
        broadcast use group_views;

        match self.find(name) {
            Some(i) => {
                let _ = self.attrs.swap_remove(i);
                proof {
                    assert(self@ =~= spec_swap_remove_at(old(self)@, i as int));
                }
            },
            None => {},
        }
    }

    /// Removes one class token from the class attribute, in place.
    pub fn remove_class_by_name(&mut self, class: &str)
        ensures
            av_contains(old(self)@, "class"@) ==> final(self)@ =~= old(self)@.update(
                av_index_of(old(self)@, "class"@),
                ("class"@, spec_remove_val(av_vals(old(self)@, "class"@), class@)),
            ),
            !av_contains(old(self)@, "class"@) ==> final(self)@ =~= old(self)@,
    {
        broadcast use group_views;

        match self.find("class") {
            Some(i) => {
                let mut tmp: (String, Vec<String>) = (String::new(), Vec::new());
                core::mem::swap(&mut tmp, &mut self.attrs[i]);
                let ghost old_vals = strs_view(tmp.1@);
                let mut kept: Vec<String> = Vec::new();
                let mut j: usize = 0;
                while j < tmp.1.len()
                    invariant
                        j <= tmp.1@.len(),
                        old_vals == strs_view(tmp.1@),
                        strs_view(kept@) == spec_remove_val(
                            strs_view(tmp.1@).take(j as int),
                            class@,
                        ),
                    decreases tmp.1@.len() - j,
                {
                    let ghost pre = kept@;
                    if !str_eq(tmp.1[j].as_str(), class) {
                        kept.push(tmp.1[j].clone());
                        proof {
                            assert(kept@.drop_last() =~= pre);
                        }
                    }
                    proof {
                        assert(old_vals.take(j + 1 as int).drop_last() =~= old_vals.take(j as int));
                        assert(old_vals.take(j + 1 as int).last() == old_vals[j as int]);
                        assert(strs_view(kept@) =~= spec_remove_val(
                            old_vals.take(j + 1 as int),
                            class@,
                        ));
                    }
                    j = j + 1;
                }
                proof {
                    assert(old_vals.take(old_vals.len() as int) =~= old_vals);
                }
                tmp.1 = kept;
                let mut key = String::new();
                key.append("class");
                tmp.0 = key;
                core::mem::swap(&mut tmp, &mut self.attrs[i]);
                proof {
                    assert(self@ =~= old(self)@.update(
                        i as int,
                        ("class"@, spec_remove_val(av_vals(old(self)@, "class"@), class@)),
                    ));
                }
            },
            None => {},
        }
    }

    /// The HTML attribute text: each attribute as name="values", a bare
    /// name for an empty list outside class and style, all joined by
    /// blanks behind one leading blank.
    pub fn to_html_string(&self) -> (r: String)
        ensures
            r@ == spec_attr_html(self@),
    {
        broadcast use group_views;

        let mut body = String::new();
        let mut i: usize = 0;
        while i < self.attrs.len()
            invariant
                i <= self.attrs@.len(),
                body@ == spec_attr_concat(self@.take(i as int)),
            decreases self.attrs@.len() - i,
        {
            let joined = join_strings(&self.attrs[i].1, ' ');
            let name = &self.attrs[i].0;
            let is_cs = str_eq(name.as_str(), "class") || str_eq(name.as_str(), "style");
            if joined.as_str().is_empty() && !is_cs {
                body.append(name.as_str());
                body.append(" ");
            } else {
                body.append(name.as_str());
                body.append("=\"");
                body.append(joined.as_str());
                body.append("\"");
                body.append(" ");
            }
            proof {
                assert(self@.take(i + 1 as int).drop_last() =~= self@.take(i as int));
                assert(self@.take(i + 1 as int).last() == self@[i as int]);
                reveal_strlit(" ");
                assert(" "@ =~= seq![' ']);
                assert(strs_view(self.attrs@[i as int].1@) =~= self.attrs@[i as int].1@.map_values(
                    |x: String| x@,
                ));
                assert(joined@ == spec_join(self@[i as int].1, ' '));
                assert(body@ =~= spec_attr_concat(self@.take(i + 1 as int)));
            }
            i = i + 1;
        }
        proof {
            assert(self@.take(self@.len() as int) =~= self@);
        }
        if body.as_str().is_empty() {
            proof {
                assert(spec_attr_concat(self@).len() == 0);
                lemma_attr_concat_empty(self@);
            }
            String::new()
        } else {
            let cs = chars_of(body.as_str());
            let trimmed = trim_end_chars(&cs);
            let mut out = String::new();
            push_char(&mut out, ' ');
            let tail = string_from_chars(&trimmed);
            out.append(tail.as_str());
            proof {
                assert(self@.len() > 0);
                assert(out@ =~= spec_attr_html(self@));
            }
            out
        }
    }
}

/// One token removed from a value list wherever it occurs.
pub open spec fn spec_remove_val(vals: Seq<Seq<char>>, x: Seq<char>) -> Seq<Seq<char>>
    decreases vals,
{
    if vals.len() == 0 {
        Seq::empty()
    } else {
        let rest = spec_remove_val(vals.drop_last(), x);
        if vals.last() == x {
            rest
        } else {
            rest.push(vals.last())
        }
    }
}

pub open spec fn spec_has_class(a: Seq<(Seq<char>, Seq<Seq<char>>)>, class: Seq<char>) -> bool {
    av_contains(a, "class"@) && exists|k: int|
        0 <= k < av_vals(a, "class"@).len() && #[trigger] av_vals(a, "class"@)[k] == class
}

/// One attribute as text: a bare name when its values join to nothing and
/// it is neither class nor style, else name="joined values".
pub open spec fn spec_attr_part(e: (Seq<char>, Seq<Seq<char>>)) -> Seq<char> {
    let joined = spec_join(e.1, ' ');
    if joined.len() == 0 && e.0 != "class"@ && e.0 != "style"@ {
        e.0
    } else {
        e.0 + "=\""@ + joined + "\""@
    }
}

pub open spec fn spec_attr_concat(a: Seq<(Seq<char>, Seq<Seq<char>>)>) -> Seq<char>
    decreases a,
{
    if a.len() == 0 {
        Seq::empty()
    } else {
        spec_attr_concat(a.drop_last()) + spec_attr_part(a.last()) + seq![' ']
    }
}

/// The serialized form: nothing for no attributes, else one leading blank
/// and the parts with trailing blanks removed.
pub open spec fn spec_attr_html(a: Seq<(Seq<char>, Seq<Seq<char>>)>) -> Seq<char> {
    if a.len() == 0 {
        Seq::empty()
    } else {
        seq![' '] + spec_trim_end(spec_attr_concat(a))
    }
}

proof fn lemma_attr_concat_empty(a: Seq<(Seq<char>, Seq<Seq<char>>)>)
    requires
        spec_attr_concat(a).len() == 0,
    ensures
        a.len() == 0,
{
}

// ---------------------------------------------------------------------------
// Attribute values taken from payload values.
// ---------------------------------------------------------------------------

/// The display forms of a list of values, in order.
pub open spec fn spec_display_items(items: Seq<JsonView>) -> Seq<Seq<char>>
    decreases items,
{
    if items.len() == 0 {
        Seq::empty()
    } else {
        spec_display_items(items.drop_last()).push(spec_display(items.last()))
    }
}

/// Map entries read as "key value" tokens, in order.
pub open spec fn spec_kv_values(ents: Seq<(Seq<char>, JsonView)>) -> Seq<Seq<char>>
    decreases ents,
{
    if ents.len() == 0 {
        Seq::empty()
    } else {
        spec_kv_values(ents.drop_last()).push(
            ents.last().0 + " "@ + spec_display(ents.last().1),
        )
    }
}

/// How one payload value reads as an attribute value list: a list gives its
/// items' display forms, a map gives "key value" tokens, anything else its
/// own display form alone.
pub open spec fn spec_values_of(v: JsonView) -> Seq<Seq<char>> {
    match v {
        JsonView::Array(items) => spec_display_items(items),
        JsonView::Object(ents) => spec_kv_values(ents),
        _ => seq![spec_display(v)],
    }
}

pub open spec fn spec_add_from_value(
    a: Seq<(Seq<char>, Seq<Seq<char>>)>,
    name: Seq<char>,
    v: JsonView,
) -> Seq<(Seq<char>, Seq<Seq<char>>)> {
    spec_add_attr(a, name, spec_values_of(v))
}

pub open spec fn spec_add_all_entries(
    a: Seq<(Seq<char>, Seq<Seq<char>>)>,
    ents: Seq<(Seq<char>, JsonView)>,
) -> Seq<(Seq<char>, Seq<Seq<char>>)>
    decreases ents,
{
    if ents.len() == 0 {
        a
    } else {
        spec_add_from_value(
            spec_add_all_entries(a, ents.drop_last()),
            ents.last().0,
            ents.last().1,
        )
    }
}

/// Every entry of a map value added in order; any other value adds nothing.
pub open spec fn spec_add_all(
    a: Seq<(Seq<char>, Seq<Seq<char>>)>,
    v: JsonView,
) -> Seq<(Seq<char>, Seq<Seq<char>>)> {
    match v {
        JsonView::Object(ents) => spec_add_all_entries(a, ents),
        _ => a,
    }
}

impl Attribute {
    /// Collects the value list a payload value stands for.
    fn values_of(v: &JsonValue) -> (r: Vec<String>)
        ensures
            strs_view(r@) == spec_values_of(jv_view(*v)),
    {
        broadcast use group_views, group_jv_view;

        match v {
            JsonValue::Array(items) => {
                let ghost iv = crate::value::jv_view_seq(items@);
                let mut out: Vec<String> = Vec::new();
                let mut i: usize = 0;
                while i < items.len()
                    invariant
                        i <= items@.len(),
                        iv == crate::value::jv_view_seq(items@),
                        strs_view(out@) == spec_display_items(iv.take(i as int)),
                    decreases items@.len() - i,
                {
                    let ghost pre = out@;
                    out.push(crate::value::display_string(&items[i]));
                    proof {
                        assert(out@.drop_last() =~= pre);
                        assert(iv.take(i + 1 as int).drop_last() =~= iv.take(i as int));
                        assert(iv.take(i + 1 as int).last() == iv[i as int]);
                        assert(strs_view(out@) =~= spec_display_items(iv.take(i + 1 as int)));
                    }
                    i = i + 1;
                }
                proof {
                    assert(iv.take(iv.len() as int) =~= iv);
                }
                out
            },
            JsonValue::Object(m) => {
                let ghost ents = crate::value::jv_view_entries(m@);
                let mut out: Vec<String> = Vec::new();
                let mut i: usize = 0;
                while i < m.len()
                    invariant
                        i <= m@.len(),
                        ents == crate::value::jv_view_entries(m@),
                        strs_view(out@) == spec_kv_values(ents.take(i as int)),
                    decreases m@.len() - i,
                {
                    let mut token: String = m[i].0.clone();
                    token.append(" ");
                    let shown = crate::value::display_string(&m[i].1);
                    token.append(shown.as_str());
                    let ghost pre = out@;
                    out.push(token);
                    proof {
                        assert(out@.drop_last() =~= pre);
                        assert(ents.take(i + 1 as int).drop_last() =~= ents.take(i as int));
                        assert(ents.take(i + 1 as int).last() == ents[i as int]);
                        assert(strs_view(out@) =~= spec_kv_values(ents.take(i + 1 as int)));
                    }
                    i = i + 1;
                }
                proof {
                    assert(ents.take(ents.len() as int) =~= ents);
                }
                out
            },
            _ => {
                let shown = crate::value::display_string(v);
                let out = vec![shown];
                proof {
                    assert(strs_view(out@) =~= seq![spec_display(jv_view(*v))]);
                }
                out
            },
        }
    }

    /// Adds one payload value under a name, reading it as a value list.
    pub fn add_attr_from_jinja(&mut self, name: &str, values: &JsonValue)
        ensures
            final(self)@ == spec_add_from_value(old(self)@, name@, jv_view(*values)),
    {
        let vals = Self::values_of(values);
        self.add_attr(name, vals);
    }

    /// Adds every entry of a map value as an attribute.
    pub fn add_attrs_from_jinja(&mut self, values: &JsonValue)
        ensures
            final(self)@ == spec_add_all(old(self)@, jv_view(*values)),
    {
        broadcast use group_jv_view;

        match values {
            JsonValue::Object(m) => {
                let ghost ents = crate::value::jv_view_entries(m@);
                let mut i: usize = 0;
                while i < m.len()
                    invariant
                        i <= m@.len(),
                        ents == crate::value::jv_view_entries(m@),
                        self@ == spec_add_all_entries(old(self)@, ents.take(i as int)),
                    decreases m@.len() - i,
                {
                    self.add_attr_from_jinja(m[i].0.as_str(), &m[i].1);
                    proof {
                        assert(ents.take(i + 1 as int).drop_last() =~= ents.take(i as int));
                        assert(ents.take(i + 1 as int).last() == ents[i as int]);
                    }
                    i = i + 1;
                }
                proof {
                    assert(ents.take(ents.len() as int) =~= ents);
                }
            },
            _ => {},
        }
    }

    /// Adds attributes given as a plain payload object.
    pub fn add_attr_from_serde(&mut self, values: &JsonValue)
        ensures
            final(self)@ == spec_add_all(old(self)@, jv_view(*values)),
    {
        self.add_attrs_from_jinja(values);
    }
}

// ---------------------------------------------------------------------------
// Merging.
// ---------------------------------------------------------------------------

/// Map entries flattened to alternating "key, value" tokens.
pub open spec fn spec_kv_flat(ents: Seq<(Seq<char>, JsonView)>) -> Seq<Seq<char>>
    decreases ents,
{
    if ents.len() == 0 {
        Seq::empty()
    } else {
        spec_kv_flat(ents.drop_last()).push(ents.last().0).push(spec_display(ents.last().1))
    }
}

/// What merging one entry into an attribute set does.  New values come
/// first and the existing value list is kept after them, for scalar and
/// list values alike.
pub open spec fn spec_merge_one(
    a: Seq<(Seq<char>, Seq<Seq<char>>)>,
    k: Seq<char>,
    v: JsonView,
) -> Seq<(Seq<char>, Seq<Seq<char>>)> {
    if av_contains(a, k) {
        match v {
            JsonView::Str(s) => spec_add_attr(a, k, seq![s] + av_vals(a, k)),
            JsonView::Array(items) => spec_add_attr(
                a,
                k,
                spec_display_items(items) + av_vals(a, k),
            ),
            JsonView::Object(ents) => spec_add_attr(a, k, spec_kv_flat(ents)),
            _ => a,
        }
    } else {
        spec_add_attr(a, k, seq![spec_display(v)])
    }
}

pub open spec fn spec_merge_entries(
    a: Seq<(Seq<char>, Seq<Seq<char>>)>,
    ents: Seq<(Seq<char>, JsonView)>,
) -> Seq<(Seq<char>, Seq<Seq<char>>)>
    decreases ents,
{
    if ents.len() == 0 {
        a
    } else {
        spec_merge_one(spec_merge_entries(a, ents.drop_last()), ents.last().0, ents.last().1)
    }
}

pub open spec fn spec_merge(
    a: Seq<(Seq<char>, Seq<Seq<char>>)>,
    v: JsonView,
) -> Seq<(Seq<char>, Seq<Seq<char>>)> {
    match v {
        JsonView::Object(ents) => spec_merge_entries(a, ents),
        _ => a,
    }
}

impl Attribute {
    fn merge_one(&mut self, k: &str, v: &JsonValue)
        ensures
            final(self)@ == spec_merge_one(old(self)@, k@, jv_view(*v)),
    {
        broadcast use group_views, group_jv_view;

        match self.find(k) {
            Some(i) => {
                match v {
                    JsonValue::Str(s) => {
                        let mut nv: Vec<String> = Vec::new();
                        nv.push(s.clone());
                        proof {
                            assert(strs_view(nv@) =~= seq![s@]);
                        }
                        let ex = crate::value::copy_string_vec(&self.attrs[i].1);
                        let ghost pre_nv = strs_view(nv@);
                        let mut j: usize = 0;
                        while j < ex.len()
                            invariant
                                j <= ex@.len(),
                                strs_view(ex@) == av_vals(old(self)@, k@),
                                strs_view(nv@) == pre_nv + strs_view(ex@).take(j as int),
                                self@ == old(self)@,
                            decreases ex@.len() - j,
                        {
                            let ghost pre = nv@;
                            nv.push(ex[j].clone());
                            proof {
                                assert(nv@.drop_last() =~= pre);
                                assert(strs_view(ex@).take(j + 1 as int).drop_last()
                                    =~= strs_view(ex@).take(j as int));
                                assert(strs_view(nv@) =~= pre_nv + strs_view(ex@).take(
                                    j + 1 as int,
                                ));
                            }
                            j = j + 1;
                        }
                        proof {
                            assert(strs_view(ex@).take(strs_view(ex@).len() as int)
                                =~= strs_view(ex@));
                            assert(strs_view(nv@) =~= seq![s@] + av_vals(old(self)@, k@));
                        }
                        self.add_attr(k, nv);
                    },
                    JsonValue::Array(items) => {
                        let mut nv = Self::values_of(v);
                        let mut ex = crate::value::copy_string_vec(&self.attrs[i].1);
                        let ghost nv0 = strs_view(nv@);
                        let ghost ex0 = strs_view(ex@);
                        nv.append(&mut ex);
                        proof {
                            assert(strs_view(nv@) =~= nv0 + ex0);
                        }
                        self.add_attr(k, nv);
                    },
                    JsonValue::Object(ents) => {
                        let ghost ev = crate::value::jv_view_entries(ents@);
                        let mut nv: Vec<String> = Vec::new();
                        let mut j: usize = 0;
                        while j < ents.len()
                            invariant
                                j <= ents@.len(),
                                ev == crate::value::jv_view_entries(ents@),
                                strs_view(nv@) == spec_kv_flat(ev.take(j as int)),
                                self@ == old(self)@,
                            decreases ents@.len() - j,
                        {
                            let ghost pre = nv@;
                            nv.push(ents[j].0.clone());
                            proof {
                                assert(nv@.drop_last() =~= pre);
                            }
                            let ghost pre2 = nv@;
                            nv.push(crate::value::display_string(&ents[j].1));
                            proof {
                                assert(nv@.drop_last() =~= pre2);
                                assert(ev.take(j + 1 as int).drop_last() =~= ev.take(j as int));
                                assert(ev.take(j + 1 as int).last() == ev[j as int]);
                                assert(strs_view(nv@) =~= spec_kv_flat(ev.take(j + 1 as int)));
                            }
                            j = j + 1;
                        }
                        proof {
                            assert(ev.take(ev.len() as int) =~= ev);
                        }
                        self.add_attr(k, nv);
                    },
                    _ => {},
                }
            },
            None => {
                let shown = crate::value::display_string(v);
                let nv = vec![shown];
                proof {
                    assert(strs_view(nv@) =~= seq![spec_display(jv_view(*v))]);
                }
                self.add_attr(k, nv);
            },
        }
    }

    /// Merges a map value's entries into the attributes; see the merge
    /// rules on spec_merge_one.
    pub fn merge_attrs_from_jinja(&mut self, values: &JsonValue)
        ensures
            final(self)@ == spec_merge(old(self)@, jv_view(*values)),
    {
        broadcast use group_jv_view;

        match values {
            JsonValue::Object(m) => {
                let ghost ents = crate::value::jv_view_entries(m@);
                let mut i: usize = 0;
                while i < m.len()
                    invariant
                        i <= m@.len(),
                        ents == crate::value::jv_view_entries(m@),
                        self@ == spec_merge_entries(old(self)@, ents.take(i as int)),
                    decreases m@.len() - i,
                {
                    self.merge_one(m[i].0.as_str(), &m[i].1);
                    proof {
                        assert(ents.take(i + 1 as int).drop_last() =~= ents.take(i as int));
                        assert(ents.take(i + 1 as int).last() == ents[i as int]);
                    }
                    i = i + 1;
                }
                proof {
                    assert(ents.take(ents.len() as int) =~= ents);
                }
            },
            _ => {},
        }
    }
}

// ---------------------------------------------------------------------------
// Building from a node's data.
// ---------------------------------------------------------------------------

/// The style attribute value an explicit style string contributes: the
/// string itself, given a trailing semicolon when it lacks one.
pub open spec fn spec_style_vals(s: Seq<char>) -> Seq<Seq<char>> {
    if s.len() > 0 && s.last() == ';' {
        seq![s]
    } else {
        seq![s + ";"@]
    }
}

pub open spec fn spec_remove_key(
    ents: Seq<(Seq<char>, JsonView)>,
    k: Seq<char>,
) -> Seq<(Seq<char>, JsonView)> {
    if crate::value::jm_contains(ents, k) {
        ents.remove(crate::value::jm_index_of(ents, k))
    } else {
        ents
    }
}

/// How an attributes object is folded in: a class list first, then an
/// explicit style string, then every remaining entry in order.
pub open spec fn spec_build_attributes(
    a: Seq<(Seq<char>, Seq<Seq<char>>)>,
    v: JsonView,
) -> Seq<(Seq<char>, Seq<Seq<char>>)> {
    match v {
        JsonView::Object(ents) => {
            let class_ok = crate::value::jm_contains(ents, "class"@) && crate::value::jm_get(
                ents,
                "class"@,
            ) is Array;
            let a1 = if class_ok {
                spec_add_attr(
                    a,
                    "class"@,
                    spec_string_items(crate::value::jm_get(ents, "class"@)->Array_0),
                )
            } else {
                a
            };
            let e1 = if class_ok {
                spec_remove_key(ents, "class"@)
            } else {
                ents
            };
            let style_ok = crate::value::jm_contains(e1, "style"@) && crate::value::jm_get(
                e1,
                "style"@,
            ) is Str;
            let a2 = if style_ok {
                spec_add_attr(
                    a1,
                    "style"@,
                    spec_style_vals(crate::value::jm_get(e1, "style"@)->Str_0),
                )
            } else {
                a1
            };
            let e2 = if style_ok {
                spec_remove_key(e1, "style"@)
            } else {
                e1
            };
            spec_add_all_entries(a2, e2)
        },
        _ => a,
    }
}

/// How one node's scoped directives fold into attributes: styles become
/// classes, local variables become the style attribute, and the theme adds
/// its class or its own attribute.
pub open spec fn spec_build_scoped(
    a: Seq<(Seq<char>, Seq<Seq<char>>)>,
    d: Seq<(Seq<char>, JsonView)>,
    vars: Seq<(String, String)>,
    themes: Seq<(String, crate::definition::Theme)>,
) -> Seq<(Seq<char>, Seq<Seq<char>>)> {
    let st = spec_scoped_styles(d);
    let lv = spec_scoped_local_vars(d, vars);
    let te = spec_theme_effect(d, themes);
    let a1 = if st.len() > 0 {
        spec_add_attr(a, "class"@, st)
    } else {
        a
    };
    let a2 = if lv.len() > 0 {
        spec_add_attr(a1, "style"@, lv)
    } else {
        a1
    };
    let a3 = match te {
        ThemeEffect::AddClass(c) => spec_add_attr(a2, "class"@, seq![c]),
        _ => a2,
    };
    match te {
        ThemeEffect::AddAttribute(k, vv) => spec_add_attr(a3, k, seq![vv]),
        _ => a3,
    }
}

/// The attribute set as a payload object: each name maps to the list of
/// its values.
pub open spec fn spec_strs_json(vals: Seq<Seq<char>>) -> Seq<JsonView>
    decreases vals,
{
    if vals.len() == 0 {
        Seq::empty()
    } else {
        spec_strs_json(vals.drop_last()).push(JsonView::Str(vals.last()))
    }
}

pub open spec fn spec_attr_json_entries(
    a: Seq<(Seq<char>, Seq<Seq<char>>)>,
) -> Seq<(Seq<char>, JsonView)>
    decreases a,
{
    if a.len() == 0 {
        Seq::empty()
    } else {
        spec_attr_json_entries(a.drop_last()).push(
            (a.last().0, JsonView::Array(spec_strs_json(a.last().1))),
        )
    }
}

pub open spec fn spec_attr_json(a: Seq<(Seq<char>, Seq<Seq<char>>)>) -> JsonView {
    JsonView::Object(spec_attr_json_entries(a))
}

impl Attribute {
    /// Folds one attributes object in: its class list, its style string,
    /// then the remaining entries.
    pub fn build_attributes(&mut self, attributes: &JsonValue)
        ensures
            final(self)@ == spec_build_attributes(old(self)@, jv_view(*attributes)),
    {
        broadcast use group_views, group_jv_view;

        match attributes {
            JsonValue::Object(m) => {
                let mut other = JsonMap { entries: crate::value::jm_copy_entries(m) };
                let ghost ents = crate::value::jv_view_entries(m@);
                match other.get("class") {
                    Some(cv) => {
                        match cv {
                            JsonValue::Array(items) => {
                                let ghost iv = crate::value::jv_view_seq(items@);
                                let mut classes: Vec<String> = Vec::new();
                                let mut i: usize = 0;
                                while i < items.len()
                                    invariant
                                        i <= items@.len(),
                                        iv == crate::value::jv_view_seq(items@),
                                        strs_view(classes@) == spec_string_items(
                                            iv.take(i as int),
                                        ),
                                    decreases items@.len() - i,
                                {
                                    let ghost pre = classes@;
                                    match &items[i] {
                                        JsonValue::Str(s) => {
                                            classes.push(s.clone());
                                            proof {
                                                assert(classes@.drop_last() =~= pre);
                                            }
                                        },
                                        _ => {},
                                    }
                                    proof {
                                        assert(iv.take(i + 1 as int).drop_last() =~= iv.take(
                                            i as int,
                                        ));
                                        assert(iv.take(i + 1 as int).last() == iv[i as int]);
                                        assert(strs_view(classes@) =~= spec_string_items(
                                            iv.take(i + 1 as int),
                                        ));
                                    }
                                    i = i + 1;
                                }
                                proof {
                                    assert(iv.take(iv.len() as int) =~= iv);
                                }
                                self.add_attr("class", classes);
                                other.remove("class");
                            },
                            _ => {},
                        }
                    },
                    None => {},
                }
                match other.get("style") {
                    Some(sv) => {
                        match sv {
                            JsonValue::Str(s) => {
                                let cs = crate::strutil::chars_of(s.as_str());
                                let mut sval = s.clone();
                                if !(cs.len() > 0 && cs[cs.len() - 1] == ';') {
                                    push_char(&mut sval, ';');
                                    proof {
                                        reveal_strlit(";");
                                        assert(sval@ =~= s@ + ";"@);
                                    }
                                }
                                let vals = vec![sval];
                                proof {
                                    assert(strs_view(vals@) =~= spec_style_vals(s@));
                                }
                                self.add_attr("style", vals);
                                other.remove("style");
                            },
                            _ => {},
                        }
                    },
                    None => {},
                }
                let rest = JsonValue::Object(other.entries);
                self.add_attrs_from_jinja(&rest);
            },
            _ => {},
        }
    }

    /// Folds one node's scoped directives into the attributes.
    pub fn build_scoped(&mut self, data: &JsonMap, def: &Definition)
        ensures
            final(self)@ == spec_build_scoped(old(self)@, data@, def.variables@, def.themes@),
    {
        broadcast use group_views;

        let mut scoped = Scoped::new();
        scoped.collect(data, def);
        let ghost st = spec_scoped_styles(data@);
        let ghost lv = spec_scoped_local_vars(data@, def.variables@);
        let ghost te = spec_theme_effect(data@, def.themes@);
        proof {
            assert(strs_view(scoped.styles@) =~= st);
            assert(strs_view(scoped.local_variables@) =~= lv);
        }
        if scoped.styles.len() > 0 {
            self.add_attr("class", scoped.styles);
        }
        if scoped.local_variables.len() > 0 {
            self.add_attr("style", scoped.local_variables);
        }
        if scoped.theme_class.len() > 0 {
            proof {
                assert(te is AddClass);
                assert(strs_view(scoped.theme_class@) =~= seq![te->AddClass_0]);
            }
            self.add_attr("class", scoped.theme_class);
        } else {
            proof {
                assert(!(te is AddClass));
            }
        }
        proof {
            assert(pairs_view(scoped.theme_attribute@).len() == scoped.theme_attribute@.len());
        }
        if scoped.theme_attribute.len() > 0 {
            proof {
                assert(te is AddAttribute);
            }
            let ghost tav = pairs_view(scoped.theme_attribute@);
            let mut ta = scoped.theme_attribute;
            let (name, vals) = ta.remove(0);
            proof {
                assert(tav[0] == (te->AddAttribute_0, seq![te->AddAttribute_1]));
                assert(name@ == te->AddAttribute_0);
                assert(strs_view(vals@) =~= seq![te->AddAttribute_1]);
            }
            self.add_attr(name.as_str(), vals);
        } else {
            proof {
                assert(!(te is AddAttribute));
            }
        }
    }

    /// The attributes as a payload object of name -> value list.
    pub fn to_json_value(&self) -> (r: JsonValue)
        ensures
            jv_view(r) == spec_attr_json(self@),
    {
        broadcast use group_views, group_jv_view;

        let mut out: Vec<(String, JsonValue)> = Vec::new();
        let mut i: usize = 0;
        while i < self.attrs.len()
            invariant
                i <= self.attrs@.len(),
                crate::value::jv_view_entries(out@) =~= spec_attr_json_entries(
                    self@.take(i as int),
                ),
            decreases self.attrs@.len() - i,
        {
            let vals = &self.attrs[i].1;
            let mut arr: Vec<JsonValue> = Vec::new();
            let mut j: usize = 0;
            while j < vals.len()
                invariant
                    j <= vals@.len(),
                    crate::value::jv_view_seq(arr@) =~= spec_strs_json(
                        strs_view(vals@).take(j as int),
                    ),
                decreases vals@.len() - j,
            {
                let ghost pre = arr@;
                arr.push(JsonValue::Str(vals[j].clone()));
                proof {
                    assert(arr@.drop_last() =~= pre);
                    assert(strs_view(vals@).take(j + 1 as int).drop_last() =~= strs_view(
                        vals@,
                    ).take(j as int));
                    assert(crate::value::jv_view_seq(arr@) =~= spec_strs_json(
                        strs_view(vals@).take(j + 1 as int),
                    ));
                }
                j = j + 1;
            }
            proof {
                assert(strs_view(vals@).take(strs_view(vals@).len() as int) =~= strs_view(vals@));
            }
            let ghost pre_out = out@;
            out.push((self.attrs[i].0.clone(), JsonValue::Array(arr)));
            proof {
                assert(out@.drop_last() =~= pre_out);
                assert(self@.take(i + 1 as int).drop_last() =~= self@.take(i as int));
                assert(self@.take(i + 1 as int).last() == self@[i as int]);
                assert(crate::value::jv_view_entries(out@) =~= spec_attr_json_entries(
                    self@.take(i + 1 as int),
                ));
            }
            i = i + 1;
        }
        proof {
            assert(self@.take(self@.len() as int) =~= self@);
            assert(jv_view(JsonValue::Object(out)) =~= spec_attr_json(self@));
        }
        JsonValue::Object(out)
    }
}

} // verus!
