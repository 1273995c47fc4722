use vstd::prelude::*;

verus! {

use vstd::string::StringExecFns;
use crate::value::{JsonValue, JsonView, JsonMap, jm_contains, jm_get, group_jv_view};
use crate::definition::{Definition, Theme};
use crate::assoc::{skey_contains, skey_get, assoc_contains, assoc_get, strs_view, pairs_view, group_views};
use crate::strutil::push_char;

/// What a node's theme directive amounts to: nothing, one more class, or
/// one attribute pair.  The `html` target is a known gap and produces
/// nothing.
#[verifier::ext_equal]
pub enum ThemeEffect {
    NoEffect,
    AddClass(Seq<char>),
    AddAttribute(Seq<char>, Seq<char>),
}

/// The style class names a node's styles directive contributes: its string
/// items, in order.
pub open spec fn spec_string_items(items: Seq<JsonView>) -> Seq<Seq<char>>
    decreases items,
{
    if items.len() == 0 {
        Seq::empty()
    } else {
        let rest = spec_string_items(items.drop_last());
        match items.last() {
            JsonView::Str(s) => rest.push(s),
            _ => rest,
        }
    }
}

pub open spec fn spec_scoped_styles(d: Seq<(Seq<char>, JsonView)>) -> Seq<Seq<char>> {
    if jm_contains(d, "@styles"@) {
        match jm_get(d, "@styles"@) {
            JsonView::Array(items) => spec_string_items(items),
            _ => Seq::empty(),
        }
    } else {
        Seq::empty()
    }
}

/// One formatted CSS custom property declaration.
pub open spec fn spec_css_decl(name: Seq<char>, value: Seq<char>) -> Seq<char> {
    "--"@ + name + ": "@ + value + ";"@
}

/// The declarations a node's local variables directive contributes: one per
/// entry whose name the design system declares and whose value is a string.
pub open spec fn spec_local_vars(
    entries: Seq<(Seq<char>, JsonView)>,
    vars: Seq<(String, String)>,
) -> Seq<Seq<char>>
    decreases entries,
{
    if entries.len() == 0 {
        Seq::empty()
    } else {
        let rest = spec_local_vars(entries.drop_last(), vars);
        let e = entries.last();
        if skey_contains(vars, e.0) {
            match e.1 {
                JsonView::Str(s) => rest.push(spec_css_decl(e.0, s)),
                _ => rest,
            }
        } else {
            rest
        }
    }
}

pub open spec fn spec_scoped_local_vars(
    d: Seq<(Seq<char>, JsonView)>,
    vars: Seq<(String, String)>,
) -> Seq<Seq<char>> {
    if jm_contains(d, "@local_variables"@) {
        match jm_get(d, "@local_variables"@) {
            JsonView::Object(entries) => spec_local_vars(entries, vars),
            _ => Seq::empty(),
        }
    } else {
        Seq::empty()
    }
}

pub open spec fn spec_theme_effect(
    d: Seq<(Seq<char>, JsonView)>,
    themes: Seq<(String, Theme)>,
) -> ThemeEffect {
    if jm_contains(d, "@theme"@) {
        match jm_get(d, "@theme"@) {
            JsonView::Str(name) => {
                if skey_contains(themes, name) {
                    let t = skey_get(themes, name);
                    if t.target@ == "html"@ {
                        ThemeEffect::NoEffect
                    } else if t.key@ == "class"@ {
                        ThemeEffect::AddClass(t.val@)
                    } else {
                        ThemeEffect::AddAttribute(t.key@, t.val@)
                    }
                } else {
                    ThemeEffect::NoEffect
                }
            },
            _ => ThemeEffect::NoEffect,
        }
    } else {
        ThemeEffect::NoEffect
    }
}

/// Per-node directives limited to the node they appear on: style classes,
/// local CSS variable declarations, and the theme choice.
pub struct Scoped {
    pub styles: Vec<String>,
    pub theme_attribute: Vec<(String, Vec<String>)>,
    pub theme_class: Vec<String>,
    pub local_variables: Vec<String>,
}

impl Scoped {
    pub fn new() -> (r: Scoped)
        ensures
            strs_view(r.styles@) =~= Seq::<Seq<char>>::empty(),
            pairs_view(r.theme_attribute@) =~= Seq::<(Seq<char>, Seq<Seq<char>>)>::empty(),
            strs_view(r.theme_class@) =~= Seq::<Seq<char>>::empty(),
            strs_view(r.local_variables@) =~= Seq::<Seq<char>>::empty(),
    {
        Scoped {
            styles: Vec::new(),
            theme_attribute: Vec::new(),
            theme_class: Vec::new(),
            local_variables: Vec::new(),
        }
    }

    /// Gathers the styles, local variables and theme directives of one node.
    pub fn collect(&mut self, data: &JsonMap, def: &Definition)
        ensures
            strs_view(final(self).styles@) == strs_view(old(self).styles@) + spec_scoped_styles(
                data@,
            ),
            strs_view(final(self).local_variables@) == strs_view(old(self).local_variables@)
                + spec_scoped_local_vars(data@, def.variables@),
            strs_view(final(self).theme_class@) == match spec_theme_effect(data@, def.themes@) {
                ThemeEffect::AddClass(c) => strs_view(old(self).theme_class@).push(c),
                _ => strs_view(old(self).theme_class@),
            },
            pairs_view(final(self).theme_attribute@) == match spec_theme_effect(
                data@,
                def.themes@,
            ) {
                ThemeEffect::AddAttribute(k, v) => pairs_view(old(self).theme_attribute@).push(
                    (k, seq![v]),
                ),
                _ => pairs_view(old(self).theme_attribute@),
            },
    {
        self.collect_local_variables(data, def);
        self.collect_styles(data);
        self.collect_theme(data, def);
    }

    fn collect_local_variables(&mut self, data: &JsonMap, def: &Definition)
        ensures
            strs_view(final(self).local_variables@) == strs_view(old(self).local_variables@)
                + spec_scoped_local_vars(data@, def.variables@),
            final(self).styles == old(self).styles,
            final(self).theme_class == old(self).theme_class,
            final(self).theme_attribute == old(self).theme_attribute,
    {
        broadcast use group_jv_view, group_views;

        let ghost base = strs_view(self.local_variables@);
        match data.get("@local_variables") {
            Some(v) => {
                match v {
                    JsonValue::Object(vars) => {
                        let ghost ents = crate::value::jv_view_entries(vars@);
                        let mut i: usize = 0;
                        while i < vars.len()
                            invariant
                                i <= vars@.len(),
                                ents == crate::value::jv_view_entries(vars@),
                                strs_view(self.local_variables@) == base + spec_local_vars(
                                    ents.take(i as int),
                                    def.variables@,
                                ),
                                self.styles == old(self).styles,
                                self.theme_class == old(self).theme_class,
                                self.theme_attribute == old(self).theme_attribute,
                            decreases vars@.len() - i,
                        {
                            if assoc_contains(&def.variables, vars[i].0.as_str()) {
                                match &vars[i].1 {
                                    JsonValue::Str(s) => {
                                        let mut decl = String::new();
                                        decl.append("--");
                                        decl.append(vars[i].0.as_str());
                                        decl.append(": ");
                                        decl.append(s.as_str());
                                        decl.append(";");
                                        proof {
                                            assert(decl@ =~= spec_css_decl(
                                                ents[i as int].0,
                                                ents[i as int].1->Str_0,
                                            ));
                                        }
                                        let ghost pre_vec = self.local_variables@;
                                        let ghost dview = decl@;
                                        self.local_variables.push(decl);
                                        proof {
                                            assert(self.local_variables@.drop_last() =~= pre_vec);
                                            assert(strs_view(self.local_variables@) =~= strs_view(
                                                pre_vec,
                                            ).push(dview));
                                        }
                                    },
                                    _ => {},
                                }
                            }
                            proof {
                                assert(ents.take(i + 1 as int).drop_last() =~= ents.take(i as int));
                                assert(ents.take(i + 1 as int).last() == ents[i as int]);
                                assert(strs_view(self.local_variables@) =~= base + spec_local_vars(
                                    ents.take(i + 1 as int),
                                    def.variables@,
                                ));
                            }
                            i = i + 1;
                        }
                        proof {
                            assert(ents.take(ents.len() as int) =~= ents);
                        }
                    },
                    _ => {
                        proof {
                            assert(base + Seq::<Seq<char>>::empty() =~= base);
                        }
                    },
                }
            },
            None => {
                proof {
                    assert(base + Seq::<Seq<char>>::empty() =~= base);
                }
            },
        }
    }

    fn collect_styles(&mut self, data: &JsonMap)
        ensures
            strs_view(final(self).styles@) == strs_view(old(self).styles@) + spec_scoped_styles(
                data@,
            ),
            final(self).local_variables == old(self).local_variables,
            final(self).theme_class == old(self).theme_class,
            final(self).theme_attribute == old(self).theme_attribute,
    {
        broadcast use group_jv_view, group_views;

        let ghost base = strs_view(self.styles@);
        match data.get("@styles") {
            Some(v) => {
                match v {
                    JsonValue::Array(items) => {
                        let ghost iv = crate::value::jv_view_seq(items@);
                        let mut i: usize = 0;
                        while i < items.len()
                            invariant
                                i <= items@.len(),
                                iv == crate::value::jv_view_seq(items@),
                                strs_view(self.styles@) == base + spec_string_items(
                                    iv.take(i as int),
                                ),
                                self.local_variables == old(self).local_variables,
                                self.theme_class == old(self).theme_class,
                                self.theme_attribute == old(self).theme_attribute,
                            decreases items@.len() - i,
                        {
                            proof {
                                assert(iv[i as int] == crate::value::jv_view(items@[i as int]));
                            }
                            match &items[i] {
                                JsonValue::Str(s) => {
                                    let ghost pre_vec = self.styles@;
                                    self.styles.push(s.clone());
                                    proof {
                                        assert(crate::value::jv_view(items@[i as int])
                                            == JsonView::Str(s@));
                                        assert(self.styles@.drop_last() =~= pre_vec);
                                        assert(strs_view(self.styles@) =~= strs_view(
                                            pre_vec,
                                        ).push(s@));
                                    }
                                },
                                _ => {},
                            }
                            proof {
                                assert(iv.take(i + 1 as int).drop_last() =~= iv.take(i as int));
                                assert(iv.take(i + 1 as int).last() == iv[i as int]);
                                assert(strs_view(self.styles@) =~= base + spec_string_items(
                                    iv.take(i + 1 as int),
                                ));
                            }
                            i = i + 1;
                        }
                        proof {
                            assert(iv.take(iv.len() as int) =~= iv);
                        }
                    },
                    _ => {
                        proof {
                            assert(base + Seq::<Seq<char>>::empty() =~= base);
                        }
                    },
                }
            },
            None => {
                proof {
                    assert(base + Seq::<Seq<char>>::empty() =~= base);
                }
            },
        }
    }

    fn collect_theme(&mut self, data: &JsonMap, def: &Definition)
        ensures
            strs_view(final(self).theme_class@) == match spec_theme_effect(data@, def.themes@) {
                ThemeEffect::AddClass(c) => strs_view(old(self).theme_class@).push(c),
                _ => strs_view(old(self).theme_class@),
            },
            pairs_view(final(self).theme_attribute@) == match spec_theme_effect(
                data@,
                def.themes@,
            ) {
                ThemeEffect::AddAttribute(k, v) => pairs_view(old(self).theme_attribute@).push(
                    (k, seq![v]),
                ),
                _ => pairs_view(old(self).theme_attribute@),
            },
            final(self).styles == old(self).styles,
            final(self).local_variables == old(self).local_variables,
    {
        broadcast use group_views;

        match data.get("@theme") {
            Some(v) => {
                match v {
                    JsonValue::Str(name) => {
                        match assoc_get(&def.themes, name.as_str()) {
                            Some(theme) => {
                                if crate::strutil::str_eq(theme.target.as_str(), "html") {
                                    // The html target is a documented gap: no
                                    // attribute is produced for it.
                                    return ;
                                }
                                if crate::strutil::str_eq(theme.key.as_str(), "class") {
                                    self.theme_class.push(theme.val.clone());
                                    proof {
                                        assert(strs_view(self.theme_class@) =~= strs_view(old(
                                            self,
                                        ).theme_class@).push(theme.val@));
                                    }
                                } else {
                                    self.theme_attribute.push(
                                        (theme.key.clone(), vec![theme.val.clone()]),
                                    );
                                    proof {
                                        assert(pairs_view(self.theme_attribute@) =~~= pairs_view(old(
                                            self,
                                        ).theme_attribute@).push(
                                            (theme.key@, seq![theme.val@]),
                                        ));
                                    }
                                }
                            },
                            None => {},
                        }
                    },
                    _ => {},
                }
            },
            None => {},
        }
    }
}

} // verus!
