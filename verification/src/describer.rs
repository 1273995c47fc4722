use vstd::prelude::*;

verus! {

use vstd::string::StringExecFns;
use crate::strutil::{push_char, str_eq, chars_of};
use crate::value::{
    JsonValue, JsonView, jv_view, jv_view_entries, jm_contains, jm_get, group_jv_view, jm_find,
    to_json_pretty, spec_json_pretty,
};

// The introspection endpoint: a read-only lookup over the design system's
// definition data.

/// The artefact key as queried: a plural marker is added when missing.
pub open spec fn spec_plural(artefact: Seq<char>) -> Seq<char> {
    if artefact.len() > 0 && artefact.last() == 's' {
        artefact
    } else {
        artefact.push('s')
    }
}

/// The error text for a missing artefact listing.
pub open spec fn spec_err_list(artefact: Seq<char>) -> Seq<char> {
    "{\"error\":\"Not found artefact: "@ + artefact + "\"}"@
}

pub open spec fn spec_err_artefact(artefact: Seq<char>) -> Seq<char> {
    "{\"error\":\"Not found, empty artefact: "@ + artefact + "\"}"@
}

pub open spec fn spec_err_id(artefact: Seq<char>, id: Seq<char>) -> Seq<char> {
    "{\"error\":\"Not found artefact id: "@ + artefact + "::"@ + id + "\"}"@
}

/// The keys of an object, as payload strings.
pub open spec fn spec_keys_json(ents: Seq<(Seq<char>, JsonView)>) -> Seq<JsonView>
    decreases ents,
{
    if ents.len() == 0 {
        Seq::empty()
    } else {
        spec_keys_json(ents.drop_last()).push(JsonView::Str(ents.last().0))
    }
}

/// What the introspection lookup answers: a key listing for the list
/// sentinel, the artefact subtree or one entry of it, each printed with
/// indentation, or a structured error.
pub open spec fn spec_describe_inner(artefact: Seq<char>, id: Seq<char>, json: JsonView) -> Seq<
    char,
> {
    let plural = spec_plural(artefact);
    if id == "_list"@ {
        match json {
            JsonView::Object(ents) => {
                if jm_contains(ents, plural) {
                    match jm_get(ents, plural) {
                        JsonView::Object(inner) => spec_json_pretty(
                            JsonView::Array(spec_keys_json(inner)),
                            Seq::empty(),
                        ),
                        _ => spec_err_list(plural),
                    }
                } else {
                    spec_err_list(plural)
                }
            },
            _ => spec_err_list(plural),
        }
    } else {
        let picked = if artefact.len() > 0 {
            match json {
                JsonView::Object(ents) => {
                    if jm_contains(ents, plural) {
                        Some(jm_get(ents, plural))
                    } else {
                        None::<JsonView>
                    }
                },
                _ => None::<JsonView>,
            }
        } else {
            Some(json)
        };
        match picked {
            None => spec_err_artefact(plural),
            Some(value) => {
                if id.len() > 0 {
                    match value {
                        JsonView::Object(ents) => {
                            if jm_contains(ents, id) {
                                spec_json_pretty(jm_get(ents, id), Seq::empty())
                            } else {
                                spec_err_id(plural, id)
                            }
                        },
                        _ => spec_err_id(plural, id),
                    }
                } else {
                    spec_json_pretty(value, Seq::empty())
                }
            },
        }
    }
}

/// Looks an artefact (and optionally one entry of it) up in a definition
/// tree and prints what it finds, or a structured error.
pub fn describe_inner(artefact: &str, id: &str, json: &JsonValue) -> (r: String)
    ensures
        r@ == spec_describe_inner(artefact@, id@, jv_view(*json)),
{
    broadcast use group_jv_view;

    let ac = chars_of(artefact);
    let mut plural: String = artefact.to_owned();
    if !(ac.len() > 0 && ac[ac.len() - 1] == 's') {
        push_char(&mut plural, 's');
    }
    proof {
        assert(plural@ == spec_plural(artefact@));
    }
    if str_eq(id, "_list") {
        match json {
            JsonValue::Object(ents) => {
                match jm_find(ents, plural.as_str()) {
                    Some(parent) => {
                        match parent {
                            JsonValue::Object(inner) => {
                                let ghost iv = jv_view_entries(inner@);
                                let mut keys: Vec<JsonValue> = Vec::new();
                                let mut i: usize = 0;
                                while i < inner.len()
                                    invariant
                                        i <= inner@.len(),
                                        iv == jv_view_entries(inner@),
                                        crate::value::jv_view_seq(keys@) =~= spec_keys_json(
                                            iv.take(i as int),
                                        ),
                                    decreases inner@.len() - i,
                                {
                                    let ghost pre = keys@;
                                    keys.push(JsonValue::Str(inner[i].0.clone()));
                                    proof {
                                        assert(keys@.drop_last() =~= pre);
                                        assert(iv.take(i + 1 as int).drop_last() =~= iv.take(
                                            i as int,
                                        ));
                                        assert(iv.take(i + 1 as int).last() == iv[i as int]);
                                        assert(crate::value::jv_view_seq(keys@)
                                            =~= spec_keys_json(iv.take(i + 1 as int)));
                                    }
                                    i = i + 1;
                                }
                                proof {
                                    assert(iv.take(iv.len() as int) =~= iv);
                                }
                                let arr = JsonValue::Array(keys);
                                to_json_pretty(&arr)
                            },
                            _ => err_list(plural.as_str()),
                        }
                    },
                    None => err_list(plural.as_str()),
                }
            },
            _ => err_list(plural.as_str()),
        }
    } else {
        let picked: Option<&JsonValue> = if ac.len() > 0 {
            match json {
                JsonValue::Object(ents) => jm_find(ents, plural.as_str()),
                _ => None,
            }
        } else {
            Some(json)
        };
        proof {
            reveal_strlit("");
            assert(""@ =~= Seq::<char>::empty());
        }
        let id_nonempty = id.unicode_len() > 0;
        match picked {
            None => {
                let mut out = String::new();
                out.append("{\"error\":\"Not found, empty artefact: ");
                out.append(plural.as_str());
                out.append("\"}");
                proof {
                    assert(out@ =~= spec_err_artefact(plural@));
                }
                out
            },
            Some(value) => {
                if id_nonempty {
                    match value {
                        JsonValue::Object(ents) => {
                            match jm_find(ents, id) {
                                Some(inner) => to_json_pretty(inner),
                                None => err_id(plural.as_str(), id),
                            }
                        },
                        _ => err_id(plural.as_str(), id),
                    }
                } else {
                    to_json_pretty(value)
                }
            },
        }
    }
}

fn err_list(plural: &str) -> (r: String)
    ensures
        r@ == spec_err_list(plural@),
{
    let mut out = String::new();
    out.append("{\"error\":\"Not found artefact: ");
    out.append(plural);
    out.append("\"}");
    proof {
        assert(out@ =~= spec_err_list(plural@));
    }
    out
}

fn err_id(plural: &str, id: &str) -> (r: String)
    ensures
        r@ == spec_err_id(plural@, id@),
{
    let mut out = String::new();
    out.append("{\"error\":\"Not found artefact id: ");
    out.append(plural);
    out.append("::");
    out.append(id);
    out.append("\"}");
    proof {
        assert(out@ =~= spec_err_id(plural@, id@));
    }
    out
}

/// The shape of the built-in test design system's definition data.
pub open spec fn spec_definitions() -> JsonView {
    JsonView::Object(
        seq![
            ("components"@, JsonView::Object(
                seq![
                    ("test_min"@, JsonView::Object(seq![("id"@, JsonView::Str("foo"@))])),
                    ("test_component"@, JsonView::Object(
                        seq![("id"@, JsonView::Str("bar"@))],
                    )),
                    ("test_component_other"@, JsonView::Object(
                        seq![("id"@, JsonView::Str("baz"@))],
                    )),
                ],
            )),
        ],
    )
}

/// The definition data the built-in test design system describes: its
/// components, each under its identifier.
pub fn definitions() -> (r: JsonValue)
    ensures
        jv_view(r) == spec_definitions(),
{
    broadcast use group_jv_view;

    let mut test_min: Vec<(String, JsonValue)> = Vec::new();
    test_min.push(("id".to_owned(), JsonValue::Str("foo".to_owned())));
    let mut test_component: Vec<(String, JsonValue)> = Vec::new();
    test_component.push(("id".to_owned(), JsonValue::Str("bar".to_owned())));
    let mut test_component_other: Vec<(String, JsonValue)> = Vec::new();
    test_component_other.push(("id".to_owned(), JsonValue::Str("baz".to_owned())));
    proof {
        assert(jv_view_entries(test_min@) =~= seq![("id"@, JsonView::Str("foo"@))]);
        assert(jv_view_entries(test_component@) =~= seq![("id"@, JsonView::Str("bar"@))]);
        assert(jv_view_entries(test_component_other@) =~= seq![
            ("id"@, JsonView::Str("baz"@)),
        ]);
    }
    let mut components: Vec<(String, JsonValue)> = Vec::new();
    let ghost c0 = components@;
    components.push(("test_min".to_owned(), JsonValue::Object(test_min)));
    let ghost c1 = components@;
    proof {
        assert(c1.drop_last() =~= c0);
    }
    components.push(("test_component".to_owned(), JsonValue::Object(test_component)));
    let ghost c2 = components@;
    proof {
        assert(c2.drop_last() =~= c1);
    }
    components.push(
        ("test_component_other".to_owned(), JsonValue::Object(test_component_other)),
    );
    let ghost c3 = components@;
    proof {
        assert(c3.drop_last() =~= c2);
        assert(jv_view_entries(c1) =~= seq![
            ("test_min"@, JsonView::Object(seq![("id"@, JsonView::Str("foo"@))])),
        ]);
        assert(jv_view_entries(c2) =~= jv_view_entries(c1).push(
            ("test_component"@, JsonView::Object(seq![("id"@, JsonView::Str("bar"@))])),
        ));
        assert(jv_view_entries(c3) =~= jv_view_entries(c2).push(
            ("test_component_other"@, JsonView::Object(seq![("id"@, JsonView::Str("baz"@))])),
        ));
        assert(jv_view_entries(c3) =~~= seq![
            ("test_min"@, JsonView::Object(seq![("id"@, JsonView::Str("foo"@))])),
            ("test_component"@, JsonView::Object(seq![("id"@, JsonView::Str("bar"@))])),
            ("test_component_other"@, JsonView::Object(seq![("id"@, JsonView::Str("baz"@))])),
        ]);
    }
    let mut root: Vec<(String, JsonValue)> = Vec::new();
    let ghost r0 = root@;
    root.push(("components".to_owned(), JsonValue::Object(components)));
    let ghost r1 = root@;
    let r = JsonValue::Object(root);
    proof {
        assert(r1.drop_last() =~= r0);
        assert(jv_view_entries(r0) =~= Seq::<(Seq<char>, JsonView)>::empty());
        assert(jv_view(r1.last().1) =~~= JsonView::Object(jv_view_entries(c3)));
        assert(jv_view_entries(r1) =~~= seq![
            ("components"@, JsonView::Object(jv_view_entries(c3))),
        ]);
        assert(jv_view(r) =~~= spec_definitions());
    }
    r
}

/// Answers an introspection query against the built-in definition data.
pub fn describe(artefact: &str, id: &str) -> (r: String)
    ensures
        r@ == spec_describe_inner(artefact@, id@, spec_definitions()),
{
    let defs = definitions();
    describe_inner(artefact, id, &defs)
}


/// A minimal self-query, handy for a quick smoke check of the
/// introspection data from a host runtime.
pub fn test() -> (r: String)
    ensures
        r@ == spec_describe_inner("component"@, "test_component"@, spec_definitions()),
{
    describe("component", "test_component")
}

} // verus!
