use vstd::prelude::*;

verus! {

use vstd::string::StringExecFns;
use crate::strutil::{
    push_char, str_eq, chars_of, string_from_chars, spec_ascii_lower_char, ascii_lower_char,
    spec_replace, replace_chars, spec_trim, trim_chars, spec_unquoted,
};
use crate::value::{
    JsonValue, JsonView, JsonMap, jv_view, jv_view_seq, jv_view_entries, jm_contains, jm_get,
    jm_index_of, group_jv_view, jv_copy, jm_copy_entries, spec_display, display_string,
    lemma_jm_index_of,
};
use crate::assoc::{strs_view, kvs_view, group_views};
use crate::attribute::{Attribute, spec_add_all, spec_add_from_value, spec_merge, spec_remove_val};
use crate::bubbable::{kv_index_of, kv_contains, lemma_kv_index_of, lemma_kv_index_of_is};
use crate::renderable::{RenderableType, spec_value_renderable_type, get_renderable_type_from};

// The helper functions the template engine exposes to templates.  Each is
// written over the library's value model; the engine glue turns engine
// values into these and back.

// ---------------------------------------------------------------------------
// Translation.
// ---------------------------------------------------------------------------

/// The variable substitutions applied in order: each non-empty name is
/// replaced by its value's display form, left to right.
pub open spec fn spec_t_subst(acc: Seq<char>, vars: Seq<(Seq<char>, JsonView)>) -> Seq<char>
    decreases vars,
{
    if vars.len() == 0 {
        acc
    } else {
        let prev = spec_t_subst(acc, vars.drop_last());
        if vars.last().0.len() > 0 {
            spec_replace(prev, vars.last().0, spec_display(vars.last().1))
        } else {
            prev
        }
    }
}

/// What the translation helper returns: the term itself when no entry
/// matches, else the stored translation without its quotes, with the given
/// variables substituted.
pub open spec fn spec_t(
    term: Seq<char>,
    variables: Option<JsonView>,
    tr: Seq<(Seq<char>, Seq<char>)>,
) -> Seq<char> {
    if kv_contains(tr, term) {
        let stored = spec_unquoted(tr[kv_index_of(tr, term)].1);
        match variables {
            Some(JsonView::Object(vars)) => spec_t_subst(stored, vars),
            _ => stored,
        }
    } else {
        term
    }
}

/// Translates one term against the gathered dictionary, substituting the
/// given variables into the translated text.
pub fn t(
    value: &str,
    variables: Option<&JsonValue>,
    translation: &Vec<(String, String)>,
) -> (r: String)
    ensures
        r@ == spec_t(
            value@,
            match variables {
                Some(v) => Some(jv_view(*v)),
                None => None::<JsonView>,
            },
            kvs_view(translation@),
        ),
{
    broadcast use group_views, group_jv_view;

    let ghost tr = kvs_view(translation@);
    proof {
        lemma_kv_index_of(tr, value@);
    }
    let mut idx: Option<usize> = None;
    let mut j: usize = 0;
    while j < translation.len()
        invariant
            j <= translation@.len(),
            idx is None,
            forall|k: int| 0 <= k < j ==> tr[k].0 != value@,
            tr == kvs_view(translation@),
        decreases translation@.len() - j,
    {
        if str_eq(translation[j].0.as_str(), value) {
            proof {
                assert(tr[j as int].0 == value@);
                lemma_kv_index_of_is(tr, value@, j as int);
            }
            idx = Some(j);
            break ;
        }
        j = j + 1;
    }
    match idx {
        None => value.to_owned(),
        Some(j) => {
            let stored = &translation[j].1;
            let cs = chars_of(stored.as_str());
            let mut kept: Vec<char> = Vec::new();
            let mut k: usize = 0;
            while k < cs.len()
                invariant
                    k <= cs@.len(),
                    cs@ == stored@,
                    kept@ == spec_unquoted(cs@.take(k as int)),
                decreases cs@.len() - k,
            {
                if cs[k] != '"' {
                    kept.push(cs[k]);
                }
                proof {
                    assert(cs@.take(k + 1 as int).drop_last() =~= cs@.take(k as int));
                    assert(cs@.take(k + 1 as int).last() == cs@[k as int]);
                }
                k = k + 1;
            }
            proof {
                assert(cs@.take(cs@.len() as int) =~= cs@);
            }
            match variables {
                Some(v) => {
                    match v {
                        JsonValue::Object(vars) => {
                            let ghost vv = jv_view_entries(vars@);
                            let mut acc = kept;
                            let mut i: usize = 0;
                            while i < vars.len()
                                invariant
                                    i <= vars@.len(),
                                    vv == jv_view_entries(vars@),
                                    acc@ == spec_t_subst(
                                        spec_unquoted(translation@[j as int].1@),
                                        vv.take(i as int),
                                    ),
                                decreases vars@.len() - i,
                            {
                                let namec = chars_of(vars[i].0.as_str());
                                if namec.len() > 0 {
                                    let shown = display_string(&vars[i].1);
                                    let shownc = chars_of(shown.as_str());
                                    acc = replace_chars(&acc, &namec, &shownc);
                                }
                                proof {
                                    assert(vv.take(i + 1 as int).drop_last() =~= vv.take(i as int));
                                    assert(vv.take(i + 1 as int).last() == vv[i as int]);
                                }
                                i = i + 1;
                            }
                            proof {
                                assert(vv.take(vv.len() as int) =~= vv);
                            }
                            string_from_chars(&acc)
                        },
                        _ => string_from_chars(&kept),
                    }
                },
                None => string_from_chars(&kept),
            }
        },
    }
}

// ---------------------------------------------------------------------------
// String helpers.
// ---------------------------------------------------------------------------

/// Index of the first occurrence of `sub`, or -1.
pub open spec fn spec_find_sub(s: Seq<char>, sub: Seq<char>) -> int
    decreases s.len(),
    when sub.len() > 0
{
    if s.len() < sub.len() {
        -1
    } else if s.subrange(0, sub.len() as int) == sub {
        0
    } else {
        let r = spec_find_sub(s.drop_first(), sub);
        if r < 0 {
            -1
        } else {
            r + 1
        }
    }
}

/// The pieces of `s` cut at every occurrence of `sep`, scanning left to
/// right.
pub open spec fn spec_split_str(s: Seq<char>, sep: Seq<char>) -> Seq<Seq<char>>
    decreases s.len(),
    when sep.len() > 0
    via spec_split_str_decreases
{
    let i = spec_find_sub(s, sep);
    if i < 0 {
        seq![s]
    } else {
        seq![s.take(i)] + spec_split_str(s.subrange(i + sep.len() as int, s.len() as int), sep)
    }
}

proof fn lemma_find_sub_bounds(s: Seq<char>, sub: Seq<char>)
    requires
        sub.len() > 0,
    ensures
        spec_find_sub(s, sub) >= 0 ==> 0 <= spec_find_sub(s, sub) && spec_find_sub(s, sub)
            + sub.len() <= s.len() && s.subrange(
            spec_find_sub(s, sub),
            spec_find_sub(s, sub) + sub.len() as int,
        ) == sub && forall|k: int|
            0 <= k < spec_find_sub(s, sub) ==> #[trigger] s.subrange(k, k + sub.len() as int)
                != sub,
        spec_find_sub(s, sub) < 0 ==> forall|k: int|
            0 <= k && k + sub.len() <= s.len() ==> #[trigger] s.subrange(k, k + sub.len() as int)
                != sub,
    decreases s.len(),
{
    if s.len() >= sub.len() && s.subrange(0, sub.len() as int) != sub {
        lemma_find_sub_bounds(s.drop_first(), sub);
        assert forall|k: int|
            1 <= k && k + sub.len() <= s.len() implies #[trigger] s.subrange(
            k,
            k + sub.len() as int,
        ) =~= s.drop_first().subrange(k - 1, k - 1 + sub.len() as int) by {}
    }
}

#[via_fn]
proof fn spec_split_str_decreases(s: Seq<char>, sep: Seq<char>) {
    lemma_find_sub_bounds(s, sep);
}

fn find_sub_at(v: &Vec<char>, sub: &Vec<char>) -> (r: Option<usize>)
    requires
        sub@.len() > 0,
    ensures
        match r {
            Some(i) => spec_find_sub(v@, sub@) == i && i + sub@.len() <= v@.len(),
            None => spec_find_sub(v@, sub@) < 0,
        },
{
    proof {
        lemma_find_sub_bounds(v@, sub@);
    }
    if sub.len() > v.len() {
        return None;
    }
    let bound: usize = v.len() - sub.len();
    let mut i: usize = 0;
    while i <= bound
        invariant
            sub@.len() > 0,
            sub@.len() <= v@.len(),
            bound == v@.len() - sub@.len(),
            i <= bound + 1,
            forall|k: int| 0 <= k < i ==> #[trigger] v@.subrange(k, k + sub@.len() as int) != sub@,
        decreases bound + 1 - i,
    {
        let mut j: usize = 0;
        let mut matches_here = true;
        while j < sub.len()
            invariant
                j <= sub@.len(),
                i + sub@.len() <= v@.len(),
                matches_here ==> forall|k: int| 0 <= k < j ==> v@[i + k] == sub@[k],
                !matches_here ==> v@.subrange(i as int, i + sub@.len() as int) != sub@,
            decreases sub@.len() - j,
        {
            if v[i + j] != sub[j] {
                matches_here = false;
                proof {
                    assert(v@.subrange(i as int, i + sub@.len() as int)[j as int] == v@[i + j]);
                    assert(v@.subrange(i as int, i + sub@.len() as int) != sub@);
                }
                break ;
            }
            j = j + 1;
        }
        if matches_here {
            proof {
                assert(v@.subrange(i as int, i + sub@.len() as int) =~= sub@);
                lemma_find_sub_first(v@, sub@, i as int);
            }
            return Some(i);
        } else {
            proof {
                assert(v@.subrange(i as int, i + sub@.len() as int) != sub@);
            }
        }
        i = i + 1;
    }
    proof {
        lemma_find_sub_bounds(v@, sub@);
        if spec_find_sub(v@, sub@) >= 0 {
            assert(v@.subrange(
                spec_find_sub(v@, sub@),
                spec_find_sub(v@, sub@) + sub@.len() as int,
            ) == sub@);
        }
    }
    None
}

proof fn lemma_find_sub_first(s: Seq<char>, sub: Seq<char>, i: int)
    requires
        sub.len() > 0,
        0 <= i,
        i + sub.len() <= s.len(),
        s.subrange(i, i + sub.len() as int) == sub,
        forall|k: int| 0 <= k < i ==> #[trigger] s.subrange(k, k + sub.len() as int) != sub,
    ensures
        spec_find_sub(s, sub) == i,
    decreases s.len(),
{
    if i > 0 {
        let k0: int = 0;
        assert(s.subrange(k0, k0 + sub.len() as int) != sub);
        assert(s.subrange(0, sub.len() as int) =~= s.subrange(k0, k0 + sub.len() as int));
        assert forall|k: int|
            0 <= k < i - 1 implies #[trigger] s.drop_first().subrange(k, k + sub.len() as int)
            != sub by {
            assert(s.drop_first().subrange(k, k + sub.len() as int) =~= s.subrange(
                k + 1,
                k + 1 + sub.len() as int,
            ));
        }
        assert(s.drop_first().subrange(i - 1, i - 1 + sub.len() as int) =~= s.subrange(
            i,
            i + sub.len() as int,
        ));
        lemma_find_sub_first(s.drop_first(), sub, i - 1);
    }
}

/// Splits a string value at a separator; anything but a string yields
/// nothing, as the engine reports an error for it.  An empty separator
/// leaves the string whole.
pub fn split(value: &JsonValue, sep: &str) -> (r: Option<Vec<String>>)
    ensures
        match jv_view(*value) {
            JsonView::Str(s) => (sep@.len() > 0 ==> (match r {
                Some(parts) => strs_view(parts@) == spec_split_str(s, sep@),
                None => false,
            })) && (sep@.len() == 0 ==> (match r {
                Some(parts) => strs_view(parts@) == seq![s],
                None => false,
            })),
            _ => r is None,
        },
{
    broadcast use group_views;

    match value {
        JsonValue::Str(s) => {
            let sepc = chars_of(sep);
            if sepc.len() == 0 {
                let parts = vec![s.clone()];
                proof {
                    broadcast use crate::assoc::group_views;

                    assert(strs_view(parts@) =~= seq![s@]);
                }
                return Some(parts);
            }
            let mut parts: Vec<String> = Vec::new();
            let mut rest: Vec<char> = chars_of(s.as_str());
            loop
                invariant
                    sepc@.len() > 0,
                    sepc@ == sep@,
                    strs_view(parts@) + spec_split_str(rest@, sepc@) =~= spec_split_str(s@, sep@),
                decreases rest@.len(),
            {
                proof {
                    lemma_find_sub_bounds(rest@, sepc@);
                }
                match find_sub_at(&rest, &sepc) {
                    Some(i) => {
                        let mut piece: Vec<char> = Vec::new();
                        let mut k: usize = 0;
                        while k < i
                            invariant
                                k <= i,
                                i + sepc@.len() <= rest@.len(),
                                piece@ == rest@.take(k as int),
                            decreases i - k,
                        {
                            piece.push(rest[k]);
                            proof {
                                assert(rest@.take(k + 1 as int) =~= rest@.take(k as int).push(
                                    rest@[k as int],
                                ));
                            }
                            k = k + 1;
                        }
                        let ghost pre_s = parts@;
                        let ghost pre_v = strs_view(parts@);
                        parts.push(string_from_chars(&piece));
                        proof {
                            assert(parts@.drop_last() =~= pre_s);
                        }
                        let rl: usize = rest.len();
                        proof {
                            assert(i + sepc@.len() <= rest@.len());
                        }
                        let mut tail: Vec<char> = Vec::new();
                        let mut m: usize = i + sepc.len();
                        let ghost tail_start = m as int;
                        while m < rest.len()
                            invariant
                                tail_start <= m <= rest@.len(),
                                tail@ == rest@.subrange(tail_start, m as int),
                            decreases rest@.len() - m,
                        {
                            tail.push(rest[m]);
                            proof {
                                assert(rest@.subrange(tail_start, m + 1 as int) =~= rest@.subrange(
                                    tail_start,
                                    m as int,
                                ).push(rest@[m as int]));
                            }
                            m = m + 1;
                        }
                        proof {
                            assert(tail@ =~= rest@.subrange(
                                spec_find_sub(rest@, sepc@) + sepc@.len() as int,
                                rest@.len() as int,
                            ));
                            assert(strs_view(parts@) =~= pre_v.push(rest@.take(
                                spec_find_sub(rest@, sepc@),
                            )));
                        }
                        rest = tail;
                    },
                    None => {
                        let ghost pre_s = parts@;
                        let ghost pre_v = strs_view(parts@);
                        parts.push(string_from_chars(&rest));
                        proof {
                            assert(parts@.drop_last() =~= pre_s);
                            assert(strs_view(parts@) =~= pre_v.push(rest@));
                            assert(strs_view(parts@) =~= spec_split_str(s@, sep@));
                        }
                        return Some(parts);
                    },
                }
            }
        },
        _ => None,
    }
}

/// Prepends to a string or a list; anything else yields nothing, as the
/// engine reports an error for it.
pub fn prepend(value: &JsonValue, lead: &str) -> (r: Option<JsonValue>)
    ensures
        match jv_view(*value) {
            JsonView::Str(s) => match r {
                Some(x) => jv_view(x) == JsonView::Str(lead@ + s),
                None => false,
            },
            JsonView::Array(items) => match r {
                Some(x) => jv_view(x) == JsonView::Array(
                    seq![JsonView::Str(lead@)].add(items),
                ),
                None => false,
            },
            _ => r is None,
        },
{
    broadcast use group_jv_view;

    match value {
        JsonValue::Str(s) => {
            let mut out = lead.to_owned();
            out.append(s.as_str());
            Some(JsonValue::Str(out))
        },
        JsonValue::Array(items) => {
            let mut out: Vec<JsonValue> = Vec::new();
            out.push(JsonValue::Str(lead.to_owned()));
            let mut rest = crate::value::jv_copy(value);
            match rest {
                JsonValue::Array(mut rv) => {
                    let ghost pre = jv_view_seq(out@);
                    let ghost rvv = jv_view_seq(rv@);
                    let mut i: usize = 0;
                    while i < rv.len()
                        invariant
                            i <= rv@.len(),
                            rvv == jv_view_seq(rv@),
                            jv_view_seq(out@) =~= pre + rvv.take(i as int),
                        decreases rv@.len() - i,
                    {
                        let item = crate::value::jv_copy(&rv[i]);
                        let ghost ops = out@;
                        out.push(item);
                        proof {
                            assert(out@.drop_last() =~= ops);
                            assert(jv_view_seq(out@) =~= pre + rvv.take(i + 1 as int));
                        }
                        i = i + 1;
                    }
                    proof {
                        assert(rvv.take(rvv.len() as int) =~= rvv);
                        assert(jv_view_seq(out@) =~= seq![JsonView::Str(lead@)].add(
                            jv_view_seq(items@),
                        ));
                    }
                    Some(JsonValue::Array(out))
                },
                _ => {
                    proof {
                        assert(false);
                    }
                    None
                },
            }
        },
        _ => None,
    }
}

/// Appends to a string or a list; anything else yields nothing, as the
/// engine reports an error for it.
pub fn append(value: &JsonValue, tail: &JsonValue) -> (r: Option<JsonValue>)
    ensures
        match jv_view(*value) {
            JsonView::Str(s) => match jv_view(*tail) {
                JsonView::Str(t2) => match r {
                    Some(x) => jv_view(x) == JsonView::Str(s + t2),
                    None => false,
                },
                _ => r is None,
            },
            JsonView::Array(items) => match r {
                Some(x) => jv_view(x) == JsonView::Array(items.push(jv_view(*tail))),
                None => false,
            },
            _ => r is None,
        },
{
    broadcast use group_jv_view;

    match value {
        JsonValue::Str(s) => {
            match tail {
                JsonValue::Str(t2) => {
                    let mut out = s.clone();
                    out.append(t2.as_str());
                    Some(JsonValue::Str(out))
                },
                _ => None,
            }
        },
        JsonValue::Array(_) => {
            let copied = crate::value::jv_copy(value);
            match copied {
                JsonValue::Array(mut rv) => {
                    let ghost pre = jv_view_seq(rv@);
                    let item = crate::value::jv_copy(tail);
                    rv.push(item);
                    proof {
                        assert(jv_view_seq(rv@) =~= pre.push(jv_view(*tail)));
                    }
                    Some(JsonValue::Array(rv))
                },
                _ => {
                    proof {
                        assert(false);
                    }
                    None
                },
            }
        },
        _ => None,
    }
}

// ---------------------------------------------------------------------------
// Identifier cleaning.
// ---------------------------------------------------------------------------

pub open spec fn spec_dash_char(c: char) -> char {
    if c == ' ' || c == '_' || c == '[' || c == ']' {
        '-'
    } else {
        c
    }
}

pub open spec fn spec_is_id_char(c: char) -> bool {
    ('a' <= c <= 'z') || ('A' <= c <= 'Z') || ('0' <= c <= '9') || c == '-'
}

/// Characters that are not ASCII letters, digits or hyphens are dropped.
pub open spec fn spec_strip_non_id(s: Seq<char>) -> Seq<char>
    decreases s,
{
    if s.len() == 0 {
        Seq::empty()
    } else {
        let rest = spec_strip_non_id(s.drop_last());
        if spec_is_id_char(s.last()) {
            rest.push(s.last())
        } else {
            rest
        }
    }
}

/// What the identifier cleaner produces: lower case, blanks and brackets
/// dashed, everything else stripped to ASCII, and runs of up to five
/// hyphens folded to one, longest first.
pub open spec fn spec_clean_id(s: Seq<char>) -> Seq<char> {
    let lowered = s.map_values(|c: char| spec_ascii_lower_char(c));
    let dashed = lowered.map_values(|c: char| spec_dash_char(c));
    let stripped = spec_strip_non_id(dashed);
    spec_replace(
        spec_replace(spec_replace(spec_replace(stripped, "-----"@, "-"@), "----"@, "-"@), "---"@, "-"@),
        "--"@,
        "-"@,
    )
}

/// Prepares a string for use as an HTML identifier.  Lowering covers the
/// ASCII letters alone; a non-ASCII capital whose lower form is an ASCII
/// letter is stripped rather than kept.
pub fn clean_id(s: &str) -> (r: String)
    ensures
        r@ == spec_clean_id(s@),
{
    let cs = chars_of(s);
    let mut mapped: Vec<char> = Vec::new();
    let ghost lowered = s@.map_values(|c: char| spec_ascii_lower_char(c));
    let ghost dashed = lowered.map_values(|c: char| spec_dash_char(c));
    let mut i: usize = 0;
    while i < cs.len()
        invariant
            i <= cs@.len(),
            cs@ == s@,
            mapped@ =~= dashed.take(i as int),
        decreases cs@.len() - i,
    {
        let lc = ascii_lower_char(cs[i]);
        let dc = if lc == ' ' || lc == '_' || lc == '[' || lc == ']' {
            '-'
        } else {
            lc
        };
        mapped.push(dc);
        proof {
            assert(mapped@ =~= dashed.take(i + 1 as int));
        }
        i = i + 1;
    }
    proof {
        assert(dashed.take(dashed.len() as int) =~= dashed);
    }
    let mut stripped: Vec<char> = Vec::new();
    let mut j: usize = 0;
    while j < mapped.len()
        invariant
            j <= mapped@.len(),
            mapped@ == dashed,
            stripped@ == spec_strip_non_id(dashed.take(j as int)),
        decreases mapped@.len() - j,
    {
        let c = mapped[j];
        let keep = ('a' <= c && c <= 'z') || ('A' <= c && c <= 'Z') || ('0' <= c && c <= '9') || c
            == '-';
        if keep {
            stripped.push(c);
        }
        proof {
            assert(dashed.take(j + 1 as int).drop_last() =~= dashed.take(j as int));
            assert(dashed.take(j + 1 as int).last() == dashed[j as int]);
        }
        j = j + 1;
    }
    proof {
        assert(dashed.take(dashed.len() as int) =~= dashed);
    }
    let dash5: Vec<char> = vec!['-', '-', '-', '-', '-'];
    let dash4: Vec<char> = vec!['-', '-', '-', '-'];
    let dash3: Vec<char> = vec!['-', '-', '-'];
    let dash2: Vec<char> = vec!['-', '-'];
    let dash1: Vec<char> = vec!['-'];
    proof {
        reveal_strlit("-----");
        reveal_strlit("----");
        reveal_strlit("---");
        reveal_strlit("--");
        reveal_strlit("-");
        assert(dash5@ =~= "-----"@);
        assert(dash4@ =~= "----"@);
        assert(dash3@ =~= "---"@);
        assert(dash2@ =~= "--"@);
        assert(dash1@ =~= "-"@);
    }
    let r1 = replace_chars(&stripped, &dash5, &dash1);
    let r2 = replace_chars(&r1, &dash4, &dash1);
    let r3 = replace_chars(&r2, &dash3, &dash1);
    let r4 = replace_chars(&r3, &dash2, &dash1);
    string_from_chars(&r4)
}

// ---------------------------------------------------------------------------
// Attribute helpers.
// ---------------------------------------------------------------------------

/// Builds an attribute set from a map value; any other value gives an
/// empty one.
pub fn create_attribute(value: Option<&JsonValue>) -> (r: Attribute)
    ensures
        match value {
            Some(v) => match jv_view(*v) {
                JsonView::Object(_) => r@ == spec_add_all(
                    Seq::<(Seq<char>, Seq<Seq<char>>)>::empty(),
                    jv_view(*v),
                ),
                _ => r@ =~= Seq::<(Seq<char>, Seq<Seq<char>>)>::empty(),
            },
            None => r@ =~= Seq::<(Seq<char>, Seq<Seq<char>>)>::empty(),
        },
{
    let mut attribute = Attribute::new();
    match value {
        Some(v) => {
            match v {
                JsonValue::Object(_) => {
                    attribute.add_attrs_from_jinja(v);
                },
                _ => {},
            }
        },
        None => {},
    }
    attribute
}

/// Whether a map value carries an attribute with this name; other values
/// carry none.
pub fn has_attribute(v: &JsonValue, name: &str) -> (r: bool)
    ensures
        r == match jv_view(*v) {
            JsonView::Object(ents) => jm_contains(ents, name@),
            _ => false,
        },
{
    match v {
        JsonValue::Object(m) => {
            match crate::value::jm_find(m, name) {
                Some(_) => true,
                None => false,
            }
        },
        _ => false,
    }
}

/// Whether a map value holds this class token, either as a string value or
/// inside a list value.
pub open spec fn spec_value_has_class(ents: Seq<(Seq<char>, JsonView)>, class: Seq<char>) -> bool {
    exists|i: int|
        0 <= i < ents.len() && match #[trigger] ents[i].1 {
            JsonView::Str(s) => s == class,
            JsonView::Array(items) => exists|k: int|
                0 <= k < items.len() && #[trigger] items[k] == JsonView::Str(class),
            _ => false,
        }
}

pub fn has_class(v: &JsonValue, class: &str) -> (r: bool)
    ensures
        r == match jv_view(*v) {
            JsonView::Object(ents) => spec_value_has_class(ents, class@),
            _ => false,
        },
{
    broadcast use group_jv_view;

    match v {
        JsonValue::Object(m) => {
            let ghost ents = jv_view_entries(m@);
            let mut i: usize = 0;
            while i < m.len()
                invariant
                    i <= m@.len(),
                    ents == jv_view_entries(m@),
                    forall|j: int|
                        0 <= j < i ==> match #[trigger] ents[j].1 {
                            JsonView::Str(s) => s != class@,
                            JsonView::Array(items) => !(exists|k: int|
                                0 <= k < items.len() && #[trigger] items[k] == JsonView::Str(
                                    class@,
                                )),
                            _ => true,
                        },
                decreases m@.len() - i,
            {
                match &m[i].1 {
                    JsonValue::Str(s) => {
                        if str_eq(s.as_str(), class) {
                            proof {
                                assert(ents[i as int].1 == JsonView::Str(class@));
                                assert(spec_value_has_class(ents, class@));
                            }
                            return true;
                        }
                    },
                    JsonValue::Array(items) => {
                        let ghost iv = jv_view_seq(items@);
                        let mut k: usize = 0;
                        while k < items.len()
                            invariant
                                k <= items@.len(),
                                iv == jv_view_seq(items@),
                                i < m@.len(),
                                ents == jv_view_entries(m@),
                                ents[i as int].1 == JsonView::Array(iv),
                                forall|t: int|
                                    0 <= t < k ==> #[trigger] iv[t] != JsonView::Str(class@),
                            decreases items@.len() - k,
                        {
                            match &items[k] {
                                JsonValue::Str(s) => {
                                    if str_eq(s.as_str(), class) {
                                        proof {
                                            assert(iv[k as int] == JsonView::Str(class@));
                                            assert(ents[i as int].1->Array_0 == iv);
                                            assert(ents[i as int].1->Array_0[k as int]
                                                == JsonView::Str(class@));
                                            assert(match ents[i as int].1 {
                                                JsonView::Str(s2) => s2 == class@,
                                                JsonView::Array(items2) => exists|kk: int|
                                                    0 <= kk < items2.len() && #[trigger] items2[kk]
                                                        == JsonView::Str(class@),
                                                _ => false,
                                            });
                                            assert(spec_value_has_class(ents, class@));
                                        }
                                        return true;
                                    }
                                },
                                _ => {},
                            }
                            k = k + 1;
                        }
                    },
                    _ => {},
                }
                i = i + 1;
            }
            false
        },
        _ => false,
    }
}

/// Merges the second map value into an attribute set built from the first.
/// Unless both operands are map values nothing is merged and the caller
/// keeps its first operand unchanged.
pub fn merge(v: &JsonValue, v2: &JsonValue) -> (r: Option<Attribute>)
    ensures
        (jv_view(*v) is Object && jv_view(*v2) is Object) ==> (match r {
            Some(a) => a@ == spec_merge(
                spec_add_all(Seq::<(Seq<char>, Seq<Seq<char>>)>::empty(), jv_view(*v)),
                jv_view(*v2),
            ),
            None => false,
        }),
        !(jv_view(*v) is Object && jv_view(*v2) is Object) ==> r is None,
{
    let both = match v {
        JsonValue::Object(_) => match v2 {
            JsonValue::Object(_) => true,
            _ => false,
        },
        _ => false,
    };
    if both {
        let mut attribute = Attribute::new();
        attribute.add_attrs_from_jinja(v);
        attribute.merge_attrs_from_jinja(v2);
        Some(attribute)
    } else {
        None
    }
}

/// A deterministic placeholder for a random token; randomness is a
/// capability the host layer may add.
pub fn generate_random_string() -> (r: String)
    ensures
        r@ == "no-random"@,
{
    "no-random".to_owned()
}

// ---------------------------------------------------------------------------
// Attribute injection into payload nodes.
// ---------------------------------------------------------------------------

/// The tokens an existing attribute value stands for: a list keeps its
/// string items, a string stands alone, anything else is dropped.
pub open spec fn spec_existing_tokens(v: JsonView) -> Seq<Seq<char>> {
    match v {
        JsonView::Array(items) => crate::scoped::spec_string_items(items),
        JsonView::Str(s) => seq![s],
        _ => Seq::empty(),
    }
}

/// Tokens as payload strings.
pub open spec fn spec_tokens_json(vals: Seq<Seq<char>>) -> Seq<JsonView>
    decreases vals,
{
    if vals.len() == 0 {
        Seq::empty()
    } else {
        spec_tokens_json(vals.drop_last()).push(JsonView::Str(vals.last()))
    }
}

/// A value merged into an entry: a fresh key takes the value's display
/// form; an existing entry becomes the list of its old tokens with the new
/// display form appended, and moves to the end.
pub open spec fn spec_add_or_merge(
    ents: Seq<(Seq<char>, JsonView)>,
    k: Seq<char>,
    v: JsonView,
) -> Seq<(Seq<char>, JsonView)> {
    if !jm_contains(ents, k) {
        ents.push((k, JsonView::Str(spec_display(v))))
    } else {
        let merged = spec_existing_tokens(jm_get(ents, k)).push(spec_display(v));
        ents.remove(jm_index_of(ents, k)).push((k, JsonView::Array(spec_tokens_json(merged))))
    }
}

/// Merges one value under a key of an object held as a map.
pub fn add_or_merge_attr(data: &mut JsonMap, key: &str, value: &JsonValue)
    ensures
        final(data)@ == spec_add_or_merge(old(data)@, key@, jv_view(*value)),
{
    broadcast use group_views, group_jv_view;

    let shown = display_string(value);
    match data.index_of(key) {
        None => {
            data.insert(key.to_owned(), JsonValue::Str(shown));
        },
        Some(i) => {
            let mut merged: Vec<String> = Vec::new();
            match &data.entries[i].1 {
                JsonValue::Array(items) => {
                    let ghost iv = jv_view_seq(items@);
                    let mut k: usize = 0;
                    while k < items.len()
                        invariant
                            k <= items@.len(),
                            iv == jv_view_seq(items@),
                            strs_view(merged@) == crate::scoped::spec_string_items(
                                iv.take(k as int),
                            ),
                        decreases items@.len() - k,
                    {
                        let ghost pre = merged@;
                        match &items[k] {
                            JsonValue::Str(s) => {
                                merged.push(s.clone());
                                proof {
                                    assert(merged@.drop_last() =~= pre);
                                }
                            },
                            _ => {},
                        }
                        proof {
                            assert(iv.take(k + 1 as int).drop_last() =~= iv.take(k as int));
                            assert(iv.take(k + 1 as int).last() == iv[k as int]);
                            assert(strs_view(merged@) =~= crate::scoped::spec_string_items(
                                iv.take(k + 1 as int),
                            ));
                        }
                        k = k + 1;
                    }
                    proof {
                        assert(iv.take(iv.len() as int) =~= iv);
                    }
                },
                JsonValue::Str(s) => {
                    merged.push(s.clone());
                    proof {
                        assert(strs_view(merged@) =~= seq![s@]);
                    }
                },
                _ => {
                    proof {
                        assert(strs_view(merged@) =~= spec_existing_tokens(
                            jm_get(old(data)@, key@),
                        ));
                    }
                },
            }
            let ghost pre_m = merged@;
            merged.push(shown);
            proof {
                assert(merged@.drop_last() =~= pre_m);
            }
            let mut arr: Vec<JsonValue> = Vec::new();
            let mut k: usize = 0;
            while k < merged.len()
                invariant
                    k <= merged@.len(),
                    jv_view_seq(arr@) =~= spec_tokens_json(strs_view(merged@).take(k as int)),
                decreases merged@.len() - k,
            {
                let ghost pre = arr@;
                arr.push(JsonValue::Str(merged[k].clone()));
                proof {
                    assert(arr@.drop_last() =~= pre);
                    assert(strs_view(merged@).take(k + 1 as int).drop_last() =~= strs_view(
                        merged@,
                    ).take(k as int));
                    assert(jv_view_seq(arr@) =~= spec_tokens_json(
                        strs_view(merged@).take(k + 1 as int),
                    ));
                }
                k = k + 1;
            }
            proof {
                assert(strs_view(merged@).take(strs_view(merged@).len() as int) =~= strs_view(
                    merged@,
                ));
            }
            data.remove(key);
            let ghost removed_vec = data.entries@;
            data.entries.push((key.to_owned(), JsonValue::Array(arr)));
            proof {
                assert(data.entries@.drop_last() =~= removed_vec);
                assert(data@ =~~= spec_add_or_merge(old(data)@, key@, jv_view(*value)));
            }
        },
    }
}

/// The class tokens a filter argument stands for.
pub open spec fn spec_class_tokens(class: JsonView) -> Seq<Seq<char>> {
    match class {
        JsonView::Array(items) => crate::attribute::spec_display_items(items),
        _ => seq![spec_display(class)],
    }
}

fn class_token_vec(class: &JsonValue) -> (r: Vec<String>)
    ensures
        strs_view(r@) == spec_class_tokens(jv_view(*class)),
{
    broadcast use group_views, group_jv_view;

    match class {
        JsonValue::Array(items) => {
            let ghost iv = jv_view_seq(items@);
            let mut out: Vec<String> = Vec::new();
            let mut i: usize = 0;
            while i < items.len()
                invariant
                    i <= items@.len(),
                    iv == jv_view_seq(items@),
                    strs_view(out@) == crate::attribute::spec_display_items(iv.take(i as int)),
                decreases items@.len() - i,
            {
                let ghost pre = out@;
                out.push(display_string(&items[i]));
                proof {
                    assert(out@.drop_last() =~= pre);
                    assert(iv.take(i + 1 as int).drop_last() =~= iv.take(i as int));
                    assert(iv.take(i + 1 as int).last() == iv[i as int]);
                    assert(strs_view(out@) =~= crate::attribute::spec_display_items(
                        iv.take(i + 1 as int),
                    ));
                }
                i = i + 1;
            }
            proof {
                assert(iv.take(iv.len() as int) =~= iv);
            }
            out
        },
        _ => {
            let shown = display_string(class);
            let out = vec![shown];
            proof {
                assert(strs_view(out@) =~= seq![spec_display(jv_view(*class))]);
            }
            out
        },
    }
}

/// The single class text a class argument collapses to when it starts a
/// fresh attributes directive: list items are joined with blanks on both
/// sides and the whole is trimmed.
pub open spec fn spec_class_text(class: JsonView) -> Seq<char> {
    match class {
        JsonView::Str(c) => c,
        JsonView::Array(items) => spec_trim(spec_spaced_concat(items)),
        _ => Seq::empty(),
    }
}

pub open spec fn spec_spaced_concat(items: Seq<JsonView>) -> Seq<char>
    decreases items,
{
    if items.len() == 0 {
        Seq::empty()
    } else {
        spec_spaced_concat(items.drop_last()) + " "@ + spec_display(items.last()) + " "@
    }
}

/// Adds a class to a component node: a fresh attributes directive is
/// created when none exists, else the class is merged into the one that
/// does; a class argument that is neither string nor list changes nothing.
pub open spec fn spec_add_class_component(d: Seq<(Seq<char>, JsonView)>, class: JsonView) -> Seq<
    (Seq<char>, JsonView),
> {
    if !jm_contains(d, "attributes"@) && !jm_contains(d, "@attributes"@) {
        if class is Str || class is Array {
            d.push(
                ("@attributes"@, JsonView::Object(
                    seq![("class"@, JsonView::Str(spec_class_text(class)))],
                )),
            )
        } else {
            d
        }
    } else {
        let keyu = if jm_contains(d, "attributes"@) {
            "attributes"@
        } else {
            "@attributes"@
        };
        match jm_get(d, keyu) {
            JsonView::Object(attrs) => spec_remove_key_at(d, keyu).push(
                (keyu, JsonView::Object(spec_add_or_merge(attrs, "class"@, class))),
            ),
            _ => d,
        }
    }
}

pub open spec fn spec_remove_key_at(
    ents: Seq<(Seq<char>, JsonView)>,
    k: Seq<char>,
) -> Seq<(Seq<char>, JsonView)> {
    if jm_contains(ents, k) {
        ents.remove(jm_index_of(ents, k))
    } else {
        ents
    }
}

pub fn add_class_to_json_component(v: &JsonValue, class: &JsonValue) -> (r: JsonValue)
    ensures
        match jv_view(*v) {
            JsonView::Object(d) => jv_view(r) == JsonView::Object(
                spec_add_class_component(d, jv_view(*class)),
            ),
            _ => jv_view(r) == jv_view(*v),
        },
{
    broadcast use group_views, group_jv_view;

    match v {
        JsonValue::Object(m) => {
            let mut data = JsonMap { entries: jm_copy_entries(m) };
            let has_plain = data.contains_key("attributes");
            let has_directive = data.contains_key("@attributes");
            if !has_plain && !has_directive {
                let text: Option<String> = match class {
                    JsonValue::Str(c) => Some(c.clone()),
                    JsonValue::Array(items) => {
                        let ghost iv = jv_view_seq(items@);
                        let mut joined = String::new();
                        let mut i: usize = 0;
                        while i < items.len()
                            invariant
                                i <= items@.len(),
                                iv == jv_view_seq(items@),
                                joined@ == spec_spaced_concat(iv.take(i as int)),
                            decreases items@.len() - i,
                        {
                            joined.append(" ");
                            let shown = display_string(&items[i]);
                            joined.append(shown.as_str());
                            joined.append(" ");
                            proof {
                                assert(iv.take(i + 1 as int).drop_last() =~= iv.take(i as int));
                                assert(iv.take(i + 1 as int).last() == iv[i as int]);
                            }
                            i = i + 1;
                        }
                        proof {
                            assert(iv.take(iv.len() as int) =~= iv);
                        }
                        let trimmed = crate::strutil::trim_chars(&chars_of(joined.as_str()));
                        Some(string_from_chars(&trimmed))
                    },
                    _ => None,
                };
                match text {
                    Some(c) => {
                        let inner: Vec<(String, JsonValue)> = vec![
                            ("class".to_owned(), JsonValue::Str(c)),
                        ];
                        proof {
                            assert(jv_view_entries(inner@) =~= seq![
                                ("class"@, JsonView::Str(spec_class_text(jv_view(*class)))),
                            ]);
                        }
                        let ghost pre = data@;
                        data.insert("@attributes".to_owned(), JsonValue::Object(inner));
                        proof {
                            assert(data@ =~~= spec_add_class_component(
                                jv_view_entries(m@),
                                jv_view(*class),
                            ));
                        }
                        JsonValue::Object(data.entries)
                    },
                    None => JsonValue::Object(data.entries),
                }
            } else {
                let keyu: &str = if has_plain {
                    "attributes"
                } else {
                    "@attributes"
                };
                let inner_obj: Option<Vec<(String, JsonValue)>> = match data.get(keyu) {
                    Some(a) => match a {
                        JsonValue::Object(attrs) => Some(jm_copy_entries(attrs)),
                        _ => None,
                    },
                    None => None,
                };
                match inner_obj {
                    Some(attrs) => {
                        let mut attrs_map = JsonMap { entries: attrs };
                        add_or_merge_attr(&mut attrs_map, "class", class);
                        data.remove(keyu);
                        let ghost removed_vec = data.entries@;
                        data.entries.push((keyu.to_owned(), JsonValue::Object(attrs_map.entries)));
                        proof {
                            assert(data.entries@.drop_last() =~= removed_vec);
                            assert(data@ =~~= spec_add_class_component(
                                jv_view_entries(m@),
                                jv_view(*class),
                            ));
                        }
                        JsonValue::Object(data.entries)
                    },
                    None => JsonValue::Object(data.entries),
                }
            }
        },
        _ => jv_copy(v),
    }
}

/// Adds a class to an element node: the class merges straight into the
/// node's own class field.
pub fn add_class_to_json_element(v: &JsonValue, class: &JsonValue) -> (r: JsonValue)
    ensures
        match jv_view(*v) {
            JsonView::Object(d) => jv_view(r) == JsonView::Object(
                spec_add_or_merge(d, "class"@, jv_view(*class)),
            ),
            _ => jv_view(r) == jv_view(*v),
        },
{
    match v {
        JsonValue::Object(m) => {
            let mut data = JsonMap { entries: jm_copy_entries(m) };
            add_or_merge_attr(&mut data, "class", class);
            JsonValue::Object(data.entries)
        },
        _ => jv_copy(v),
    }
}

/// Adds one attribute to a component node, as the class variant does, with
/// a missing value read as empty text.
pub open spec fn spec_attr_value_text(value: Option<JsonView>) -> Seq<char> {
    match value {
        Some(x) => spec_display(x),
        None => Seq::empty(),
    }
}

pub open spec fn spec_add_attr_component(
    d: Seq<(Seq<char>, JsonView)>,
    name: Seq<char>,
    value: Option<JsonView>,
) -> Seq<(Seq<char>, JsonView)> {
    if !jm_contains(d, "attributes"@) && !jm_contains(d, "@attributes"@) {
        d.push(
            ("@attributes"@, JsonView::Object(
                seq![(name, JsonView::Str(spec_attr_value_text(value)))],
            )),
        )
    } else {
        let keyu = if jm_contains(d, "attributes"@) {
            "attributes"@
        } else {
            "@attributes"@
        };
        match jm_get(d, keyu) {
            JsonView::Object(attrs) => spec_remove_key_at(d, keyu).push(
                (keyu, JsonView::Object(spec_add_or_merge(
                    attrs,
                    name,
                    JsonView::Str(spec_attr_value_text(value)),
                ))),
            ),
            _ => d,
        }
    }
}

pub fn add_attr_to_json_component(v: &JsonValue, name: &str, value: Option<&JsonValue>) -> (r:
    JsonValue)
    ensures
        match jv_view(*v) {
            JsonView::Object(d) => jv_view(r) == JsonView::Object(
                spec_add_attr_component(
                    d,
                    name@,
                    match value {
                        Some(x) => Some(jv_view(*x)),
                        None => None::<JsonView>,
                    },
                ),
            ),
            _ => jv_view(r) == jv_view(*v),
        },
{
    broadcast use group_views, group_jv_view;

    let value_str: String = match value {
        Some(x) => display_string(x),
        None => String::new(),
    };
    match v {
        JsonValue::Object(m) => {
            let mut data = JsonMap { entries: jm_copy_entries(m) };
            let has_plain = data.contains_key("attributes");
            let has_directive = data.contains_key("@attributes");
            if !has_plain && !has_directive {
                let inner: Vec<(String, JsonValue)> = vec![
                    (name.to_owned(), JsonValue::Str(value_str)),
                ];
                proof {
                    assert(jv_view_entries(inner@) =~= seq![
                        (name@, JsonView::Str(spec_attr_value_text(match value {
                            Some(x) => Some(jv_view(*x)),
                            None => None::<JsonView>,
                        }))),
                    ]);
                }
                data.insert("@attributes".to_owned(), JsonValue::Object(inner));
                proof {
                    assert(data@ =~~= spec_add_attr_component(
                        jv_view_entries(m@),
                        name@,
                        match value {
                            Some(x) => Some(jv_view(*x)),
                            None => None::<JsonView>,
                        },
                    ));
                }
                JsonValue::Object(data.entries)
            } else {
                let keyu: &str = if has_plain {
                    "attributes"
                } else {
                    "@attributes"
                };
                let inner_obj: Option<Vec<(String, JsonValue)>> = match data.get(keyu) {
                    Some(a) => match a {
                        JsonValue::Object(attrs) => Some(jm_copy_entries(attrs)),
                        _ => None,
                    },
                    None => None,
                };
                match inner_obj {
                    Some(attrs) => {
                        let mut attrs_map = JsonMap { entries: attrs };
                        add_or_merge_attr(&mut attrs_map, name, &JsonValue::Str(value_str));
                        data.remove(keyu);
                        let ghost removed_vec = data.entries@;
                        data.entries.push((keyu.to_owned(), JsonValue::Object(attrs_map.entries)));
                        proof {
                            assert(data.entries@.drop_last() =~= removed_vec);
                            assert(data@ =~~= spec_add_attr_component(
                                jv_view_entries(m@),
                                name@,
                                match value {
                                    Some(x) => Some(jv_view(*x)),
                                    None => None::<JsonView>,
                                },
                            ));
                        }
                        JsonValue::Object(data.entries)
                    },
                    None => JsonValue::Object(data.entries),
                }
            }
        },
        _ => jv_copy(v),
    }
}

/// Adds one attribute straight onto an element node's fields.
pub fn add_attr_to_json_element(v: &JsonValue, name: &str, value: Option<&JsonValue>) -> (r:
    JsonValue)
    ensures
        match jv_view(*v) {
            JsonView::Object(d) => jv_view(r) == JsonView::Object(
                crate::value::spec_jm_insert(
                    d,
                    name@,
                    JsonView::Str(
                        match value {
                            Some(x) => spec_display(jv_view(*x)),
                            None => Seq::empty(),
                        },
                    ),
                ),
            ),
            _ => jv_view(r) == jv_view(*v),
        },
{
    let value_str: String = match value {
        Some(x) => display_string(x),
        None => String::new(),
    };
    match v {
        JsonValue::Object(m) => {
            let mut data = JsonMap { entries: jm_copy_entries(m) };
            data.insert(name.to_owned(), JsonValue::Str(value_str));
            JsonValue::Object(data.entries)
        },
        _ => jv_copy(v),
    }
}

// ---------------------------------------------------------------------------
// The attribute filters over whole values.
// ---------------------------------------------------------------------------

/// The value an absent filter argument stands for.
pub open spec fn spec_value_or_undefined(value: Option<JsonView>) -> JsonView {
    match value {
        Some(x) => x,
        None => JsonView::Str("undefined"@),
    }
}

/// Sets one attribute on a node, a list of nodes, or a plain attribute
/// map.  A list is mapped element-wise: element and component nodes gain
/// the attribute, every other member is kept unchanged.  A template node is
/// returned unchanged; any other map is read as an attribute map and gains
/// the attribute.
pub open spec fn spec_set_attribute(v: JsonView, name: Seq<char>, value: Option<JsonView>) -> JsonView {
    match v {
        JsonView::Array(items) => JsonView::Array(
            spec_set_attr_items(items, name, value),
        ),
        JsonView::Object(d) => {
            match crate::renderable::spec_renderable_type(d) {
                RenderableType::Element => JsonView::Object(
                    crate::value::spec_jm_insert(d, name, JsonView::Str(spec_attr_value_text(value))),
                ),
                RenderableType::Component => JsonView::Object(
                    spec_add_attr_component(d, name, value),
                ),
                RenderableType::Template => v,
                RenderableType::Unknown => crate::attribute::spec_attr_json(
                    spec_add_from_value(
                        spec_add_all(Seq::empty(), v),
                        name,
                        spec_value_or_undefined(value),
                    ),
                ),
            }
        },
        _ => v,
    }
}

pub open spec fn spec_set_attr_items(
    items: Seq<JsonView>,
    name: Seq<char>,
    value: Option<JsonView>,
) -> Seq<JsonView>
    decreases items,
{
    if items.len() == 0 {
        Seq::empty()
    } else {
        let rest = spec_set_attr_items(items.drop_last(), name, value);
        match items.last() {
            JsonView::Object(d) => {
                match crate::renderable::spec_renderable_type(d) {
                    RenderableType::Element => rest.push(
                        JsonView::Object(
                            crate::value::spec_jm_insert(d, name, JsonView::Str(spec_attr_value_text(value))),
                        ),
                    ),
                    RenderableType::Component => rest.push(
                        JsonView::Object(spec_add_attr_component(d, name, value)),
                    ),
                    _ => rest.push(items.last()),
                }
            },
            _ => rest.push(items.last()),
        }
    }
}

pub fn set_attribute(v: &JsonValue, name: &str, value: Option<&JsonValue>) -> (r: JsonValue)
    ensures
        jv_view(r) == spec_set_attribute(
            jv_view(*v),
            name@,
            match value {
                Some(x) => Some(jv_view(*x)),
                None => None::<JsonView>,
            },
        ),
{
    broadcast use group_jv_view;

    let ghost gv = match value {
        Some(x) => Some(jv_view(*x)),
        None => None::<JsonView>,
    };
    match v {
        JsonValue::Array(items) => {
            let ghost iv = jv_view_seq(items@);
            let mut out: Vec<JsonValue> = Vec::new();
            let mut i: usize = 0;
            while i < items.len()
                invariant
                    i <= items@.len(),
                    iv == jv_view_seq(items@),
                    jv_view_seq(out@) =~= spec_set_attr_items(iv.take(i as int), name@, gv),
                decreases items@.len() - i,
            {
                let ghost pre = out@;
                match &items[i] {
                    JsonValue::Object(_) => {
                        let t = get_renderable_type_from(&items[i]);
                        if t == RenderableType::Element {
                            out.push(add_attr_to_json_element(&items[i], name, value));
                        } else if t == RenderableType::Component {
                            out.push(add_attr_to_json_component(&items[i], name, value));
                        } else {
                            out.push(jv_copy(&items[i]));
                        }
                    },
                    _ => {
                        out.push(jv_copy(&items[i]));
                    },
                }
                proof {
                    assert(out@.drop_last() =~= pre);
                }
                proof {
                    assert(iv.take(i + 1 as int).drop_last() =~= iv.take(i as int));
                    assert(iv.take(i + 1 as int).last() == iv[i as int]);
                    assert(jv_view_seq(out@) =~= spec_set_attr_items(
                        iv.take(i + 1 as int),
                        name@,
                        gv,
                    ));
                }
                i = i + 1;
            }
            proof {
                assert(iv.take(iv.len() as int) =~= iv);
            }
            JsonValue::Array(out)
        },
        JsonValue::Object(_) => {
            let t = get_renderable_type_from(v);
            if t == RenderableType::Element {
                add_attr_to_json_element(v, name, value)
            } else if t == RenderableType::Component {
                add_attr_to_json_component(v, name, value)
            } else if t == RenderableType::Template {
                jv_copy(v)
            } else {
                let mut attributes = Attribute::new();
                attributes.add_attrs_from_jinja(v);
                let vu = match value {
                    Some(x) => jv_copy(x),
                    None => JsonValue::Str("undefined".to_owned()),
                };
                attributes.add_attr_from_jinja(name, &vu);
                attributes.to_json_value()
            }
        },
        _ => jv_copy(v),
    }
}

/// Adds class tokens to a node or attribute map; on a list only the first
/// item is touched, and a plain string is returned unchanged.
pub open spec fn spec_add_class(v: JsonView, class: JsonView) -> JsonView
    decreases v,
{
    match v {
        JsonView::Object(d) => {
            match crate::renderable::spec_renderable_type(d) {
                RenderableType::Element => JsonView::Object(
                    spec_add_or_merge(d, "class"@, class),
                ),
                RenderableType::Component => JsonView::Object(
                    spec_add_class_component(d, class),
                ),
                RenderableType::Template => v,
                RenderableType::Unknown => crate::attribute::spec_attr_json(
                    crate::attribute::spec_add_attr(
                        spec_add_all(Seq::empty(), v),
                        "class"@,
                        spec_class_tokens(class),
                    ),
                ),
            }
        },
        JsonView::Array(items) => {
            if items.len() > 0 {
                spec_add_class(items[0], class)
            } else {
                crate::attribute::spec_attr_json(
                    crate::attribute::spec_add_attr(
                        Seq::empty(),
                        "class"@,
                        spec_class_tokens(class),
                    ),
                )
            }
        },
        JsonView::Str(_) => v,
        _ => crate::attribute::spec_attr_json(
            crate::attribute::spec_add_attr(Seq::empty(), "class"@, spec_class_tokens(class)),
        ),
    }
}

pub fn add_class(v: &JsonValue, class: &JsonValue) -> (r: JsonValue)
    ensures
        jv_view(r) == spec_add_class(jv_view(*v), jv_view(*class)),
    decreases crate::value::jv_size(jv_view(*v)),
{
    broadcast use group_jv_view;

    match v {
        JsonValue::Object(_) => {
            let t = get_renderable_type_from(v);
            if t == RenderableType::Element {
                add_class_to_json_element(v, class)
            } else if t == RenderableType::Component {
                add_class_to_json_component(v, class)
            } else if t == RenderableType::Template {
                jv_copy(v)
            } else {
                let mut attributes = Attribute::new();
                attributes.add_attrs_from_jinja(v);
                let tokens = class_token_vec(class);
                attributes.add_attr("class", tokens);
                attributes.to_json_value()
            }
        },
        JsonValue::Array(items) => {
            if items.len() > 0 {
                proof {
                    crate::value::lemma_jv_size_seq_elem(
                        crate::value::jv_view_seq(items@),
                        0,
                    );
                }
                add_class(&items[0], class)
            } else {
                let mut attributes = Attribute::new();
                let tokens = class_token_vec(class);
                attributes.add_attr("class", tokens);
                attributes.to_json_value()
            }
        },
        JsonValue::Str(_) => jv_copy(v),
        _ => {
            let mut attributes = Attribute::new();
            let tokens = class_token_vec(class);
            attributes.add_attr("class", tokens);
            attributes.to_json_value()
        },
    }
}

/// Removes one class token: a map value is read as an attribute set, the
/// token is removed, and the attribute set is handed back; anything else is
/// unchanged.
pub fn remove_class(v: &JsonValue, class: &str) -> (r: JsonValue)
    ensures
        jv_view(r) == match jv_view(*v) {
            JsonView::Object(_) => {
                let a = spec_add_all(Seq::empty(), jv_view(*v));
                crate::attribute::spec_attr_json(
                    if crate::attribute::av_contains(a, "class"@) {
                        a.update(
                            crate::attribute::av_index_of(a, "class"@),
                            ("class"@, spec_remove_val(
                                crate::attribute::av_vals(a, "class"@),
                                class@,
                            )),
                        )
                    } else {
                        a
                    },
                )
            },
            _ => jv_view(*v),
        },
{
    match v {
        JsonValue::Object(_) => {
            let mut attribute = Attribute::new();
            attribute.add_attrs_from_jinja(v);
            attribute.remove_class_by_name(class);
            attribute.to_json_value()
        },
        _ => jv_copy(v),
    }
}

/// Removes one attribute by name, reading a map value as an attribute set;
/// anything else is unchanged.
pub fn remove_attribute(v: &JsonValue, name: &str) -> (r: JsonValue)
    ensures
        jv_view(r) == match jv_view(*v) {
            JsonView::Object(_) => {
                let a = spec_add_all(Seq::empty(), jv_view(*v));
                crate::attribute::spec_attr_json(
                    if crate::attribute::av_contains(a, name@) {
                        crate::attribute::spec_swap_remove_at(
                            a,
                            crate::attribute::av_index_of(a, name@),
                        )
                    } else {
                        a
                    },
                )
            },
            _ => jv_view(*v),
        },
{
    match v {
        JsonValue::Object(_) => {
            let mut attribute = Attribute::new();
            attribute.add_attrs_from_jinja(v);
            attribute.remove_attr_by_name(name);
            attribute.to_json_value()
        },
        _ => jv_copy(v),
    }
}

/// The named predicate behind the raw-markup heuristic: text that already
/// looks like serialized attribute markup is passed through unescaped by
/// the engine's value formatter.
pub fn looks_like_attribute_text(s: &str) -> (r: bool)
    ensures
        r == (crate::strutil::spec_contains_sub(s@, "class="@) || crate::strutil::spec_contains_sub(
            s@,
            "id="@,
        )),
{
    crate::strutil::contains_sub(s, "class=") || crate::strutil::contains_sub(s, "id=")
}

} // verus!
