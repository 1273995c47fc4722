use vstd::prelude::*;

verus! {

use vstd::string::StringExecFns;
use crate::strutil::{
    chars_of, string_from_chars, spec_split_char, split_char, spec_join, spec_is_space,
    spec_trim_end, spec_trim_end_idx,
};
use crate::attribute::{spec_attr_html, spec_attr_concat, spec_attr_part};
use crate::assoc::{strs_view, pairs_view};

// Reading HTML attribute text back: the inverse of the attribute
// serialization, as far as one exists.

/// Index of the first blank or equals sign at or after `i`, or the length.
pub open spec fn spec_scan_name_end(s: Seq<char>, i: int) -> int
    decreases s.len() - i,
    when 0 <= i <= s.len()
{
    if i >= s.len() {
        s.len() as int
    } else if s[i] == ' ' || s[i] == '=' {
        i
    } else {
        spec_scan_name_end(s, i + 1)
    }
}

/// Index of the first double quote at or after `i`, or -1.
pub open spec fn spec_scan_quote(s: Seq<char>, i: int) -> int
    decreases s.len() - i,
    when 0 <= i <= s.len()
{
    if i >= s.len() {
        -1
    } else if s[i] == '"' {
        i
    } else {
        spec_scan_quote(s, i + 1)
    }
}

pub proof fn lemma_scan_name_end(s: Seq<char>, i: int)
    requires
        0 <= i <= s.len(),
    ensures
        i <= spec_scan_name_end(s, i) <= s.len(),
        forall|k: int|
            i <= k < spec_scan_name_end(s, i) ==> s[k] != ' ' && s[k] != '=',
        spec_scan_name_end(s, i) < s.len() ==> s[spec_scan_name_end(s, i)] == ' ' || s[
            spec_scan_name_end(s, i)
        ] == '=',
    decreases s.len() - i,
{
    if i < s.len() && s[i] != ' ' && s[i] != '=' {
        lemma_scan_name_end(s, i + 1);
    }
}

pub proof fn lemma_scan_name_end_is(s: Seq<char>, i: int, j: int)
    requires
        0 <= i <= j <= s.len(),
        forall|k: int| i <= k < j ==> s[k] != ' ' && s[k] != '=',
        j < s.len() ==> s[j] == ' ' || s[j] == '=',
    ensures
        spec_scan_name_end(s, i) == j,
    decreases j - i,
{
    if i < j {
        lemma_scan_name_end_is(s, i + 1, j);
    }
}

pub proof fn lemma_scan_quote(s: Seq<char>, i: int)
    requires
        0 <= i <= s.len(),
    ensures
        spec_scan_quote(s, i) >= 0 ==> i <= spec_scan_quote(s, i) < s.len() && s[spec_scan_quote(
            s,
            i,
        )] == '"' && forall|k: int| i <= k < spec_scan_quote(s, i) ==> s[k] != '"',
        spec_scan_quote(s, i) < 0 ==> forall|k: int| i <= k < s.len() ==> s[k] != '"',
    decreases s.len() - i,
{
    if i < s.len() && s[i] != '"' {
        lemma_scan_quote(s, i + 1);
    }
}

pub proof fn lemma_scan_quote_is(s: Seq<char>, i: int, j: int)
    requires
        0 <= i <= j < s.len(),
        forall|k: int| i <= k < j ==> s[k] != '"',
        s[j] == '"',
    ensures
        spec_scan_quote(s, i) == j,
    decreases j - i,
{
    if i < j {
        lemma_scan_quote_is(s, i + 1, j);
    }
}

/// What parsing attribute text yields: the attributes with their value
/// lists, in order, or nothing when the text is not attribute-shaped.
/// Each attribute starts after one blank; a bare name carries no values; a
/// quoted value text splits into values at blanks, the empty text into
/// none.
pub open spec fn spec_parse_attrs(s: Seq<char>) -> Option<Seq<(Seq<char>, Seq<Seq<char>>)>>
    decreases s.len(),
    via spec_parse_attrs_decreases
{
    if s.len() == 0 {
        Some(Seq::empty())
    } else if s[0] != ' ' {
        None
    } else {
        let ne = spec_scan_name_end(s, 1);
        if ne <= 1 {
            None
        } else {
            let name = s.subrange(1, ne);
            if ne >= s.len() {
                Some(seq![(name, Seq::<Seq<char>>::empty())])
            } else if s[ne] == ' ' {
                match spec_parse_attrs(s.subrange(ne, s.len() as int)) {
                    Some(rest) => Some(seq![(name, Seq::<Seq<char>>::empty())] + rest),
                    None => None,
                }
            } else {
                if ne + 1 >= s.len() || s[ne + 1] != '"' {
                    None
                } else {
                    let q = spec_scan_quote(s, ne + 2);
                    if q < 0 {
                        None
                    } else {
                        let joined = s.subrange(ne + 2, q);
                        let vals = if joined.len() == 0 {
                            Seq::<Seq<char>>::empty()
                        } else {
                            spec_split_char(joined, ' ')
                        };
                        let rest_s = s.subrange(q + 1, s.len() as int);
                        if rest_s.len() == 0 {
                            Some(seq![(name, vals)])
                        } else {
                            match spec_parse_attrs(rest_s) {
                                Some(rest) => Some(seq![(name, vals)] + rest),
                                None => None,
                            }
                        }
                    }
                }
            }
        }
    }
}

#[via_fn]
proof fn spec_parse_attrs_decreases(s: Seq<char>) {
    if s.len() > 0 && s[0] == ' ' {
        lemma_scan_name_end(s, 1);
        let ne = spec_scan_name_end(s, 1);
        if ne > 1 && ne < s.len() && s[ne] != ' ' {
            if ne + 1 < s.len() && s[ne + 1] == '"' {
                lemma_scan_quote(s, ne + 2);
            }
        }
    }
}

// ---------------------------------------------------------------------------
// The round trip: serialized attributes parse back to the same mapping.
// ---------------------------------------------------------------------------

/// Names and values that survive the text form: a non-empty name without
/// blanks, equals signs or quotes, and non-empty values without blanks or
/// quotes.
pub open spec fn attr_entry_ok(e: (Seq<char>, Seq<Seq<char>>)) -> bool {
    e.0.len() > 0 && (forall|k: int|
        0 <= k < e.0.len() ==> !spec_is_space(#[trigger] e.0[k]) && e.0[k] != '=' && e.0[k]
            != '"') && (forall|j: int, k: int|
        0 <= j < e.1.len() && 0 <= k < e.1[j].len() ==> !spec_is_space(#[trigger] e.1[j][k])
            && e.1[j][k] != '"') && (forall|j: int| 0 <= j < e.1.len() ==> e.1[j].len() > 0)
}

pub open spec fn attrs_ok(a: Seq<(Seq<char>, Seq<Seq<char>>)>) -> bool {
    forall|i: int| 0 <= i < a.len() ==> #[trigger] attr_entry_ok(a[i])
}

proof fn lemma_split_word(w: Seq<char>)
    requires
        forall|k: int| 0 <= k < w.len() ==> w[k] != ' ',
    ensures
        spec_split_char(w, ' ') =~= seq![w],
    decreases w,
{
    if w.len() == 0 {
        assert(w =~= Seq::<char>::empty());
        assert(spec_split_char(w, ' ') =~= seq![w]);
    } else {
        lemma_split_word(w.drop_last());
        assert(spec_split_char(w, ' ') =~= seq![w.drop_last().push(w.last())]);
        assert(w.drop_last().push(w.last()) =~= w);
    }
}

proof fn lemma_split_append_word(x: Seq<char>, y: Seq<char>)
    requires
        forall|k: int| 0 <= k < y.len() ==> y[k] != ' ',
    ensures
        spec_split_char(x + seq![' '] + y, ' ') =~= spec_split_char(x, ' ').push(y),
    decreases y,
{
    crate::strutil::lemma_split_char_nonempty_pub(x, ' ');
    if y.len() == 0 {
        assert(x + seq![' '] + y =~= x.push(' '));
        assert((x + seq![' '] + y).drop_last() =~= x);
        assert(spec_split_char(x.push(' '), ' ') =~= spec_split_char(x, ' ').push(
            Seq::<char>::empty(),
        ));
        assert(y =~= Seq::<char>::empty());
    } else {
        lemma_split_append_word(x, y.drop_last());
        let s = x + seq![' '] + y;
        assert(s.drop_last() =~= x + seq![' '] + y.drop_last());
        assert(s.last() == y.last());
        crate::strutil::lemma_split_char_nonempty_pub(s.drop_last(), ' ');
        let prev = spec_split_char(s.drop_last(), ' ');
        assert(prev =~= spec_split_char(x, ' ').push(y.drop_last()));
        assert(prev.last() == y.drop_last());
        assert(spec_split_char(s, ' ') =~= prev.update(prev.len() - 1, prev.last().push(y.last())));
        assert(prev.last().push(y.last()) =~= y);
        assert(spec_split_char(s, ' ') =~= spec_split_char(x, ' ').push(y));
    }
}

proof fn lemma_join_split(vals: Seq<Seq<char>>)
    requires
        vals.len() > 0,
        forall|j: int, k: int|
            0 <= j < vals.len() && 0 <= k < vals[j].len() ==> vals[j][k] != ' ',
    ensures
        spec_split_char(spec_join(vals, ' '), ' ') =~= vals,
    decreases vals,
{
    if vals.len() == 1 {
        lemma_split_word(vals[0]);
        assert(spec_join(vals, ' ') == vals[0]);
        assert(seq![vals[0]] =~= vals);
    } else {
        lemma_join_split(vals.drop_last());
        assert(spec_join(vals, ' ') =~= spec_join(vals.drop_last(), ' ') + seq![' ']
            + vals.last());
        assert(forall|k: int| 0 <= k < vals.last().len() ==> vals.last()[k] != ' ');
        lemma_split_append_word(spec_join(vals.drop_last(), ' '), vals.last());
        assert(spec_split_char(spec_join(vals, ' '), ' ') =~= spec_split_char(
            spec_join(vals.drop_last(), ' '),
            ' ',
        ).push(vals.last()));
        assert(spec_split_char(spec_join(vals.drop_last(), ' '), ' ').push(vals.last())
            =~= vals.drop_last().push(vals.last()));
        assert(vals.drop_last().push(vals.last()) =~= vals);
    }
}

proof fn lemma_join_chars(vals: Seq<Seq<char>>)
    requires
        forall|j: int, k: int|
            0 <= j < vals.len() && 0 <= k < vals[j].len() ==> vals[j][k] != '"',
    ensures
        forall|k: int| 0 <= k < spec_join(vals, ' ').len() ==> spec_join(vals, ' ')[k] != '"',
        vals.len() > 0 && vals[0].len() > 0 ==> spec_join(vals, ' ').len() > 0,
    decreases vals,
{
    if vals.len() == 0 {
    } else if vals.len() == 1 {
        assert(spec_join(vals, ' ') == vals[0]);
    } else {
        lemma_join_chars(vals.drop_last());
        assert(spec_join(vals, ' ') =~= spec_join(vals.drop_last(), ' ') + seq![' ']
            + vals.last());
        assert forall|k: int|
            0 <= k < spec_join(vals, ' ').len() implies spec_join(vals, ' ')[k] != '"' by {
            let n = spec_join(vals.drop_last(), ' ').len() as int;
            if k < n {
            } else if k == n {
            } else {
                assert(spec_join(vals, ' ')[k] == vals.last()[k - n - 1]);
            }
        }
    }
}

/// The serialized form seen entry by entry from the front: each entry as
/// one blank and its part.
pub open spec fn spec_parts_sep(a: Seq<(Seq<char>, Seq<Seq<char>>)>) -> Seq<char>
    decreases a,
{
    if a.len() == 0 {
        Seq::empty()
    } else {
        seq![' '] + spec_attr_part(a[0]) + spec_parts_sep(a.drop_first())
    }
}

proof fn lemma_parts_sep_snoc(a: Seq<(Seq<char>, Seq<Seq<char>>)>, e: (Seq<char>, Seq<Seq<char>>))
    ensures
        spec_parts_sep(a.push(e)) =~= spec_parts_sep(a) + seq![' '] + spec_attr_part(e),
    decreases a,
{
    if a.len() == 0 {
        assert(a.push(e)[0] == e);
        assert(a.push(e).drop_first() =~= Seq::<(Seq<char>, Seq<Seq<char>>)>::empty());
        assert(spec_parts_sep(a.push(e).drop_first()) == spec_parts_sep(
            Seq::<(Seq<char>, Seq<Seq<char>>)>::empty(),
        ));
        assert(spec_parts_sep(a.push(e)) =~= spec_parts_sep(a) + seq![' '] + spec_attr_part(e));
    } else {
        assert(a.push(e).drop_first() =~= a.drop_first().push(e));
        lemma_parts_sep_snoc(a.drop_first(), e);
        assert(a.push(e)[0] == a[0]);
        assert(spec_parts_sep(a.push(e)) == seq![' '] + spec_attr_part(a[0]) + spec_parts_sep(
            a.drop_first().push(e),
        ));
        assert(spec_parts_sep(a.drop_first().push(e)) =~= spec_parts_sep(a.drop_first())
            + seq![' '] + spec_attr_part(e));
        assert(spec_parts_sep(a.push(e)) =~= spec_parts_sep(a) + seq![' '] + spec_attr_part(e));
    }
}

proof fn lemma_part_shape(e: (Seq<char>, Seq<Seq<char>>))
    requires
        attr_entry_ok(e),
    ensures
        spec_attr_part(e).len() > 0,
        !spec_is_space(spec_attr_part(e).last()),
    decreases 0int,
{
    let joined = spec_join(e.1, ' ');
    if joined.len() == 0 && e.0 != "class"@ && e.0 != "style"@ {
        assert(spec_attr_part(e) == e.0);
        assert(!spec_is_space(e.0.last()));
    } else {
        let p = e.0 + "=\""@ + joined + "\""@;
        assert(spec_attr_part(e) == p);
        reveal_strlit("=\"");
        reveal_strlit("\"");
        assert("\""@ =~= seq!['"']);
        assert(p.last() == '"');
        assert(!spec_is_space('"'));
    }
}

proof fn lemma_trim_end_push_space(s: Seq<char>)
    requires
        s.len() > 0,
        !spec_is_space(s.last()),
    ensures
        spec_trim_end(s.push(' ')) =~= s,
{
    let t = s.push(' ');
    assert(t.drop_last() =~= s);
    assert(spec_trim_end_idx(t) == spec_trim_end_idx(s));
    assert(spec_trim_end_idx(s) == s.len());
    assert(spec_trim_end(t) =~= t.subrange(0, s.len() as int));
    assert(t.subrange(0, s.len() as int) =~= s);
}

/// One blank, then the parts with single blanks between them: the
/// serialized form of a well-formed attribute set, seen from the front.
proof fn lemma_concat_parts(a: Seq<(Seq<char>, Seq<Seq<char>>)>)
    requires
        attrs_ok(a),
    ensures
        seq![' '] + spec_attr_concat(a) =~= spec_parts_sep(a) + seq![' '],
    decreases a,
{
    if a.len() == 0 {
        assert(spec_attr_concat(a) =~= Seq::<char>::empty());
    } else {
        assert(attrs_ok(a.drop_last())) by {
            assert(forall|i: int|
                0 <= i < a.drop_last().len() ==> a.drop_last()[i] == a[i]);
        }
        lemma_concat_parts(a.drop_last());
        assert(attr_entry_ok(a.last()));
        lemma_parts_sep_snoc(a.drop_last(), a.last());
        assert(a.drop_last().push(a.last()) =~= a);
        assert(spec_parts_sep(a.drop_last().push(a.last())) == spec_parts_sep(a));
        assert(seq![' '] + spec_attr_concat(a) =~= (seq![' '] + spec_attr_concat(a.drop_last()))
            + spec_attr_part(a.last()) + seq![' ']);
        assert(spec_parts_sep(a) + seq![' '] =~= (spec_parts_sep(a.drop_last()) + seq![' '])
            + spec_attr_part(a.last()) + seq![' ']);
    }
}

proof fn lemma_html_parts(a: Seq<(Seq<char>, Seq<Seq<char>>)>)
    requires
        attrs_ok(a),
    ensures
        spec_attr_html(a) =~= spec_parts_sep(a),
{
    if a.len() == 0 {
    } else {
        lemma_concat_parts(a);
        assert(attrs_ok(a.drop_last())) by {
            assert(forall|i: int|
                0 <= i < a.drop_last().len() ==> a.drop_last()[i] == a[i]);
        }
        lemma_concat_parts(a.drop_last());
        assert(attr_entry_ok(a.last()));
        lemma_part_shape(a.last());
        let x = spec_attr_concat(a.drop_last()) + spec_attr_part(a.last());
        assert(spec_attr_concat(a) =~= x.push(' '));
        assert(x.len() > 0);
        assert(x.last() == spec_attr_part(a.last()).last());
        lemma_trim_end_push_space(x);
        assert(spec_trim_end(spec_attr_concat(a)) == spec_trim_end(x.push(' ')));
        assert(spec_attr_html(a) =~= seq![' '] + x);
        assert(seq![' '] + x.push(' ') =~= (seq![' '] + x) + seq![' ']);
        assert(seq![' '] + spec_attr_concat(a) =~= (seq![' '] + x) + seq![' ']);
        assert((seq![' '] + x) + seq![' '] =~= spec_parts_sep(a) + seq![' ']);
        assert(seq![' '] + x =~= spec_parts_sep(a)) by {
            assert(((seq![' '] + x) + seq![' ']).drop_last() =~= seq![' '] + x);
            assert((spec_parts_sep(a) + seq![' ']).drop_last() =~= spec_parts_sep(a));
        }
    }
}

#[verifier::rlimit(100)]
proof fn lemma_parse_parts_sep(a: Seq<(Seq<char>, Seq<Seq<char>>)>)
    requires
        attrs_ok(a),
    ensures
        spec_parse_attrs(spec_parts_sep(a)) == Some(a),
    decreases a,
{
    if a.len() == 0 {
        assert(spec_parts_sep(a).len() == 0);
        assert(Some(Seq::<(Seq<char>, Seq<Seq<char>>)>::empty()) == spec_parse_attrs(
            spec_parts_sep(a),
        ));
        assert(a =~= Seq::<(Seq<char>, Seq<Seq<char>>)>::empty());
    } else {
        let e = a[0];
        assert(attr_entry_ok(e));
        let b = a.drop_first();
        assert(attrs_ok(b)) by {
            assert(forall|i: int| 0 <= i < b.len() ==> b[i] == a[i + 1]);
        }
        lemma_parse_parts_sep(b);
        let part = spec_attr_part(e);
        let rest = spec_parts_sep(b);
        let s = spec_parts_sep(a);
        assert(s == seq![' '] + part + rest);
        if b.len() > 0 {
            assert(rest == seq![' '] + spec_attr_part(b[0]) + spec_parts_sep(b.drop_first()));
            assert(rest.len() > 0 && rest[0] == ' ');
        }
        lemma_part_shape(e);
        let joined = spec_join(e.1, ' ');
        lemma_join_chars(e.1);
        assert(s[0] == ' ');
        if joined.len() == 0 && e.0 != "class"@ && e.0 != "style"@ {
            assert(part == e.0);
            let ne0: int = 1 + e.0.len() as int;
            assert(forall|k: int| 1 <= k < ne0 ==> s[k] == e.0[k - 1]);
            assert(forall|k: int|
                1 <= k < ne0 ==> !spec_is_space(s[k]) && s[k] != '=' && s[k] != '"');
            if ne0 < s.len() {
                assert(s[ne0] == rest[0]);
                assert(s[ne0] == ' ');
            }
            lemma_scan_name_end_is(s, 1, ne0);
            assert(spec_scan_name_end(s, 1) == ne0);
            assert(s.subrange(1, ne0) =~= e.0);
            assert(e.1.len() == 0) by {
                if e.1.len() > 0 {
                    assert(e.1[0].len() > 0);
                    assert(spec_join(e.1, ' ').len() > 0);
                }
            }
            assert(e.1 =~= Seq::<Seq<char>>::empty());
            if b.len() == 0 {
                assert(rest =~= Seq::<char>::empty());
                assert(s.len() == ne0);
                assert(spec_parse_attrs(s) == Some(
                    seq![(s.subrange(1, ne0), Seq::<Seq<char>>::empty())],
                ));
                assert(seq![(e.0, Seq::<Seq<char>>::empty())] =~= a);
            } else {
                assert(ne0 < s.len());
                assert(s.subrange(ne0, s.len() as int) =~= rest);
                assert(spec_parse_attrs(s.subrange(ne0, s.len() as int)) == Some(b));
                assert(spec_parse_attrs(s) == Some(
                    seq![(s.subrange(1, ne0), Seq::<Seq<char>>::empty())] + b,
                ));
                assert(seq![(e.0, Seq::<Seq<char>>::empty())] + b =~= a);
            }
        } else {
            reveal_strlit("=\"");
            reveal_strlit("\"");
            assert("=\""@ =~= seq!['=', '"']);
            assert("\""@ =~= seq!['"']);
            assert(part == e.0 + "=\""@ + joined + "\""@);
            let nl: int = e.0.len() as int;
            let jl: int = joined.len() as int;
            assert(part.len() == nl + jl + 3);
            assert(forall|k: int| 0 <= k < nl ==> part[k] == e.0[k]);
            assert(part[nl] == '=' && part[nl + 1] == '"');
            assert(forall|k: int| 0 <= k < jl ==> part[nl + 2 + k] == joined[k]);
            assert(part[nl + jl + 2] == '"');
            assert(forall|k: int| 1 <= k < 1 + nl ==> s[k] == e.0[k - 1]);
            assert(forall|k: int|
                1 <= k < 1 + nl ==> !spec_is_space(s[k]) && s[k] != '=' && s[k] != '"');
            assert(s[1 + nl] == '=');
            lemma_scan_name_end_is(s, 1, 1 + nl);
            assert(spec_scan_name_end(s, 1) == 1 + nl);
            assert(s.subrange(1, 1 + nl) =~= e.0);
            assert(s[2 + nl] == '"');
            assert(forall|k: int| 0 <= k < jl ==> s[3 + nl + k] == joined[k]);
            assert(forall|k: int| 3 + nl <= k < 3 + nl + jl ==> s[k] != '"');
            assert(s[3 + nl + jl] == '"');
            lemma_scan_quote_is(s, 3 + nl, 3 + nl + jl);
            assert(spec_scan_quote(s, 3 + nl) == 3 + nl + jl);
            assert(s.subrange(3 + nl, 3 + nl + jl) =~= joined);
            let parsed_vals = if joined.len() == 0 {
                Seq::<Seq<char>>::empty()
            } else {
                spec_split_char(joined, ' ')
            };
            assert(parsed_vals =~= e.1) by {
                if joined.len() == 0 {
                    assert(e.1.len() == 0) by {
                        if e.1.len() > 0 {
                            assert(e.1[0].len() > 0);
                            assert(spec_join(e.1, ' ').len() > 0);
                        }
                    }
                } else {
                    assert(e.1.len() > 0);
                    assert(forall|j: int, k: int|
                        0 <= j < e.1.len() && 0 <= k < e.1[j].len() ==> e.1[j][k] != ' ');
                    lemma_join_split(e.1);
                }
            }
            let rest_s = s.subrange(3 + nl + jl + 1, s.len() as int);
            assert(rest_s =~= rest);
            if b.len() == 0 {
                assert(rest =~= Seq::<char>::empty());
                assert(rest_s.len() == 0);
                assert(spec_parse_attrs(s) == Some(seq![(s.subrange(1, 1 + nl), parsed_vals)]));
                assert(seq![(e.0, e.1)] =~= a);
                assert((s.subrange(1, 1 + nl), parsed_vals) == (e.0, e.1));
            } else {
                assert(rest_s.len() > 0);
                assert(spec_parse_attrs(rest_s) == Some(b));
                assert(spec_parse_attrs(s) == Some(
                    seq![(s.subrange(1, 1 + nl), parsed_vals)] + b,
                ));
                assert((s.subrange(1, 1 + nl), parsed_vals) == (e.0, e.1));
                assert(seq![(e.0, e.1)] + b =~= a);
            }
        }
    }
}

/// The attribute round trip: for attributes whose names and values survive
/// the text form, parsing the serialized text recovers exactly the same
/// name to value-list mapping, bare names included.
pub proof fn lemma_attr_round_trip(a: Seq<(Seq<char>, Seq<Seq<char>>)>)
    requires
        attrs_ok(a),
    ensures
        spec_parse_attrs(spec_attr_html(a)) == Some(a),
{
    lemma_html_parts(a);
    lemma_parse_parts_sep(a);
    assert(spec_attr_html(a) == spec_parts_sep(a));
}

// ---------------------------------------------------------------------------
// The executable parser.
// ---------------------------------------------------------------------------

/// Parses attribute text into names with their value lists, exactly as the
/// parsing shape above describes.
pub fn parse_attr_list(s: &str) -> (r: Option<Vec<(String, Vec<String>)>>)
    ensures
        match r {
            Some(out) => spec_parse_attrs(s@) == Some(pairs_view(out@)),
            None => spec_parse_attrs(s@) is None,
        },
{
    let v = chars_of(s);
    proof {
        assert(v@.subrange(0, v@.len() as int) =~= s@);
    }
    parse_entries(&v, 0)
}

fn parse_entries(v: &Vec<char>, i: usize) -> (r: Option<Vec<(String, Vec<String>)>>)
    requires
        i <= v@.len(),
    ensures
        match r {
            Some(out) => spec_parse_attrs(v@.subrange(i as int, v@.len() as int)) == Some(
                pairs_view(out@),
            ),
            None => spec_parse_attrs(v@.subrange(i as int, v@.len() as int)) is None,
        },
    decreases v@.len() - i,
{
    broadcast use crate::assoc::group_views;

    let ghost s = v@.subrange(i as int, v@.len() as int);
    let n = v.len();
    if i == n {
        let out: Vec<(String, Vec<String>)> = Vec::new();
        proof {
            assert(pairs_view(out@) =~= Seq::<(Seq<char>, Seq<Seq<char>>)>::empty());
        }
        return Some(out);
    }
    if v[i] != ' ' {
        return None;
    }
    let mut j: usize = i + 1;
    while j < n && v[j] != ' ' && v[j] != '='
        invariant
            i + 1 <= j <= n,
            n == v@.len(),
            forall|k: int| i + 1 <= k < j ==> v@[k] != ' ' && v@[k] != '=',
        decreases n - j,
    {
        j = j + 1;
    }
    proof {
        assert(forall|k: int| 1 <= k < j - i ==> s[k] == v@[i + k]);
        if j < n {
            assert(s[j - i] == v@[j as int]);
        }
        lemma_scan_name_end_is(s, 1, j - i);
        assert(spec_scan_name_end(s, 1) == j - i);
    }
    if j == i + 1 {
        return None;
    }
    let mut name_chars: Vec<char> = Vec::new();
    let mut k: usize = i + 1;
    while k < j
        invariant
            i + 1 <= k <= j <= n,
            n == v@.len(),
            name_chars@ == v@.subrange(i + 1 as int, k as int),
        decreases j - k,
    {
        name_chars.push(v[k]);
        proof {
            assert(v@.subrange(i + 1 as int, k + 1 as int) =~= v@.subrange(
                i + 1 as int,
                k as int,
            ).push(v@[k as int]));
        }
        k = k + 1;
    }
    let name = string_from_chars(&name_chars);
    proof {
        assert(name@ =~= s.subrange(1, j - i));
    }
    if j == n {
        let out: Vec<(String, Vec<String>)> = vec![(name, Vec::new())];
        proof {
            assert(pairs_view(out@) =~= seq![
                (s.subrange(1, j - i), Seq::<Seq<char>>::empty()),
            ]);
        }
        return Some(out);
    }
    if v[j] == ' ' {
        proof {
            assert(v@.subrange(j as int, v@.len() as int) =~= s.subrange(
                j - i,
                s.len() as int,
            ));
        }
        match parse_entries(v, j) {
            Some(rest) => {
                let mut out: Vec<(String, Vec<String>)> = vec![(name, Vec::new())];
                let ghost head = out@;
                let mut rest_vec = rest;
                let ghost tail = rest_vec@;
                out.append(&mut rest_vec);
                proof {
                    assert(out@ =~= head + tail);
                    crate::assoc::lemma_pairs_view_concat(head, tail);
                    assert(pairs_view(head) =~= seq![
                        (s.subrange(1, j - i), Seq::<Seq<char>>::empty()),
                    ]);
                    assert(pairs_view(out@) =~= seq![
                        (s.subrange(1, j - i), Seq::<Seq<char>>::empty()),
                    ] + pairs_view(tail));
                }
                Some(out)
            },
            None => None,
        }
    } else {
        if j + 1 >= n || v[j + 1] != '"' {
            proof {
                if j + 1 < n {
                    assert(s[j - i + 1] == v@[j + 1]);
                }
            }
            return None;
        }
        proof {
            assert(s[j - i + 1] == v@[j + 1]);
        }
        let mut q: usize = j + 2;
        while q < n && v[q] != '"'
            invariant
                j + 2 <= q <= n,
                n == v@.len(),
                forall|k2: int| j + 2 <= k2 < q ==> v@[k2] != '"',
            decreases n - q,
        {
            q = q + 1;
        }
        if q == n {
            proof {
                assert(forall|k2: int|
                    j - i + 2 <= k2 < s.len() ==> s[k2] == v@[i + k2] && s[k2] != '"');
                lemma_scan_quote(s, j - i + 2);
                if spec_scan_quote(s, j - i + 2) >= 0 {
                    assert(s[spec_scan_quote(s, j - i + 2)] == '"');
                }
            }
            return None;
        }
        proof {
            assert(forall|k2: int| j - i + 2 <= k2 < q - i ==> s[k2] == v@[i + k2]);
            assert(s[q - i] == v@[q as int]);
            lemma_scan_quote_is(s, j - i + 2, q - i);
            assert(spec_scan_quote(s, j - i + 2) == q - i);
        }
        let mut joined_chars: Vec<char> = Vec::new();
        let mut m: usize = j + 2;
        while m < q
            invariant
                j + 2 <= m <= q <= n,
                n == v@.len(),
                joined_chars@ == v@.subrange(j + 2 as int, m as int),
            decreases q - m,
        {
            joined_chars.push(v[m]);
            proof {
                assert(v@.subrange(j + 2 as int, m + 1 as int) =~= v@.subrange(
                    j + 2 as int,
                    m as int,
                ).push(v@[m as int]));
            }
            m = m + 1;
        }
        proof {
            assert(joined_chars@ =~= s.subrange(j - i + 2, q - i));
        }
        let vals: Vec<String> = if joined_chars.len() == 0 {
            Vec::new()
        } else {
            let joined = string_from_chars(&joined_chars);
            let parts = split_char(joined.as_str(), ' ');
            proof {
                assert(strs_view(parts@) =~= parts@.map_values(|x: String| x@));
            }
            parts
        };
        proof {
            assert(strs_view(vals@) =~= (if s.subrange(j - i + 2, q - i).len() == 0 {
                Seq::<Seq<char>>::empty()
            } else {
                spec_split_char(s.subrange(j - i + 2, q - i), ' ')
            }));
        }
        if q + 1 == n {
            let out: Vec<(String, Vec<String>)> = vec![(name, vals)];
            proof {
                assert(s.subrange(q - i + 1, s.len() as int).len() == 0);
                assert(pairs_view(out@) =~= seq![(s.subrange(1, j - i), strs_view(vals@))]);
            }
            return Some(out);
        }
        proof {
            assert(v@.subrange(q + 1 as int, v@.len() as int) =~= s.subrange(
                q - i + 1,
                s.len() as int,
            ));
            assert(s.subrange(q - i + 1, s.len() as int).len() > 0);
        }
        match parse_entries(v, q + 1) {
            Some(rest) => {
                let ghost vals_view = strs_view(vals@);
                let mut out: Vec<(String, Vec<String>)> = vec![(name, vals)];
                let ghost head = out@;
                let mut rest_vec = rest;
                let ghost tail = rest_vec@;
                out.append(&mut rest_vec);
                proof {
                    assert(out@ =~= head + tail);
                    crate::assoc::lemma_pairs_view_concat(head, tail);
                    assert(pairs_view(head) =~= seq![(s.subrange(1, j - i), vals_view)]);
                    assert(pairs_view(out@) =~= seq![(s.subrange(1, j - i), vals_view)]
                        + pairs_view(tail));
                }
                Some(out)
            },
            None => None,
        }
    }
}

} // verus!
