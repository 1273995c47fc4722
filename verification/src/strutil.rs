use vstd::prelude::*;

verus! {

use vstd::string::StringExecFns;
use vstd::string::StrSliceExecFns;

// Trusted wrappers over two std string operations that vstd gives no
// specification for.  Everything else in this module is verified.

/// Relies on String::push: appends exactly the given character at the end.
#[verifier::external_body]
pub fn push_char(s: &mut String, c: char)
    ensures
        final(s)@ == old(s)@.push(c),
{
    s.push(c);
}

/// Relies on str::chars: yields the characters of the string in order,
/// which collect gathers into a vector.
#[verifier::external_body]
pub fn chars_of(s: &str) -> (r: Vec<char>)
    ensures
        r@ == s@,
{
    s.chars().collect()
}

/// Turns a vector of characters back into a string, one push per character.
pub fn string_from_chars(v: &Vec<char>) -> (r: String)
    ensures
        r@ == v@,
{
    let mut out = String::new();
    let mut i: usize = 0;
    while i < v.len()
        invariant
            out@ == v@.take(i as int),
            i <= v.len(),
        decreases v.len() - i,
    {
        push_char(&mut out, v[i]);
        proof {
            assert(v@.take(i + 1 as int) =~= v@.take(i as int).push(v@[i as int]));
        }
        i = i + 1;
    }
    proof {
        assert(v@.take(v@.len() as int) =~= v@);
    }
    out
}

/// String equality decided through owned strings, whose equality vstd specifies.
pub fn str_eq(a: &str, b: &str) -> (r: bool)
    ensures
        r == (a@ == b@),
{
    let sa: String = a.to_owned();
    let sb: String = b.to_owned();
    sa == sb
}

/// True when the string starts with the reserved directive prefix.
pub open spec fn spec_has_prefix_at(s: Seq<char>) -> bool {
    s.len() > 0 && s[0] == '@'
}

pub fn has_prefix_at(s: &str) -> (r: bool)
    ensures
        r == spec_has_prefix_at(s@),
{
    if s.unicode_len() == 0 {
        false
    } else {
        s.get_char(0) == '@'
    }
}

pub open spec fn spec_is_space(c: char) -> bool {
    c == ' ' || c == '\t' || c == '\n' || c == '\r'
}

/// Index of the first non-blank character, or the length when all are blank.
pub open spec fn spec_trim_start_idx(s: Seq<char>) -> int
    decreases s,
{
    if s.len() == 0 {
        0
    } else if spec_is_space(s[0]) {
        1 + spec_trim_start_idx(s.drop_first())
    } else {
        0
    }
}

/// Index just after the last non-blank character, or 0 when all are blank.
pub open spec fn spec_trim_end_idx(s: Seq<char>) -> int
    decreases s,
{
    if s.len() == 0 {
        0
    } else if spec_is_space(s.last()) {
        spec_trim_end_idx(s.drop_last())
    } else {
        s.len() as int
    }
}

pub open spec fn spec_trim(s: Seq<char>) -> Seq<char> {
    if spec_trim_start_idx(s) >= spec_trim_end_idx(s) {
        Seq::empty()
    } else {
        s.subrange(spec_trim_start_idx(s), spec_trim_end_idx(s))
    }
}

proof fn lemma_trim_start_idx_bounds(s: Seq<char>)
    ensures
        0 <= spec_trim_start_idx(s) <= s.len(),
        forall|j: int| 0 <= j < spec_trim_start_idx(s) ==> spec_is_space(s[j]),
        spec_trim_start_idx(s) < s.len() ==> !spec_is_space(s[spec_trim_start_idx(s)]),
    decreases s,
{
    if s.len() > 0 && spec_is_space(s[0]) {
        lemma_trim_start_idx_bounds(s.drop_first());
        assert forall|j: int| 0 <= j < spec_trim_start_idx(s) implies spec_is_space(s[j]) by {
            if j > 0 {
                assert(s.drop_first()[j - 1] == s[j]);
            }
        }
        if spec_trim_start_idx(s) < s.len() {
            assert(s.drop_first()[spec_trim_start_idx(s) - 1] == s[spec_trim_start_idx(s)]);
        }
    }
}

pub proof fn lemma_trim_end_idx_bounds(s: Seq<char>)
    ensures
        0 <= spec_trim_end_idx(s) <= s.len(),
        forall|j: int| spec_trim_end_idx(s) <= j < s.len() ==> spec_is_space(s[j]),
        spec_trim_end_idx(s) > 0 ==> !spec_is_space(s[spec_trim_end_idx(s) - 1]),
    decreases s,
{
    if s.len() > 0 && spec_is_space(s.last()) {
        lemma_trim_end_idx_bounds(s.drop_last());
        assert forall|j: int| spec_trim_end_idx(s) <= j < s.len() implies spec_is_space(s[j]) by {
            if j < s.len() - 1 {
                assert(s.drop_last()[j] == s[j]);
            }
        }
        if spec_trim_end_idx(s) > 0 {
            assert(s.drop_last()[spec_trim_end_idx(s) - 1] == s[spec_trim_end_idx(s) - 1]);
        }
    }
}

/// Blank characters removed from both ends, as component names are
/// trimmed before lookup.
pub fn trim_chars(v: &Vec<char>) -> (r: Vec<char>)
    ensures
        r@ == spec_trim(v@),
{
    proof {
        lemma_trim_start_idx_bounds(v@);
        lemma_trim_end_idx_bounds(v@);
    }
    let mut start: usize = 0;
    while start < v.len() && is_space(v[start])
        invariant
            start <= v.len(),
            forall|j: int| 0 <= j < start ==> spec_is_space(v@[j]),
            start <= spec_trim_start_idx(v@),
        decreases v.len() - start,
    {
        proof {
            if start + 1 > spec_trim_start_idx(v@) {
                assert(spec_is_space(v@[spec_trim_start_idx(v@)]));
            }
        }
        start = start + 1;
    }
    proof {
        assert(start == spec_trim_start_idx(v@));
    }
    let mut end: usize = v.len();
    while end > start && is_space(v[end - 1])
        invariant
            start <= end <= v.len(),
            forall|j: int| end <= j < v.len() ==> spec_is_space(v@[j]),
            spec_trim_end_idx(v@) <= end,
            start == spec_trim_start_idx(v@),
        decreases end,
    {
        proof {
            if end - 1 < spec_trim_end_idx(v@) {
                assert(spec_is_space(v@[spec_trim_end_idx(v@) - 1]));
            }
        }
        end = end - 1;
    }
    proof {
        if end > start {
            assert(end == spec_trim_end_idx(v@));
        }
    }
    let mut out: Vec<char> = Vec::new();
    let mut i: usize = start;
    while i < end
        invariant
            start <= i <= end <= v.len(),
            out@ == v@.subrange(start as int, i as int),
        decreases end - i,
    {
        out.push(v[i]);
        proof {
            assert(v@.subrange(start as int, i + 1 as int) =~= v@.subrange(
                start as int,
                i as int,
            ).push(v@[i as int]));
        }
        i = i + 1;
    }
    proof {
        if end <= start {
            assert(out@ =~= spec_trim(v@));
        } else {
            assert(out@ =~= spec_trim(v@));
        }
    }
    out
}

pub fn is_space(c: char) -> (r: bool)
    ensures
        r == spec_is_space(c),
{
    c == ' ' || c == '\t' || c == '\n' || c == '\r'
}

/// What one character becomes in HTML text, matching the template
/// engine's escaping.
pub open spec fn spec_escape_char(c: char) -> Seq<char> {
    if c == '<' {
        "&lt;"@
    } else if c == '>' {
        "&gt;"@
    } else if c == '&' {
        "&amp;"@
    } else if c == '"' {
        "&quot;"@
    } else if c == '\'' {
        "&#x27;"@
    } else if c == '/' {
        "&#x2f;"@
    } else {
        seq![c]
    }
}

pub open spec fn spec_html_escape(s: Seq<char>) -> Seq<char>
    decreases s,
{
    if s.len() == 0 {
        Seq::empty()
    } else {
        spec_html_escape(s.drop_last()) + spec_escape_char(s.last())
    }
}

pub fn html_escape(s: &str) -> (r: String)
    ensures
        r@ == spec_html_escape(s@),
{
    let v = chars_of(s);
    let mut out = String::new();
    let mut i: usize = 0;
    while i < v.len()
        invariant
            i <= v.len(),
            out@ == spec_html_escape(v@.take(i as int)),
            v@ == s@,
        decreases v.len() - i,
    {
        let c = v[i];
        if c == '<' {
            out.append("&lt;");
        } else if c == '>' {
            out.append("&gt;");
        } else if c == '&' {
            out.append("&amp;");
        } else if c == '"' {
            out.append("&quot;");
        } else if c == '\'' {
            out.append("&#x27;");
        } else if c == '/' {
            out.append("&#x2f;");
        } else {
            push_char(&mut out, c);
        }
        proof {
            assert(v@.take(i + 1 as int).drop_last() =~= v@.take(i as int));
            assert(v@.take(i + 1 as int).last() == v@[i as int]);
            assert(seq![v@[i as int]] =~= Seq::empty().push(v@[i as int]));
        }
        i = i + 1;
    }
    proof {
        assert(v@.take(v@.len() as int) =~= v@);
    }
    out
}

/// True when `sub` occurs as a contiguous part of `s`.
pub open spec fn spec_contains_sub(s: Seq<char>, sub: Seq<char>) -> bool {
    exists|i: int|
        0 <= i && i + sub.len() <= s.len() && #[trigger] s.subrange(i, i + sub.len() as int)
            == sub
}

fn match_at(v: &Vec<char>, sub: &Vec<char>, at: usize) -> (r: bool)
    requires
        at + sub@.len() <= v@.len(),
    ensures
        r == (v@.subrange(at as int, at + sub@.len() as int) == sub@),
{
    let n: usize = v.len();
    let m: usize = sub.len();
    let mut j: usize = 0;
    while j < m
        invariant
            j <= m,
            n == v@.len(),
            m == sub@.len(),
            at + m <= n,
            forall|k: int| 0 <= k < j ==> v@[at + k] == sub@[k],
        decreases m - j,
    {
        if v[at + j] != sub[j] {
            proof {
                assert(v@.subrange(at as int, at + sub@.len() as int)[j as int] == v@[at + j]);
            }
            return false;
        }
        j = j + 1;
    }
    proof {
        assert(v@.subrange(at as int, at + sub@.len() as int) =~= sub@);
    }
    true
}

pub fn contains_sub(s: &str, sub: &str) -> (r: bool)
    ensures
        r == spec_contains_sub(s@, sub@),
{
    let v = chars_of(s);
    let p = chars_of(sub);
    if p.len() == 0 {
        proof {
            assert(spec_contains_sub(s@, sub@)) by {
                assert(s@.subrange(0, 0 + sub@.len() as int) =~= sub@);
            }
        }
        return true;
    }
    if p.len() > v.len() {
        proof {
            assert(!spec_contains_sub(s@, sub@));
        }
        return false;
    }
    let bound: usize = v.len() - p.len();
    let mut i: usize = 0;
    while i <= bound
        invariant
            v@ == s@,
            p@ == sub@,
            p@.len() <= v@.len(),
            bound == v@.len() - p@.len(),
            i <= bound + 1,
            forall|k: int|
                0 <= k < i ==> #[trigger] v@.subrange(k, k + p@.len() as int) != p@,
        decreases bound + 1 - i,
    {
        if match_at(&v, &p, i) {
            return true;
        }
        i = i + 1;
    }
    proof {
        assert(!spec_contains_sub(s@, sub@));
    }
    false
}

/// The pieces of `s` cut at every occurrence of the single character `sep`.
pub open spec fn spec_split_char(s: Seq<char>, sep: char) -> Seq<Seq<char>>
    decreases s,
{
    if s.len() == 0 {
        seq![Seq::empty()]
    } else {
        let rest = spec_split_char(s.drop_last(), sep);
        if s.last() == sep {
            rest.push(Seq::empty())
        } else {
            rest.update(rest.len() - 1, rest.last().push(s.last()))
        }
    }
}

pub proof fn lemma_split_char_nonempty_pub(s: Seq<char>, sep: char)
    ensures
        spec_split_char(s, sep).len() >= 1,
    decreases s,
{
    if s.len() > 0 {
        lemma_split_char_nonempty_pub(s.drop_last(), sep);
    }
}

pub fn split_char(s: &str, sep: char) -> (r: Vec<String>)
    ensures
        r@.map_values(|x: String| x@) == spec_split_char(s@, sep),
{
    let v = chars_of(s);
    let mut out: Vec<String> = Vec::new();
    out.push(String::new());
    let mut i: usize = 0;
    proof {
        assert(out@.map_values(|x: String| x@) =~= spec_split_char(v@.take(0), sep));
    }
    while i < v.len()
        invariant
            i <= v.len(),
            v@ == s@,
            out@.len() >= 1,
            out@.map_values(|x: String| x@) == spec_split_char(v@.take(i as int), sep),
        decreases v.len() - i,
    {
        proof {
            lemma_split_char_nonempty_pub(v@.take(i as int), sep);
            assert(v@.take(i + 1 as int).drop_last() =~= v@.take(i as int));
            assert(v@.take(i + 1 as int).last() == v@[i as int]);
        }
        let c = v[i];
        if c == sep {
            out.push(String::new());
            proof {
                assert(out@.map_values(|x: String| x@) =~= spec_split_char(
                    v@.take(i + 1 as int),
                    sep,
                ));
            }
        } else {
            let last_idx = out.len() - 1;
            let mut tmp = String::new();
            core::mem::swap(&mut tmp, &mut out[last_idx]);
            push_char(&mut tmp, c);
            core::mem::swap(&mut tmp, &mut out[last_idx]);
            proof {
                assert(out@.map_values(|x: String| x@) =~= spec_split_char(
                    v@.take(i + 1 as int),
                    sep,
                ));
            }
        }
        i = i + 1;
    }
    proof {
        assert(v@.take(v@.len() as int) =~= v@);
    }
    out
}

/// The strings joined with the single character `sep` between them.
pub open spec fn spec_join(parts: Seq<Seq<char>>, sep: char) -> Seq<char>
    decreases parts,
{
    if parts.len() == 0 {
        Seq::empty()
    } else if parts.len() == 1 {
        parts[0]
    } else {
        spec_join(parts.drop_last(), sep).push(sep) + parts.last()
    }
}

pub fn join_strings(parts: &Vec<String>, sep: char) -> (r: String)
    ensures
        r@ == spec_join(parts@.map_values(|x: String| x@), sep),
{
    let mut out = String::new();
    let mut i: usize = 0;
    while i < parts.len()
        invariant
            i <= parts.len(),
            out@ == spec_join(parts@.map_values(|x: String| x@).take(i as int), sep),
        decreases parts.len() - i,
    {
        if i > 0 {
            push_char(&mut out, sep);
        }
        out.append(parts[i].as_str());
        proof {
            let m = parts@.map_values(|x: String| x@);
            assert(m.take(i + 1 as int).drop_last() =~= m.take(i as int));
            assert(m.take(i + 1 as int).last() == m[i as int]);
            if i == 0 {
                assert(m.take(1)[0] == m[0]);
            }
        }
        i = i + 1;
    }
    proof {
        let m = parts@.map_values(|x: String| x@);
        assert(m.take(m.len() as int) =~= m);
    }
    out
}

/// ASCII lowercase of every character; other characters are unchanged.
pub open spec fn spec_ascii_lower_char(c: char) -> char {
    if c == 'A' { 'a' } else if c == 'B' { 'b' } else if c == 'C' { 'c' }
    else if c == 'D' { 'd' } else if c == 'E' { 'e' } else if c == 'F' { 'f' }
    else if c == 'G' { 'g' } else if c == 'H' { 'h' } else if c == 'I' { 'i' }
    else if c == 'J' { 'j' } else if c == 'K' { 'k' } else if c == 'L' { 'l' }
    else if c == 'M' { 'm' } else if c == 'N' { 'n' } else if c == 'O' { 'o' }
    else if c == 'P' { 'p' } else if c == 'Q' { 'q' } else if c == 'R' { 'r' }
    else if c == 'S' { 's' } else if c == 'T' { 't' } else if c == 'U' { 'u' }
    else if c == 'V' { 'v' } else if c == 'W' { 'w' } else if c == 'X' { 'x' }
    else if c == 'Y' { 'y' } else if c == 'Z' { 'z' }
    else { c }
}

pub fn ascii_lower_char(c: char) -> (r: char)
    ensures
        r == spec_ascii_lower_char(c),
{
    match c {
        'A' => 'a', 'B' => 'b', 'C' => 'c', 'D' => 'd', 'E' => 'e', 'F' => 'f',
        'G' => 'g', 'H' => 'h', 'I' => 'i', 'J' => 'j', 'K' => 'k', 'L' => 'l',
        'M' => 'm', 'N' => 'n', 'O' => 'o', 'P' => 'p', 'Q' => 'q', 'R' => 'r',
        'S' => 's', 'T' => 't', 'U' => 'u', 'V' => 'v', 'W' => 'w', 'X' => 'x',
        'Y' => 'y', 'Z' => 'z',
        _ => c,
    }
}

/// Every occurrence of `from` replaced by `to`, scanning left to right
/// without overlap, as str::replace does.
pub open spec fn spec_replace(s: Seq<char>, from: Seq<char>, to: Seq<char>) -> Seq<char>
    decreases s.len(),
    when from.len() > 0
{
    if s.len() < from.len() {
        s
    } else if s.subrange(0, from.len() as int) == from {
        to + spec_replace(s.subrange(from.len() as int, s.len() as int), from, to)
    } else {
        seq![s[0]] + spec_replace(s.drop_first(), from, to)
    }
}

#[verifier::rlimit(100)]
pub fn replace_chars(v: &Vec<char>, from: &Vec<char>, to: &Vec<char>) -> (r: Vec<char>)
    requires
        from@.len() > 0,
    ensures
        r@ == spec_replace(v@, from@, to@),
{
    let mut out: Vec<char> = Vec::new();
    let mut i: usize = 0;
    proof {
        assert(v@.subrange(0, v@.len() as int) =~= v@);
        assert(Seq::<char>::empty() + spec_replace(v@, from@, to@) =~= spec_replace(
            v@,
            from@,
            to@,
        ));
    }
    while i < v.len()
        invariant
            i <= v.len(),
            from@.len() > 0,
            out@ + spec_replace(v@.subrange(i as int, v@.len() as int), from@, to@)
                == spec_replace(v@, from@, to@),
        decreases v.len() - i,
    {
        let ghost pre = out@;
        let ghost tail = v@.subrange(i as int, v@.len() as int);
        if from.len() <= v.len() - i && match_at(v, from, i) {
            let mut j: usize = 0;
            while j < to.len()
                invariant
                    j <= to.len(),
                    out@ == pre + to@.take(j as int),
                decreases to.len() - j,
            {
                out.push(to[j]);
                proof {
                    assert(to@.take(j + 1 as int) =~= to@.take(j as int).push(to@[j as int]));
                }
                j = j + 1;
            }
            proof {
                assert(to@.take(to@.len() as int) =~= to@);
                assert(tail.subrange(0, from@.len() as int) =~= v@.subrange(
                    i as int,
                    i + from@.len() as int,
                ));
                assert(tail.subrange(from@.len() as int, tail.len() as int) =~= v@.subrange(
                    i + from@.len() as int,
                    v@.len() as int,
                ));
            }
            i = i + from.len();
        } else {
            out.push(v[i]);
            proof {
                if tail.len() >= from@.len() {
                    assert(tail.subrange(0, from@.len() as int) =~= v@.subrange(
                        i as int,
                        i + from@.len() as int,
                    ));
                }
                assert(tail.drop_first() =~= v@.subrange(i + 1 as int, v@.len() as int));
                assert(seq![tail[0]] =~= Seq::empty().push(v@[i as int]));
                assert(pre + (seq![tail[0]] + spec_replace(tail.drop_first(), from@, to@))
                    =~= (pre.push(v@[i as int])) + spec_replace(tail.drop_first(), from@, to@));
            }
            i = i + 1;
        }
    }
    proof {
        assert(v@.subrange(v@.len() as int, v@.len() as int) =~= Seq::<char>::empty());
        assert(out@ + Seq::<char>::empty() =~= out@);
    }
    out
}

pub open spec fn spec_trim_end(s: Seq<char>) -> Seq<char> {
    s.subrange(0, spec_trim_end_idx(s))
}

/// Blank characters removed from the end only.
#[verifier::rlimit(60)]
pub fn trim_end_chars(v: &Vec<char>) -> (r: Vec<char>)
    ensures
        r@ == spec_trim_end(v@),
{
    proof {
        lemma_trim_end_idx_bounds(v@);
    }
    let mut end: usize = v.len();
    while end > 0 && is_space(v[end - 1])
        invariant
            end <= v.len(),
            forall|j: int| end <= j < v.len() ==> spec_is_space(v@[j]),
            spec_trim_end_idx(v@) <= end,
        decreases end,
    {
        proof {
            if end - 1 < spec_trim_end_idx(v@) {
                assert(spec_is_space(v@[spec_trim_end_idx(v@) - 1]));
            }
        }
        end = end - 1;
    }
    proof {
        if end > 0 {
            assert(end == spec_trim_end_idx(v@));
        }
    }
    let mut out: Vec<char> = Vec::new();
    let mut i: usize = 0;
    while i < end
        invariant
            i <= end <= v.len(),
            out@ == v@.subrange(0, i as int),
        decreases end - i,
    {
        out.push(v[i]);
        proof {
            assert(v@.subrange(0, i + 1 as int) =~= v@.subrange(0, i as int).push(v@[i as int]));
        }
        i = i + 1;
    }
    proof {
        assert(out@ =~= spec_trim_end(v@));
    }
    out
}

/// A string with every double quote removed.
pub open spec fn spec_unquoted(s: Seq<char>) -> Seq<char>
    decreases s,
{
    if s.len() == 0 {
        Seq::empty()
    } else {
        let rest = spec_unquoted(s.drop_last());
        if s.last() == '"' {
            rest
        } else {
            rest.push(s.last())
        }
    }
}

} // verus!
