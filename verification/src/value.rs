use vstd::prelude::*;

verus! {

use vstd::string::StringExecFns;
use crate::strutil::{push_char, str_eq};


/// One payload node: the JSON data model the renderer works on.
/// Numbers are carried as their decimal rendering, which is all the
/// renderer ever reads of them.  Objects keep their entries in order.
pub enum JsonValue {
    Null,
    Bool(bool),
    Number(String),
    Str(String),
    Array(Vec<JsonValue>),
    Object(Vec<(String, JsonValue)>),
}

/// The mathematical shape of a payload node, which every contract speaks of.
#[verifier::ext_equal]
pub enum JsonView {
    Null,
    Bool(bool),
    Number(Seq<char>),
    Str(Seq<char>),
    Array(Seq<JsonView>),
    Object(Seq<(Seq<char>, JsonView)>),
}

pub open spec fn jv_view(v: JsonValue) -> JsonView
    decreases v,
{
    match v {
        JsonValue::Null => JsonView::Null,
        JsonValue::Bool(b) => JsonView::Bool(b),
        JsonValue::Number(s) => JsonView::Number(s@),
        JsonValue::Str(s) => JsonView::Str(s@),
        JsonValue::Array(a) => JsonView::Array(jv_view_seq(a@)),
        JsonValue::Object(m) => JsonView::Object(jv_view_entries(m@)),
    }
}

pub open spec fn jv_view_seq(s: Seq<JsonValue>) -> Seq<JsonView>
    decreases s,
{
    if s.len() == 0 {
        Seq::empty()
    } else {
        jv_view_seq(s.drop_last()).push(jv_view(s.last()))
    }
}

pub open spec fn jv_view_entries(s: Seq<(String, JsonValue)>) -> Seq<(Seq<char>, JsonView)>
    decreases s,
{
    if s.len() == 0 {
        Seq::empty()
    } else {
        jv_view_entries(s.drop_last()).push((s.last().0@, jv_view(s.last().1)))
    }
}

pub broadcast proof fn lemma_jv_view_seq_len(s: Seq<JsonValue>)
    ensures
        #[trigger] jv_view_seq(s).len() == s.len(),
    decreases s,
{
    if s.len() > 0 {
        lemma_jv_view_seq_len(s.drop_last());
    }
}

pub broadcast proof fn lemma_jv_view_seq_index(s: Seq<JsonValue>, i: int)
    requires
        0 <= i < s.len(),
    ensures
        #[trigger] jv_view_seq(s)[i] == jv_view(s[i]),
    decreases s,
{
    lemma_jv_view_seq_len(s);
    if s.len() > 0 && i < s.len() - 1 {
        lemma_jv_view_seq_index(s.drop_last(), i);
    }
}

pub broadcast proof fn lemma_jv_view_entries_len(s: Seq<(String, JsonValue)>)
    ensures
        #[trigger] jv_view_entries(s).len() == s.len(),
    decreases s,
{
    if s.len() > 0 {
        lemma_jv_view_entries_len(s.drop_last());
    }
}

pub broadcast proof fn lemma_jv_view_entries_index(s: Seq<(String, JsonValue)>, i: int)
    requires
        0 <= i < s.len(),
    ensures
        #[trigger] jv_view_entries(s)[i] == (s[i].0@, jv_view(s[i].1)),
    decreases s,
{
    lemma_jv_view_entries_len(s);
    if s.len() > 0 && i < s.len() - 1 {
        lemma_jv_view_entries_index(s.drop_last(), i);
    }
}

pub broadcast group group_jv_view {
    lemma_jv_view_seq_len,
    lemma_jv_view_seq_index,
    lemma_jv_view_entries_len,
    lemma_jv_view_entries_index,
}

impl View for JsonValue {
    type V = JsonView;

    open spec fn view(&self) -> JsonView {
        jv_view(*self)
    }
}

// ---------------------------------------------------------------------------
// A size measure, used as the decreases measure of every recursive walk.
// ---------------------------------------------------------------------------

pub open spec fn jv_size(v: JsonView) -> nat
    decreases v,
{
    match v {
        JsonView::Array(a) => 1 + jv_size_seq(a),
        JsonView::Object(m) => 1 + jv_size_entries(m),
        _ => 1,
    }
}

pub open spec fn jv_size_seq(s: Seq<JsonView>) -> nat
    decreases s,
{
    if s.len() == 0 {
        0
    } else {
        1 + jv_size(s[0]) + jv_size_seq(s.drop_first())
    }
}

pub open spec fn jv_size_entries(s: Seq<(Seq<char>, JsonView)>) -> nat
    decreases s,
{
    if s.len() == 0 {
        0
    } else {
        1 + jv_size(s[0].1) + jv_size_entries(s.drop_first())
    }
}

pub proof fn lemma_jv_size_seq_elem(s: Seq<JsonView>, i: int)
    requires
        0 <= i < s.len(),
    ensures
        jv_size(s[i]) < jv_size_seq(s),
    decreases s,
{
    if i == 0 {
    } else {
        lemma_jv_size_seq_elem(s.drop_first(), i - 1);
        assert(s.drop_first()[i - 1] == s[i]);
    }
}

pub proof fn lemma_jv_size_entries_elem(s: Seq<(Seq<char>, JsonView)>, i: int)
    requires
        0 <= i < s.len(),
    ensures
        jv_size(s[i].1) < jv_size_entries(s),
    decreases s,
{
    if i == 0 {
    } else {
        lemma_jv_size_entries_elem(s.drop_first(), i - 1);
        assert(s.drop_first()[i - 1] == s[i]);
    }
}

// ---------------------------------------------------------------------------
// Ordered association lookups over object entries, by key.
// ---------------------------------------------------------------------------

/// Index of the first entry whose key reads `k`, or -1.
pub open spec fn jm_index_of(s: Seq<(Seq<char>, JsonView)>, k: Seq<char>) -> int
    decreases s,
{
    if s.len() == 0 {
        -1
    } else if s[0].0 == k {
        0
    } else {
        let r = jm_index_of(s.drop_first(), k);
        if r < 0 {
            -1
        } else {
            r + 1
        }
    }
}

pub open spec fn jm_contains(s: Seq<(Seq<char>, JsonView)>, k: Seq<char>) -> bool {
    jm_index_of(s, k) >= 0
}

/// The value of the first entry whose key reads `k`; meaningful only when
/// such an entry exists.
pub open spec fn jm_get(s: Seq<(Seq<char>, JsonView)>, k: Seq<char>) -> JsonView {
    s[jm_index_of(s, k)].1
}

pub proof fn lemma_jm_index_of(s: Seq<(Seq<char>, JsonView)>, k: Seq<char>)
    ensures
        jm_index_of(s, k) == -1 ==> forall|j: int| 0 <= j < s.len() ==> s[j].0 != k,
        jm_index_of(s, k) >= 0 ==> 0 <= jm_index_of(s, k) < s.len() && s[jm_index_of(s, k)].0
            == k && forall|j: int| 0 <= j < jm_index_of(s, k) ==> s[j].0 != k,
    decreases s,
{
    if s.len() > 0 && s[0].0 != k {
        lemma_jm_index_of(s.drop_first(), k);
        assert forall|j: int| 1 <= j < s.len() implies s.drop_first()[j - 1] == s[j] by {}
    }
}

pub proof fn lemma_jm_index_of_is(s: Seq<(Seq<char>, JsonView)>, k: Seq<char>, i: int)
    requires
        0 <= i < s.len(),
        s[i].0 == k,
        forall|j: int| 0 <= j < i ==> s[j].0 != k,
    ensures
        jm_index_of(s, k) == i,
    decreases s,
{
    if i > 0 {
        lemma_jm_index_of_is(s.drop_first(), k, i - 1);
        assert forall|j: int| 1 <= j < s.len() implies s.drop_first()[j - 1] == s[j] by {}
    }
}

/// An object of the payload, with entries in order.  Duplicate keys are
/// never produced by the payload reader; lookups read the first match.
pub struct JsonMap {
    pub entries: Vec<(String, JsonValue)>,
}

impl View for JsonMap {
    type V = Seq<(Seq<char>, JsonView)>;

    open spec fn view(&self) -> Seq<(Seq<char>, JsonView)> {
        jv_view_entries(self.entries@)
    }
}

impl JsonMap {
    pub fn new() -> (r: JsonMap)
        ensures
            r@ =~= Seq::<(Seq<char>, JsonView)>::empty(),
    {
        JsonMap { entries: Vec::new() }
    }

    pub open spec fn spec_index_of(&self, k: Seq<char>) -> int {
        jm_index_of(self@, k)
    }

    pub open spec fn spec_contains(&self, k: Seq<char>) -> bool {
        jm_contains(self@, k)
    }

    pub open spec fn spec_get(&self, k: Seq<char>) -> JsonView {
        jm_get(self@, k)
    }

    pub fn index_of(&self, k: &str) -> (r: Option<usize>)
        ensures
            match r {
                Some(i) => self.spec_index_of(k@) == i && i < self.entries@.len() && i
                    < self@.len() && self@[i as int].0 == k@ && self@[i as int].1 == jv_view(
                    self.entries@[i as int].1,
                ),
                None => self.spec_index_of(k@) == -1 && !self.spec_contains(k@),
            },
    {
        proof {
            broadcast use group_jv_view;

            lemma_jm_index_of(self@, k@);
        }
        let mut i: usize = 0;
        while i < self.entries.len()
            invariant
                i <= self.entries@.len(),
                forall|j: int| 0 <= j < i ==> self@[j].0 != k@,
            decreases self.entries@.len() - i,
        {
            if str_eq(self.entries[i].0.as_str(), k) {
                proof {
                    lemma_jm_index_of_is(self@, k@, i as int);
                }
                return Some(i);
            }
            i = i + 1;
        }
        None
    }

    pub fn get<'a>(&'a self, k: &str) -> (r: Option<&'a JsonValue>)
        ensures
            match r {
                Some(v) => self.spec_contains(k@) && jv_view(*v) == self.spec_get(k@),
                None => !self.spec_contains(k@),
            },
    {
        match self.index_of(k) {
            Some(i) => Some(&self.entries[i].1),
            None => None,
        }
    }

    pub fn contains_key(&self, k: &str) -> (r: bool)
        ensures
            r == self.spec_contains(k@),
    {
        match self.index_of(k) {
            Some(_) => true,
            None => false,
        }
    }

    /// Overwrites the first entry with this key in place, or appends.
    pub fn insert(&mut self, k: String, v: JsonValue)
        ensures
            old(self).spec_contains(k@) ==> final(self)@ =~= old(self)@.update(
                old(self).spec_index_of(k@),
                (k@, jv_view(v)),
            ),
            !old(self).spec_contains(k@) ==> final(self)@ =~= old(self)@.push((k@, jv_view(v))),
    {
        match self.index_of(k.as_str()) {
            Some(i) => {
                self.entries[i] = (k, v);
                proof {
                    broadcast use group_jv_view;

                    assert(self@ =~= old(self)@.update(
                        old(self).spec_index_of(k@),
                        (k@, jv_view(v)),
                    ));
                }
            },
            None => {
                self.entries.push((k, v));
                proof {
                    broadcast use group_jv_view;

                    assert(self@ =~= old(self)@.push((k@, jv_view(v))));
                }
            },
        }
    }

    /// Removes the first entry with this key, keeping the order of the rest.
    pub fn remove(&mut self, k: &str)
        ensures
            old(self).spec_contains(k@) ==> final(self)@ =~= old(self)@.remove(
                old(self).spec_index_of(k@),
            ),
            !old(self).spec_contains(k@) ==> final(self)@ =~= old(self)@,
    {
        match self.index_of(k) {
            Some(i) => {
                let _ = self.entries.remove(i);
                proof {
                    broadcast use group_jv_view;

                    assert(self@ =~= old(self)@.remove(old(self).spec_index_of(k@)));
                }
            },
            None => {},
        }
    }

    pub fn len(&self) -> (r: usize)
        ensures
            r == self@.len(),
    {
        proof {
            broadcast use group_jv_view;

        }
        self.entries.len()
    }
}

// ---------------------------------------------------------------------------
// Copying.  Clone is written out so that the copy is proved view-equal.
// ---------------------------------------------------------------------------

pub fn copy_string_vec(v: &Vec<String>) -> (r: Vec<String>)
    ensures
        r@ =~= v@,
{
    let mut out: Vec<String> = Vec::new();
    let mut i: usize = 0;
    while i < v.len()
        invariant
            i <= v@.len(),
            out@ =~= v@.take(i as int),
        decreases v@.len() - i,
    {
        out.push(v[i].clone());
        proof {
            assert(v@.take(i + 1 as int) =~= v@.take(i as int).push(v@[i as int]));
        }
        i = i + 1;
    }
    proof {
        assert(v@.take(v@.len() as int) =~= v@);
    }
    out
}

pub fn jv_copy(v: &JsonValue) -> (r: JsonValue)
    ensures
        jv_view(r) == jv_view(*v),
    decreases jv_size(jv_view(*v)),
{
    broadcast use group_jv_view;

    match v {
        JsonValue::Null => JsonValue::Null,
        JsonValue::Bool(b) => JsonValue::Bool(*b),
        JsonValue::Number(s) => JsonValue::Number(s.clone()),
        JsonValue::Str(s) => JsonValue::Str(s.clone()),
        JsonValue::Array(a) => {
            let mut out: Vec<JsonValue> = Vec::new();
            let mut i: usize = 0;
            while i < a.len()
                invariant
                    i <= a@.len(),
                    jv_view_seq(out@) =~= jv_view_seq(a@).take(i as int),
                decreases a@.len() - i,
            {
                proof {
                    lemma_jv_size_seq_elem(jv_view_seq(a@), i as int);
                }
                let item = jv_copy(&a[i]);
                out.push(item);
                proof {
                    assert(jv_view_seq(out@) =~= jv_view_seq(a@).take(i + 1 as int));
                }
                i = i + 1;
            }
            proof {
                assert(jv_view_seq(a@).take(a@.len() as int) =~= jv_view_seq(a@));
                assert(jv_view(JsonValue::Array(out)) =~= jv_view(*v));
            }
            JsonValue::Array(out)
        },
        JsonValue::Object(m) => {
            let out = jm_copy_entries(m);
            proof {
                assert(jv_view(JsonValue::Object(out)) =~= jv_view(*v));
            }
            JsonValue::Object(out)
        },
    }
}

/// A copy of an object's entries, proved view-equal.
pub fn jm_copy_entries(m: &Vec<(String, JsonValue)>) -> (r: Vec<(String, JsonValue)>)
    ensures
        jv_view_entries(r@) == jv_view_entries(m@),
    decreases jv_size_entries(jv_view_entries(m@)),
{
    broadcast use group_jv_view;

    let mut out: Vec<(String, JsonValue)> = Vec::new();
    let mut i: usize = 0;
    while i < m.len()
        invariant
            i <= m@.len(),
            jv_view_entries(out@) =~= jv_view_entries(m@).take(i as int),
        decreases m@.len() - i,
    {
        proof {
            lemma_jv_view_entries_len(m@);
            lemma_jv_view_entries_index(m@, i as int);
            lemma_jv_size_entries_elem(jv_view_entries(m@), i as int);
        }
        let key = m[i].0.clone();
        let val = jv_copy(&m[i].1);
        out.push((key, val));
        proof {
            assert(jv_view_entries(out@) =~= jv_view_entries(m@).take(i + 1 as int));
        }
        i = i + 1;
    }
    proof {
        assert(jv_view_entries(m@).take(m@.len() as int) =~= jv_view_entries(m@));
    }
    out
}

// ---------------------------------------------------------------------------
// JSON text output.
// ---------------------------------------------------------------------------

pub open spec fn spec_hex_digit(n: int) -> char {
    if n == 0 { '0' } else if n == 1 { '1' } else if n == 2 { '2' } else if n == 3 { '3' }
    else if n == 4 { '4' } else if n == 5 { '5' } else if n == 6 { '6' } else if n == 7 { '7' }
    else if n == 8 { '8' } else if n == 9 { '9' } else if n == 10 { 'a' } else if n == 11 { 'b' }
    else if n == 12 { 'c' } else if n == 13 { 'd' } else if n == 14 { 'e' } else { 'f' }
}

/// What one character becomes inside a JSON string literal.
pub open spec fn spec_json_escape_char(c: char) -> Seq<char> {
    if c == '"' {
        "\\\""@
    } else if c == '\\' {
        "\\\\"@
    } else if c == '\u{8}' {
        "\\b"@
    } else if c == '\t' {
        "\\t"@
    } else if c == '\n' {
        "\\n"@
    } else if c == '\u{c}' {
        "\\f"@
    } else if c == '\r' {
        "\\r"@
    } else if (c as u32) < 32 {
        "\\u00"@.push(spec_hex_digit((c as u32) as int / 16)).push(
            spec_hex_digit((c as u32) as int % 16),
        )
    } else {
        seq![c]
    }
}

pub open spec fn spec_json_escape(s: Seq<char>) -> Seq<char>
    decreases s,
{
    if s.len() == 0 {
        Seq::empty()
    } else {
        spec_json_escape(s.drop_last()) + spec_json_escape_char(s.last())
    }
}

/// A string rendered as a JSON string literal.
pub open spec fn spec_json_string(s: Seq<char>) -> Seq<char> {
    seq!['"'] + spec_json_escape(s) + seq!['"']
}

pub open spec fn spec_json_compact(v: JsonView) -> Seq<char>
    decreases v,
{
    match v {
        JsonView::Null => "null"@,
        JsonView::Bool(b) => if b {
            "true"@
        } else {
            "false"@
        },
        JsonView::Number(s) => s,
        JsonView::Str(s) => spec_json_string(s),
        JsonView::Array(a) => seq!['['] + spec_json_compact_items(a) + seq![']'],
        JsonView::Object(m) => seq!['{'] + spec_json_compact_entries(m) + seq!['}'],
    }
}

pub open spec fn spec_json_compact_items(s: Seq<JsonView>) -> Seq<char>
    decreases s,
{
    if s.len() == 0 {
        Seq::empty()
    } else if s.len() == 1 {
        spec_json_compact(s[0])
    } else {
        spec_json_compact_items(s.drop_last()) + seq![','] + spec_json_compact(s.last())
    }
}

pub open spec fn spec_json_compact_entries(s: Seq<(Seq<char>, JsonView)>) -> Seq<char>
    decreases s,
{
    if s.len() == 0 {
        Seq::empty()
    } else if s.len() == 1 {
        spec_json_string(s[0].0) + seq![':'] + spec_json_compact(s[0].1)
    } else {
        spec_json_compact_entries(s.drop_last()) + seq![','] + spec_json_string(s.last().0)
            + seq![':'] + spec_json_compact(s.last().1)
    }
}

fn hex_digit(n: u32) -> (r: char)
    requires
        n < 16,
    ensures
        r == spec_hex_digit(n as int),
{
    match n {
        0 => '0', 1 => '1', 2 => '2', 3 => '3', 4 => '4', 5 => '5', 6 => '6', 7 => '7',
        8 => '8', 9 => '9', 10 => 'a', 11 => 'b', 12 => 'c', 13 => 'd', 14 => 'e',
        _ => 'f',
    }
}

pub fn append_json_escaped(out: &mut String, s: &str)
    ensures
        final(out)@ == old(out)@ + spec_json_escape(s@),
{
    let v = crate::strutil::chars_of(s);
    let mut i: usize = 0;
    while i < v.len()
        invariant
            i <= v@.len(),
            v@ == s@,
            out@ == old(out)@ + spec_json_escape(v@.take(i as int)),
        decreases v@.len() - i,
    {
        let c = v[i];
        if c == '"' {
            out.append("\\\"");
        } else if c == '\\' {
            out.append("\\\\");
        } else if c == '\u{8}' {
            out.append("\\b");
        } else if c == '\t' {
            out.append("\\t");
        } else if c == '\n' {
            out.append("\\n");
        } else if c == '\u{c}' {
            out.append("\\f");
        } else if c == '\r' {
            out.append("\\r");
        } else if (c as u32) < 32 {
            let code: u32 = c as u32;
            out.append("\\u00");
            push_char(out, hex_digit(code / 16));
            push_char(out, hex_digit(code % 16));
        } else {
            push_char(out, c);
        }
        proof {
            assert(v@.take(i + 1 as int).drop_last() =~= v@.take(i as int));
            assert(v@.take(i + 1 as int).last() == v@[i as int]);
            let c0 = v@[i as int];
            if !(c0 == '"' || c0 == '\\' || c0 == '\u{8}' || c0 == '\t' || c0 == '\n' || c0
                == '\u{c}' || c0 == '\r' || (c0 as u32) < 32) {
                assert(seq![c0] =~= Seq::<char>::empty().push(c0));
            }
            assert(out@ == old(out)@ + spec_json_escape(v@.take(i + 1 as int)));
        }
        i = i + 1;
    }
    proof {
        assert(v@.take(v@.len() as int) =~= v@);
    }
}

pub fn append_json_string(out: &mut String, s: &str)
    ensures
        final(out)@ == old(out)@ + spec_json_string(s@),
{
    push_char(out, '"');
    append_json_escaped(out, s);
    push_char(out, '"');
    proof {
        assert(old(out)@ + spec_json_string(s@) =~= ((old(out)@.push('"')) + spec_json_escape(s@)
            ).push('"'));
    }
}

/// The compact JSON rendering, one token after another.
#[verifier::rlimit(60)]
pub fn append_json_compact(out: &mut String, v: &JsonValue)
    ensures
        final(out)@ == old(out)@ + spec_json_compact(jv_view(*v)),
    decreases jv_size(jv_view(*v)),
{
    broadcast use group_jv_view;

    match v {
        JsonValue::Null => {
            out.append("null");
        },
        JsonValue::Bool(b) => {
            if *b {
                out.append("true");
            } else {
                out.append("false");
            }
        },
        JsonValue::Number(s) => {
            out.append(s.as_str());
        },
        JsonValue::Str(s) => {
            append_json_string(out, s.as_str());
        },
        JsonValue::Array(a) => {
            push_char(out, '[');
            let ghost items = jv_view_seq(a@);
            let mut i: usize = 0;
            while i < a.len()
                invariant
                    i <= a@.len(),
                    items == jv_view_seq(a@),
                    out@ == old(out)@.push('[') + spec_json_compact_items(items.take(i as int)),
                decreases a@.len() - i,
            {
                if i > 0 {
                    push_char(out, ',');
                }
                proof {
                    lemma_jv_size_seq_elem(items, i as int);
                }
                append_json_compact(out, &a[i]);
                proof {
                    assert(items.take(i + 1 as int).drop_last() =~= items.take(i as int));
                    assert(items.take(i + 1 as int).last() == items[i as int]);
                    if i == 0 {
                        assert(items.take(1)[0] == items[0]);
                    }
                }
                i = i + 1;
            }
            push_char(out, ']');
            proof {
                assert(items.take(items.len() as int) =~= items);
                assert(old(out)@ + spec_json_compact(jv_view(*v)) =~= (old(out)@.push('[')
                    + spec_json_compact_items(items)).push(']'));
            }
        },
        JsonValue::Object(m) => {
            push_char(out, '{');
            let ghost ents = jv_view_entries(m@);
            let mut i: usize = 0;
            while i < m.len()
                invariant
                    i <= m@.len(),
                    ents == jv_view_entries(m@),
                    out@ == old(out)@.push('{') + spec_json_compact_entries(ents.take(i as int)),
                decreases m@.len() - i,
            {
                if i > 0 {
                    push_char(out, ',');
                }
                proof {
                    lemma_jv_size_entries_elem(ents, i as int);
                }
                append_json_string(out, m[i].0.as_str());
                push_char(out, ':');
                append_json_compact(out, &m[i].1);
                proof {
                    assert(ents.take(i + 1 as int).drop_last() =~= ents.take(i as int));
                    assert(ents.take(i + 1 as int).last() == ents[i as int]);
                    if i == 0 {
                        assert(ents.take(1)[0] == ents[0]);
                    }
                }
                i = i + 1;
            }
            push_char(out, '}');
            proof {
                assert(ents.take(ents.len() as int) =~= ents);
                assert(old(out)@ + spec_json_compact(jv_view(*v)) =~= (old(out)@.push('{')
                    + spec_json_compact_entries(ents)).push('}'));
            }
        },
    }
}

pub fn to_json_compact(v: &JsonValue) -> (r: String)
    ensures
        r@ == spec_json_compact(jv_view(*v)),
{
    let mut out = String::new();
    append_json_compact(&mut out, v);
    proof {
        assert(Seq::<char>::empty() + spec_json_compact(jv_view(*v)) =~= spec_json_compact(
            jv_view(*v),
        ));
    }
    out
}

// ---------------------------------------------------------------------------
// Indented JSON text, as the introspection endpoint prints it.
// ---------------------------------------------------------------------------

pub open spec fn spec_json_pretty(v: JsonView, ind: Seq<char>) -> Seq<char>
    decreases v,
{
    match v {
        JsonView::Array(a) => {
            if a.len() == 0 {
                "[]"@
            } else {
                seq!['['] + spec_json_pretty_items(a, ind) + seq!['\n'] + ind + seq![']']
            }
        },
        JsonView::Object(m) => {
            if m.len() == 0 {
                "{}"@
            } else {
                seq!['{'] + spec_json_pretty_entries(m, ind) + seq!['\n'] + ind + seq!['}']
            }
        },
        _ => spec_json_compact(v),
    }
}

pub open spec fn spec_json_pretty_items(s: Seq<JsonView>, ind: Seq<char>) -> Seq<char>
    decreases s,
{
    if s.len() == 0 {
        Seq::empty()
    } else if s.len() == 1 {
        seq!['\n'] + ind + "  "@ + spec_json_pretty(s[0], ind + "  "@)
    } else {
        spec_json_pretty_items(s.drop_last(), ind) + seq![','] + seq!['\n'] + ind + "  "@
            + spec_json_pretty(s.last(), ind + "  "@)
    }
}

pub open spec fn spec_json_pretty_entries(s: Seq<(Seq<char>, JsonView)>, ind: Seq<char>) -> Seq<
    char,
>
    decreases s,
{
    if s.len() == 0 {
        Seq::empty()
    } else if s.len() == 1 {
        seq!['\n'] + ind + "  "@ + spec_json_string(s[0].0) + ": "@ + spec_json_pretty(
            s[0].1,
            ind + "  "@,
        )
    } else {
        spec_json_pretty_entries(s.drop_last(), ind) + seq![','] + seq!['\n'] + ind + "  "@
            + spec_json_string(s.last().0) + ": "@ + spec_json_pretty(s.last().1, ind + "  "@)
    }
}

#[verifier::rlimit(100)]
pub fn append_json_pretty(out: &mut String, v: &JsonValue, ind: &String)
    ensures
        final(out)@ == old(out)@ + spec_json_pretty(jv_view(*v), ind@),
    decreases jv_size(jv_view(*v)),
{
    broadcast use group_jv_view;

    let mut child_ind: String = ind.clone();
    child_ind.append("  ");
    match v {
        JsonValue::Array(a) => {
            if a.len() == 0 {
                out.append("[]");
                return ;
            }
            push_char(out, '[');
            let ghost items = jv_view_seq(a@);
            let mut i: usize = 0;
            while i < a.len()
                invariant
                    i <= a@.len(),
                    a@.len() > 0,
                    items == jv_view_seq(a@),
                    child_ind@ == ind@ + "  "@,
                    out@ == old(out)@.push('[') + spec_json_pretty_items(
                        items.take(i as int),
                        ind@,
                    ),
                decreases a@.len() - i,
            {
                if i > 0 {
                    push_char(out, ',');
                }
                push_char(out, '\n');
                out.append(ind.as_str());
                out.append("  ");
                proof {
                    lemma_jv_size_seq_elem(items, i as int);
                }
                append_json_pretty(out, &a[i], &child_ind);
                proof {
                    assert(items.take(i + 1 as int).drop_last() =~= items.take(i as int));
                    assert(items.take(i + 1 as int).last() == items[i as int]);
                    if i == 0 {
                        assert(items.take(1)[0] == items[0]);
                    }
                    assert(out@ == old(out)@.push('[') + spec_json_pretty_items(
                        items.take(i + 1 as int),
                        ind@,
                    ));
                }
                i = i + 1;
            }
            push_char(out, '\n');
            out.append(ind.as_str());
            push_char(out, ']');
            proof {
                assert(items.take(items.len() as int) =~= items);
                assert(old(out)@ + spec_json_pretty(jv_view(*v), ind@) =~= (((old(out)@.push('[')
                    + spec_json_pretty_items(items, ind@)).push('\n') + ind@).push(']')));
            }
        },
        JsonValue::Object(m) => {
            if m.len() == 0 {
                out.append("{}");
                return ;
            }
            push_char(out, '{');
            let ghost ents = jv_view_entries(m@);
            let mut i: usize = 0;
            while i < m.len()
                invariant
                    i <= m@.len(),
                    m@.len() > 0,
                    ents == jv_view_entries(m@),
                    child_ind@ == ind@ + "  "@,
                    out@ == old(out)@.push('{') + spec_json_pretty_entries(
                        ents.take(i as int),
                        ind@,
                    ),
                decreases m@.len() - i,
            {
                if i > 0 {
                    push_char(out, ',');
                }
                push_char(out, '\n');
                out.append(ind.as_str());
                out.append("  ");
                append_json_string(out, m[i].0.as_str());
                out.append(": ");
                proof {
                    lemma_jv_size_entries_elem(ents, i as int);
                }
                append_json_pretty(out, &m[i].1, &child_ind);
                proof {
                    assert(ents.take(i + 1 as int).drop_last() =~= ents.take(i as int));
                    assert(ents.take(i + 1 as int).last() == ents[i as int]);
                    if i == 0 {
                        assert(ents.take(1)[0] == ents[0]);
                    }
                    assert(out@ == old(out)@.push('{') + spec_json_pretty_entries(
                        ents.take(i + 1 as int),
                        ind@,
                    ));
                }
                i = i + 1;
            }
            push_char(out, '\n');
            out.append(ind.as_str());
            push_char(out, '}');
            proof {
                assert(ents.take(ents.len() as int) =~= ents);
                assert(old(out)@ + spec_json_pretty(jv_view(*v), ind@) =~= (((old(out)@.push('{')
                    + spec_json_pretty_entries(ents, ind@)).push('\n') + ind@).push('}')));
            }
        },
        _ => {
            append_json_compact(out, v);
        },
    }
}

pub fn to_json_pretty(v: &JsonValue) -> (r: String)
    ensures
        r@ == spec_json_pretty(jv_view(*v), Seq::empty()),
{
    let mut out = String::new();
    let ind = String::new();
    append_json_pretty(&mut out, v, &ind);
    proof {
        assert(Seq::<char>::empty() + spec_json_pretty(jv_view(*v), Seq::empty())
            =~= spec_json_pretty(jv_view(*v), Seq::empty()));
    }
    out
}

// ---------------------------------------------------------------------------
// The display form of a value, used when one becomes attribute text.
// ---------------------------------------------------------------------------

/// How a value reads when spliced into attribute text: strings read as
/// themselves, scalars as their token, and a missing value as the engine
/// prints one.
pub open spec fn spec_display(v: JsonView) -> Seq<char> {
    match v {
        JsonView::Str(s) => s,
        JsonView::Number(s) => s,
        JsonView::Bool(b) => if b {
            "true"@
        } else {
            "false"@
        },
        JsonView::Null => "none"@,
        _ => spec_json_compact(v),
    }
}

pub fn display_string(v: &JsonValue) -> (r: String)
    ensures
        r@ == spec_display(jv_view(*v)),
{
    match v {
        JsonValue::Str(s) => s.clone(),
        JsonValue::Number(s) => s.clone(),
        JsonValue::Bool(b) => {
            let mut out = String::new();
            if *b {
                out.append("true");
            } else {
                out.append("false");
            }
            out
        },
        JsonValue::Null => {
            let mut out = String::new();
            out.append("none");
            out
        },
        _ => to_json_compact(v),
    }
}

/// Lookup of the first entry with this key in a borrowed entry list.
pub fn jm_find<'a>(v: &'a Vec<(String, JsonValue)>, k: &str) -> (r: Option<&'a JsonValue>)
    ensures
        match r {
            Some(x) => jm_contains(jv_view_entries(v@), k@) && jv_view(*x) == jm_get(
                jv_view_entries(v@),
                k@,
            ),
            None => !jm_contains(jv_view_entries(v@), k@),
        },
{
    broadcast use group_jv_view;

    proof {
        lemma_jm_index_of(jv_view_entries(v@), k@);
    }
    let mut i: usize = 0;
    while i < v.len()
        invariant
            i <= v@.len(),
            forall|j: int| 0 <= j < i ==> jv_view_entries(v@)[j].0 != k@,
        decreases v@.len() - i,
    {
        if crate::strutil::str_eq(v[i].0.as_str(), k) {
            proof {
                lemma_jm_index_of_is(jv_view_entries(v@), k@, i as int);
            }
            return Some(&v[i].1);
        }
        i = i + 1;
    }
    None
}

/// An entry set with the first entry under `k` overwritten in place, or the
/// new entry appended, as JsonMap::insert behaves.
pub open spec fn spec_jm_insert(
    ents: Seq<(Seq<char>, JsonView)>,
    k: Seq<char>,
    v: JsonView,
) -> Seq<(Seq<char>, JsonView)> {
    if jm_contains(ents, k) {
        ents.update(jm_index_of(ents, k), (k, v))
    } else {
        ents.push((k, v))
    }
}

} // verus!
