//! JSON values as the engine handles them: node inputs, node outputs,
//! parameter defaults and literal values in workflow files.

use vstd::prelude::*;
use crate::strmap::{StrMap, entries_map, lemma_entries_map_dom};
use crate::text::{decimal, int_text, u64_text, i64_text, str_eq, is_digit, digits_value, law_decimal_reads_back};

verus! {

/// A JSON number: a non-negative integer, a negative integer, or a finite
/// floating-point number held as the text that `serde_json` renders for it
/// (the shortest text that reads back to the same value, such as `3.14` or `0.0`);
/// such text is a JSON number literal (`number_wf`).
#[derive(Debug, PartialEq)]
pub enum JsonNumber {
    PosInt(u64),
    NegInt(i64),
    Float(String),
}

/// A JSON value. An object lists its members as (key, value) pairs.
#[derive(Debug, PartialEq)]
pub enum JsonValue {
    Null,
    Bool(bool),
    Number(JsonNumber),
    String(String),
    Array(Vec<JsonValue>),
    Object(Vec<(String, JsonValue)>),
}

/// A map of named JSON values (node inputs and outputs).
pub type JsonMap = StrMap<JsonValue>;

/// The mathematical content of a JSON number.
pub enum NumberView {
    PosInt(u64),
    NegInt(i64),
    Float(Seq<char>),
}

/// The mathematical content of a JSON value.
pub enum JsonView {
    Null,
    Bool(bool),
    Number(NumberView),
    Str(Seq<char>),
    Array(Seq<JsonView>),
    Object(Seq<(Seq<char>, JsonView)>),
}

impl View for JsonNumber {
    type V = NumberView;

    open spec fn view(&self) -> NumberView {
        match self {
            JsonNumber::PosInt(u) => NumberView::PosInt(*u),
            JsonNumber::NegInt(i) => NumberView::NegInt(*i),
            JsonNumber::Float(t) => NumberView::Float(t@),
        }
    }
}

/// The content of a JSON value.
pub open spec fn json_view(v: JsonValue) -> JsonView
    decreases v,
{
    match v {
        JsonValue::Null => JsonView::Null,
        JsonValue::Bool(b) => JsonView::Bool(b),
        JsonValue::Number(n) => JsonView::Number(n@),
        JsonValue::String(s) => JsonView::Str(s@),
        JsonValue::Array(a) => JsonView::Array(
            Seq::new(
                a@.len(),
                |i: int|
                    if 0 <= i < a@.len() {
                        proof {
                            assert(decreases_to!(v => a@[i]));
                        }
                        json_view(a@[i])
                    } else {
                        JsonView::Null
                    },
            ),
        ),
        JsonValue::Object(o) => JsonView::Object(
            Seq::new(
                o@.len(),
                |i: int|
                    if 0 <= i < o@.len() {
                        proof {
                            assert(decreases_to!(v => o@[i].1));
                        }
                        (o@[i].0@, json_view(o@[i].1))
                    } else {
                        (Seq::empty(), JsonView::Null)
                    },
            ),
        ),
    }
}

impl View for JsonValue {
    type V = JsonView;

    open spec fn view(&self) -> JsonView {
        json_view(*self)
    }
}


/// The text of a JSON number (its `to_string`).
pub open spec fn number_text(n: NumberView) -> Seq<char> {
    match n {
        NumberView::PosInt(u) => decimal(u as nat),
        NumberView::NegInt(i) => int_text(i as int),
        NumberView::Float(t) => t,
    }
}

/// Whether a JSON number is zero (as an integer, or as a float, where `-0.0` is zero too).
pub open spec fn number_is_zero(n: NumberView) -> bool {
    match n {
        NumberView::PosInt(u) => u == 0,
        NumberView::NegInt(i) => i == 0,
        NumberView::Float(t) => t == "0.0"@ || t == "-0.0"@,
    }
}

/// A non-empty run of decimal digits.
pub open spec fn digit_run(s: Seq<char>) -> bool {
    s.len() > 0 && forall|i: int| 0 <= i < s.len() ==> is_digit(#[trigger] s[i])
}

/// The integer part of a JSON number literal: digits, with no leading zero
/// unless it is `0` alone.
pub open spec fn integer_part(s: Seq<char>) -> bool {
    digit_run(s) && (s.len() == 1 || s[0] != '0')
}

/// The fraction of a JSON number literal: nothing, or `.` and digits.
pub open spec fn fraction_part(s: Seq<char>) -> bool {
    s.len() == 0 || (s[0] == '.' && digit_run(s.drop_first()))
}

/// The exponent of a JSON number literal: nothing, or `e` or `E`, an
/// optional sign and digits.
pub open spec fn exponent_part(s: Seq<char>) -> bool {
    s.len() == 0 || ((s[0] == 'e' || s[0] == 'E') && {
        let r = s.drop_first();
        if r.len() > 0 && (r[0] == '+' || r[0] == '-') {
            digit_run(r.drop_first())
        } else {
            digit_run(r)
        }
    })
}

/// Whether `u` is a JSON number literal without a sign: an integer part,
/// an optional fraction and an optional exponent.
pub open spec fn unsigned_literal(u: Seq<char>) -> bool {
    exists|i: int, j: int| #![trigger u.subrange(0, i), u.subrange(i, j)]
        0 < i <= j <= u.len() && integer_part(u.subrange(0, i)) && fraction_part(u.subrange(i, j))
            && exponent_part(u.subrange(j, u.len() as int))
}

/// Whether `t` is a JSON number literal: an optional `-`, then an unsigned literal.
pub open spec fn number_literal(t: Seq<char>) -> bool {
    if t.len() > 0 && t[0] == '-' {
        unsigned_literal(t.drop_first())
    } else {
        unsigned_literal(t)
    }
}

/// A well-formed JSON number: the text of a float is a JSON number literal.
pub open spec fn number_wf(n: NumberView) -> bool {
    match n {
        NumberView::Float(t) => number_literal(t),
        _ => true,
    }
}

/// A well-formed JSON value: every number in it is well formed.
pub open spec fn json_wf(v: JsonView) -> bool
    decreases v,
{
    match v {
        JsonView::Number(n) => number_wf(n),
        JsonView::Array(a) => forall|i: int| 0 <= i < a.len() ==> json_wf(#[trigger] a[i]),
        JsonView::Object(o) => forall|i: int| 0 <= i < o.len() ==> json_wf(#[trigger] o[i].1),
        _ => true,
    }
}

/// The JSON number `serde_json` makes of an `i64`.
pub open spec fn int_number(i: i64) -> NumberView {
    if i >= 0 {
        NumberView::PosInt(i as u64)
    } else {
        NumberView::NegInt(i)
    }
}

impl JsonNumber {
    /// `Number::from(i64)`.
    pub fn from_i64(i: i64) -> (r: JsonNumber)
        ensures
            r@ == int_number(i),
    {
        if i >= 0 {
            JsonNumber::PosInt(i as u64)
        } else {
            JsonNumber::NegInt(i)
        }
    }

    /// The text of the number.
    pub fn text(&self) -> (r: String)
        ensures
            r@ == number_text(self@),
    {
        match self {
            JsonNumber::PosInt(u) => u64_text(*u),
            JsonNumber::NegInt(i) => i64_text(*i),
            JsonNumber::Float(t) => t.clone(),
        }
    }

    /// Whether the number is zero.
    pub fn is_zero(&self) -> (r: bool)
        ensures
            r == number_is_zero(self@),
    {
        match self {
            JsonNumber::PosInt(u) => *u == 0,
            JsonNumber::NegInt(i) => *i == 0,
            JsonNumber::Float(t) => str_eq(t.as_str(), "0.0") || str_eq(t.as_str(), "-0.0"),
        }
    }

    /// A copy of the number.
    pub fn copy(&self) -> (r: JsonNumber)
        ensures
            r@ == self@,
    {
        match self {
            JsonNumber::PosInt(u) => JsonNumber::PosInt(*u),
            JsonNumber::NegInt(i) => JsonNumber::NegInt(*i),
            JsonNumber::Float(t) => JsonNumber::Float(t.clone()),
        }
    }
}

impl JsonValue {
    /// A copy of the value with the same content.
    #[verifier::loop_isolation(false)]
    pub fn deep_copy(&self) -> (r: JsonValue)
        ensures
            r@ == self@,
        decreases self,
    {
        match self {
            JsonValue::Null => JsonValue::Null,
            JsonValue::Bool(b) => JsonValue::Bool(*b),
            JsonValue::Number(n) => JsonValue::Number(n.copy()),
            JsonValue::String(s) => JsonValue::String(s.clone()),
            JsonValue::Array(a) => {
                let mut out: Vec<JsonValue> = Vec::new();
                let mut i: usize = 0;
                while i < a.len()
                    invariant
                        i <= a@.len(),
                        out@.len() == i,
                        forall|j: int| 0 <= j < i ==> json_view(#[trigger] out@[j]) == json_view(a@[j]),
                    decreases a@.len() - i,
                {
                    assert(decreases_to!(self => a@[i as int]));
                    let c = a[i].deep_copy();
                    out.push(c);
                    i = i + 1;
                }
                let r = JsonValue::Array(out);
                assert(json_view(r) == json_view(*self)) by {
                    if let JsonView::Array(x) = json_view(r) {
                        if let JsonView::Array(y) = json_view(*self) {
                            assert(x =~= y);
                        }
                    }
                }
                r
            },
            JsonValue::Object(o) => {
                let mut out: Vec<(String, JsonValue)> = Vec::new();
                let mut i: usize = 0;
                while i < o.len()
                    invariant
                        i <= o@.len(),
                        out@.len() == i,
                        forall|j: int| 0 <= j < i ==> (#[trigger] out@[j]).0@ == o@[j].0@ && json_view(out@[j].1) == json_view(o@[j].1),
                    decreases o@.len() - i,
                {
                    assert(decreases_to!(self => o@[i as int].1));
                    let c = o[i].1.deep_copy();
                    out.push((o[i].0.clone(), c));
                    i = i + 1;
                }
                let r = JsonValue::Object(out);
                assert(json_view(r) == json_view(*self)) by {
                    if let JsonView::Object(x) = json_view(r) {
                        if let JsonView::Object(y) = json_view(*self) {
                            assert(x =~= y);
                        }
                    }
                }
                r
            },
        }
    }
}

/// The value of member `k` of an object's members (the last one that carries the key).
pub fn member<'a>(members: &'a Vec<(String, JsonValue)>, k: &str) -> (r: Option<&'a JsonValue>)
    ensures
        match r {
            Some(v) => entries_map(members@).dom().contains(k@) && entries_map(members@)[k@] == *v,
            None => !entries_map(members@).dom().contains(k@),
        },
{
    let mut i: usize = members.len();
    while i > 0
        invariant
            i <= members@.len(),
            forall|j: int| i <= j < members@.len() ==> (#[trigger] members@[j]).0@ != k@,
        decreases i,
    {
        let j = i - 1;
        if str_eq(members[j].0.as_str(), k) {
            proof {
                let s = members@;
                lemma_entries_map_split(s, i as int);
                lemma_entries_map_dom(s.skip(i as int), k@);
                assert forall|t: int| 0 <= t < s.skip(i as int).len() implies (#[trigger] s.skip(
                    i as int,
                )[t]).0@ != k@ by {
                    assert(s.skip(i as int)[t] == s[t + i]);
                }
                assert(s.take(i as int).last() == s[j as int]);
            }
            return Some(&members[j].1);
        }
        i = j;
    }
    proof {
        lemma_entries_map_dom(members@, k@);
    }
    None
}

/// The denoted map of a concatenation is the right part winning over the left.
pub proof fn lemma_entries_map_split<V>(s: Seq<(String, V)>, i: int)
    requires
        0 <= i <= s.len(),
    ensures
        entries_map(s) =~= entries_map(s.take(i)).union_prefer_right(entries_map(s.skip(i))),
    decreases s.len() - i,
{
    if i < s.len() {
        lemma_entries_map_split(s, i + 1);
        lemma_entries_map_prepend(s.skip(i));
        assert(s.skip(i).drop_first() =~= s.skip(i + 1));
        assert(s.take(i + 1) =~= s.take(i).push(s[i]));
        assert(s.take(i + 1).drop_last() =~= s.take(i));
    } else {
        assert(s.take(i) =~= s);
        assert(s.skip(i) =~= Seq::<(String, V)>::empty());
    }
}

/// Prepending an entry: it is overridden by any later entry with the same key.
pub proof fn lemma_entries_map_prepend<V>(s: Seq<(String, V)>)
    requires
        s.len() > 0,
    ensures
        entries_map(s) =~= Map::<Seq<char>, V>::empty().insert(s[0].0@, s[0].1).union_prefer_right(
            entries_map(s.drop_first()),
        ),
    decreases s.len(),
{
    if s.len() > 1 {
        lemma_entries_map_prepend(s.drop_last());
        assert(s.drop_last().drop_first() =~= s.drop_first().drop_last());
        assert(s.drop_first().last() == s.last());
    } else {
        assert(s.drop_first() =~= Seq::<(String, V)>::empty());
        assert(s.drop_last() =~= Seq::<(String, V)>::empty());
    }
}

/// The text the engine makes of a value where it needs a string: strings as
/// they are, numbers and booleans as written, `null`, and placeholders for
/// arrays and objects.
pub open spec fn text_form(v: JsonView) -> Seq<char> {
    match v {
        JsonView::Str(s) => s,
        JsonView::Number(n) => number_text(n),
        JsonView::Bool(b) => if b { "true"@ } else { "false"@ },
        JsonView::Null => "null"@,
        JsonView::Array(_) => "[array]"@,
        JsonView::Object(_) => "{object}"@,
    }
}

/// Whether a value counts as true: booleans as they are, non-zero numbers,
/// non-empty strings, arrays and objects.
pub open spec fn truthy(v: JsonView) -> bool {
    match v {
        JsonView::Bool(b) => b,
        JsonView::Number(n) => !number_is_zero(n),
        JsonView::Str(s) => s.len() > 0,
        JsonView::Null => false,
        JsonView::Array(a) => a.len() > 0,
        JsonView::Object(o) => o.len() > 0,
    }
}

impl JsonValue {
    /// The text form of the value.
    pub fn text_form(&self) -> (r: String)
        ensures
            r@ == text_form(self@),
    {
        match self {
            JsonValue::String(s) => s.clone(),
            JsonValue::Number(n) => n.text(),
            JsonValue::Bool(b) => if *b {
                String::from_str("true")
            } else {
                String::from_str("false")
            },
            JsonValue::Null => String::from_str("null"),
            JsonValue::Array(_) => String::from_str("[array]"),
            JsonValue::Object(_) => String::from_str("{object}"),
        }
    }

    /// Whether the value counts as true.
    pub fn is_truthy(&self) -> (r: bool)
        ensures
            r == truthy(self@),
    {
        match self {
            JsonValue::Bool(b) => *b,
            JsonValue::Number(n) => !n.is_zero(),
            JsonValue::String(s) => s.as_str().unicode_len() > 0,
            JsonValue::Null => false,
            JsonValue::Array(a) => a.len() > 0,
            JsonValue::Object(o) => o.len() > 0,
        }
    }
}

/// A map holding the single entry `output`.
pub open spec fn single_output(m: Map<Seq<char>, JsonValue>, v: JsonView) -> bool {
    &&& m.dom() =~= Set::empty().insert("output"@)
    &&& m["output"@]@ == v
}

/// A map holding the single entry `output` with value `v`.
pub fn output_map(v: JsonValue) -> (r: JsonMap)
    ensures
        r.wf(),
        single_output(r@, v@),
        r@ == Map::<Seq<char>, JsonValue>::empty().insert("output"@, v),
{
    let mut m = StrMap::new();
    m.insert(String::from_str("output"), v);
    m
}

/// The content of a value has the value's own kind.
pub proof fn lemma_view_kind(v: JsonValue)
    ensures
        v is Null <==> v@ is Null,
        v is Bool <==> v@ is Bool,
        v is Number <==> v@ is Number,
        v is String <==> v@ is Str,
        v is Array <==> v@ is Array,
        v is Object <==> v@ is Object,
        v matches JsonValue::Bool(b) ==> v@ == JsonView::Bool(b),
        v matches JsonValue::String(s) ==> v@ == JsonView::Str(s@),
        v matches JsonValue::Number(n) ==> v@ == JsonView::Number(n@),
{
}

/// The contents of a map of named values.
pub open spec fn map_view(m: Map<Seq<char>, JsonValue>) -> Map<Seq<char>, JsonView> {
    m.map_values(|v: JsonValue| v@)
}

/// Two entry lists with the same keys and contents, position by position.
pub open spec fn same_entries(a: Seq<(String, JsonValue)>, b: Seq<(String, JsonValue)>) -> bool {
    a.len() == b.len() && forall|i: int| 0 <= i < a.len() ==> (#[trigger] a[i]).0@ == b[i].0@ && a[i].1@ == b[i].1@
}

proof fn lemma_same_entries_view(a: Seq<(String, JsonValue)>, b: Seq<(String, JsonValue)>)
    requires
        same_entries(a, b),
    ensures
        map_view(entries_map(a)) =~= map_view(entries_map(b)),
        entries_map(a).dom() =~= entries_map(b).dom(),
    decreases a.len(),
{
    if a.len() > 0 {
        let a2 = a.drop_last();
        let b2 = b.drop_last();
        assert forall|i: int| 0 <= i < a2.len() implies (#[trigger] a2[i]).0@ == b2[i].0@ && a2[i].1@ == b2[i].1@ by {
            assert(a2[i] == a[i]);
            assert(b2[i] == b[i]);
        }
        lemma_same_entries_view(a2, b2);
        assert(a.last() == a[a.len() - 1]);
        assert(b.last() == b[b.len() - 1]);
        assert(map_view(entries_map(a)) =~= map_view(entries_map(a2)).insert(a.last().0@, a.last().1@));
        assert(map_view(entries_map(b)) =~= map_view(entries_map(b2)).insert(b.last().0@, b.last().1@));
    }
}

/// A copy of a map of named values.
pub fn copy_map(m: &JsonMap) -> (r: JsonMap)
    requires
        m.wf(),
    ensures
        r.wf(),
        map_view(r@) == map_view(m@),
        r@.dom() == m@.dom(),
{
    let mut out: Vec<(String, JsonValue)> = Vec::new();
    let mut i: usize = 0;
    while i < m.entries.len()
        invariant
            i <= m.entries@.len(),
            same_entries(out@, m.entries@.take(i as int)),
        decreases m.entries@.len() - i,
    {
        let k = m.entries[i].0.clone();
        let v = m.entries[i].1.deep_copy();
        out.push((k, v));
        i = i + 1;
    }
    assert(m.entries@.take(m.entries@.len() as int) =~= m.entries@);
    proof {
        lemma_same_entries_view(out@, m.entries@);
        assert forall|a: int, b: int| 0 <= a < out@.len() && 0 <= b < out@.len() && a != b implies #[trigger] out@[a].0@ != #[trigger] out@[b].0@ by {
            assert(m.entries@[a].0@ != m.entries@[b].0@);
        }
    }
    StrMap { entries: out }
}

} // verus!

verus! {

/// The members of an object, by key: a later member wins over an earlier
/// one with the same key.
pub open spec fn object_members(o: Seq<(Seq<char>, JsonView)>) -> Map<Seq<char>, JsonView>
    decreases o.len(),
{
    if o.len() == 0 {
        Map::empty()
    } else {
        object_members(o.drop_last()).insert(o.last().0, o.last().1)
    }
}

/// The content of an object's member list.
pub open spec fn entry_views(o: Seq<(String, JsonValue)>) -> Seq<(Seq<char>, JsonView)> {
    o.map_values(|e: (String, JsonValue)| (e.0@, e.1@))
}

/// The content of an object is the content of its members.
pub proof fn lemma_object_view(o: Vec<(String, JsonValue)>)
    ensures
        JsonValue::Object(o)@ == JsonView::Object(entry_views(o@)),
{
    assert(JsonValue::Object(o)@->Object_0 =~= entry_views(o@));
}

/// Reading members by key commutes with taking their content.
pub proof fn lemma_members_view(o: Seq<(String, JsonValue)>)
    ensures
        map_view(entries_map(o)) == object_members(entry_views(o)),
    decreases o.len(),
{
    if o.len() > 0 {
        lemma_members_view(o.drop_last());
        assert(entry_views(o).drop_last() =~= entry_views(o.drop_last()));
        assert(map_view(entries_map(o)) =~= map_view(entries_map(o.drop_last())).insert(o.last().0@, o.last().1@));
    } else {
        assert(map_view(entries_map(o)) =~= Map::empty());
    }
}

/// The text form of a value: a string as it is; an integer in decimal
/// digits that read back as its value (after a `-` when it is negative); a
/// float as its text; `true` or `false`; `null`; and `[array]` or
/// `{object}` for the containers.
pub proof fn law_text_form(v: JsonView)
    ensures
        v matches JsonView::Str(s) ==> text_form(v) == s,
        v matches JsonView::Bool(b) ==> text_form(v) == (if b { "true"@ } else { "false"@ }),
        v is Null ==> text_form(v) == "null"@,
        v is Array ==> text_form(v) == "[array]"@,
        v is Object ==> text_form(v) == "{object}"@,
        v matches JsonView::Number(NumberView::PosInt(u)) ==> digit_run(text_form(v)) && digits_value(text_form(v)) == u,
        v matches JsonView::Number(NumberView::NegInt(i)) ==> (i < 0 ==> text_form(v)[0] == '-'
            && digit_run(text_form(v).drop_first()) && digits_value(text_form(v).drop_first()) == -i),
        v matches JsonView::Number(NumberView::NegInt(i)) ==> (i >= 0 ==> digit_run(text_form(v)) && digits_value(text_form(v)) == i),
        v matches JsonView::Number(NumberView::Float(t)) ==> text_form(v) == t,
{
    match v {
        JsonView::Number(NumberView::PosInt(u)) => {
            law_decimal_reads_back(u as nat);
        },
        JsonView::Number(NumberView::NegInt(i)) => {
            if i < 0 {
                law_decimal_reads_back((-i) as nat);
                assert((seq!['-'] + decimal((-i) as nat)).drop_first() =~= decimal((-i) as nat));
            } else {
                law_decimal_reads_back(i as nat);
            }
        },
        _ => {},
    }
}

} // verus!
