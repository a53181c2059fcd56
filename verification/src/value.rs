//! Field values: the raw form a submission arrives in and the tagged union
//! a field normalizes to, together with their mathematical models.

use vstd::prelude::*;

verus! {

/// A raw submitted value: a single string or an array of strings, as form
/// encoding delivers them.
#[derive(Debug, Clone)]
pub enum RawValue {
    One(String),
    Many(Vec<String>),
}

/// Model of a raw value.
#[verifier::ext_equal]
pub enum RawValueModel {
    One(Seq<char>),
    Many(Seq<Seq<char>>),
}

impl View for RawValue {
    type V = RawValueModel;

    open spec fn view(&self) -> RawValueModel {
        match self {
            RawValue::One(s) => RawValueModel::One(s@),
            RawValue::Many(v) => RawValueModel::Many(v.deep_view()),
        }
    }
}

/// One field's normalized content: absent, a string, an array of strings, a
/// boolean, an integer, a duration in milliseconds, or a secret string.
#[derive(Debug, Clone, PartialEq, Eq)]
pub enum Value {
    Absent,
    Text(String),
    TextList(Vec<String>),
    Bool(bool),
    Int(i64),
    Millis(u64),
    Secret(String),
}

/// Model of a normalized value.
#[verifier::ext_equal]
pub enum ValueModel {
    Absent,
    Text(Seq<char>),
    TextList(Seq<Seq<char>>),
    Bool(bool),
    Int(int),
    Millis(nat),
    Secret(Seq<char>),
}

impl View for Value {
    type V = ValueModel;

    open spec fn view(&self) -> ValueModel {
        match self {
            Value::Absent => ValueModel::Absent,
            Value::Text(s) => ValueModel::Text(s@),
            Value::TextList(v) => ValueModel::TextList(v.deep_view()),
            Value::Bool(b) => ValueModel::Bool(*b),
            Value::Int(i) => ValueModel::Int(*i as int),
            Value::Millis(d) => ValueModel::Millis(*d as nat),
            Value::Secret(s) => ValueModel::Secret(s@),
        }
    }
}

impl Value {
    /// Structural copy with a known view.
    pub fn dup(&self) -> (r: Value)
        ensures
            r@ == self@,
    {
        match self {
            Value::Absent => Value::Absent,
            Value::Text(s) => Value::Text(s.clone()),
            Value::TextList(v) => Value::TextList(dup_strings(v)),
            Value::Bool(b) => Value::Bool(*b),
            Value::Int(i) => Value::Int(*i),
            Value::Millis(d) => Value::Millis(*d),
            Value::Secret(s) => Value::Secret(s.clone()),
        }
    }
}

/// Copies a vector of strings, preserving its view.
pub fn dup_strings(v: &Vec<String>) -> (r: Vec<String>)
    ensures
        r.deep_view() == v.deep_view(),
{
    let mut r: Vec<String> = Vec::new();
    let mut i: usize = 0;
    while i < v.len()
        invariant
            i <= v.len(),
            r.len() == i,
            forall|k: int| 0 <= k < i ==> r.deep_view()[k] == v.deep_view()[k],
        decreases v.len() - i,
    {
        r.push(v[i].clone());
        i += 1;
    }
    proof {
        assert(r.deep_view() =~= v.deep_view());
    }
    r
}

/// A value that counts as missing: absent, the empty string, or an empty
/// array.
pub open spec fn is_empty_model(v: ValueModel) -> bool {
    match v {
        ValueModel::Absent => true,
        ValueModel::Text(s) => s.len() == 0,
        ValueModel::TextList(l) => l.len() == 0,
        _ => false,
    }
}

pub fn value_is_empty(v: &Value) -> (r: bool)
    ensures
        r == is_empty_model(v@),
{
    match v {
        Value::Absent => true,
        Value::Text(s) => s.as_str().unicode_len() == 0,
        Value::TextList(l) => {
            proof {
                assert(l.deep_view().len() == l@.len());
            }
            l.len() == 0
        },
        _ => false,
    }
}

/// Whether a field's current value equals the textual value `a`, as display
/// conditions compare them: strings and secrets by content, booleans against
/// `true`/`false`, anything else never.
pub open spec fn value_matches_model(v: ValueModel, a: Seq<char>) -> bool {
    match v {
        ValueModel::Text(s) => s == a,
        ValueModel::Secret(s) => s == a,
        ValueModel::Bool(b) => if b {
            a == seq!['t', 'r', 'u', 'e']
        } else {
            a == seq!['f', 'a', 'l', 's', 'e']
        },
        _ => false,
    }
}

pub fn value_matches(v: &Value, a: &str) -> (r: bool)
    ensures
        r == value_matches_model(v@, a@),
{
    match v {
        Value::Text(s) => crate::text::str_eq(s.as_str(), a),
        Value::Secret(s) => crate::text::str_eq(s.as_str(), a),
        Value::Bool(b) => {
            proof {
                reveal_strlit("true");
                reveal_strlit("false");
                assert("true"@ =~= seq!['t', 'r', 'u', 'e']);
                assert("false"@ =~= seq!['f', 'a', 'l', 's', 'e']);
            }
            if *b {
                crate::text::str_eq(a, "true")
            } else {
                crate::text::str_eq(a, "false")
            }
        },
        _ => false,
    }
}

// ---------------------------------------------------------------------------
// Keyed lookup in association sequences
// ---------------------------------------------------------------------------

/// First entry with the given key, if any.
pub open spec fn lookup_entry<T>(s: Seq<(Seq<char>, T)>, id: Seq<char>) -> Option<T>
    decreases s.len(),
{
    if s.len() == 0 {
        None
    } else if s[0].0 == id {
        Some(s[0].1)
    } else {
        lookup_entry(s.drop_first(), id)
    }
}

pub proof fn lemma_lookup_entry_found<T>(s: Seq<(Seq<char>, T)>, id: Seq<char>, k: int)
    requires
        0 <= k < s.len(),
        s[k].0 == id,
        forall|j: int| 0 <= j < k ==> s[j].0 != id,
    ensures
        lookup_entry(s, id) == Some(s[k].1),
    decreases k,
{
    if k > 0 {
        let t = s.drop_first();
        assert(forall|j: int| 0 <= j < k - 1 ==> t[j] == s[j + 1]);
        lemma_lookup_entry_found(t, id, k - 1);
    }
}

pub proof fn lemma_lookup_entry_absent<T>(s: Seq<(Seq<char>, T)>, id: Seq<char>)
    requires
        forall|j: int| 0 <= j < s.len() ==> s[j].0 != id,
    ensures
        lookup_entry(s, id) is None,
    decreases s.len(),
{
    if s.len() > 0 {
        let t = s.drop_first();
        assert(forall|j: int| 0 <= j < t.len() ==> t[j] == s[j + 1]);
        lemma_lookup_entry_absent(t, id);
    }
}

/// Model of a keyed list of exec pairs.
pub open spec fn pairs_model<T: View>(s: Seq<(String, T)>) -> Seq<(Seq<char>, T::V)> {
    s.map_values(|p: (String, T)| (p.0@, p.1@))
}

/// First value stored under `id` in a value set.
pub fn lookup_value(vals: &Vec<(String, Value)>, id: &str) -> (r: Option<Value>)
    ensures
        match r {
            Some(v) => lookup_entry(pairs_model(vals@), id@) == Some(v@),
            None => lookup_entry(pairs_model(vals@), id@) is None,
        },
{
    let ghost m = pairs_model(vals@);
    let mut i: usize = 0;
    while i < vals.len()
        invariant
            m == pairs_model(vals@),
            m.len() == vals.len(),
            i <= vals.len(),
            forall|k: int| 0 <= k < i ==> m[k].0 != id@,
        decreases vals.len() - i,
    {
        if crate::text::str_eq(vals[i].0.as_str(), id) {
            proof {
                lemma_lookup_entry_found(m, id@, i as int);
            }
            return Some(vals[i].1.dup());
        }
        i += 1;
    }
    proof {
        lemma_lookup_entry_absent(m, id@);
    }
    None
}

} // verus!
