//! The evaluation engines: value normalization (transformer chain, validator
//! chain, coercion into the declared kind), field and section visibility,
//! and whole-submission validation.

use vstd::prelude::*;
use crate::text;
use crate::text::{trim_spec, is_url_spec, is_email_spec, is_port_spec, is_ip_or_mask_spec,
    is_domain_spec, parse_duration_spec};
use crate::value::{RawValue, RawValueModel, Value, ValueModel, is_empty_model,
    value_matches_model, value_matches, value_is_empty, lookup_entry, pairs_model,
    lemma_lookup_entry_found, lemma_lookup_entry_absent, dup_strings};
use crate::schema::{Transformer, Validator, FailedRule, ErrorKind, FieldError, FieldErrorModel,
    SchemaError, SchemaErrorModel, Type, TypeModel, Condition, ConditionModel, Field, FieldModel,
    FormSection, FormSectionModel, Schema, SchemaModel, Schemas, field_idx, lemma_field_idx,
    schema_idx, lemma_schema_idx, find_field, rule_of, rule_of_spec};

verus! {

// ---------------------------------------------------------------------------
// Transformers
// ---------------------------------------------------------------------------

/// Whitespace-trims the textual content of a value.
pub open spec fn trim_value(v: ValueModel) -> ValueModel {
    match v {
        ValueModel::Text(s) => ValueModel::Text(trim_spec(s)),
        ValueModel::Secret(s) => ValueModel::Secret(trim_spec(s)),
        ValueModel::TextList(l) => ValueModel::TextList(
            l.map_values(|e: Seq<char>| trim_spec(e)),
        ),
        other => other,
    }
}

pub open spec fn apply_transformer_spec(t: Transformer, v: ValueModel) -> ValueModel {
    match t {
        Transformer::Trim => trim_value(v),
    }
}

/// The transformer chain, applied in declared order.
pub open spec fn apply_chain_spec(ts: Seq<Transformer>, v: ValueModel) -> ValueModel
    decreases ts.len(),
{
    if ts.len() == 0 {
        v
    } else {
        apply_chain_spec(ts.drop_first(), apply_transformer_spec(ts[0], v))
    }
}

fn apply_transformer(t: Transformer, v: Value) -> (r: Value)
    ensures
        r@ == apply_transformer_spec(t, v@),
{
    match t {
        Transformer::Trim => match v {
            Value::Text(s) => Value::Text(text::trim(s.as_str())),
            Value::Secret(s) => Value::Secret(text::trim(s.as_str())),
            Value::TextList(l) => {
                let mut out: Vec<String> = Vec::new();
                let mut i: usize = 0;
                while i < l.len()
                    invariant
                        i <= l.len(),
                        out.len() == i,
                        forall|k: int| 0 <= k < i ==> #[trigger] out@[k]@ == trim_spec(l@[k]@),
                    decreases l.len() - i,
                {
                    out.push(text::trim(l[i].as_str()));
                    i += 1;
                }
                proof {
                    assert(forall|k: int|
                        0 <= k < l@.len() ==> #[trigger] l.deep_view()[k] == l@[k]@);
                    assert(forall|k: int|
                        0 <= k < out@.len() ==> #[trigger] out.deep_view()[k] == out@[k]@);
                    assert(out.deep_view() =~= l.deep_view().map_values(
                        |e: Seq<char>| trim_spec(e),
                    ));
                }
                Value::TextList(out)
            },
            other => other,
        },
    }
}

fn apply_chain(ts: &Vec<Transformer>, v: Value) -> (r: Value)
    ensures
        r@ == apply_chain_spec(ts@, v@),
{
    let ghost orig = v@;
    let mut cur = v;
    let mut i: usize = 0;
    proof {
        assert(ts@.skip(0) =~= ts@);
    }
    while i < ts.len()
        invariant
            i <= ts.len(),
            apply_chain_spec(ts@.skip(i as int), cur@) == apply_chain_spec(ts@, orig),
        decreases ts.len() - i,
    {
        proof {
            let rest = ts@.skip(i as int);
            assert(rest[0] == ts@[i as int]);
            assert(rest.drop_first() =~= ts@.skip(i as int + 1));
        }
        cur = apply_transformer(ts[i], cur);
        i += 1;
    }
    proof {
        assert(ts@.skip(ts@.len() as int) =~= Seq::<Transformer>::empty());
    }
    cur
}

// ---------------------------------------------------------------------------
// Transformer idempotence
// ---------------------------------------------------------------------------

proof fn lemma_trim_value_fixed(v: ValueModel)
    ensures
        trim_value(trim_value(v)) == trim_value(v),
{
    match v {
        ValueModel::Text(s) => {
            text::lemma_trim_idempotent(s);
        },
        ValueModel::Secret(s) => {
            text::lemma_trim_idempotent(s);
        },
        ValueModel::TextList(l) => {
            let m = l.map_values(|e: Seq<char>| trim_spec(e));
            assert forall|k: int| 0 <= k < m.len() implies trim_spec(m[k]) == m[k] by {
                text::lemma_trim_idempotent(l[k]);
            }
            assert(m.map_values(|e: Seq<char>| trim_spec(e)) =~= m);
        },
        _ => {},
    }
}

/// A value every transformer leaves unchanged.
pub open spec fn transform_fixed(v: ValueModel) -> bool {
    trim_value(v) == v
}

proof fn lemma_chain_on_fixed(ts: Seq<Transformer>, v: ValueModel)
    requires
        transform_fixed(v),
    ensures
        apply_chain_spec(ts, v) == v,
    decreases ts.len(),
{
    if ts.len() > 0 {
        lemma_chain_on_fixed(ts.drop_first(), v);
    }
}

pub proof fn lemma_chain_result_fixed(ts: Seq<Transformer>, v: ValueModel)
    requires
        ts.len() > 0,
    ensures
        transform_fixed(apply_chain_spec(ts, v)),
    decreases ts.len(),
{
    let w = apply_transformer_spec(ts[0], v);
    if ts.len() == 1 {
        lemma_trim_value_fixed(v);
        assert(apply_chain_spec(ts.drop_first(), w) == w);
    } else {
        lemma_chain_result_fixed(ts.drop_first(), w);
    }
}

/// Applying a transformer chain twice gives the same result as applying it
/// once.
pub proof fn lemma_chain_idempotent(ts: Seq<Transformer>, v: ValueModel)
    ensures
        apply_chain_spec(ts, apply_chain_spec(ts, v)) == apply_chain_spec(ts, v),
{
    if ts.len() > 0 {
        lemma_chain_result_fixed(ts, v);
        lemma_chain_on_fixed(ts, apply_chain_spec(ts, v));
    }
}

// ---------------------------------------------------------------------------
// Validators
// ---------------------------------------------------------------------------

/// The textual format a (non-`Required`) validator accepts.
pub open spec fn format_ok(val: Validator, s: Seq<char>) -> bool {
    match val {
        Validator::Required => true,
        Validator::IsUrl => is_url_spec(s),
        Validator::IsEmail => is_email_spec(s),
        Validator::IsPort => is_port_spec(s),
        Validator::IsIpOrMask => is_ip_or_mask_spec(s),
        Validator::IsDomain => is_domain_spec(s),
    }
}

/// Whether a validator accepts a transformed value.  `Required` fails only
/// on missing values; format validators check each nonempty string and pass
/// vacuously on everything else.
pub open spec fn validator_passes(val: Validator, v: ValueModel) -> bool {
    match val {
        Validator::Required => !is_empty_model(v),
        _ => match v {
            ValueModel::Text(s) => s.len() == 0 || format_ok(val, s),
            ValueModel::Secret(s) => s.len() == 0 || format_ok(val, s),
            ValueModel::TextList(l) => forall|i: int|
                0 <= i < l.len() ==> (l[i].len() == 0 || format_ok(val, l[i])),
            _ => true,
        },
    }
}

/// The first validator in the chain that rejects the value.
pub open spec fn first_failure(vs: Seq<Validator>, v: ValueModel) -> Option<Validator>
    decreases vs.len(),
{
    if vs.len() == 0 {
        None
    } else if !validator_passes(vs[0], v) {
        Some(vs[0])
    } else {
        first_failure(vs.drop_first(), v)
    }
}

fn format_check(val: Validator, s: &str) -> (r: bool)
    ensures
        r == format_ok(val, s@),
{
    match val {
        Validator::Required => true,
        Validator::IsUrl => text::is_url(s),
        Validator::IsEmail => text::is_email(s),
        Validator::IsPort => text::is_port(s),
        Validator::IsIpOrMask => text::is_ip_or_mask(s),
        Validator::IsDomain => text::is_domain(s),
    }
}

fn validator_check(val: Validator, v: &Value) -> (r: bool)
    ensures
        r == validator_passes(val, v@),
{
    match val {
        Validator::Required => {
            let e = value_is_empty(v);
            proof {
                assert(!e == validator_passes(val, v@));
            }
            !e
        },
        _ => match v {
            Value::Text(s) => {
                let r = s.as_str().unicode_len() == 0 || format_check(val, s.as_str());
                proof {
                    assert(v@ == ValueModel::Text(s@));
                    assert(r == (s@.len() == 0 || format_ok(val, s@)));
                    assert(r == validator_passes(val, v@));
                }
                r
            },
            Value::Secret(s) => {
                let r = s.as_str().unicode_len() == 0 || format_check(val, s.as_str());
                proof {
                    assert(r == validator_passes(val, v@));
                }
                r
            },
            Value::TextList(l) => {
                let mut i: usize = 0;
                let mut ok = true;
                while i < l.len()
                    invariant
                        i <= l.len(),
                        ok == forall|k: int|
                            0 <= k < i ==> (#[trigger] l@[k]@.len() == 0 || format_ok(val, l@[k]@)),
                    decreases l.len() - i,
                {
                    let e = l[i].as_str();
                    let this_ok = e.unicode_len() == 0 || format_check(val, e);
                    ok = ok && this_ok;
                    i += 1;
                }
                proof {
                    assert(forall|k: int|
                        0 <= k < l@.len() ==> #[trigger] l.deep_view()[k] == l@[k]@);
                    assert(l.deep_view().len() == l@.len());
                    if ok {
                        assert(forall|k: int|
                            0 <= k < l.deep_view().len() ==> (#[trigger] l.deep_view()[k].len()
                                == 0 || format_ok(val, l.deep_view()[k])));
                    } else {
                        let w = choose|k: int|
                            0 <= k < l@.len() && !(l@[k]@.len() == 0 || format_ok(val, l@[k]@));
                        assert(!(l.deep_view()[w].len() == 0 || format_ok(val, l.deep_view()[w])));
                    }
                }
                ok
            },
            _ => true,
        },
    }
}

fn first_failing(vs: &Vec<Validator>, v: &Value) -> (r: Option<Validator>)
    ensures
        r == first_failure(vs@, v@),
{
    let mut i: usize = 0;
    proof {
        assert(vs@.skip(0) =~= vs@);
    }
    while i < vs.len()
        invariant
            i <= vs.len(),
            first_failure(vs@.skip(i as int), v@) == first_failure(vs@, v@),
        decreases vs.len() - i,
    {
        proof {
            let rest = vs@.skip(i as int);
            assert(rest[0] == vs@[i as int]);
            assert(rest.drop_first() =~= vs@.skip(i as int + 1));
        }
        if !validator_check(vs[i], v) {
            return Some(vs[i]);
        }
        i += 1;
    }
    proof {
        assert(vs@.skip(vs@.len() as int) =~= Seq::<Validator>::empty());
    }
    None
}

// ---------------------------------------------------------------------------
// Coercion into the declared kind
// ---------------------------------------------------------------------------

/// Whether `s` is one of the declared option values.
pub open spec fn opt_member(opts: Seq<(Seq<char>, Seq<char>)>, s: Seq<char>) -> bool {
    exists|i: int| 0 <= i < opts.len() && opts[i].0 == s
}

/// Folds a validated, nonempty value into the field's declared kind.
/// `None` is a coercion failure (reported as a custom rule violation).
pub open spec fn coerce_spec(t: TypeModel, v: ValueModel) -> Option<ValueModel> {
    match t {
        TypeModel::Input => match v {
            ValueModel::Text(s) => Some(ValueModel::Text(s)),
            _ => None,
        },
        TypeModel::Text => match v {
            ValueModel::Text(s) => Some(ValueModel::Text(s)),
            _ => None,
        },
        TypeModel::Secret => match v {
            ValueModel::Text(s) => Some(ValueModel::Secret(s)),
            _ => None,
        },
        TypeModel::Boolean => match v {
            ValueModel::Text(s) => if s == seq!['t', 'r', 'u', 'e'] {
                Some(ValueModel::Bool(true))
            } else if s == seq!['f', 'a', 'l', 's', 'e'] {
                Some(ValueModel::Bool(false))
            } else {
                None
            },
            _ => None,
        },
        TypeModel::Duration => match v {
            ValueModel::Text(s) => match parse_duration_spec(s) {
                Some(n) => Some(ValueModel::Millis(n)),
                None => None,
            },
            _ => None,
        },
        TypeModel::Array => match v {
            ValueModel::Text(s) => Some(ValueModel::TextList(seq![s])),
            ValueModel::TextList(l) => Some(ValueModel::TextList(l)),
            _ => None,
        },
        TypeModel::Select { options, multi } => if multi {
            match v {
                ValueModel::Text(s) => if opt_member(options, s) {
                    Some(ValueModel::TextList(seq![s]))
                } else {
                    None
                },
                ValueModel::TextList(l) => if forall|i: int|
                    0 <= i < l.len() ==> opt_member(options, l[i]) {
                    Some(ValueModel::TextList(l))
                } else {
                    None
                },
                _ => None,
            }
        } else {
            match v {
                ValueModel::Text(s) => if opt_member(options, s) {
                    Some(ValueModel::Text(s))
                } else {
                    None
                },
                _ => None,
            }
        },
    }
}

fn opts_contain(options: &Vec<(String, String)>, s: &str) -> (r: bool)
    ensures
        r == opt_member(options@.map_values(|p: (String, String)| (p.0@, p.1@)), s@),
{
    let ghost m = options@.map_values(|p: (String, String)| (p.0@, p.1@));
    let mut i: usize = 0;
    while i < options.len()
        invariant
            m == options@.map_values(|p: (String, String)| (p.0@, p.1@)),
            m.len() == options.len(),
            i <= options.len(),
            forall|k: int| 0 <= k < i ==> m[k].0 != s@,
        decreases options.len() - i,
    {
        if text::str_eq(options[i].0.as_str(), s) {
            proof {
                assert(m[i as int].0 == s@);
            }
            return true;
        }
        i += 1;
    }
    false
}

fn coerce(t: &Type, v: Value) -> (r: Option<Value>)
    ensures
        match r {
            Some(w) => coerce_spec(t@, v@) == Some(w@),
            None => coerce_spec(t@, v@) is None,
        },
{
    match t {
        Type::Input => match v {
            Value::Text(s) => Some(Value::Text(s)),
            _ => None,
        },
        Type::Text => match v {
            Value::Text(s) => Some(Value::Text(s)),
            _ => None,
        },
        Type::Secret => match v {
            Value::Text(s) => Some(Value::Secret(s)),
            _ => None,
        },
        Type::Boolean => match v {
            Value::Text(s) => {
                proof {
                    reveal_strlit("true");
                    reveal_strlit("false");
                    assert("true"@ =~= seq!['t', 'r', 'u', 'e']);
                    assert("false"@ =~= seq!['f', 'a', 'l', 's', 'e']);
                }
                if text::str_eq(s.as_str(), "true") {
                    Some(Value::Bool(true))
                } else if text::str_eq(s.as_str(), "false") {
                    Some(Value::Bool(false))
                } else {
                    None
                }
            },
            _ => None,
        },
        Type::Duration => match v {
            Value::Text(s) => match text::parse_duration(s.as_str()) {
                Some(n) => Some(Value::Millis(n)),
                None => None,
            },
            _ => None,
        },
        Type::Array => match v {
            Value::Text(s) => {
                let mut l: Vec<String> = Vec::new();
                let ghost sv = s@;
                l.push(s);
                proof {
                    assert(l.deep_view() =~= seq![sv]);
                }
                Some(Value::TextList(l))
            },
            Value::TextList(l) => Some(Value::TextList(l)),
            _ => None,
        },
        Type::Select { options, multi } => {
            if *multi {
                match v {
                    Value::Text(s) => {
                        if opts_contain(options, s.as_str()) {
                            let ghost sv = s@;
                            let mut l: Vec<String> = Vec::new();
                            l.push(s);
                            proof {
                                assert(l.deep_view() =~= seq![sv]);
                            }
                            Some(Value::TextList(l))
                        } else {
                            None
                        }
                    },
                    Value::TextList(l) => {
                        let ghost om = options@.map_values(|p: (String, String)| (p.0@, p.1@));
                        let mut i: usize = 0;
                        let mut all_ok = true;
                        let mut bad: usize = 0;
                        while i < l.len()
                            invariant
                                om == options@.map_values(|p: (String, String)| (p.0@, p.1@)),
                                i <= l.len(),
                                all_ok ==> forall|k: int|
                                    0 <= k < i ==> opt_member(om, #[trigger] l@[k]@),
                                !all_ok ==> bad < l.len() && !opt_member(om, l@[bad as int]@),
                            decreases l.len() - i,
                        {
                            if all_ok && !opts_contain(options, l[i].as_str()) {
                                all_ok = false;
                                bad = i;
                            }
                            i += 1;
                        }
                        proof {
                            assert(forall|k: int|
                                0 <= k < l@.len() ==> #[trigger] l.deep_view()[k] == l@[k]@);
                            assert(l.deep_view().len() == l@.len());
                            if !all_ok {
                                assert(!opt_member(om, l.deep_view()[bad as int]));
                            }
                        }
                        if all_ok {
                            Some(Value::TextList(l))
                        } else {
                            None
                        }
                    },
                    _ => None,
                }
            } else {
                match v {
                    Value::Text(s) => {
                        if opts_contain(options, s.as_str()) {
                            Some(Value::Text(s))
                        } else {
                            None
                        }
                    },
                    _ => None,
                }
            }
        },
    }
}

// ---------------------------------------------------------------------------
// Per-field normalization
// ---------------------------------------------------------------------------

pub open spec fn raw_as_value(r: RawValueModel) -> ValueModel {
    match r {
        RawValueModel::One(s) => ValueModel::Text(s),
        RawValueModel::Many(l) => ValueModel::TextList(l),
    }
}

pub open spec fn opt_raw_model(r: Option<&RawValue>) -> Option<RawValueModel> {
    match r {
        Some(x) => Some(x@),
        None => None,
    }
}

/// Normalizes one field of a submission: substitute the default when
/// nothing was submitted, transform, validate (first failure wins), then
/// coerce a nonempty result into the declared kind.
pub open spec fn normalize_field_spec(f: FieldModel, raw: Option<RawValueModel>) -> Result<
    ValueModel,
    ErrorKind,
> {
    let eff = if raw is Some {
        raw
    } else if f.default is Some {
        Some(RawValueModel::One(f.default.unwrap()))
    } else {
        None
    };
    let v0 = match eff {
        Some(r) => raw_as_value(r),
        None => ValueModel::Absent,
    };
    let v1 = apply_chain_spec(f.transformers, v0);
    match first_failure(f.validators, v1) {
        Some(Validator::Required) => Err(ErrorKind::MissingRequired),
        Some(w) => Err(ErrorKind::ValidationFailed(rule_of_spec(w))),
        None => if is_empty_model(v1) {
            Ok(ValueModel::Absent)
        } else {
            match coerce_spec(f.typ, v1) {
                Some(v) => Ok(v),
                None => Err(ErrorKind::ValidationFailed(FailedRule::Custom)),
            }
        },
    }
}

pub fn normalize_field(f: &Field, raw: Option<&RawValue>) -> (r: Result<Value, ErrorKind>)
    ensures
        match r {
            Ok(v) => normalize_field_spec(f@, opt_raw_model(raw)) == Ok::<ValueModel, ErrorKind>(
                v@,
            ),
            Err(e) => normalize_field_spec(f@, opt_raw_model(raw)) == Err::<ValueModel, ErrorKind>(
                e,
            ),
        },
{
    let v0 = match raw {
        Some(RawValue::One(s)) => Value::Text(s.clone()),
        Some(RawValue::Many(l)) => Value::TextList(dup_strings(l)),
        None => match &f.default {
            Some(d) => Value::Text(d.clone()),
            None => Value::Absent,
        },
    };
    let v1 = apply_chain(&f.transformers, v0);
    match first_failing(&f.validators, &v1) {
        Some(Validator::Required) => Err(ErrorKind::MissingRequired),
        Some(w) => Err(ErrorKind::ValidationFailed(rule_of(w))),
        None => if value_is_empty(&v1) {
            Ok(Value::Absent)
        } else {
            match coerce(&f.typ, v1) {
                Some(v) => Ok(v),
                None => Err(ErrorKind::ValidationFailed(FailedRule::Custom)),
            }
        },
    }
}

// ---------------------------------------------------------------------------
// Visibility
// ---------------------------------------------------------------------------

/// Whether a display condition holds against the current value set: the
/// referenced field has a value and it is one of the allowed ones.
pub open spec fn cond_matches(vals: Seq<(Seq<char>, ValueModel)>, c: ConditionModel) -> bool {
    match lookup_entry(vals, c.field) {
        Some(v) => exists|k: int| 0 <= k < c.values.len() && value_matches_model(v, c.values[k]),
        None => false,
    }
}

/// Whether field `i` is visible: unconditional fields always are; a gated
/// field is visible iff its (earlier-declared) gating field is itself
/// visible and currently holds an allowed value.
pub open spec fn visible_at(
    fields: Seq<FieldModel>,
    vals: Seq<(Seq<char>, ValueModel)>,
    i: int,
) -> bool
    decreases i,
{
    if fields[i].display_if is None {
        true
    } else {
        let c = fields[i].display_if.unwrap();
        let j = field_idx(fields.subrange(0, i), c.field);
        if 0 <= j < i {
            visible_at(fields, vals, j) && cond_matches(vals, c)
        } else {
            false
        }
    }
}

/// Whether a form section is visible.
pub open spec fn section_visible(
    fields: Seq<FieldModel>,
    vals: Seq<(Seq<char>, ValueModel)>,
    sec: FormSectionModel,
) -> bool {
    if sec.display_if is None {
        true
    } else {
        let c = sec.display_if.unwrap();
        let j = field_idx(fields, c.field);
        if 0 <= j < fields.len() {
            visible_at(fields, vals, j) && cond_matches(vals, c)
        } else {
            false
        }
    }
}

/// Ids of the visible fields among the first `n`, in declaration order.
pub open spec fn visible_ids_upto(
    fields: Seq<FieldModel>,
    vals: Seq<(Seq<char>, ValueModel)>,
    n: int,
) -> Seq<Seq<char>>
    decreases n,
{
    if n <= 0 {
        Seq::empty()
    } else {
        let pre = visible_ids_upto(fields, vals, n - 1);
        if visible_at(fields, vals, n - 1) {
            pre.push(fields[n - 1].id)
        } else {
            pre
        }
    }
}

/// Ids of all visible fields.
pub open spec fn visible_ids(fields: Seq<FieldModel>, vals: Seq<(Seq<char>, ValueModel)>) -> Seq<
    Seq<char>,
> {
    visible_ids_upto(fields, vals, fields.len() as int)
}

/// Titles of the visible sections among the first `n`.
pub open spec fn visible_titles_upto(
    fields: Seq<FieldModel>,
    sections: Seq<FormSectionModel>,
    vals: Seq<(Seq<char>, ValueModel)>,
    n: int,
) -> Seq<Seq<char>>
    decreases n,
{
    if n <= 0 {
        Seq::empty()
    } else {
        let pre = visible_titles_upto(fields, sections, vals, n - 1);
        if section_visible(fields, vals, sections[n - 1]) {
            pre.push(sections[n - 1].title)
        } else {
            pre
        }
    }
}

fn cond_eval(vals: &Vec<(String, Value)>, c: &Condition) -> (r: bool)
    ensures
        r == cond_matches(pairs_model(vals@), c@),
{
    match crate::value::lookup_value(vals, c.field.as_str()) {
        None => false,
        Some(v) => {
            let ghost vm = v@;
            let mut k: usize = 0;
            let mut found = false;
            while k < c.values.len()
                invariant
                    vm == v@,
                    k <= c.values.len(),
                    found ==> exists|t: int|
                        0 <= t < c.values@.len() && value_matches_model(vm, c.values@[t]@),
                    !found ==> forall|t: int|
                        0 <= t < k ==> !value_matches_model(vm, #[trigger] c.values@[t]@),
                decreases c.values.len() - k,
            {
                if !found && value_matches(&v, c.values[k].as_str()) {
                    found = true;
                }
                k += 1;
            }
            proof {
                assert(forall|t: int|
                    0 <= t < c.values@.len() ==> #[trigger] c.values.deep_view()[t]
                        == c.values@[t]@);
                assert(c.values.deep_view().len() == c.values@.len());
                if found {
                    let t = choose|t: int|
                        0 <= t < c.values@.len() && value_matches_model(vm, c.values@[t]@);
                    assert(value_matches_model(vm, c@.values[t]));
                }
            }
            found
        },
    }
}

/// One visibility flag per field, in declaration order.
fn compute_visible(fields: &Vec<Field>, vals: &Vec<(String, Value)>) -> (r: Vec<bool>)
    ensures
        r.len() == fields.len(),
        forall|i: int|
            0 <= i < fields.len() ==> r@[i] == visible_at(
                fields.deep_view(),
                pairs_model(vals@),
                i,
            ),
{
    let ghost fm = fields.deep_view();
    let ghost vm = pairs_model(vals@);
    let mut vis: Vec<bool> = Vec::new();
    let mut i: usize = 0;
    while i < fields.len()
        invariant
            fm == fields.deep_view(),
            vm == pairs_model(vals@),
            fm.len() == fields.len(),
            i <= fields.len(),
            vis.len() == i,
            forall|k: int| 0 <= k < i ==> vis@[k] == visible_at(fm, vm, k),
        decreases fields.len() - i,
    {
        proof {
            assert(fm[i as int] == fields@[i as int]@);
        }
        let b: bool = match &fields[i].display_if {
            None => true,
            Some(c) => {
                match find_field(fields, c.field.as_str(), i) {
                    None => false,
                    Some(j) => {
                        proof {
                            lemma_field_idx(fm.subrange(0, i as int), c@.field);
                        }
                        let gate = vis[j];
                        gate && cond_eval(vals, c)
                    },
                }
            },
        };
        vis.push(b);
        i += 1;
    }
    vis
}

// ---------------------------------------------------------------------------
// Validation
// ---------------------------------------------------------------------------

/// The value set visibility is judged against during validation: submitted
/// values (taken textually) over the previously stored ones.
pub open spec fn combined_vals(
    raw: Seq<(Seq<char>, RawValueModel)>,
    stored: Seq<(Seq<char>, ValueModel)>,
) -> Seq<(Seq<char>, ValueModel)> {
    raw.map_values(|p: (Seq<char>, RawValueModel)| (p.0, raw_as_value(p.1))) + stored
}

pub open spec fn stored_model(st: Option<&Vec<(String, Value)>>) -> Seq<(Seq<char>, ValueModel)> {
    match st {
        Some(v) => pairs_model(v@),
        None => Seq::empty(),
    }
}

/// Unknown-field errors for the first `n` submitted entries.
pub open spec fn unknown_upto(
    fields: Seq<FieldModel>,
    raw: Seq<(Seq<char>, RawValueModel)>,
    n: int,
) -> Seq<FieldErrorModel>
    decreases n,
{
    if n <= 0 {
        Seq::empty()
    } else {
        let pre = unknown_upto(fields, raw, n - 1);
        if field_idx(fields, raw[n - 1].0) == -1 {
            pre.push(FieldErrorModel { field: raw[n - 1].0, kind: ErrorKind::UnknownField })
        } else {
            pre
        }
    }
}

/// Per-field errors among the first `n` fields: a visible field that fails
/// normalization contributes one error; hidden fields contribute nothing.
pub open spec fn errors_upto(
    fields: Seq<FieldModel>,
    comb: Seq<(Seq<char>, ValueModel)>,
    raw: Seq<(Seq<char>, RawValueModel)>,
    n: int,
) -> Seq<FieldErrorModel>
    decreases n,
{
    if n <= 0 {
        Seq::empty()
    } else {
        let pre = errors_upto(fields, comb, raw, n - 1);
        let f = fields[n - 1];
        if visible_at(fields, comb, n - 1) {
            match normalize_field_spec(f, lookup_entry(raw, f.id)) {
                Ok(_) => pre,
                Err(e) => pre.push(FieldErrorModel { field: f.id, kind: e }),
            }
        } else {
            pre
        }
    }
}

/// Normalized outputs among the first `n` fields: one entry per visible
/// field that normalizes successfully.
pub open spec fn outputs_upto(
    fields: Seq<FieldModel>,
    comb: Seq<(Seq<char>, ValueModel)>,
    raw: Seq<(Seq<char>, RawValueModel)>,
    n: int,
) -> Seq<(Seq<char>, ValueModel)>
    decreases n,
{
    if n <= 0 {
        Seq::empty()
    } else {
        let pre = outputs_upto(fields, comb, raw, n - 1);
        let f = fields[n - 1];
        if visible_at(fields, comb, n - 1) {
            match normalize_field_spec(f, lookup_entry(raw, f.id)) {
                Ok(v) => pre.push((f.id, v)),
                Err(_) => pre,
            }
        } else {
            pre
        }
    }
}

/// Validation of one submission against a registry: unknown submitted ids
/// are rejected; each visible schema field is normalized; all errors are
/// collected, in submission order for unknown fields then declaration order
/// for field failures; with no errors, the normalized set is returned.
pub open spec fn validate_spec(
    reg: Seq<SchemaModel>,
    key: Seq<char>,
    raw: Seq<(Seq<char>, RawValueModel)>,
    stored: Seq<(Seq<char>, ValueModel)>,
) -> Result<Seq<(Seq<char>, ValueModel)>, SchemaErrorModel> {
    let si = schema_idx(reg, key);
    if si < 0 {
        Err(SchemaErrorModel::SchemaNotFound)
    } else {
        let fields = reg[si].fields;
        let comb = combined_vals(raw, stored);
        let errs = unknown_upto(fields, raw, raw.len() as int) + errors_upto(
            fields,
            comb,
            raw,
            fields.len() as int,
        );
        if errs.len() > 0 {
            Err(SchemaErrorModel::Invalid(errs))
        } else {
            Ok(outputs_upto(fields, comb, raw, fields.len() as int))
        }
    }
}

fn find_raw(raw: &Vec<(String, RawValue)>, id: &str) -> (r: Option<usize>)
    ensures
        match r {
            Some(j) => j < raw.len() && lookup_entry(pairs_model(raw@), id@) == Some(
                raw@[j as int].1@,
            ),
            None => lookup_entry(pairs_model(raw@), id@) is None,
        },
{
    let ghost m = pairs_model(raw@);
    let mut i: usize = 0;
    while i < raw.len()
        invariant
            m == pairs_model(raw@),
            m.len() == raw.len(),
            i <= raw.len(),
            forall|k: int| 0 <= k < i ==> m[k].0 != id@,
        decreases raw.len() - i,
    {
        if text::str_eq(raw[i].0.as_str(), id) {
            proof {
                lemma_lookup_entry_found(m, id@, i as int);
            }
            return Some(i);
        }
        i += 1;
    }
    proof {
        lemma_lookup_entry_absent(m, id@);
    }
    None
}

impl Schemas {
    fn find_schema(&self, key: &str) -> (r: Option<usize>)
        ensures
            match r {
                Some(i) => i < self.schemas.len() && i as int == schema_idx(self@, key@),
                None => schema_idx(self@, key@) == -1,
            },
    {
        let ghost m = self@;
        let mut i: usize = 0;
        while i < self.schemas.len()
            invariant
                m == self@,
                m.len() == self.schemas.len(),
                i <= self.schemas.len(),
                forall|k: int| 0 <= k < i ==> m[k].key != key@,
            decreases self.schemas.len() - i,
        {
            proof {
                assert(m[i as int] == self.schemas@[i as int]@);
            }
            if text::str_eq(self.schemas[i].key.as_str(), key) {
                proof {
                    lemma_schema_idx(m, key@);
                    if schema_idx(m, key@) == -1 {
                        assert(m[i as int].key != key@);
                    } else if schema_idx(m, key@) < i as int {
                        assert(m[schema_idx(m, key@)].key != key@);
                    } else if schema_idx(m, key@) > i as int {
                        assert(m[i as int].key != key@);
                    }
                }
                return Some(i);
            }
            i += 1;
        }
        proof {
            lemma_schema_idx(m, key@);
            if schema_idx(m, key@) != -1 {
                assert(m[schema_idx(m, key@)].key != key@);
            }
        }
        None
    }

    /// The ids of the fields of schema `schema_key` that are visible under
    /// the given (possibly partial) value set; `None` for an unknown key.
    pub fn visible_fields(&self, schema_key: &str, vals: &Vec<(String, Value)>) -> (r: Option<
        Vec<String>,
    >)
        ensures
            match r {
                Some(ids) => schema_idx(self@, schema_key@) >= 0 && ids.deep_view() == visible_ids(
                    self@[schema_idx(self@, schema_key@)].fields,
                    pairs_model(vals@),
                ),
                None => schema_idx(self@, schema_key@) == -1,
            },
    {
        let si = match self.find_schema(schema_key) {
            Some(si) => si,
            None => {
                return None;
            },
        };
        let schema = &self.schemas[si];
        proof {
            assert(self@[si as int] == self.schemas@[si as int]@);
        }
        let ghost fm = schema.fields.deep_view();
        let ghost vm = pairs_model(vals@);
        let vis = compute_visible(&schema.fields, vals);
        let mut out: Vec<String> = Vec::new();
        let mut i: usize = 0;
        while i < schema.fields.len()
            invariant
                fm == schema.fields.deep_view(),
                vm == pairs_model(vals@),
                fm.len() == schema.fields.len(),
                vis.len() == schema.fields.len(),
                forall|k: int| 0 <= k < fm.len() ==> vis@[k] == visible_at(fm, vm, k),
                i <= schema.fields.len(),
                out.deep_view() == visible_ids_upto(fm, vm, i as int),
            decreases schema.fields.len() - i,
        {
            proof {
                assert(fm[i as int] == schema.fields@[i as int]@);
            }
            if vis[i] {
                let ghost pre = out.deep_view();
                out.push(schema.fields[i].id.clone());
                proof {
                    assert(out.deep_view() =~= pre.push(fm[i as int].id));
                }
            }
            i += 1;
        }
        Some(out)
    }

    /// The titles of the form sections of schema `schema_key` that are
    /// visible under the given value set; `None` for an unknown key.
    pub fn visible_sections(&self, schema_key: &str, vals: &Vec<(String, Value)>) -> (r: Option<
        Vec<String>,
    >)
        ensures
            match r {
                Some(titles) => schema_idx(self@, schema_key@) >= 0 && titles.deep_view()
                    == visible_titles_upto(
                    self@[schema_idx(self@, schema_key@)].fields,
                    self@[schema_idx(self@, schema_key@)].sections,
                    pairs_model(vals@),
                    self@[schema_idx(self@, schema_key@)].sections.len() as int,
                ),
                None => schema_idx(self@, schema_key@) == -1,
            },
    {
        let si = match self.find_schema(schema_key) {
            Some(si) => si,
            None => {
                return None;
            },
        };
        let schema = &self.schemas[si];
        proof {
            assert(self@[si as int] == self.schemas@[si as int]@);
        }
        let ghost fm = schema.fields.deep_view();
        let ghost sm = schema.sections.deep_view();
        let ghost vm = pairs_model(vals@);
        let vis = compute_visible(&schema.fields, vals);
        let mut out: Vec<String> = Vec::new();
        let mut t: usize = 0;
        while t < schema.sections.len()
            invariant
                fm == schema.fields.deep_view(),
                sm == schema.sections.deep_view(),
                vm == pairs_model(vals@),
                fm.len() == schema.fields.len(),
                sm.len() == schema.sections.len(),
                vis.len() == schema.fields.len(),
                forall|k: int| 0 <= k < fm.len() ==> vis@[k] == visible_at(fm, vm, k),
                t <= schema.sections.len(),
                out.deep_view() == visible_titles_upto(fm, sm, vm, t as int),
            decreases schema.sections.len() - t,
        {
            proof {
                assert(sm[t as int] == schema.sections@[t as int]@);
            }
            let sec = &schema.sections[t];
            let b: bool = match &sec.display_if {
                None => true,
                Some(c) => {
                    match find_field(&schema.fields, c.field.as_str(), schema.fields.len()) {
                        None => {
                            proof {
                                assert(fm.subrange(0, fm.len() as int) =~= fm);
                            }
                            false
                        },
                        Some(j) => {
                            proof {
                                assert(fm.subrange(0, fm.len() as int) =~= fm);
                                lemma_field_idx(fm, c@.field);
                            }
                            let gate = vis[j];
                            gate && cond_eval(vals, c)
                        },
                    }
                },
            };
            if b {
                let ghost pre = out.deep_view();
                out.push(sec.title.clone());
                proof {
                    assert(out.deep_view() =~= pre.push(sm[t as int].title));
                }
            }
            t += 1;
        }
        Some(out)
    }

    /// Validates a submission against schema `schema_key`.  Unknown
    /// submitted ids are errors; every visible field is normalized (the
    /// stored values only influence visibility); all failures are reported
    /// together, and on success the normalized value of every visible field
    /// is returned in declaration order.
    pub fn validate(
        &self,
        schema_key: &str,
        raw: &Vec<(String, RawValue)>,
        stored: Option<&Vec<(String, Value)>>,
    ) -> (r: Result<Vec<(String, Value)>, SchemaError>)
        ensures
            match r {
                Ok(out) => validate_spec(self@, schema_key@, pairs_model(raw@), stored_model(stored))
                    == Ok::<Seq<(Seq<char>, ValueModel)>, SchemaErrorModel>(pairs_model(out@)),
                Err(e) => validate_spec(self@, schema_key@, pairs_model(raw@), stored_model(stored))
                    == Err::<Seq<(Seq<char>, ValueModel)>, SchemaErrorModel>(e@),
            },
    {
        let ghost rm = pairs_model(raw@);
        let ghost sm = stored_model(stored);
        let si = match self.find_schema(schema_key) {
            Some(si) => si,
            None => {
                return Err(SchemaError::SchemaNotFound);
            },
        };
        let schema = &self.schemas[si];
        proof {
            assert(self@[si as int] == self.schemas@[si as int]@);
        }
        let ghost fm = schema.fields.deep_view();
        let ghost cm = combined_vals(rm, sm);

        // Build the combined value set: submitted values, textually, then
        // the stored ones.
        let mut comb: Vec<(String, Value)> = Vec::new();
        let mut i: usize = 0;
        while i < raw.len()
            invariant
                rm == pairs_model(raw@),
                rm.len() == raw.len(),
                i <= raw.len(),
                pairs_model(comb@).len() == i,
                forall|k: int|
                    0 <= k < i ==> pairs_model(comb@)[k] == (rm[k].0, raw_as_value(rm[k].1)),
            decreases raw.len() - i,
        {
            let v = match &raw[i].1 {
                RawValue::One(s) => Value::Text(s.clone()),
                RawValue::Many(l) => Value::TextList(dup_strings(l)),
            };
            let ghost pre = pairs_model(comb@);
            let ghost vv = v@;
            comb.push((raw[i].0.clone(), v));
            proof {
                assert(pairs_model(comb@) =~= pre.push((rm[i as int].0, vv)));
                assert(vv == raw_as_value(rm[i as int].1));
            }
            i += 1;
        }
        match stored {
            Some(st) => {
                let mut k: usize = 0;
                while k < st.len()
                    invariant
                        rm == pairs_model(raw@),
                        sm == pairs_model(st@),
                        sm.len() == st.len(),
                        k <= st.len(),
                        pairs_model(comb@).len() == rm.len() + k,
                        forall|t: int|
                            0 <= t < rm.len() ==> pairs_model(comb@)[t] == (
                                rm[t].0,
                                raw_as_value(rm[t].1),
                            ),
                        forall|t: int|
                            0 <= t < k ==> pairs_model(comb@)[rm.len() + t] == sm[t],
                    decreases st.len() - k,
                {
                    let ghost pre = pairs_model(comb@);
                    let dv = st[k].1.dup();
                    let ghost dvv = dv@;
                    comb.push((st[k].0.clone(), dv));
                    proof {
                        assert(pairs_model(comb@) =~= pre.push((sm[k as int].0, dvv)));
                        assert((sm[k as int].0, dvv) == sm[k as int]);
                    }
                    k += 1;
                }
            },
            None => {},
        }
        proof {
            assert(rm.map_values(
                |p: (Seq<char>, RawValueModel)| (p.0, raw_as_value(p.1)),
            ).len() == rm.len());
            assert(pairs_model(comb@).len() == cm.len());
            assert forall|t: int| 0 <= t < cm.len() implies pairs_model(comb@)[t] == cm[t] by {
                if t < rm.len() {
                    assert(cm[t] == (rm[t].0, raw_as_value(rm[t].1)));
                } else {
                    assert(cm[t] == sm[t - rm.len()]);
                }
            }
            assert(pairs_model(comb@) =~= cm);
        }

        let vis = compute_visible(&schema.fields, &comb);
        let mut errs: Vec<FieldError> = Vec::new();

        // Unknown submitted fields.
        let mut i: usize = 0;
        while i < raw.len()
            invariant
                rm == pairs_model(raw@),
                rm.len() == raw.len(),
                fm == schema.fields.deep_view(),
                i <= raw.len(),
                errs.deep_view() == unknown_upto(fm, rm, i as int),
            decreases raw.len() - i,
        {
            match find_field(&schema.fields, raw[i].0.as_str(), schema.fields.len()) {
                None => {
                    proof {
                        assert(fm.subrange(0, fm.len() as int) =~= fm);
                    }
                    let ghost pre = errs.deep_view();
                    errs.push(FieldError { field: raw[i].0.clone(), kind: ErrorKind::UnknownField });
                    proof {
                        assert(errs.deep_view() =~= pre.push(
                            FieldErrorModel { field: rm[i as int].0, kind: ErrorKind::UnknownField },
                        ));
                    }
                },
                Some(_) => {
                    proof {
                        assert(fm.subrange(0, fm.len() as int) =~= fm);
                    }
                },
            }
            i += 1;
        }
        let ghost unk = unknown_upto(fm, rm, rm.len() as int);

        // Normalize each visible field.
        let mut out: Vec<(String, Value)> = Vec::new();
        let mut i: usize = 0;
        while i < schema.fields.len()
            invariant
                rm == pairs_model(raw@),
                cm == combined_vals(rm, sm),
                fm == schema.fields.deep_view(),
                fm.len() == schema.fields.len(),
                vis.len() == schema.fields.len(),
                forall|k: int| 0 <= k < fm.len() ==> vis@[k] == visible_at(fm, cm, k),
                pairs_model(comb@) == cm,
                i <= schema.fields.len(),
                unk == unknown_upto(fm, rm, rm.len() as int),
                errs.deep_view() == unk + errors_upto(fm, cm, rm, i as int),
                pairs_model(out@) == outputs_upto(fm, cm, rm, i as int),
            decreases schema.fields.len() - i,
        {
            proof {
                assert(fm[i as int] == schema.fields@[i as int]@);
            }
            if vis[i] {
                let f = &schema.fields[i];
                let idx = find_raw(raw, f.id.as_str());
                let raw_opt: Option<&RawValue> = match idx {
                    Some(j) => Some(&raw[j].1),
                    None => None,
                };
                proof {
                    assert(opt_raw_model(raw_opt) == lookup_entry(rm, fm[i as int].id));
                }
                match normalize_field(f, raw_opt) {
                    Ok(v) => {
                        let ghost pre = pairs_model(out@);
                        let ghost vv = v@;
                        out.push((f.id.clone(), v));
                        proof {
                            assert(pairs_model(out@) =~= pre.push((fm[i as int].id, vv)));
                        }
                    },
                    Err(e) => {
                        let ghost pre = errs.deep_view();
                        errs.push(FieldError { field: f.id.clone(), kind: e });
                        proof {
                            assert(errs.deep_view() =~= pre.push(
                                FieldErrorModel { field: fm[i as int].id, kind: e },
                            ));
                        }
                    },
                }
            }
            i += 1;
        }
        proof {
            assert(errs.deep_view().len() == errs@.len());
        }
        if errs.len() > 0 {
            Err(SchemaError::Invalid(errs))
        } else {
            Ok(out)
        }
    }
}

} // verus!
