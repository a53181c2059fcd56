//! Properties of the engines, stated and proved once and for all: built
//! registries have no dangling references, visibility gating is effective,
//! hidden fields are never reported, and successfully normalized values
//! survive resubmission unchanged.

use vstd::prelude::*;
use crate::text;
use crate::text::{render_nat, render_duration, is_space_char, is_digit_char, trim_spec};
use crate::value::{RawValueModel, ValueModel, is_empty_model};
use crate::schema::{Validator, ErrorKind, FieldModel, SchemaModel, field_idx, lemma_field_idx,
    wf_schema, wf_registry, schema_idx, lemma_schema_idx};
use crate::schema::Transformer;
use crate::engine::{apply_chain_spec, trim_value, transform_fixed, lemma_chain_result_fixed,
    validator_passes, first_failure, coerce_spec, normalize_field_spec, visible_at, visible_ids,
    visible_ids_upto, cond_matches, errors_upto, unknown_upto, validate_spec, combined_vals};

verus! {

// ---------------------------------------------------------------------------
// Built registries have no dangling references
// ---------------------------------------------------------------------------

/// In a well-formed registry — which is the only kind the terminal build
/// step returns — every field id referenced by a list view, a form section,
/// or a display condition resolves to a declared field of its schema, and a
/// field's gate is always declared strictly before it.
pub proof fn lemma_built_refs_resolve(reg: Seq<SchemaModel>, i: int)
    requires
        wf_registry(reg),
        0 <= i < reg.len(),
    ensures
        forall|k: int|
            0 <= k < reg[i].list_fields.len() ==> field_idx(reg[i].fields, reg[i].list_fields[k])
                >= 0,
        forall|t: int, k: int|
            0 <= t < reg[i].sections.len() && 0 <= k < reg[i].sections[t].fields.len()
                ==> field_idx(reg[i].fields, reg[i].sections[t].fields[k]) >= 0,
        forall|t: int|
            0 <= t < reg[i].sections.len() && reg[i].sections[t].display_if is Some ==> field_idx(
                reg[i].fields,
                reg[i].sections[t].display_if.unwrap().field,
            ) >= 0,
        forall|j: int|
            0 <= j < reg[i].fields.len() && reg[i].fields[j].display_if is Some ==> {
                let g = field_idx(
                    reg[i].fields.subrange(0, j),
                    reg[i].fields[j].display_if.unwrap().field,
                );
                0 <= g < j
            },
{
    assert(wf_schema(reg[i]));
    assert forall|j: int|
        0 <= j < reg[i].fields.len() && reg[i].fields[j].display_if is Some implies {
        let g = field_idx(
            reg[i].fields.subrange(0, j),
            reg[i].fields[j].display_if.unwrap().field,
        );
        0 <= g < j
    } by {
        lemma_field_idx(
            reg[i].fields.subrange(0, j),
            reg[i].fields[j].display_if.unwrap().field,
        );
    }
}

// ---------------------------------------------------------------------------
// Visibility monotonicity
// ---------------------------------------------------------------------------

proof fn lemma_visible_ids_membership(
    fields: Seq<FieldModel>,
    vals: Seq<(Seq<char>, ValueModel)>,
    n: int,
    i: int,
)
    requires
        forall|a: int, b: int| 0 <= a < b < fields.len() ==> fields[a].id != fields[b].id,
        0 <= i < fields.len(),
        n <= fields.len(),
    ensures
        visible_ids_upto(fields, vals, n).contains(fields[i].id) <==> (i < n && visible_at(
            fields,
            vals,
            i,
        )),
    decreases n,
{
    if n > 0 {
        lemma_visible_ids_membership(fields, vals, n - 1, i);
        let pre = visible_ids_upto(fields, vals, n - 1);
        let cur = visible_ids_upto(fields, vals, n);
        if visible_at(fields, vals, n - 1) {
            assert(cur == pre.push(fields[n - 1].id));
            let last_id = fields[n - 1].id;
            assert forall|x: Seq<char>| cur.contains(x) implies (pre.contains(x) || x
                == last_id) by {
                let w = choose|w: int| 0 <= w < cur.len() && cur[w] == x;
                if w < pre.len() {
                    assert(pre[w] == x);
                }
            }
            assert forall|x: Seq<char>| pre.contains(x) implies cur.contains(x) by {
                let w = choose|w: int| 0 <= w < pre.len() && pre[w] == x;
                assert(cur[w] == x);
            }
            if i == n - 1 {
                assert(cur[cur.len() - 1] == fields[i].id);
                assert(cur.contains(fields[i].id));
            } else {
                assert(fields[n - 1].id != fields[i].id);
            }
        } else {
            assert(cur == pre);
        }
    }
}

/// If field `i` is gated and the gating condition does not currently hold
/// (the gating field's value is outside the allowed set, or missing), then
/// field `i` is hidden and its id does not appear among the visible fields,
/// whatever its own value.
pub proof fn lemma_visibility_monotone(
    fields: Seq<FieldModel>,
    vals: Seq<(Seq<char>, ValueModel)>,
    i: int,
)
    requires
        forall|a: int, b: int| 0 <= a < b < fields.len() ==> fields[a].id != fields[b].id,
        0 <= i < fields.len(),
        fields[i].display_if is Some,
        !cond_matches(vals, fields[i].display_if.unwrap()),
    ensures
        !visible_at(fields, vals, i),
        !visible_ids(fields, vals).contains(fields[i].id),
{
    lemma_visible_ids_membership(fields, vals, fields.len() as int, i);
}

/// When the gating field is not visible, every field it gates is also not
/// visible, regardless of the values involved.
pub proof fn lemma_hidden_gate_hides(
    fields: Seq<FieldModel>,
    vals: Seq<(Seq<char>, ValueModel)>,
    i: int,
)
    requires
        forall|a: int, b: int| 0 <= a < b < fields.len() ==> fields[a].id != fields[b].id,
        0 <= i < fields.len(),
        fields[i].display_if is Some,
        ({
            let g = field_idx(fields.subrange(0, i), fields[i].display_if.unwrap().field);
            0 <= g < i && !visible_at(fields, vals, g)
        }),
    ensures
        !visible_at(fields, vals, i),
        !visible_ids(fields, vals).contains(fields[i].id),
{
    lemma_visible_ids_membership(fields, vals, fields.len() as int, i);
}

// ---------------------------------------------------------------------------
// Hidden fields are never reported
// ---------------------------------------------------------------------------

proof fn lemma_errors_upto_visible_sources(
    fields: Seq<FieldModel>,
    comb: Seq<(Seq<char>, ValueModel)>,
    raw: Seq<(Seq<char>, RawValueModel)>,
    n: int,
    i: int,
)
    requires
        forall|a: int, b: int| 0 <= a < b < fields.len() ==> fields[a].id != fields[b].id,
        0 <= i < fields.len(),
        !visible_at(fields, comb, i),
        n <= fields.len(),
    ensures
        forall|k: int|
            0 <= k < errors_upto(fields, comb, raw, n).len() ==> errors_upto(
                fields,
                comb,
                raw,
                n,
            )[k].field != fields[i].id,
    decreases n,
{
    if n > 0 {
        lemma_errors_upto_visible_sources(fields, comb, raw, n - 1, i);
        if visible_at(fields, comb, n - 1) {
            assert(n - 1 != i);
            if fields[n - 1].id == fields[i].id {
                if n - 1 < i {
                    assert(fields[n - 1].id != fields[i].id);
                } else {
                    assert(fields[i].id != fields[n - 1].id);
                }
            }
        }
    }
}

proof fn lemma_unknown_upto_unknown_ids(
    fields: Seq<FieldModel>,
    raw: Seq<(Seq<char>, RawValueModel)>,
    n: int,
)
    requires
        n <= raw.len(),
    ensures
        forall|k: int|
            0 <= k < unknown_upto(fields, raw, n).len() ==> field_idx(
                fields,
                unknown_upto(fields, raw, n)[k].field,
            ) == -1,
    decreases n,
{
    if n > 0 {
        lemma_unknown_upto_unknown_ids(fields, raw, n - 1);
    }
}

/// A field that is not visible under the combined value set is skipped
/// entirely: validation never reports an error — in particular no
/// `MissingRequired` — under its id, even if the field is required.
pub proof fn lemma_hidden_field_never_reported(
    reg: Seq<SchemaModel>,
    key: Seq<char>,
    raw: Seq<(Seq<char>, RawValueModel)>,
    stored: Seq<(Seq<char>, ValueModel)>,
    i: int,
)
    requires
        wf_registry(reg),
        schema_idx(reg, key) >= 0,
        0 <= i < reg[schema_idx(reg, key)].fields.len(),
        !visible_at(reg[schema_idx(reg, key)].fields, combined_vals(raw, stored), i),
    ensures
        validate_spec(reg, key, raw, stored) matches Err(
            crate::schema::SchemaErrorModel::Invalid(errs),
        ) ==> forall|k: int|
            0 <= k < errs.len() ==> errs[k].field != reg[schema_idx(reg, key)].fields[i].id,
{
    let si = schema_idx(reg, key);
    lemma_schema_idx(reg, key);
    let fields = reg[si].fields;
    let comb = combined_vals(raw, stored);
    assert(wf_schema(reg[si]));
    let unk = unknown_upto(fields, raw, raw.len() as int);
    let fe = errors_upto(fields, comb, raw, fields.len() as int);
    lemma_unknown_upto_unknown_ids(fields, raw, raw.len() as int);
    lemma_errors_upto_visible_sources(fields, comb, raw, fields.len() as int, i);
    lemma_field_idx(fields, fields[i].id);
    if field_idx(fields, fields[i].id) == -1 {
        assert(fields[i].id != fields[i].id);
    }
    let hidden_id = fields[i].id;
    assert forall|k: int| 0 <= k < unk.len() + fe.len() implies (unk + fe)[k].field
        != hidden_id by {
        if k < unk.len() {
            assert((unk + fe)[k] == unk[k]);
        } else {
            assert((unk + fe)[k] == fe[k - unk.len()]);
        }
    }
}

// ---------------------------------------------------------------------------
// Round trip: normalized values survive resubmission
// ---------------------------------------------------------------------------

/// The textual form in which a normalized value would be resubmitted.
pub open spec fn resubmit_value(v: ValueModel) -> RawValueModel {
    match v {
        ValueModel::Absent => RawValueModel::One(Seq::empty()),
        ValueModel::Text(s) => RawValueModel::One(s),
        ValueModel::Secret(s) => RawValueModel::One(s),
        ValueModel::Bool(b) => RawValueModel::One(
            if b {
                seq!['t', 'r', 'u', 'e']
            } else {
                seq!['f', 'a', 'l', 's', 'e']
            },
        ),
        ValueModel::Millis(n) => RawValueModel::One(render_duration(n)),
        ValueModel::Int(n) => RawValueModel::One(
            if n >= 0 {
                render_nat(n as nat)
            } else {
                seq!['-'] + render_nat((-n) as nat)
            },
        ),
        ValueModel::TextList(l) => RawValueModel::Many(l),
    }
}

/// Format validators only make sense on textual fields; a duration or
/// boolean field carries at most `Required`.
pub open spec fn checks_well_typed(f: FieldModel) -> bool {
    forall|k: int|
        0 <= k < f.validators.len() && #[trigger] f.validators[k] != Validator::Required ==> (
        f.typ is Input || f.typ is Text || f.typ is Array)
}

proof fn lemma_first_failure_none(vs: Seq<Validator>, v: ValueModel)
    ensures
        first_failure(vs, v) is None <==> forall|k: int|
            0 <= k < vs.len() ==> validator_passes(#[trigger] vs[k], v),
    decreases vs.len(),
{
    if vs.len() > 0 {
        let t = vs.drop_first();
        lemma_first_failure_none(t, v);
        assert(forall|k: int| 0 <= k < t.len() ==> t[k] == vs[k + 1]);
        if validator_passes(vs[0], v) {
            if first_failure(vs, v) is None {
                assert forall|k: int| 0 <= k < vs.len() implies validator_passes(vs[k], v) by {
                    if k > 0 {
                        assert(validator_passes(t[k - 1], v));
                    }
                }
            }
        }
    }
}

proof fn lemma_text_empty_fixed()
    ensures
        transform_fixed(ValueModel::Text(Seq::empty())),
{
    text::lemma_trim_of_clean(Seq::<char>::empty());
}

proof fn lemma_chain_keeps_fixed(ts: Seq<Transformer>, v: ValueModel)
    requires
        transform_fixed(v),
    ensures
        apply_chain_spec(ts, v) == v,
    decreases ts.len(),
{
    if ts.len() > 0 {
        lemma_chain_keeps_fixed(ts.drop_first(), v);
    }
}

proof fn lemma_render_duration_clean(n: nat)
    ensures
        trim_spec(render_duration(n)) == render_duration(n),
        render_duration(n).len() > 0,
{
    let r = render_duration(n);
    text::lemma_render_nat(n);
    assert(r[0] == render_nat(n)[0]);
    assert(is_digit_char(r[0]));
    assert(!is_space_char(r[0]));
    assert(r.last() == 's');
    assert(!is_space_char('s'));
    text::lemma_trim_of_clean(r);
}

/// A successfully normalized field value, resubmitted in its textual form,
/// normalizes to the same value again.
pub proof fn lemma_field_round_trip(f: FieldModel, raw: Option<RawValueModel>, v: ValueModel)
    requires
        normalize_field_spec(f, raw) == Ok::<ValueModel, ErrorKind>(v),
        checks_well_typed(f),
    ensures
        normalize_field_spec(f, Some(resubmit_value(v))) == Ok::<ValueModel, ErrorKind>(v),
{
    let eff = if raw is Some {
        raw
    } else if f.default is Some {
        Some(RawValueModel::One(f.default.unwrap()))
    } else {
        None
    };
    let v0 = match eff {
        Some(r) => crate::engine::raw_as_value(r),
        None => ValueModel::Absent,
    };
    let v1 = apply_chain_spec(f.transformers, v0);
    lemma_first_failure_none(f.validators, v1);
    assert(first_failure(f.validators, v1) is None);
    if f.transformers.len() > 0 {
        lemma_chain_result_fixed(f.transformers, v0);
    }
    if is_empty_model(v1) {
        // First pass produced Absent; an empty resubmission is empty again.
        assert(v == ValueModel::Absent);
        let w0 = ValueModel::Text(Seq::empty());
        lemma_text_empty_fixed();
        lemma_chain_keeps_fixed(f.transformers, w0);
        assert forall|k: int| 0 <= k < f.validators.len() implies validator_passes(
            #[trigger] f.validators[k],
            w0,
        ) by {
            assert(validator_passes(f.validators[k], v1));
            if f.validators[k] == Validator::Required {
                assert(!is_empty_model(v1));
            }
        }
        lemma_first_failure_none(f.validators, w0);
    } else {
        assert(coerce_spec(f.typ, v1) == Some(v));
        // The value the second pass starts from.
        let w0 = crate::engine::raw_as_value(resubmit_value(v));
        // In every coercion case the resubmitted start value is transformer-
        // fixed and passes the same validators, and coerces back to `v`.
        match f.typ {
            crate::schema::TypeModel::Duration => {
                let s = v1->Text_0;
                let n = v->Millis_0;
                text::lemma_parse_duration_fits(s);
                lemma_render_duration_clean(n);
                assert(trim_value(w0) == w0);
                lemma_chain_keeps_fixed(f.transformers, w0);
                assert forall|k: int| 0 <= k < f.validators.len() implies validator_passes(
                    #[trigger] f.validators[k],
                    w0,
                ) by {
                    assert(validator_passes(f.validators[k], v1));
                    assert(f.validators[k] == Validator::Required);
                }
                lemma_first_failure_none(f.validators, w0);
                text::lemma_parse_render_duration(n);
            },
            crate::schema::TypeModel::Boolean => {
                let s = v1->Text_0;
                assert(w0 == v1);
                if f.transformers.len() > 0 {
                    lemma_chain_keeps_fixed(f.transformers, w0);
                }
                lemma_first_failure_none(f.validators, w0);
            },
            crate::schema::TypeModel::Array => {
                let l = v->TextList_0;
                assert(w0 == ValueModel::TextList(l));
                match v1 {
                    ValueModel::Text(s) => {
                        assert(l == seq![s]);
                        if f.transformers.len() > 0 {
                            assert(trim_spec(s) == s) by {
                                assert(trim_value(v1) == v1);
                            }
                            assert(l.map_values(|e: Seq<char>| trim_spec(e)) =~= l);
                            assert(trim_value(w0) == w0);
                            lemma_chain_keeps_fixed(f.transformers, w0);
                        }
                        assert forall|k: int|
                            0 <= k < f.validators.len() implies validator_passes(
                            #[trigger] f.validators[k],
                            w0,
                        ) by {
                            assert(validator_passes(f.validators[k], v1));
                        }
                        lemma_first_failure_none(f.validators, w0);
                    },
                    ValueModel::TextList(_) => {
                        assert(w0 == v1);
                        if f.transformers.len() > 0 {
                            lemma_chain_keeps_fixed(f.transformers, w0);
                        }
                        lemma_first_failure_none(f.validators, w0);
                    },
                    _ => {
                        assert(false);
                    },
                }
            },
            crate::schema::TypeModel::Select { options, multi } => {
                if multi {
                    let l = v->TextList_0;
                    assert(w0 == ValueModel::TextList(l));
                    match v1 {
                        ValueModel::Text(s) => {
                            assert(l == seq![s]);
                            if f.transformers.len() > 0 {
                                assert(trim_spec(s) == s) by {
                                    assert(trim_value(v1) == v1);
                                }
                                assert(l.map_values(|e: Seq<char>| trim_spec(e)) =~= l);
                                assert(trim_value(w0) == w0);
                                lemma_chain_keeps_fixed(f.transformers, w0);
                            }
                            assert forall|k: int|
                                0 <= k < f.validators.len() implies validator_passes(
                                #[trigger] f.validators[k],
                                w0,
                            ) by {
                                assert(validator_passes(f.validators[k], v1));
                                assert(f.validators[k] == Validator::Required);
                            }
                            lemma_first_failure_none(f.validators, w0);
                        },
                        ValueModel::TextList(_) => {
                            assert(w0 == v1);
                            if f.transformers.len() > 0 {
                                lemma_chain_keeps_fixed(f.transformers, w0);
                            }
                            lemma_first_failure_none(f.validators, w0);
                        },
                        _ => {
                            assert(false);
                        },
                    }
                } else {
                    assert(w0 == v1);
                    if f.transformers.len() > 0 {
                        lemma_chain_keeps_fixed(f.transformers, w0);
                    }
                    lemma_first_failure_none(f.validators, w0);
                }
            },
            _ => {
                // Input, Text, Secret: the stored string is the transformed
                // string itself.
                assert(w0 == v1);
                if f.transformers.len() > 0 {
                    lemma_chain_keeps_fixed(f.transformers, w0);
                }
                lemma_first_failure_none(f.validators, w0);
            },
        }
    }
}

} // verus!
