//! The staged builder: a fluent, order-enforcing construction API for the
//! schema registry.  The stage is carried in the builder's type — registry
//! stage (`Builder<Schemas, ()>`), schema stage (`Builder<Schemas, Schema>`),
//! field stage (`Builder<Schemas, (Schema, Field)>`), and form-section stage
//! (`Builder<Schemas, (Schema, FormSection)>`) — so a stage-specific call in
//! the wrong stage does not compile.  The terminal `build` checks every
//! referential invariant and refuses a defective registry.

use vstd::prelude::*;
use crate::schema::{Transformer, Validator, BuildDefect, Type, Condition, ConditionModel, Field,
    FieldModel, FormSection, FormSectionModel, Schema, SchemaModel, Schemas, field_idx,
    lemma_field_idx, wf_section, wf_schema, wf_registry, find_field};
use crate::text::str_eq;

verus! {

/// A construction in progress: the finished outer stages in `parent`, the
/// item currently being described in `item`.
pub struct Builder<P, I> {
    pub parent: P,
    pub item: I,
}

/// A schema with the given key and everything else still blank.
pub open spec fn blank_schema(key: Seq<char>) -> SchemaModel {
    SchemaModel {
        key: key,
        name_singular: Seq::empty(),
        name_plural: Seq::empty(),
        prefix: Seq::empty(),
        suffix: Seq::empty(),
        reload_prefix: Seq::empty(),
        fields: Seq::empty(),
        list_title: Seq::empty(),
        list_subtitle: Seq::empty(),
        list_fields: Seq::empty(),
        sections: Seq::empty(),
    }
}

/// A plain input field with the given id and no checks yet.
pub open spec fn blank_field(id: Seq<char>) -> FieldModel {
    FieldModel {
        id: id,
        label: Seq::empty(),
        help: Seq::empty(),
        placeholder: Seq::empty(),
        typ: crate::schema::TypeModel::Input,
        transformers: Seq::empty(),
        validators: Seq::empty(),
        default: None,
        display_if: None,
    }
}

/// A blank form section.
pub open spec fn blank_section() -> FormSectionModel {
    FormSectionModel { title: Seq::empty(), display_if: None, fields: Seq::empty() }
}

fn copy_str_slice(ids: &[&str]) -> (r: Vec<String>)
    ensures
        r.deep_view() == ids.deep_view(),
{
    let mut r: Vec<String> = Vec::new();
    let mut i: usize = 0;
    while i < ids.len()
        invariant
            i <= ids.len(),
            r.len() == i,
            forall|k: int| 0 <= k < i ==> #[trigger] r@[k]@ == ids@[k]@,
        decreases ids.len() - i,
    {
        r.push(String::from_str(ids[i]));
        i += 1;
    }
    proof {
        assert(r.deep_view() =~= ids.deep_view());
    }
    r
}

fn make_condition(field: &str, values: &[&str]) -> (r: Condition)
    ensures
        r@ == (ConditionModel { field: field@, values: values.deep_view() }),
{
    Condition { field: String::from_str(field), values: copy_str_slice(values) }
}

impl Schemas {
    /// Opens a fresh registry construction.
    pub fn builder() -> (r: Builder<Schemas, ()>)
        ensures
            r.parent@ == Seq::<SchemaModel>::empty(),
    {
        let b = Builder { parent: Schemas { schemas: Vec::new() }, item: () };
        proof {
            assert(b.parent@ =~= Seq::<SchemaModel>::empty());
        }
        b
    }
}

impl Builder<Schemas, ()> {
    /// Opens a new schema with the given key.
    pub fn new_schema(self, key: &str) -> (r: Builder<Schemas, Schema>)
        ensures
            r.parent == self.parent,
            r.item@ == blank_schema(key@),
    {
        let s = Schema {
            key: String::from_str(key),
            name_singular: String::new(),
            name_plural: String::new(),
            prefix: String::new(),
            suffix: String::new(),
            reload_prefix: String::new(),
            fields: Vec::new(),
            list_title: String::new(),
            list_subtitle: String::new(),
            list_fields: Vec::new(),
            sections: Vec::new(),
        };
        proof {
            assert(s@.fields =~= Seq::<FieldModel>::empty());
            assert(s@.list_fields =~= Seq::<Seq<char>>::empty());
            assert(s@.sections =~= Seq::<FormSectionModel>::empty());
        }
        Builder { parent: self.parent, item: s }
    }
}

impl Builder<Schemas, Schema> {
    /// Display names, singular and plural.
    pub fn names(self, singular: &str, plural: &str) -> (r: Self)
        ensures
            r.parent == self.parent,
            r.item@ == (SchemaModel {
                name_singular: singular@,
                name_plural: plural@,
                ..self.item@
            }),
    {
        let mut item = self.item;
        item.name_singular = String::from_str(singular);
        item.name_plural = String::from_str(plural);
        Builder { parent: self.parent, item }
    }

    /// Id-field naming prefix.
    pub fn prefix(self, p: &str) -> (r: Self)
        ensures
            r.parent == self.parent,
            r.item@ == (SchemaModel { prefix: p@, ..self.item@ }),
    {
        let mut item = self.item;
        item.prefix = String::from_str(p);
        Builder { parent: self.parent, item }
    }

    /// Id-field naming suffix.
    pub fn suffix(self, s: &str) -> (r: Self)
        ensures
            r.parent == self.parent,
            r.item@ == (SchemaModel { suffix: s@, ..self.item@ }),
    {
        let mut item = self.item;
        item.suffix = String::from_str(s);
        Builder { parent: self.parent, item }
    }

    /// Change-notification grouping prefix.
    pub fn reload_prefix(self, p: &str) -> (r: Self)
        ensures
            r.parent == self.parent,
            r.item@ == (SchemaModel { reload_prefix: p@, ..self.item@ }),
    {
        let mut item = self.item;
        item.reload_prefix = String::from_str(p);
        Builder { parent: self.parent, item }
    }

    /// List-view title.
    pub fn list_title(self, t: &str) -> (r: Self)
        ensures
            r.parent == self.parent,
            r.item@ == (SchemaModel { list_title: t@, ..self.item@ }),
    {
        let mut item = self.item;
        item.list_title = String::from_str(t);
        Builder { parent: self.parent, item }
    }

    /// List-view subtitle.
    pub fn list_subtitle(self, t: &str) -> (r: Self)
        ensures
            r.parent == self.parent,
            r.item@ == (SchemaModel { list_subtitle: t@, ..self.item@ }),
    {
        let mut item = self.item;
        item.list_subtitle = String::from_str(t);
        Builder { parent: self.parent, item }
    }

    /// The fields shown in the list-view summary.
    pub fn list_fields(self, ids: &[&str]) -> (r: Self)
        ensures
            r.parent == self.parent,
            r.item@ == (SchemaModel { list_fields: ids.deep_view(), ..self.item@ }),
    {
        let mut item = self.item;
        item.list_fields = copy_str_slice(ids);
        Builder { parent: self.parent, item }
    }

    /// Opens a new field with the given id.
    pub fn new_field(self, id: &str) -> (r: Builder<Schemas, (Schema, Field)>)
        ensures
            r.parent == self.parent,
            r.item.0 == self.item,
            r.item.1@ == blank_field(id@),
    {
        let f = Field {
            id: String::from_str(id),
            label: String::new(),
            help: String::new(),
            placeholder: String::new(),
            typ: Type::Input,
            transformers: Vec::new(),
            validators: Vec::new(),
            default: None,
            display_if: None,
        };
        proof {
            assert(f@.transformers =~= Seq::<Transformer>::empty());
            assert(f@.validators =~= Seq::<Validator>::empty());
        }
        Builder { parent: self.parent, item: (self.item, f) }
    }

    /// Opens the identifier field: the conventional `_id`, a required,
    /// trimmed input.
    pub fn new_id_field(self) -> (r: Builder<Schemas, (Schema, Field)>)
        ensures
            r.parent == self.parent,
            r.item.0 == self.item,
            r.item.1@ == (FieldModel {
                transformers: seq![Transformer::Trim],
                validators: seq![Validator::Required],
                ..blank_field("_id"@)
            }),
    {
        let r = self.new_field("_id").input_check(
            &[Transformer::Trim],
            &[Validator::Required],
        );
        proof {
            assert(r.item.1@.transformers =~= seq![Transformer::Trim]);
            assert(r.item.1@.validators =~= seq![Validator::Required]);
        }
        r
    }

    /// Opens a new form section.
    pub fn new_form_section(self) -> (r: Builder<Schemas, (Schema, FormSection)>)
        ensures
            r.parent == self.parent,
            r.item.0 == self.item,
            r.item.1@ == blank_section(),
    {
        let s = FormSection { title: String::new(), display_if: None, fields: Vec::new() };
        proof {
            assert(s@.fields =~= Seq::<Seq<char>>::empty());
        }
        Builder { parent: self.parent, item: (self.item, s) }
    }

    /// Closes this schema and records it in the registry.
    pub fn build(self) -> (r: Builder<Schemas, ()>)
        ensures
            r.parent@ == self.parent@.push(self.item@),
    {
        let ghost pre = self.parent@;
        let ghost itemv = self.item@;
        let mut parent = self.parent;
        parent.schemas.push(self.item);
        proof {
            assert(parent@ =~= pre.push(itemv));
        }
        Builder { parent, item: () }
    }
}

impl Builder<Schemas, (Schema, Field)> {
    /// UI label.
    pub fn label(self, t: &str) -> (r: Self)
        ensures
            r.parent == self.parent,
            r.item.0 == self.item.0,
            r.item.1@ == (FieldModel { label: t@, ..self.item.1@ }),
    {
        let mut item = self.item;
        item.1.label = String::from_str(t);
        Builder { parent: self.parent, item }
    }

    /// UI help text.
    pub fn help(self, t: &str) -> (r: Self)
        ensures
            r.parent == self.parent,
            r.item.0 == self.item.0,
            r.item.1@ == (FieldModel { help: t@, ..self.item.1@ }),
    {
        let mut item = self.item;
        item.1.help = String::from_str(t);
        Builder { parent: self.parent, item }
    }

    /// UI placeholder.
    pub fn placeholder(self, t: &str) -> (r: Self)
        ensures
            r.parent == self.parent,
            r.item.0 == self.item.0,
            r.item.1@ == (FieldModel { placeholder: t@, ..self.item.1@ }),
    {
        let mut item = self.item;
        item.1.placeholder = String::from_str(t);
        Builder { parent: self.parent, item }
    }

    /// The field's semantic kind.
    pub fn typ(self, t: Type) -> (r: Self)
        ensures
            r.parent == self.parent,
            r.item.0 == self.item.0,
            r.item.1@ == (FieldModel { typ: t@, ..self.item.1@ }),
    {
        let mut item = self.item;
        item.1.typ = t;
        Builder { parent: self.parent, item }
    }

    /// Default raw value, used when the field is not submitted.
    pub fn default(self, d: &str) -> (r: Self)
        ensures
            r.parent == self.parent,
            r.item.0 == self.item.0,
            r.item.1@ == (FieldModel { default: Some(d@), ..self.item.1@ }),
    {
        let mut item = self.item;
        item.1.default = Some(String::from_str(d));
        Builder { parent: self.parent, item }
    }

    /// The field's transformer and validator chains, in application order.
    pub fn input_check(self, transformers: &[Transformer], validators: &[Validator]) -> (r:
        Self)
        ensures
            r.parent == self.parent,
            r.item.0 == self.item.0,
            r.item.1@ == (FieldModel {
                transformers: transformers@,
                validators: validators@,
                ..self.item.1@
            }),
    {
        let mut ts: Vec<Transformer> = Vec::new();
        let mut i: usize = 0;
        while i < transformers.len()
            invariant
                i <= transformers.len(),
                ts@ == transformers@.subrange(0, i as int),
            decreases transformers.len() - i,
        {
            ts.push(transformers[i]);
            proof {
                assert(ts@ =~= transformers@.subrange(0, i as int + 1));
            }
            i += 1;
        }
        let mut vs: Vec<Validator> = Vec::new();
        let mut i: usize = 0;
        while i < validators.len()
            invariant
                i <= validators.len(),
                vs@ == validators@.subrange(0, i as int),
            decreases validators.len() - i,
        {
            vs.push(validators[i]);
            proof {
                assert(vs@ =~= validators@.subrange(0, i as int + 1));
            }
            i += 1;
        }
        proof {
            assert(transformers@.subrange(0, transformers@.len() as int) =~= transformers@);
            assert(validators@.subrange(0, validators@.len() as int) =~= validators@);
        }
        let mut item = self.item;
        item.1.transformers = ts;
        item.1.validators = vs;
        Builder { parent: self.parent, item }
    }

    /// Shows this field only while the named sibling field holds one of the
    /// given values; an empty value list leaves the field unconditional.
    pub fn display_if_eq(self, field: &str, values: &[&str]) -> (r: Self)
        ensures
            r.parent == self.parent,
            r.item.0 == self.item.0,
            values@.len() == 0 ==> r.item.1@ == self.item.1@,
            values@.len() > 0 ==> r.item.1@ == (FieldModel {
                display_if: Some(
                    ConditionModel { field: field@, values: values.deep_view() },
                ),
                ..self.item.1@
            }),
    {
        if values.len() == 0 {
            return self;
        }
        let mut item = self.item;
        item.1.display_if = Some(make_condition(field, values));
        Builder { parent: self.parent, item }
    }

    /// Closes this field and records it in the schema.
    pub fn build(self) -> (r: Builder<Schemas, Schema>)
        ensures
            r.parent == self.parent,
            r.item@ == (SchemaModel {
                fields: self.item.0@.fields.push(self.item.1@),
                ..self.item.0@
            }),
    {
        let ghost pre = self.item.0@.fields;
        let ghost fv = self.item.1@;
        let (mut sch, f) = self.item;
        sch.fields.push(f);
        proof {
            assert(sch@.fields =~= pre.push(fv));
        }
        Builder { parent: self.parent, item: sch }
    }
}

impl Builder<Schemas, (Schema, FormSection)> {
    /// Section title.
    pub fn title(self, t: &str) -> (r: Self)
        ensures
            r.parent == self.parent,
            r.item.0 == self.item.0,
            r.item.1@ == (FormSectionModel { title: t@, ..self.item.1@ }),
    {
        let mut item = self.item;
        item.1.title = String::from_str(t);
        Builder { parent: self.parent, item }
    }

    /// Shows this section only while the named field holds one of the given
    /// values; an empty value list leaves the section unconditional.
    pub fn display_if_eq(self, field: &str, values: &[&str]) -> (r: Self)
        ensures
            r.parent == self.parent,
            r.item.0 == self.item.0,
            values@.len() == 0 ==> r.item.1@ == self.item.1@,
            values@.len() > 0 ==> r.item.1@ == (FormSectionModel {
                display_if: Some(
                    ConditionModel { field: field@, values: values.deep_view() },
                ),
                ..self.item.1@
            }),
    {
        if values.len() == 0 {
            return self;
        }
        let mut item = self.item;
        item.1.display_if = Some(make_condition(field, values));
        Builder { parent: self.parent, item }
    }

    /// The fields shown in this section, in order.
    pub fn fields(self, ids: &[&str]) -> (r: Self)
        ensures
            r.parent == self.parent,
            r.item.0 == self.item.0,
            r.item.1@ == (FormSectionModel { fields: ids.deep_view(), ..self.item.1@ }),
    {
        let mut item = self.item;
        item.1.fields = copy_str_slice(ids);
        Builder { parent: self.parent, item }
    }

    /// Closes this section and records it in the schema.
    pub fn build(self) -> (r: Builder<Schemas, Schema>)
        ensures
            r.parent == self.parent,
            r.item@ == (SchemaModel {
                sections: self.item.0@.sections.push(self.item.1@),
                ..self.item.0@
            }),
    {
        let ghost pre = self.item.0@.sections;
        let ghost sv = self.item.1@;
        let (mut sch, sec) = self.item;
        sch.sections.push(sec);
        proof {
            assert(sch@.sections =~= pre.push(sv));
        }
        Builder { parent: self.parent, item: sch }
    }
}

// ---------------------------------------------------------------------------
// The terminal build: referential checking
// ---------------------------------------------------------------------------

/// Checks one schema for declaration defects: duplicate field ids,
/// conditions that do not reference a strictly earlier field, dangling
/// list-view or section references, secrets in the list view.
fn check_schema(s: &Schema) -> (r: Result<(), BuildDefect>)
    ensures
        r is Ok <==> wf_schema(s@),
{
    let ghost fm = s.fields.deep_view();
    let nf = s.fields.len();

    // Field ids are unique.
    let mut i: usize = 0;
    while i < nf
        invariant
            fm == s.fields.deep_view(),
            fm.len() == nf,
            nf == s.fields.len(),
            i <= nf,
            forall|a: int, b: int| 0 <= a < b < i ==> fm[a].id != fm[b].id,
        decreases nf - i,
    {
        proof {
            assert(fm[i as int] == s.fields@[i as int]@);
        }
        match find_field(&s.fields, s.fields[i].id.as_str(), i) {
            Some(j) => {
                proof {
                    let sub = fm.subrange(0, i as int);
                    lemma_field_idx(sub, fm[i as int].id);
                    assert(sub[j as int] == fm[j as int]);
                    assert(fm[j as int].id == fm[i as int].id);
                }
                return Err(BuildDefect::DuplicateFieldId(s.fields[i].id.clone()));
            },
            None => {
                proof {
                    let sub = fm.subrange(0, i as int);
                    lemma_field_idx(sub, fm[i as int].id);
                    assert(forall|a: int| 0 <= a < i ==> sub[a] == fm[a]);
                }
            },
        }
        i += 1;
    }

    // Conditions reference strictly earlier fields.
    let mut i: usize = 0;
    while i < nf
        invariant
            fm == s.fields.deep_view(),
            fm.len() == nf,
            nf == s.fields.len(),
            i <= nf,
            forall|a: int, b: int| 0 <= a < b < nf ==> fm[a].id != fm[b].id,
            forall|t: int|
                0 <= t < i ==> (fm[t].display_if is Some ==> field_idx(
                    fm.subrange(0, t),
                    fm[t].display_if.unwrap().field,
                ) >= 0),
        decreases nf - i,
    {
        proof {
            assert(fm[i as int] == s.fields@[i as int]@);
        }
        match &s.fields[i].display_if {
            None => {},
            Some(c) => {
                match find_field(&s.fields, c.field.as_str(), i) {
                    Some(_) => {},
                    None => {
                        let anywhere = find_field(&s.fields, c.field.as_str(), nf);
                        proof {
                            assert(fm[i as int].display_if == Some(c@));
                        }
                        return Err(
                            match anywhere {
                                Some(_) => BuildDefect::CyclicVisibility(c.field.clone()),
                                None => BuildDefect::DanglingFieldRef(c.field.clone()),
                            },
                        );
                    },
                }
            },
        }
        i += 1;
    }

    // List-view entries name declared, non-secret fields.
    let ghost lm = s.list_fields.deep_view();
    let mut k: usize = 0;
    while k < s.list_fields.len()
        invariant
            fm == s.fields.deep_view(),
            lm == s.list_fields.deep_view(),
            fm.len() == nf,
            nf == s.fields.len(),
            lm.len() == s.list_fields.len(),
            k <= s.list_fields.len(),
            forall|t: int|
                0 <= t < k ==> field_idx(fm, lm[t]) >= 0 && !(fm[field_idx(fm, lm[t])].typ
                    is Secret),
        decreases s.list_fields.len() - k,
    {
        proof {
            assert(lm[k as int] == s.list_fields@[k as int]@);
            assert(fm.subrange(0, nf as int) =~= fm);
        }
        match find_field(&s.fields, s.list_fields[k].as_str(), nf) {
            None => {
                return Err(BuildDefect::DanglingFieldRef(s.list_fields[k].clone()));
            },
            Some(j) => {
                proof {
                    lemma_field_idx(fm, lm[k as int]);
                    assert(fm[j as int] == s.fields@[j as int]@);
                }
                match &s.fields[j].typ {
                    Type::Secret => {
                        return Err(BuildDefect::SecretInListView(s.list_fields[k].clone()));
                    },
                    _ => {
                        proof {
                            assert(!(fm[j as int].typ is Secret));
                        }
                    },
                }
            },
        }
        k += 1;
    }

    // Sections reference declared fields.
    let ghost secm = s.sections.deep_view();
    let mut t: usize = 0;
    while t < s.sections.len()
        invariant
            fm == s.fields.deep_view(),
            secm == s.sections.deep_view(),
            fm.len() == nf,
            nf == s.fields.len(),
            secm.len() == s.sections.len(),
            t <= s.sections.len(),
            forall|u: int| 0 <= u < t ==> wf_section(fm, secm[u]),
        decreases s.sections.len() - t,
    {
        proof {
            assert(secm[t as int] == s.sections@[t as int]@);
        }
        let sec = &s.sections[t];
        let ghost sfm = sec.fields.deep_view();
        proof {
            assert(secm[t as int].fields == sfm);
        }
        let mut k: usize = 0;
        while k < sec.fields.len()
            invariant
                fm == s.fields.deep_view(),
                secm == s.sections.deep_view(),
                secm.len() == s.sections.len(),
                t < s.sections.len(),
                secm[t as int].fields == sfm,
                sfm == sec.fields.deep_view(),
                fm.len() == nf,
                nf == s.fields.len(),
                sfm.len() == sec.fields.len(),
                k <= sec.fields.len(),
                forall|u: int| 0 <= u < k ==> field_idx(fm, sfm[u]) >= 0,
            decreases sec.fields.len() - k,
        {
            proof {
                assert(sfm[k as int] == sec.fields@[k as int]@);
                assert(fm.subrange(0, nf as int) =~= fm);
            }
            if find_field(&s.fields, sec.fields[k].as_str(), nf).is_none() {
                proof {
                    assert(field_idx(fm, secm[t as int].fields[k as int]) == -1);
                    assert(!wf_section(fm, secm[t as int]));
                    assert(s@.fields == fm);
                    assert(s@.sections == secm);
                    assert(!wf_schema(s@));
                }
                return Err(BuildDefect::DanglingFieldRef(sec.fields[k].clone()));
            }
            k += 1;
        }
        match &sec.display_if {
            None => {},
            Some(c) => {
                proof {
                    assert(fm.subrange(0, nf as int) =~= fm);
                }
                if find_field(&s.fields, c.field.as_str(), nf).is_none() {
                    proof {
                        assert(secm[t as int].display_if == Some(c@));
                        assert(!wf_section(fm, secm[t as int]));
                        assert(s@.fields == fm);
                        assert(s@.sections == secm);
                        assert(!wf_schema(s@));
                    }
                    return Err(BuildDefect::DanglingFieldRef(c.field.clone()));
                }
            },
        }
        proof {
            assert(secm[t as int].fields == sfm);
            assert(wf_section(fm, secm[t as int]));
        }
        t += 1;
    }
    Ok(())
}

impl Builder<Schemas, ()> {
    /// Closes the registry: every declaration defect is rejected here, so a
    /// registry this returns is well-formed.
    pub fn build(self) -> (r: Result<Schemas, BuildDefect>)
        ensures
            r matches Ok(reg) ==> reg == self.parent && wf_registry(self.parent@),
            r is Err ==> !wf_registry(self.parent@),
    {
        let ghost m = self.parent@;
        let n = self.parent.schemas.len();

        // Schema keys are unique.
        let mut i: usize = 0;
        while i < n
            invariant
                m == self.parent@,
                m.len() == n,
                n == self.parent.schemas.len(),
                i <= n,
                forall|a: int, b: int| 0 <= a < b < i ==> m[a].key != m[b].key,
            decreases n - i,
        {
            proof {
                assert(m[i as int] == self.parent.schemas@[i as int]@);
            }
            let mut j: usize = 0;
            while j < i
                invariant
                    m == self.parent@,
                    m.len() == n,
                    n == self.parent.schemas.len(),
                    j <= i < n,
                    forall|a: int| 0 <= a < j ==> m[a].key != m[i as int].key,
                decreases i - j,
            {
                proof {
                    assert(m[j as int] == self.parent.schemas@[j as int]@);
                    assert(m[i as int] == self.parent.schemas@[i as int]@);
                }
                if str_eq(
                    self.parent.schemas[j].key.as_str(),
                    self.parent.schemas[i].key.as_str(),
                ) {
                    return Err(BuildDefect::DuplicateSchemaKey(self.parent.schemas[i].key.clone()));
                }
                j += 1;
            }
            i += 1;
        }

        // Every schema is well-formed.
        let mut i: usize = 0;
        while i < n
            invariant
                m == self.parent@,
                m.len() == n,
                n == self.parent.schemas.len(),
                i <= n,
                forall|t: int| 0 <= t < i ==> wf_schema(m[t]),
            decreases n - i,
        {
            proof {
                assert(m[i as int] == self.parent.schemas@[i as int]@);
            }
            match check_schema(&self.parent.schemas[i]) {
                Ok(_) => {},
                Err(e) => {
                    return Err(e);
                },
            }
            i += 1;
        }
        Ok(self.parent)
    }
}

} // verus!

