//! Schema descriptors: field metadata, form sections, list views, schemas,
//! and the registry, with their models and well-formedness.

use vstd::prelude::*;
use crate::value::Value;

verus! {

/// A pure normalization step applied before validation.
#[derive(Debug, Clone, Copy, PartialEq, Eq, Structural)]
pub enum Transformer {
    Trim,
}

/// A pass/fail rule applied to a transformed value.
#[derive(Debug, Clone, Copy, PartialEq, Eq, Structural)]
pub enum Validator {
    Required,
    IsUrl,
    IsEmail,
    IsPort,
    IsIpOrMask,
    IsDomain,
}

/// The reason a value was rejected.
#[derive(Debug, Clone, Copy, PartialEq, Eq, Structural)]
pub enum FailedRule {
    Url,
    Email,
    Port,
    IpOrMask,
    Domain,
    Custom,
}

/// The rule a failing validator reports.
pub open spec fn rule_of_spec(v: Validator) -> FailedRule {
    match v {
        Validator::IsUrl => FailedRule::Url,
        Validator::IsEmail => FailedRule::Email,
        Validator::IsPort => FailedRule::Port,
        Validator::IsIpOrMask => FailedRule::IpOrMask,
        Validator::IsDomain => FailedRule::Domain,
        Validator::Required => FailedRule::Custom,
    }
}

pub fn rule_of(v: Validator) -> (r: FailedRule)
    ensures
        r == rule_of_spec(v),
{
    match v {
        Validator::IsUrl => FailedRule::Url,
        Validator::IsEmail => FailedRule::Email,
        Validator::IsPort => FailedRule::Port,
        Validator::IsIpOrMask => FailedRule::IpOrMask,
        Validator::IsDomain => FailedRule::Domain,
        Validator::Required => FailedRule::Custom,
    }
}

/// What went wrong with one field of a submission.
#[derive(Debug, Clone, Copy, PartialEq, Eq, Structural)]
pub enum ErrorKind {
    UnknownField,
    MissingRequired,
    ValidationFailed(FailedRule),
}

/// A per-field validation error.
#[derive(Debug, Clone, PartialEq, Eq)]
pub struct FieldError {
    pub field: String,
    pub kind: ErrorKind,
}

#[verifier::ext_equal]
pub struct FieldErrorModel {
    pub field: Seq<char>,
    pub kind: ErrorKind,
}

impl View for FieldError {
    type V = FieldErrorModel;

    open spec fn view(&self) -> FieldErrorModel {
        FieldErrorModel { field: self.field@, kind: self.kind }
    }
}

/// Why a whole validation request failed.
#[derive(Debug, Clone, PartialEq, Eq)]
pub enum SchemaError {
    SchemaNotFound,
    Invalid(Vec<FieldError>),
}

#[verifier::ext_equal]
pub enum SchemaErrorModel {
    SchemaNotFound,
    Invalid(Seq<FieldErrorModel>),
}

impl View for SchemaError {
    type V = SchemaErrorModel;

    open spec fn view(&self) -> SchemaErrorModel {
        match self {
            SchemaError::SchemaNotFound => SchemaErrorModel::SchemaNotFound,
            SchemaError::Invalid(v) => SchemaErrorModel::Invalid(v.deep_view()),
        }
    }
}

/// A defect in a schema declaration, detected when the registry is built.
#[derive(Debug, Clone, PartialEq, Eq)]
pub enum BuildDefect {
    DuplicateSchemaKey(String),
    DuplicateFieldId(String),
    DanglingFieldRef(String),
    CyclicVisibility(String),
    SecretInListView(String),
}

/// The semantic kind of a field, with any kind-specific configuration.
#[derive(Debug, Clone)]
pub enum Type {
    Input,
    Secret,
    Text,
    Boolean,
    Duration,
    Array,
    Select { options: Vec<(String, String)>, multi: bool },
}

#[verifier::ext_equal]
pub enum TypeModel {
    Input,
    Secret,
    Text,
    Boolean,
    Duration,
    Array,
    Select { options: Seq<(Seq<char>, Seq<char>)>, multi: bool },
}

impl View for Type {
    type V = TypeModel;

    open spec fn view(&self) -> TypeModel {
        match self {
            Type::Input => TypeModel::Input,
            Type::Secret => TypeModel::Secret,
            Type::Text => TypeModel::Text,
            Type::Boolean => TypeModel::Boolean,
            Type::Duration => TypeModel::Duration,
            Type::Array => TypeModel::Array,
            Type::Select { options, multi } => TypeModel::Select {
                options: options@.map_values(|p: (String, String)| (p.0@, p.1@)),
                multi: *multi,
            },
        }
    }
}

impl Type {
    /// A select type over a static option list of (value, display label).
    pub fn select_from(options: &[(&str, &str)], multi: bool) -> (r: Type)
        ensures
            r@ matches TypeModel::Select { options: o, multi: m } && m == multi && o
                == options.deep_view(),
    {
        let mut v: Vec<(String, String)> = Vec::new();
        let mut i: usize = 0;
        while i < options.len()
            invariant
                i <= options.len(),
                v.len() == i,
                forall|k: int|
                    0 <= k < i ==> v@.map_values(|p: (String, String)| (p.0@, p.1@))[k]
                        == options.deep_view()[k],
            decreases options.len() - i,
        {
            let (a, b) = options[i];
            v.push((String::from_str(a), String::from_str(b)));
            i += 1;
        }
        proof {
            assert(v@.map_values(|p: (String, String)| (p.0@, p.1@)) =~= options.deep_view());
        }
        Type::Select { options: v, multi }
    }
}

/// Visibility predicate: the enclosing field or section is shown iff the
/// named sibling field's value is one of the listed values.
#[derive(Debug, Clone)]
pub struct Condition {
    pub field: String,
    pub values: Vec<String>,
}

#[verifier::ext_equal]
pub struct ConditionModel {
    pub field: Seq<char>,
    pub values: Seq<Seq<char>>,
}

impl View for Condition {
    type V = ConditionModel;

    open spec fn view(&self) -> ConditionModel {
        ConditionModel { field: self.field@, values: self.values.deep_view() }
    }
}

/// Immutable metadata for one field.
#[derive(Debug, Clone)]
pub struct Field {
    pub id: String,
    pub label: String,
    pub help: String,
    pub placeholder: String,
    pub typ: Type,
    pub transformers: Vec<Transformer>,
    pub validators: Vec<Validator>,
    pub default: Option<String>,
    pub display_if: Option<Condition>,
}

#[verifier::ext_equal]
pub struct FieldModel {
    pub id: Seq<char>,
    pub label: Seq<char>,
    pub help: Seq<char>,
    pub placeholder: Seq<char>,
    pub typ: TypeModel,
    pub transformers: Seq<Transformer>,
    pub validators: Seq<Validator>,
    pub default: Option<Seq<char>>,
    pub display_if: Option<ConditionModel>,
}

impl View for Field {
    type V = FieldModel;

    open spec fn view(&self) -> FieldModel {
        FieldModel {
            id: self.id@,
            label: self.label@,
            help: self.help@,
            placeholder: self.placeholder@,
            typ: self.typ@,
            transformers: self.transformers@,
            validators: self.validators@,
            default: match &self.default {
                Some(d) => Some(d@),
                None => None,
            },
            display_if: match &self.display_if {
                Some(c) => Some(c@),
                None => None,
            },
        }
    }
}

/// A titled, conditionally shown group of fields in the editing form.
#[derive(Debug, Clone)]
pub struct FormSection {
    pub title: String,
    pub display_if: Option<Condition>,
    pub fields: Vec<String>,
}

#[verifier::ext_equal]
pub struct FormSectionModel {
    pub title: Seq<char>,
    pub display_if: Option<ConditionModel>,
    pub fields: Seq<Seq<char>>,
}

impl View for FormSection {
    type V = FormSectionModel;

    open spec fn view(&self) -> FormSectionModel {
        FormSectionModel {
            title: self.title@,
            display_if: match &self.display_if {
                Some(c) => Some(c@),
                None => None,
            },
            fields: self.fields.deep_view(),
        }
    }
}

/// A named collection of fields plus list-view and form-section layout.
#[derive(Debug, Clone)]
pub struct Schema {
    pub key: String,
    pub name_singular: String,
    pub name_plural: String,
    pub prefix: String,
    pub suffix: String,
    pub reload_prefix: String,
    pub fields: Vec<Field>,
    pub list_title: String,
    pub list_subtitle: String,
    pub list_fields: Vec<String>,
    pub sections: Vec<FormSection>,
}

#[verifier::ext_equal]
pub struct SchemaModel {
    pub key: Seq<char>,
    pub name_singular: Seq<char>,
    pub name_plural: Seq<char>,
    pub prefix: Seq<char>,
    pub suffix: Seq<char>,
    pub reload_prefix: Seq<char>,
    pub fields: Seq<FieldModel>,
    pub list_title: Seq<char>,
    pub list_subtitle: Seq<char>,
    pub list_fields: Seq<Seq<char>>,
    pub sections: Seq<FormSectionModel>,
}

impl View for Schema {
    type V = SchemaModel;

    open spec fn view(&self) -> SchemaModel {
        SchemaModel {
            key: self.key@,
            name_singular: self.name_singular@,
            name_plural: self.name_plural@,
            prefix: self.prefix@,
            suffix: self.suffix@,
            reload_prefix: self.reload_prefix@,
            fields: self.fields.deep_view(),
            list_title: self.list_title@,
            list_subtitle: self.list_subtitle@,
            list_fields: self.list_fields.deep_view(),
            sections: self.sections.deep_view(),
        }
    }
}

impl DeepView for Field {
    type V = FieldModel;

    open spec fn deep_view(&self) -> FieldModel {
        self.view()
    }
}

impl DeepView for FormSection {
    type V = FormSectionModel;

    open spec fn deep_view(&self) -> FormSectionModel {
        self.view()
    }
}

impl DeepView for FieldError {
    type V = FieldErrorModel;

    open spec fn deep_view(&self) -> FieldErrorModel {
        self.view()
    }
}

impl DeepView for Schema {
    type V = SchemaModel;

    open spec fn deep_view(&self) -> SchemaModel {
        self.view()
    }
}

/// The registry: every declared schema, in declaration order, keyed uniquely.
#[derive(Debug, Clone)]
pub struct Schemas {
    pub schemas: Vec<Schema>,
}

impl View for Schemas {
    type V = Seq<SchemaModel>;

    open spec fn view(&self) -> Seq<SchemaModel> {
        self.schemas.deep_view()
    }
}

// ---------------------------------------------------------------------------
// Indexing fields and schemas by identifier
// ---------------------------------------------------------------------------

/// Index of the first field with the given id, or -1.
pub open spec fn field_idx(fields: Seq<FieldModel>, id: Seq<char>) -> int
    decreases fields.len(),
{
    if fields.len() == 0 {
        -1
    } else if fields[0].id == id {
        0
    } else {
        let r = field_idx(fields.drop_first(), id);
        if r < 0 {
            -1
        } else {
            r + 1
        }
    }
}

pub proof fn lemma_field_idx(fields: Seq<FieldModel>, id: Seq<char>)
    ensures
        field_idx(fields, id) == -1 ==> forall|j: int| 0 <= j < fields.len() ==> fields[j].id != id,
        field_idx(fields, id) != -1 ==> 0 <= field_idx(fields, id) < fields.len() && fields[
            field_idx(fields, id)
        ].id == id && (forall|j: int| 0 <= j < field_idx(fields, id) ==> fields[j].id != id),
    decreases fields.len(),
{
    if fields.len() > 0 && fields[0].id != id {
        let t = fields.drop_first();
        lemma_field_idx(t, id);
        if field_idx(t, id) == -1 {
            assert forall|j: int| 0 <= j < fields.len() implies fields[j].id != id by {
                if j > 0 {
                    assert(t[j - 1] == fields[j]);
                }
            }
        } else {
            let r = field_idx(t, id);
            assert(t[r] == fields[r + 1]);
            assert forall|j: int| 0 <= j < field_idx(fields, id) implies fields[j].id != id by {
                if j > 0 {
                    assert(t[j - 1] == fields[j]);
                }
            }
        }
    }
}

/// Index of the first schema with the given key, or -1.
pub open spec fn schema_idx(schemas: Seq<SchemaModel>, key: Seq<char>) -> int
    decreases schemas.len(),
{
    if schemas.len() == 0 {
        -1
    } else if schemas[0].key == key {
        0
    } else {
        let r = schema_idx(schemas.drop_first(), key);
        if r < 0 {
            -1
        } else {
            r + 1
        }
    }
}

pub proof fn lemma_schema_idx(schemas: Seq<SchemaModel>, key: Seq<char>)
    ensures
        schema_idx(schemas, key) == -1 ==> forall|j: int|
            0 <= j < schemas.len() ==> schemas[j].key != key,
        schema_idx(schemas, key) != -1 ==> 0 <= schema_idx(schemas, key) < schemas.len()
            && schemas[schema_idx(schemas, key)].key == key && (forall|j: int|
            0 <= j < schema_idx(schemas, key) ==> schemas[j].key != key),
    decreases schemas.len(),
{
    if schemas.len() > 0 && schemas[0].key != key {
        let t = schemas.drop_first();
        lemma_schema_idx(t, key);
        if schema_idx(t, key) == -1 {
            assert forall|j: int| 0 <= j < schemas.len() implies schemas[j].key != key by {
                if j > 0 {
                    assert(t[j - 1] == schemas[j]);
                }
            }
        } else {
            let r = schema_idx(t, key);
            assert(t[r] == schemas[r + 1]);
            assert forall|j: int| 0 <= j < schema_idx(schemas, key) implies schemas[j].key
                != key by {
                if j > 0 {
                    assert(t[j - 1] == schemas[j]);
                }
            }
        }
    }
}

/// First index in `fields[0..upto]` whose id is `id`.
pub fn find_field(fields: &Vec<Field>, id: &str, upto: usize) -> (r: Option<usize>)
    requires
        upto <= fields.len(),
    ensures
        match r {
            Some(i) => i as int == field_idx(fields.deep_view().subrange(0, upto as int), id@),
            None => field_idx(fields.deep_view().subrange(0, upto as int), id@) == -1,
        },
{
    let ghost m = fields.deep_view().subrange(0, upto as int);
    let mut i: usize = 0;
    while i < upto
        invariant
            upto <= fields.len(),
            m == fields.deep_view().subrange(0, upto as int),
            m.len() == upto,
            i <= upto,
            forall|k: int| 0 <= k < i ==> m[k].id != id@,
        decreases upto - i,
    {
        if crate::text::str_eq(fields[i].id.as_str(), id) {
            proof {
                lemma_field_idx(m, id@);
                assert(m[i as int].id == id@);
                if field_idx(m, id@) == -1 {
                    assert(m[i as int].id != id@);
                } else if field_idx(m, id@) < i as int {
                    assert(m[field_idx(m, id@)].id != id@);
                } else if field_idx(m, id@) > i as int {
                    assert(m[i as int].id != id@);
                }
            }
            return Some(i);
        }
        i += 1;
    }
    proof {
        lemma_field_idx(m, id@);
        if field_idx(m, id@) != -1 {
            assert(m[field_idx(m, id@)].id != id@);
        }
    }
    None
}

// ---------------------------------------------------------------------------
// Well-formedness
// ---------------------------------------------------------------------------

/// A form section only names declared fields, and its condition references a
/// declared field.
pub open spec fn wf_section(fields: Seq<FieldModel>, sec: FormSectionModel) -> bool {
    (forall|k: int| 0 <= k < sec.fields.len() ==> field_idx(fields, sec.fields[k]) >= 0) && (
    sec.display_if is Some ==> field_idx(fields, sec.display_if.unwrap().field) >= 0)
}

/// Schema well-formedness: unique field ids; every display condition
/// references a field declared strictly earlier (so visibility cannot be
/// cyclic); list-view entries name declared, non-secret fields; sections
/// only reference declared fields.
pub open spec fn wf_schema(s: SchemaModel) -> bool {
    (forall|i: int, j: int| 0 <= i < j < s.fields.len() ==> s.fields[i].id != s.fields[j].id) && (
    forall|i: int|
        0 <= i < s.fields.len() ==> (s.fields[i].display_if is Some ==> field_idx(
            s.fields.subrange(0, i),
            s.fields[i].display_if.unwrap().field,
        ) >= 0)) && (forall|k: int|
        0 <= k < s.list_fields.len() ==> field_idx(s.fields, s.list_fields[k]) >= 0 && !(s.fields[
            field_idx(s.fields, s.list_fields[k])
        ].typ is Secret)) && (forall|t: int|
        0 <= t < s.sections.len() ==> wf_section(s.fields, s.sections[t]))
}

/// Registry well-formedness: unique schema keys and well-formed schemas.
pub open spec fn wf_registry(m: Seq<SchemaModel>) -> bool {
    (forall|i: int, j: int| 0 <= i < j < m.len() ==> m[i].key != m[j].key) && (forall|i: int|
        0 <= i < m.len() ==> wf_schema(m[i]))
}

} // verus!
