//! `#[derive(FlattenTool)]`: reading a struct's named fields, with their doc
//! comments and whether they are optional, and planning the constructor
//! from flat parameters that the derive emits.

use vstd::prelude::*;
use crate::text::{join, push_str, views};
use super::syntax::{DataModel, DeriveInputModel, FieldModel, FieldsModel, MacroError, TypeModel, TypeView};
use super::attrs::{doc_comment, doc_comment_of, opt_view};

verus! {

/// A field of a struct that is flattened into parameters.
#[derive(Debug, PartialEq, Eq)]
pub struct FlattenedField {
    pub name: String,
    pub ty: TypeModel,
    /// The field's doc comment, its lines trimmed at the start and joined.
    pub doc: Option<String>,
    /// Whether the field's type is an `Option`.
    pub is_optional: bool,
}

/// A flattened field, as mathematical values.
pub ghost struct FlattenedFieldView {
    pub name: Seq<char>,
    pub ty: TypeView,
    pub doc: Option<Seq<char>>,
    pub is_optional: bool,
}

impl View for FlattenedField {
    type V = FlattenedFieldView;

    open spec fn view(&self) -> FlattenedFieldView {
        FlattenedFieldView { name: self.name@, ty: self.ty@, doc: opt_view(self.doc), is_optional: self.is_optional }
    }
}

/// The views of a sequence of flattened fields.
pub open spec fn field_views(v: Seq<FlattenedField>) -> Seq<FlattenedFieldView> {
    v.map_values(|f: FlattenedField| f@)
}

/// Whether a type is a path whose last segment is `Option`.
pub open spec fn is_option(ty: TypeModel) -> bool {
    match ty {
        TypeModel::Path(segs) => segs@.len() > 0 && segs@.last()@ == "Option"@,
        _ => false,
    }
}

/// Whether `ty` is an `Option` (by the last segment of its path).
pub fn is_option_type(ty: &TypeModel) -> (b: bool)
    ensures
        b == is_option(*ty),
{
    match ty {
        TypeModel::Path(segs) => segs.len() > 0 && crate::text::str_eq(segs[segs.len() - 1].as_str(), "Option"),
        _ => false,
    }
}

/// The message for a named field without a name.
pub open spec fn unnamed_field_message() -> Seq<char> {
    "Field must have a name"@
}

/// The message for a struct whose fields are not named.
pub open spec fn not_named_fields_message() -> Seq<char> {
    "Only structs with named fields can be flattened"@
}

/// The message for a type that is not a struct.
pub open spec fn not_struct_message() -> Seq<char> {
    "Only structs can be flattened"@
}

/// The flattened field that a named field gives.
pub open spec fn flattened(f: FieldModel) -> FlattenedFieldView {
    FlattenedFieldView {
        name: match f.ident {
            Some(n) => n@,
            None => Seq::empty(),
        },
        ty: f.ty@,
        doc: doc_comment(f.attrs@, false),
        is_optional: is_option(f.ty),
    }
}

/// Whether every field of `fields` has a name.
pub open spec fn all_named(fields: Seq<FieldModel>) -> bool {
    forall|i: int| 0 <= i < fields.len() ==> (#[trigger] fields[i]).ident is Some
}

/// The flattened fields of a derive input, in order, or the message of the
/// error.
pub open spec fn struct_fields(input: DeriveInputModel) -> Result<Seq<FlattenedFieldView>, Seq<char>> {
    match input.data {
        DataModel::Struct(FieldsModel::Named(fields)) => if all_named(fields@) {
            Ok(Seq::new(fields@.len(), |i: int| flattened(fields@[i])))
        } else {
            Err(unnamed_field_message())
        },
        DataModel::Struct(_) => Err(not_named_fields_message()),
        _ => Err(not_struct_message()),
    }
}

/// Reads the named fields of a struct: each one's name, type, doc comment
/// and whether it is optional.
pub fn extract_struct_fields(input: &DeriveInputModel) -> (r: Result<Vec<FlattenedField>, MacroError>)
    ensures
        match struct_fields(*input) {
            Ok(v) => r matches Ok(fields) && field_views(fields@) == v,
            Err(m) => r matches Err(e) && e.message@ == m,
        },
{
    match &input.data {
        DataModel::Struct(FieldsModel::Named(named)) => {
            let mut fields: Vec<FlattenedField> = Vec::new();
            let mut i: usize = 0;
            while i < named.len()
                invariant
                    i <= named@.len(),
                    input.data == DataModel::Struct(FieldsModel::Named(*named)),
                    fields@.len() == i,
                    forall|j: int| 0 <= j < i ==> (#[trigger] named@[j]).ident is Some,
                    forall|j: int| 0 <= j < i ==> (#[trigger] fields@[j])@ == flattened(named@[j]),
                decreases named@.len() - i,
            {
                let f = &named[i];
                let name = match &f.ident {
                    Some(n) => n.clone(),
                    None => {
                        assert(!all_named(named@));
                        return Err(MacroError { message: "Field must have a name".to_string() });
                    },
                };
                fields.push(
                    FlattenedField {
                        name,
                        ty: f.ty.duplicate(),
                        doc: doc_comment_of(&f.attrs, false),
                        is_optional: is_option_type(&f.ty),
                    },
                );
                i = i + 1;
            }
            assert(field_views(fields@) =~= Seq::new(named@.len(), |k: int| flattened(named@[k])));
            Ok(fields)
        },
        DataModel::Struct(_) => Err(
            MacroError { message: "Only structs with named fields can be flattened".to_string() },
        ),
        _ => Err(MacroError { message: "Only structs can be flattened".to_string() }),
    }
}

/// The names of a sequence of flattened fields.
pub open spec fn field_names(fields: Seq<FlattenedField>) -> Seq<Seq<char>> {
    fields.map_values(|f: FlattenedField| f.name@)
}

/// The Rust expression that builds the struct `struct_name` from variables
/// named after its fields: `Name { a, b }`.
pub open spec fn construction(struct_name: Seq<char>, names: Seq<Seq<char>>) -> Seq<char> {
    struct_name + " { "@ + join(names, ", "@) + " }"@
}

/// The code that builds the struct `struct_name` from variables named after
/// the fields `fields`, as Rust source text.
pub fn generate_struct_construction(struct_name: &str, fields: &Vec<FlattenedField>) -> (r: String)
    ensures
        r@ == construction(struct_name@, field_names(fields@)),
{
    let mut names: Vec<String> = Vec::new();
    let mut i: usize = 0;
    while i < fields.len()
        invariant
            i <= fields@.len(),
            views(names@) == field_names(fields@.take(i as int)),
        decreases fields@.len() - i,
    {
        let ghost before = views(names@);
        names.push(fields[i].name.clone());
        proof {
            assert(views(names@) =~= before.push(fields@[i as int].name@));
            assert(field_names(fields@.take(i + 1)) =~= field_names(fields@.take(i as int)).push(
                fields@[i as int].name@,
            ));
        }
        i = i + 1;
    }
    assert(fields@.take(fields@.len() as int) =~= fields@);
    let mut r = struct_name.to_string();
    push_str(&mut r, " { ");
    let joined = crate::text::join_strings(&names, ", ");
    push_str(&mut r, joined.as_str());
    push_str(&mut r, " }");
    r
}

/// The lowercase form of a string, as `str::to_lowercase` gives it.
pub uninterp spec fn lowercase(s: Seq<char>) -> Seq<char>;

/// Calls `str::to_lowercase`, which maps each character of `s` to its
/// Unicode lowercase form. The result is named by `lowercase`; nothing more
/// is stated of it.
#[verifier::external_body]
fn to_lowercase(s: &str) -> (r: String)
    ensures
        r@ == lowercase(s@),
{
    s.to_lowercase()
}

/// What `#[derive(FlattenTool)]` emits for a struct, before it is written
/// out as code: in an impl block with the struct's generics and `where`
/// clause, a constructor with the struct's visibility that takes each field,
/// in order, as a parameter of the field's type and builds the struct from
/// them field for field (`body`), and a schema method.
#[derive(Debug, Clone, PartialEq, Eq)]
pub struct FlattenPlan {
    pub constructor: String,
    pub schema_method: String,
    pub vis: String,
    pub generics: String,
    pub where_clause: String,
    /// Each parameter's name and the source text of its type.
    pub params: Vec<(String, String)>,
    /// The constructor's body: `Self { f1, .., fn }`.
    pub body: String,
}

/// What `#[derive(FlattenTool)]` emits, as mathematical values.
pub ghost struct FlattenPlanView {
    pub constructor: Seq<char>,
    pub schema_method: Seq<char>,
    pub vis: Seq<char>,
    pub generics: Seq<char>,
    pub where_clause: Seq<char>,
    pub params: Seq<(Seq<char>, Seq<char>)>,
    pub body: Seq<char>,
}

impl View for FlattenPlan {
    type V = FlattenPlanView;

    open spec fn view(&self) -> FlattenPlanView {
        FlattenPlanView {
            constructor: self.constructor@,
            schema_method: self.schema_method@,
            vis: self.vis@,
            generics: self.generics@,
            where_clause: self.where_clause@,
            params: self.params@.map_values(|p: (String, String)| (p.0@, p.1@)),
            body: self.body@,
        }
    }
}

/// The name of a field (empty where it has none).
pub open spec fn field_name(f: FieldModel) -> Seq<char> {
    match f.ident {
        Some(n) => n@,
        None => Seq::empty(),
    }
}

/// The message for a struct whose fields are not named.
pub open spec fn derive_named_message() -> Seq<char> {
    "FlattenTool only works with structs that have named fields"@
}

/// The message for a type that is not a struct.
pub open spec fn derive_struct_message() -> Seq<char> {
    "FlattenTool can only be derived for structs"@
}

/// The names of the methods that `#[derive(FlattenTool)]` emits for a
/// struct whose name, in lowercase, is `lowered`.
pub open spec fn flatten_names(lowered: Seq<char>) -> (Seq<char>, Seq<char>) {
    (lowered + "_from_flat"@, lowered + "_flat_schema"@)
}

/// The name of each field, in order.
pub open spec fn fields_names(fields: Seq<FieldModel>) -> Seq<Seq<char>> {
    fields.map_values(|f: FieldModel| field_name(f))
}

/// What `#[derive(FlattenTool)]` emits for `input`, or the message of the
/// error.
pub open spec fn flatten_plan(input: DeriveInputModel) -> Result<FlattenPlanView, Seq<char>> {
    match input.data {
        DataModel::Struct(FieldsModel::Named(fields)) => {
            let names = flatten_names(lowercase(input.ident@));
            Ok(
                FlattenPlanView {
                    constructor: names.0,
                    schema_method: names.1,
                    vis: input.vis@,
                    generics: input.generics@,
                    where_clause: input.where_clause@,
                    params: fields@.map_values(|f: FieldModel| (field_name(f), f.ty_text@)),
                    body: construction("Self"@, fields_names(fields@)),
                },
            )
        },
        DataModel::Struct(_) => Err(derive_named_message()),
        _ => Err(derive_struct_message()),
    }
}

/// The names of the constructor and the schema method for a struct whose
/// name, in lowercase, is `lowered`.
pub fn flatten_method_names(lowered: &str) -> (r: (String, String))
    ensures
        r.0@ == flatten_names(lowered@).0,
        r.1@ == flatten_names(lowered@).1,
{
    let mut constructor = lowered.to_string();
    push_str(&mut constructor, "_from_flat");
    let mut schema = lowered.to_string();
    push_str(&mut schema, "_flat_schema");
    (constructor, schema)
}

/// What `#[derive(FlattenTool)]` emits for `input`: a struct with named fields
/// gets a constructor from its fields as parameters and a schema method.
pub fn derive_flatten_tool(input: &DeriveInputModel) -> (r: Result<FlattenPlan, MacroError>)
    requires
        input.data matches DataModel::Struct(FieldsModel::Named(fields)) ==> all_named(fields@),
    ensures
        match flatten_plan(*input) {
            Ok(v) => r matches Ok(p) && p@ == v,
            Err(m) => r matches Err(e) && e.message@ == m,
        },
{
    match &input.data {
        DataModel::Struct(FieldsModel::Named(fields)) => {
            let lowered = to_lowercase(input.ident.as_str());
            let (constructor, schema_method) = flatten_method_names(lowered.as_str());
            let mut params: Vec<(String, String)> = Vec::new();
            let mut names: Vec<String> = Vec::new();
            let mut i: usize = 0;
            while i < fields.len()
                invariant
                    i <= fields@.len(),
                    all_named(fields@),
                    params@.len() == i,
                    forall|j: int| 0 <= j < i ==> (#[trigger] params@[j]).0@ == field_name(fields@[j])
                        && params@[j].1@ == fields@[j].ty_text@,
                    views(names@) == fields_names(fields@.take(i as int)),
                decreases fields@.len() - i,
            {
                let name = match &fields[i].ident {
                    Some(n) => n.clone(),
                    None => String::new(),
                };
                params.push((name.clone(), fields[i].ty_text.clone()));
                let ghost before = views(names@);
                names.push(name);
                proof {
                    assert(views(names@) =~= before.push(name@));
                    assert(fields_names(fields@.take(i + 1)) =~= fields_names(fields@.take(i as int)).push(
                        field_name(fields@[i as int]),
                    ));
                }
                i = i + 1;
            }
            assert(fields@.take(fields@.len() as int) =~= fields@);
            let mut body = "Self".to_string();
            push_str(&mut body, " { ");
            let joined = crate::text::join_strings(&names, ", ");
            push_str(&mut body, joined.as_str());
            push_str(&mut body, " }");
            let plan = FlattenPlan {
                constructor,
                schema_method,
                vis: input.vis.clone(),
                generics: input.generics.clone(),
                where_clause: input.where_clause.clone(),
                params,
                body,
            };
            assert(plan@.params =~= fields@.map_values(|f: FieldModel| (field_name(f), f.ty_text@)));
            Ok(plan)
        },
        DataModel::Struct(_) => Err(
            MacroError { message: "FlattenTool only works with structs that have named fields".to_string() },
        ),
        _ => Err(MacroError { message: "FlattenTool can only be derived for structs".to_string() }),
    }
}

/// The constructor that `#[derive(FlattenTool)]` plans takes exactly the
/// fields that `extract_struct_fields` reads, in order; and both refuse
/// what is not a struct with named fields.
pub proof fn lemma_plan_matches_fields(input: DeriveInputModel)
    ensures
        struct_fields(input) matches Ok(v) ==> flatten_plan(input) matches Ok(p) && p.params.map_values(
            |q: (Seq<char>, Seq<char>)| q.0,
        ) == v.map_values(|f: FlattenedFieldView| f.name) && p.body == construction(
            "Self"@,
            v.map_values(|f: FlattenedFieldView| f.name),
        ),
        flatten_plan(input) is Err ==> struct_fields(input) is Err,
{
    if let Ok(v) = struct_fields(input) {
        if let DataModel::Struct(FieldsModel::Named(fields)) = input.data {
            let p = flatten_plan(input)->Ok_0;
            assert(p.params.map_values(|q: (Seq<char>, Seq<char>)| q.0) =~= v.map_values(
                |f: FlattenedFieldView| f.name,
            ));
            assert(fields_names(fields@) =~= v.map_values(|f: FlattenedFieldView| f.name));
        }
    }
}

/// The planned constructor rebuilds the struct field for field: it takes
/// one parameter per field, in order, named as the field and of the field's
/// type, and its body sets each field from the parameter of that name.
pub proof fn lemma_constructor_rebuilds(input: DeriveInputModel)
    ensures
        flatten_plan(input) matches Ok(p) ==> (input.data matches DataModel::Struct(
            FieldsModel::Named(fields),
        ) && p.params.len() == fields@.len() && (forall|i: int|
            0 <= i < fields@.len() ==> (#[trigger] p.params[i]).0 == field_name(fields@[i]) && p.params[i].1
                == fields@[i].ty_text@) && p.body == construction(
            "Self"@,
            p.params.map_values(|q: (Seq<char>, Seq<char>)| q.0),
        )),
{
    if let Ok(p) = flatten_plan(input) {
        if let DataModel::Struct(FieldsModel::Named(fields)) = input.data {
            assert(p.params.map_values(|q: (Seq<char>, Seq<char>)| q.0) =~= fields_names(fields@));
        }
    }
}

} // verus!
