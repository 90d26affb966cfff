//! A model of the Rust syntax that the macros read: types, attributes,
//! method signatures, impl blocks and struct definitions, holding as plain
//! values what the macros look at.

use vstd::prelude::*;

verus! {

/// A type.
#[derive(Debug, PartialEq, Eq)]
pub enum TypeModel {
    /// A path type, by the identifiers of its segments (`std::string::String`).
    Path(Vec<String>),
    /// A reference type `&T` or `&mut T`.
    Reference(Box<TypeModel>),
    /// Any other type.
    Other,
}

/// A copy of a sequence of strings.
pub fn copy_strings(v: &Vec<String>) -> (r: Vec<String>)
    ensures
        r@ == v@,
{
    let mut out: Vec<String> = Vec::new();
    let mut i: usize = 0;
    while i < v.len()
        invariant
            i <= v@.len(),
            out@ == v@.take(i as int),
        decreases v@.len() - i,
    {
        out.push(v[i].clone());
        proof {
            assert(out@ =~= v@.take(i + 1));
        }
        i = i + 1;
    }
    assert(v@.take(v@.len() as int) =~= v@);
    out
}

/// A type, as mathematical values.
pub ghost enum TypeView {
    Path(Seq<Seq<char>>),
    Reference(Box<TypeView>),
    Other,
}

/// The mathematical value of a type.
pub open spec fn type_view(t: TypeModel) -> TypeView
    decreases t,
{
    match t {
        TypeModel::Path(segs) => TypeView::Path(idents(segs@)),
        TypeModel::Reference(inner) => TypeView::Reference(Box::new(type_view(*inner))),
        TypeModel::Other => TypeView::Other,
    }
}

impl View for TypeModel {
    type V = TypeView;

    open spec fn view(&self) -> TypeView {
        type_view(*self)
    }
}

impl TypeModel {
    /// A copy of this type.
    pub fn duplicate(&self) -> (r: TypeModel)
        ensures
            r@ == self@,
        decreases self,
    {
        match self {
            TypeModel::Path(segs) => TypeModel::Path(copy_strings(segs)),
            TypeModel::Reference(inner) => TypeModel::Reference(Box::new(inner.duplicate())),
            TypeModel::Other => TypeModel::Other,
        }
    }
}

/// What follows the path of an attribute.
#[derive(Debug, Clone, PartialEq, Eq)]
pub enum AttrArgs {
    /// Nothing: `#[path]`.
    Word,
    /// A parenthesized list: `#[path(...)]`, by the text of its tokens.
    List(String),
    /// A value: `#[path = value]`; the value's string where it is a string literal.
    NameValue(Option<String>),
}

/// An attribute.
#[derive(Debug, Clone, PartialEq, Eq)]
pub struct AttrModel {
    /// Whether the attribute's path starts with `::`.
    pub leading_colon: bool,
    /// The identifiers of the attribute's path.
    pub path: Vec<String>,
    pub args: AttrArgs,
}

/// A parameter of a function.
#[derive(Debug, PartialEq, Eq)]
pub enum FnArgModel {
    /// The `self` receiver.
    Receiver,
    /// A typed parameter; `name` is its identifier where the pattern is one.
    Typed { attrs: Vec<AttrModel>, name: Option<String>, ty: TypeModel },
}

/// A function signature.
#[derive(Debug, PartialEq, Eq)]
pub struct SigModel {
    pub ident: String,
    pub is_async: bool,
    pub inputs: Vec<FnArgModel>,
}

/// A method of an impl block.
#[derive(Debug, PartialEq, Eq)]
pub struct MethodModel {
    pub attrs: Vec<AttrModel>,
    pub sig: SigModel,
}

/// An item of an impl block.
#[derive(Debug, PartialEq, Eq)]
pub enum ImplItemModel {
    Fn(MethodModel),
    Other,
}

/// An impl block.
#[derive(Debug, PartialEq, Eq)]
pub struct ImplModel {
    /// Whether it implements a trait (`impl Trait for Type`).
    pub is_trait_impl: bool,
    /// The type it implements.
    pub self_ty: TypeModel,
    pub items: Vec<ImplItemModel>,
}

/// A field of a struct.
#[derive(Debug, PartialEq, Eq)]
pub struct FieldModel {
    pub attrs: Vec<AttrModel>,
    pub ident: Option<String>,
    pub ty: TypeModel,
    /// The source text of the field's type.
    pub ty_text: String,
}

/// The fields of a struct.
#[derive(Debug, PartialEq, Eq)]
pub enum FieldsModel {
    Named(Vec<FieldModel>),
    Unnamed,
    Unit,
}

/// What a derive input defines.
#[derive(Debug, PartialEq, Eq)]
pub enum DataModel {
    Struct(FieldsModel),
    Enum,
    Union,
}

/// The input of a derive macro.
#[derive(Debug, PartialEq, Eq)]
pub struct DeriveInputModel {
    pub ident: String,
    /// The source text of the item's visibility (empty where it is private).
    pub vis: String,
    /// The source text of the item's generic parameters, with their angle
    /// brackets (empty where it has none).
    pub generics: String,
    /// The source text of the item's `where` clause (empty where it has none).
    pub where_clause: String,
    pub data: DataModel,
}

/// An error that a macro reports instead of expanding.
#[derive(Debug, Clone, PartialEq, Eq)]
pub struct MacroError {
    pub message: String,
}

/// The views of a sequence of identifiers.
pub open spec fn idents(v: Seq<String>) -> Seq<Seq<char>> {
    v.map_values(|s: String| s@)
}

/// Whether an attribute's path is the single identifier `name`.
pub open spec fn path_is(attr: AttrModel, name: Seq<char>) -> bool {
    !attr.leading_colon && attr.path@.len() == 1 && attr.path@[0]@ == name
}

/// Whether `attr`'s path is the single identifier `name` (`Path::is_ident`).
pub fn attr_is(attr: &AttrModel, name: &str) -> (b: bool)
    ensures
        b == path_is(*attr, name@),
{
    !attr.leading_colon && attr.path.len() == 1 && crate::text::str_eq(attr.path[0].as_str(), name)
}

/// The string a Rust string literal denotes (`LitStr::value`), for the tokens
/// `tokens` where they are one string literal.
pub uninterp spec fn string_literal_value(tokens: Seq<char>) -> Option<Seq<char>>;

/// Calls `syn::parse_str::<syn::LitStr>` on `tokens` and, where it parses,
/// `LitStr::value`. The contract claims only that the result is a function
/// of the text: the string named `string_literal_value` where the text is
/// one string literal, `None` where syn refuses it. How syn reads escapes
/// and raw strings is left unstated.
#[verifier::external_body]
pub(crate) fn parse_string_literal(tokens: &str) -> (r: Option<String>)
    ensures
        match r {
            Some(s) => string_literal_value(tokens@) == Some(s@),
            None => string_literal_value(tokens@) is None,
        },
{
    match syn::parse_str::<syn::LitStr>(tokens) {
        Ok(lit) => Some(lit.value()),
        Err(_) => None,
    }
}

} // verus!
