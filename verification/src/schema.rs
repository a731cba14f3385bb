//! The schema tree: enums, structs and procedures with their type
//! expressions, each name paired with the place it was written.

use vstd::prelude::*;

verus! {

/// A half-open range of offsets into the source text.
#[derive(Clone, Copy, Debug, PartialEq, Eq)]
pub struct Span {
    pub start: usize,
    pub end: usize,
}

/// A name together with the place where it was written.
#[derive(Debug, PartialEq, Eq)]
pub struct Identifier {
    pub name: String,
    pub span: Span,
}

impl Clone for Identifier {
    fn clone(&self) -> (copy: Self)
        ensures
            copy == *self,
    {
        Identifier { name: self.name.clone(), span: self.span }
    }
}

/// The number of bits of an integer type.
#[derive(Clone, Copy, Debug, PartialEq, Eq)]
pub enum IntWidth {
    W8,
    W16,
    W32,
    W64,
}

/// A type as written in a field, a parameter or a return position.
///
/// `Named` refers to an enum or a struct by name only; whether the name is
/// declared is decided during verification.
#[derive(Debug, PartialEq, Eq)]
pub enum TypeExpression {
    /// A fixed-width integer: its width, and whether it is signed.
    FixedInt(IntWidth, bool),
    /// A variable-length encoded unsigned integer of the given width.
    VariableInt(IntWidth),
    Text,
    Array(Box<TypeExpression>),
    Optional(Box<TypeExpression>),
    Named(Identifier),
}

#[derive(Clone, Debug, PartialEq, Eq)]
pub struct EnumVariant {
    pub ident: Identifier,
    /// The tag chosen by the schema's author.
    pub value: i16,
}

#[derive(Clone, Debug, PartialEq, Eq)]
pub struct EnumDeclaration {
    pub ident: Identifier,
    pub variants: Vec<EnumVariant>,
}

#[derive(Debug, PartialEq, Eq)]
pub struct StructField {
    pub ident: Identifier,
    pub kind: TypeExpression,
}

#[derive(Debug, PartialEq, Eq)]
pub struct StructDeclaration {
    pub ident: Identifier,
    pub fields: Vec<StructField>,
}

#[derive(Debug, PartialEq, Eq)]
pub struct ProcedureParam {
    pub ident: Identifier,
    pub kind: TypeExpression,
}

#[derive(Debug, PartialEq, Eq)]
pub struct ProcedureDeclaration {
    pub ident: Identifier,
    pub params: Vec<ProcedureParam>,
    pub return_kind: TypeExpression,
}

/// The text a schema was read from, kept for rendering diagnostics.
#[derive(Clone, Debug, PartialEq, Eq)]
pub struct CodeSource {
    pub name: String,
    pub content: String,
}

/// Every declaration of one interface definition, in the order written.
#[derive(Debug, PartialEq, Eq)]
pub struct Schema {
    pub source: CodeSource,
    pub enums: Vec<EnumDeclaration>,
    pub structs: Vec<StructDeclaration>,
    pub procedures: Vec<ProcedureDeclaration>,
}

/// The names of a sequence of identifiers, in order.
pub open spec fn names(idents: Seq<Identifier>) -> Seq<Seq<char>> {
    idents.map_values(|id: Identifier| id.name@)
}

pub open spec fn variant_idents(variants: Seq<EnumVariant>) -> Seq<Identifier> {
    variants.map_values(|v: EnumVariant| v.ident)
}

pub open spec fn variant_values(variants: Seq<EnumVariant>) -> Seq<i16> {
    variants.map_values(|v: EnumVariant| v.value)
}

pub open spec fn field_idents(fields: Seq<StructField>) -> Seq<Identifier> {
    fields.map_values(|f: StructField| f.ident)
}

pub open spec fn param_idents(params: Seq<ProcedureParam>) -> Seq<Identifier> {
    params.map_values(|p: ProcedureParam| p.ident)
}

pub open spec fn procedure_idents(procedures: Seq<ProcedureDeclaration>) -> Seq<Identifier> {
    procedures.map_values(|p: ProcedureDeclaration| p.ident)
}

/// The identifiers of all enums followed by those of all structs: the one
/// namespace that `Named` types are resolved against.
pub open spec fn type_idents(schema: Schema) -> Seq<Identifier> {
    schema.enums@.map_values(|e: EnumDeclaration| e.ident) + schema.structs@.map_values(
        |s: StructDeclaration| s.ident,
    )
}

/// The identifiers of the variants, in order.
pub fn variant_ident_list(variants: &Vec<EnumVariant>) -> (list: Vec<Identifier>)
    ensures
        list@ == variant_idents(variants@),
{
    let mut list: Vec<Identifier> = Vec::new();
    let mut i: usize = 0;
    while i < variants.len()
        invariant
            i <= variants.len(),
            list@.len() == i,
            forall|k: int| 0 <= k < i ==> list@[k] == variants@[k].ident,
        decreases variants.len() - i,
    {
        list.push(variants[i].ident.clone());
        i += 1;
    }
    assert(list@ =~= variant_idents(variants@));
    list
}

/// The identifiers of the fields, in order.
pub fn field_ident_list(fields: &Vec<StructField>) -> (list: Vec<Identifier>)
    ensures
        list@ == field_idents(fields@),
{
    let mut list: Vec<Identifier> = Vec::new();
    let mut i: usize = 0;
    while i < fields.len()
        invariant
            i <= fields.len(),
            list@.len() == i,
            forall|k: int| 0 <= k < i ==> list@[k] == fields@[k].ident,
        decreases fields.len() - i,
    {
        list.push(fields[i].ident.clone());
        i += 1;
    }
    assert(list@ =~= field_idents(fields@));
    list
}

/// The identifiers of the parameters, in order.
pub fn param_ident_list(params: &Vec<ProcedureParam>) -> (list: Vec<Identifier>)
    ensures
        list@ == param_idents(params@),
{
    let mut list: Vec<Identifier> = Vec::new();
    let mut i: usize = 0;
    while i < params.len()
        invariant
            i <= params.len(),
            list@.len() == i,
            forall|k: int| 0 <= k < i ==> list@[k] == params@[k].ident,
        decreases params.len() - i,
    {
        list.push(params[i].ident.clone());
        i += 1;
    }
    assert(list@ =~= param_idents(params@));
    list
}

/// The identifiers of the procedures, in order.
pub fn procedure_ident_list(procedures: &Vec<ProcedureDeclaration>) -> (list: Vec<Identifier>)
    ensures
        list@ == procedure_idents(procedures@),
{
    let mut list: Vec<Identifier> = Vec::new();
    let mut i: usize = 0;
    while i < procedures.len()
        invariant
            i <= procedures.len(),
            list@.len() == i,
            forall|k: int| 0 <= k < i ==> list@[k] == procedures@[k].ident,
        decreases procedures.len() - i,
    {
        list.push(procedures[i].ident.clone());
        i += 1;
    }
    assert(list@ =~= procedure_idents(procedures@));
    list
}

} // verus!
