//! The backend that emits Rust bindings.
//!
//! An enum becomes a `u16`-backed enum whose decoder reads a two-byte tag and
//! answers an unknown tag with an error; a struct, and the parameter record
//! of a procedure, becomes a record whose fields are decoded and encoded in
//! declaration order, the first failing field ending the decode.

use vstd::prelude::*;
use vstd::string::*;
use crate::generator::{enum_texts, procedure_texts, schema_text, struct_texts, CodeGenerator};
use crate::schema::{
    field_ident_list, field_idents, param_ident_list, param_idents, EnumDeclaration, EnumVariant,
    Identifier, IntWidth, ProcedureDeclaration, ProcedureParam, Schema, StructDeclaration,
    StructField, TypeExpression,
};
use crate::text::{decimal_text, join, join_lines, push_decimal, views};

verus! {

pub struct RustCodeGenerator;

/// The Rust name of an integer type.
pub open spec fn int_text(width: IntWidth, signed: bool) -> Seq<char> {
    match (width, signed) {
        (IntWidth::W8, true) => "i8"@,
        (IntWidth::W16, true) => "i16"@,
        (IntWidth::W32, true) => "i32"@,
        (IntWidth::W64, true) => "i64"@,
        (IntWidth::W8, false) => "u8"@,
        (IntWidth::W16, false) => "u16"@,
        (IntWidth::W32, false) => "u32"@,
        (IntWidth::W64, false) => "u64"@,
    }
}

/// The Rust type whose codec a schema type is bound to.
pub open spec fn type_text(kind: TypeExpression) -> Seq<char>
    decreases kind,
{
    match kind {
        TypeExpression::FixedInt(width, signed) => int_text(width, signed),
        TypeExpression::VariableInt(width) => "::olympus_net_common::Variable<"@ + int_text(
            width,
            false,
        ) + ">"@,
        TypeExpression::Text => "String"@,
        TypeExpression::Array(inner) => "Vec<"@ + type_text(*inner) + ">"@,
        TypeExpression::Optional(inner) => "Option<"@ + type_text(*inner) + ">"@,
        TypeExpression::Named(id) => id.name@,
    }
}

pub open spec fn variant_decl_line(variant: EnumVariant) -> Seq<char> {
    "\t"@ + variant.ident.name@ + " = "@ + decimal_text(variant.value as int) + ","@
}

pub open spec fn variant_decl_lines(variants: Seq<EnumVariant>) -> Seq<Seq<char>> {
    variants.map_values(|v: EnumVariant| variant_decl_line(v))
}

pub open spec fn variant_branch_line(variant: EnumVariant) -> Seq<char> {
    "\t\t\t"@ + decimal_text(variant.value as int) + " => Ok(Self::"@ + variant.ident.name@ + "),"@
}

pub open spec fn variant_branch_lines(variants: Seq<EnumVariant>) -> Seq<Seq<char>> {
    variants.map_values(|v: EnumVariant| variant_branch_line(v))
}

pub open spec fn enum_decl_text(parsed: EnumDeclaration) -> Seq<char> {
    "\n#[derive(Debug, Clone, Copy)]\n#[repr(u16)]\npub enum "@ + parsed.ident.name@ + " {\n"@
        + join_lines(variant_decl_lines(parsed.variants@)) + "\n}\n"@
}

pub open spec fn enum_input_impl_text(parsed: EnumDeclaration) -> Seq<char> {
    "\nimpl ::olympus_net_common::ProcedureInput for "@ + parsed.ident.name@
        + " {\n    fn deserialize(input: &mut ::olympus_net_common::bytes::BytesMut) -> ::olympus_net_common::Result<Self> {\n        use ::olympus_net_common::bytes::Buf;\n        if input.remaining() < ::std::mem::size_of::<u16>() {\n            return Err(::olympus_net_common::error!(\"truncated tag\"));\n        }\n        let tag = input.get_u16();\n        match tag {\n"@
        + join_lines(variant_branch_lines(parsed.variants@))
        + "\n            _ => Err(::olympus_net_common::error!(\"invalid tag: {tag}\")),\n        }\n    }\n}\n"@
}

pub open spec fn enum_output_impl_text(parsed: EnumDeclaration) -> Seq<char> {
    "\nimpl ::olympus_net_common::ProcedureOutput for "@ + parsed.ident.name@
        + " {\n    fn serialize(&self) -> ::olympus_net_common::Result<::olympus_net_common::bytes::BytesMut> {\n        use ::olympus_net_common::bytes::BufMut;\n        let mut out = ::olympus_net_common::bytes::BytesMut::with_capacity(::std::mem::size_of::<u16>());\n        out.put_u16(*self as _);\n        Ok(out)\n    }\n}\n"@
}

pub open spec fn field_decl_line(name: Seq<char>, kind: TypeExpression) -> Seq<char> {
    "\tpub "@ + name + ": "@ + type_text(kind) + ","@
}

pub open spec fn struct_field_lines(fields: Seq<StructField>) -> Seq<Seq<char>> {
    fields.map_values(|f: StructField| field_decl_line(f.ident.name@, f.kind))
}

pub open spec fn param_field_lines(params: Seq<ProcedureParam>) -> Seq<Seq<char>> {
    params.map_values(|p: ProcedureParam| field_decl_line(p.ident.name@, p.kind))
}

pub open spec fn field_input_line(ident: Identifier) -> Seq<char> {
    "\t\t\t"@ + ident.name@ + ": ::olympus_net_common::ProcedureInput::deserialize(input)?,"@
}

pub open spec fn field_input_lines(idents: Seq<Identifier>) -> Seq<Seq<char>> {
    idents.map_values(|id: Identifier| field_input_line(id))
}

pub open spec fn field_output_line(ident: Identifier) -> Seq<char> {
    "\t\tout.extend(self."@ + ident.name@ + ".serialize()?);"@
}

pub open spec fn field_output_lines(idents: Seq<Identifier>) -> Seq<Seq<char>> {
    idents.map_values(|id: Identifier| field_output_line(id))
}

/// The declaration of a record with the given name and field lines.
pub open spec fn record_decl_text(name: Seq<char>, lines: Seq<Seq<char>>) -> Seq<char> {
    "\n#[derive(Debug, Clone)]\npub struct "@ + name + " {\n"@ + join_lines(lines) + "\n}\n"@
}

/// The decoder of a record: one decode per field, in order, from one input.
pub open spec fn record_input_impl_text(name: Seq<char>, idents: Seq<Identifier>) -> Seq<char> {
    "\nimpl ::olympus_net_common::ProcedureInput for "@ + name
        + " {\n    fn deserialize(input: &mut ::olympus_net_common::bytes::BytesMut) -> ::olympus_net_common::Result<Self> {\n        Ok(Self {\n"@
        + join_lines(field_input_lines(idents)) + "\n        })\n    }\n}\n"@
}

/// The encoder of a record: one encode per field, in order, into one output.
pub open spec fn record_output_impl_text(name: Seq<char>, idents: Seq<Identifier>) -> Seq<char> {
    "\nimpl ::olympus_net_common::ProcedureOutput for "@ + name
        + " {\n    fn serialize(&self) -> ::olympus_net_common::Result<::olympus_net_common::bytes::BytesMut> {\n        let mut out = ::olympus_net_common::bytes::BytesMut::new();\n"@
        + join_lines(field_output_lines(idents)) + "\n        Ok(out)\n    }\n}\n"@
}

/// The name of the parameter record of a procedure.
pub open spec fn params_record_name(parsed: ProcedureDeclaration) -> Seq<char> {
    parsed.ident.name@ + "Params"@
}

impl RustCodeGenerator {
    fn int_to_rust(width: &IntWidth, signed: bool) -> (text: &'static str)
        ensures
            text@ == int_text(*width, signed),
    {
        match width {
            IntWidth::W8 => if signed {
                "i8"
            } else {
                "u8"
            },
            IntWidth::W16 => if signed {
                "i16"
            } else {
                "u16"
            },
            IntWidth::W32 => if signed {
                "i32"
            } else {
                "u32"
            },
            IntWidth::W64 => if signed {
                "i64"
            } else {
                "u64"
            },
        }
    }

    /// The Rust type for a schema type.
    pub fn parsed_type_kind_to_rust(kind: &TypeExpression) -> (text: String)
        ensures
            text@ == type_text(*kind),
        decreases kind,
    {
        match kind {
            TypeExpression::FixedInt(width, signed) => String::from_str(
                Self::int_to_rust(width, *signed),
            ),
            TypeExpression::VariableInt(width) => {
                let mut text = String::from_str("::olympus_net_common::Variable<");
                text.append(Self::int_to_rust(width, false));
                text.append(">");
                text
            },
            TypeExpression::Text => String::from_str("String"),
            TypeExpression::Array(inner) => {
                let element = Self::parsed_type_kind_to_rust(inner);
                let mut text = String::from_str("Vec<");
                text.append(element.as_str());
                text.append(">");
                text
            },
            TypeExpression::Optional(inner) => {
                let element = Self::parsed_type_kind_to_rust(inner);
                let mut text = String::from_str("Option<");
                text.append(element.as_str());
                text.append(">");
                text
            },
            TypeExpression::Named(id) => id.name.clone(),
        }
    }

    fn variant_decl_line_list(variants: &Vec<EnumVariant>) -> (lines: Vec<String>)
        ensures
            views(lines@) == variant_decl_lines(variants@),
    {
        let mut lines: Vec<String> = Vec::new();
        let mut i: usize = 0;
        while i < variants.len()
            invariant
                i <= variants.len(),
                lines@.len() == i,
                forall|k: int| 0 <= k < i ==> (#[trigger] lines@[k])@ == variant_decl_line(variants@[k]),
            decreases variants.len() - i,
        {
            let mut line = String::from_str("\t");
            line.append(variants[i].ident.name.as_str());
            line.append(" = ");
            push_decimal(&mut line, variants[i].value as i32);
            line.append(",");
            lines.push(line);
            i += 1;
        }
        assert(views(lines@) =~= variant_decl_lines(variants@));
        lines
    }

    fn variant_branch_line_list(variants: &Vec<EnumVariant>) -> (lines: Vec<String>)
        ensures
            views(lines@) == variant_branch_lines(variants@),
    {
        let mut lines: Vec<String> = Vec::new();
        let mut i: usize = 0;
        while i < variants.len()
            invariant
                i <= variants.len(),
                lines@.len() == i,
                forall|k: int|
                    0 <= k < i ==> (#[trigger] lines@[k])@ == variant_branch_line(variants@[k]),
            decreases variants.len() - i,
        {
            let mut line = String::from_str("\t\t\t");
            push_decimal(&mut line, variants[i].value as i32);
            line.append(" => Ok(Self::");
            line.append(variants[i].ident.name.as_str());
            line.append("),");
            lines.push(line);
            i += 1;
        }
        assert(views(lines@) =~= variant_branch_lines(variants@));
        lines
    }

    fn field_decl_line_text(name: &String, kind: &TypeExpression) -> (line: String)
        ensures
            line@ == field_decl_line(name@, *kind),
    {
        let kind_text = Self::parsed_type_kind_to_rust(kind);
        let mut line = String::from_str("\tpub ");
        line.append(name.as_str());
        line.append(": ");
        line.append(kind_text.as_str());
        line.append(",");
        line
    }

    fn struct_field_line_list(fields: &Vec<StructField>) -> (lines: Vec<String>)
        ensures
            views(lines@) == struct_field_lines(fields@),
    {
        let mut lines: Vec<String> = Vec::new();
        let mut i: usize = 0;
        while i < fields.len()
            invariant
                i <= fields.len(),
                lines@.len() == i,
                forall|k: int|
                    0 <= k < i ==> (#[trigger] lines@[k])@ == field_decl_line(
                        fields@[k].ident.name@,
                        fields@[k].kind,
                    ),
            decreases fields.len() - i,
        {
            lines.push(Self::field_decl_line_text(&fields[i].ident.name, &fields[i].kind));
            i += 1;
        }
        assert(views(lines@) =~= struct_field_lines(fields@));
        lines
    }

    fn param_field_line_list(params: &Vec<ProcedureParam>) -> (lines: Vec<String>)
        ensures
            views(lines@) == param_field_lines(params@),
    {
        let mut lines: Vec<String> = Vec::new();
        let mut i: usize = 0;
        while i < params.len()
            invariant
                i <= params.len(),
                lines@.len() == i,
                forall|k: int|
                    0 <= k < i ==> (#[trigger] lines@[k])@ == field_decl_line(
                        params@[k].ident.name@,
                        params@[k].kind,
                    ),
            decreases params.len() - i,
        {
            lines.push(Self::field_decl_line_text(&params[i].ident.name, &params[i].kind));
            i += 1;
        }
        assert(views(lines@) =~= param_field_lines(params@));
        lines
    }

    /// Appends the declaration of the enum.
    pub fn generate_enum_decl(parsed: &EnumDeclaration, output: &mut String)
        ensures
            final(output)@ == old(output)@ + enum_decl_text(*parsed),
    {
        let variants = join(&Self::variant_decl_line_list(&parsed.variants));
        let mut text = String::from_str(
            "\n#[derive(Debug, Clone, Copy)]\n#[repr(u16)]\npub enum ",
        );
        text.append(parsed.ident.name.as_str());
        text.append(" {\n");
        text.append(variants.as_str());
        text.append("\n}\n");
        output.append(text.as_str());
    }

    /// Appends the decoder of the enum: two bytes are read as the tag, each
    /// declared value answers with its variant, any other tag with an error.
    pub fn generate_enum_input_impl(parsed: &EnumDeclaration, output: &mut String)
        ensures
            final(output)@ == old(output)@ + enum_input_impl_text(*parsed),
    {
        let match_branches = join(&Self::variant_branch_line_list(&parsed.variants));
        let mut text = String::from_str("\nimpl ::olympus_net_common::ProcedureInput for ");
        text.append(parsed.ident.name.as_str());
        text.append(
            " {\n    fn deserialize(input: &mut ::olympus_net_common::bytes::BytesMut) -> ::olympus_net_common::Result<Self> {\n        use ::olympus_net_common::bytes::Buf;\n        if input.remaining() < ::std::mem::size_of::<u16>() {\n            return Err(::olympus_net_common::error!(\"truncated tag\"));\n        }\n        let tag = input.get_u16();\n        match tag {\n",
        );
        text.append(match_branches.as_str());
        text.append(
            "\n            _ => Err(::olympus_net_common::error!(\"invalid tag: {tag}\")),\n        }\n    }\n}\n",
        );
        output.append(text.as_str());
    }

    /// Appends the encoder of the enum: the declared value of the variant is
    /// written as a two-byte tag.
    pub fn generate_enum_output_impl(parsed: &EnumDeclaration, output: &mut String)
        ensures
            final(output)@ == old(output)@ + enum_output_impl_text(*parsed),
    {
        let mut text = String::from_str("\nimpl ::olympus_net_common::ProcedureOutput for ");
        text.append(parsed.ident.name.as_str());
        text.append(
            " {\n    fn serialize(&self) -> ::olympus_net_common::Result<::olympus_net_common::bytes::BytesMut> {\n        use ::olympus_net_common::bytes::BufMut;\n        let mut out = ::olympus_net_common::bytes::BytesMut::with_capacity(::std::mem::size_of::<u16>());\n        out.put_u16(*self as _);\n        Ok(out)\n    }\n}\n",
        );
        output.append(text.as_str());
    }

    fn generate_record_decl(name: &str, lines: &Vec<String>, output: &mut String)
        ensures
            final(output)@ == old(output)@ + record_decl_text(name@, views(lines@)),
    {
        let fields = join(lines);
        let mut text = String::from_str("\n#[derive(Debug, Clone)]\npub struct ");
        text.append(name);
        text.append(" {\n");
        text.append(fields.as_str());
        text.append("\n}\n");
        output.append(text.as_str());
    }

    /// Appends the declaration of the struct, its fields in declaration order.
    pub fn generate_struct_decl(parsed: &StructDeclaration, output: &mut String)
        ensures
            final(output)@ == old(output)@ + record_decl_text(
                parsed.ident.name@,
                struct_field_lines(parsed.fields@),
            ),
    {
        let lines = Self::struct_field_line_list(&parsed.fields);
        Self::generate_record_decl(parsed.ident.name.as_str(), &lines, output);
    }

    /// Appends the decoder of the record named `ident` with the given fields.
    pub fn generate_struct_input_impl(ident: &str, fields: &Vec<Identifier>, output: &mut String)
        ensures
            final(output)@ == old(output)@ + record_input_impl_text(ident@, fields@),
    {
        let mut lines: Vec<String> = Vec::new();
        let mut i: usize = 0;
        while i < fields.len()
            invariant
                i <= fields.len(),
                lines@.len() == i,
                forall|k: int| 0 <= k < i ==> (#[trigger] lines@[k])@ == field_input_line(fields@[k]),
            decreases fields.len() - i,
        {
            let mut line = String::from_str("\t\t\t");
            line.append(fields[i].name.as_str());
            line.append(": ::olympus_net_common::ProcedureInput::deserialize(input)?,");
            lines.push(line);
            i += 1;
        }
        assert(views(lines@) =~= field_input_lines(fields@));
        let joined = join(&lines);
        let mut text = String::from_str("\nimpl ::olympus_net_common::ProcedureInput for ");
        text.append(ident);
        text.append(
            " {\n    fn deserialize(input: &mut ::olympus_net_common::bytes::BytesMut) -> ::olympus_net_common::Result<Self> {\n        Ok(Self {\n",
        );
        text.append(joined.as_str());
        text.append("\n        })\n    }\n}\n");
        output.append(text.as_str());
    }

    /// Appends the encoder of the record named `ident` with the given fields.
    pub fn generate_struct_output_impl(ident: &str, fields: &Vec<Identifier>, output: &mut String)
        ensures
            final(output)@ == old(output)@ + record_output_impl_text(ident@, fields@),
    {
        let mut lines: Vec<String> = Vec::new();
        let mut i: usize = 0;
        while i < fields.len()
            invariant
                i <= fields.len(),
                lines@.len() == i,
                forall|k: int| 0 <= k < i ==> (#[trigger] lines@[k])@ == field_output_line(fields@[k]),
            decreases fields.len() - i,
        {
            let mut line = String::from_str("\t\tout.extend(self.");
            line.append(fields[i].name.as_str());
            line.append(".serialize()?);");
            lines.push(line);
            i += 1;
        }
        assert(views(lines@) =~= field_output_lines(fields@));
        let joined = join(&lines);
        let mut text = String::from_str("\nimpl ::olympus_net_common::ProcedureOutput for ");
        text.append(ident);
        text.append(
            " {\n    fn serialize(&self) -> ::olympus_net_common::Result<::olympus_net_common::bytes::BytesMut> {\n        let mut out = ::olympus_net_common::bytes::BytesMut::new();\n",
        );
        text.append(joined.as_str());
        text.append("\n        Ok(out)\n    }\n}\n");
        output.append(text.as_str());
    }
}

impl CodeGenerator for RustCodeGenerator {
    open spec fn file_header_text(&self) -> Seq<char> {
        "#![allow(unused_qualifications)]\n"@
    }

    /// The declaration of the enum, its decoder and its encoder.
    open spec fn enum_text(&self, parsed: EnumDeclaration) -> Seq<char> {
        enum_decl_text(parsed) + enum_input_impl_text(parsed) + enum_output_impl_text(parsed)
    }

    /// The declaration of the struct, its decoder and its encoder.
    open spec fn struct_text(&self, parsed: StructDeclaration) -> Seq<char> {
        record_decl_text(parsed.ident.name@, struct_field_lines(parsed.fields@))
            + record_input_impl_text(parsed.ident.name@, field_idents(parsed.fields@))
            + record_output_impl_text(parsed.ident.name@, field_idents(parsed.fields@))
    }

    /// The record that holds the parameters of the procedure, with its
    /// decoder and its encoder.
    open spec fn procedure_params_text(&self, parsed: ProcedureDeclaration) -> Seq<char> {
        record_decl_text(params_record_name(parsed), param_field_lines(parsed.params@))
            + record_input_impl_text(params_record_name(parsed), param_idents(parsed.params@))
            + record_output_impl_text(params_record_name(parsed), param_idents(parsed.params@))
    }

    fn generate_file_header(&self, output: &mut String) {
        output.append("#![allow(unused_qualifications)]\n");
    }

    fn generate_enum(&self, parsed: &EnumDeclaration, output: &mut String) {
        Self::generate_enum_decl(parsed, output);
        Self::generate_enum_input_impl(parsed, output);
        Self::generate_enum_output_impl(parsed, output);
        assert(output@ =~= old(output)@ + self.enum_text(*parsed));
    }

    fn generate_struct(&self, parsed: &StructDeclaration, output: &mut String) {
        let field_idents = field_ident_list(&parsed.fields);
        Self::generate_struct_decl(parsed, output);
        Self::generate_struct_input_impl(parsed.ident.name.as_str(), &field_idents, output);
        Self::generate_struct_output_impl(parsed.ident.name.as_str(), &field_idents, output);
        assert(output@ =~= old(output)@ + self.struct_text(*parsed));
    }

    fn generate_procedure_params(&self, parsed: &ProcedureDeclaration, output: &mut String) {
        let mut struct_ident = parsed.ident.name.clone();
        struct_ident.append("Params");
        let lines = Self::param_field_line_list(&parsed.params);
        Self::generate_record_decl(struct_ident.as_str(), &lines, output);
        let param_idents = param_ident_list(&parsed.params);
        Self::generate_struct_input_impl(struct_ident.as_str(), &param_idents, output);
        Self::generate_struct_output_impl(struct_ident.as_str(), &param_idents, output);
        assert(output@ =~= old(output)@ + self.procedure_params_text(*parsed));
    }
}


// ---------------------------------------------------------------------------
// What the text depends on
// ---------------------------------------------------------------------------

/// Two types are written alike: the same shape, the same widths and signs,
/// and the same names, wherever those were written.
pub open spec fn same_type(a: TypeExpression, b: TypeExpression) -> bool
    decreases a,
{
    match (a, b) {
        (TypeExpression::FixedInt(w1, s1), TypeExpression::FixedInt(w2, s2)) => w1 == w2 && s1
            == s2,
        (TypeExpression::VariableInt(w1), TypeExpression::VariableInt(w2)) => w1 == w2,
        (TypeExpression::Text, TypeExpression::Text) => true,
        (TypeExpression::Array(x), TypeExpression::Array(y)) => same_type(*x, *y),
        (TypeExpression::Optional(x), TypeExpression::Optional(y)) => same_type(*x, *y),
        (TypeExpression::Named(x), TypeExpression::Named(y)) => x.name@ == y.name@,
        _ => false,
    }
}

/// Two enums declare the same name and the same variants with the same
/// values, in the same order.
pub open spec fn same_enum(a: EnumDeclaration, b: EnumDeclaration) -> bool {
    &&& a.ident.name@ == b.ident.name@
    &&& a.variants@.len() == b.variants@.len()
    &&& forall|i: int|
        0 <= i < a.variants@.len() ==> (#[trigger] a.variants@[i]).ident.name@
            == b.variants@[i].ident.name@ && a.variants@[i].value == b.variants@[i].value
}

/// Two structs declare the same name and the same fields with the same
/// types, in the same order.
pub open spec fn same_struct(a: StructDeclaration, b: StructDeclaration) -> bool {
    &&& a.ident.name@ == b.ident.name@
    &&& a.fields@.len() == b.fields@.len()
    &&& forall|i: int|
        0 <= i < a.fields@.len() ==> (#[trigger] a.fields@[i]).ident.name@
            == b.fields@[i].ident.name@ && same_type(a.fields@[i].kind, b.fields@[i].kind)
}

/// Two procedures declare the same name and the same parameters with the
/// same types, in the same order.
pub open spec fn same_params(a: ProcedureDeclaration, b: ProcedureDeclaration) -> bool {
    &&& a.ident.name@ == b.ident.name@
    &&& a.params@.len() == b.params@.len()
    &&& forall|i: int|
        0 <= i < a.params@.len() ==> (#[trigger] a.params@[i]).ident.name@
            == b.params@[i].ident.name@ && same_type(a.params@[i].kind, b.params@[i].kind)
}

/// The struct spells out the parameter record of the procedure: it carries
/// the record's name, and its fields are the parameters.
pub open spec fn is_params_record(record: StructDeclaration, parsed: ProcedureDeclaration) -> bool {
    &&& record.ident.name@ == params_record_name(parsed)
    &&& record.fields@.len() == parsed.params@.len()
    &&& forall|i: int|
        0 <= i < record.fields@.len() ==> (#[trigger] record.fields@[i]).ident.name@
            == parsed.params@[i].ident.name@ && same_type(
            record.fields@[i].kind,
            parsed.params@[i].kind,
        )
}

/// Types that are written alike are bound to the same Rust type.
pub proof fn lemma_same_type_text(a: TypeExpression, b: TypeExpression)
    requires
        same_type(a, b),
    ensures
        type_text(a) == type_text(b),
    decreases a,
{
    match (a, b) {
        (TypeExpression::Array(x), TypeExpression::Array(y)) => lemma_same_type_text(*x, *y),
        (TypeExpression::Optional(x), TypeExpression::Optional(y)) => lemma_same_type_text(*x, *y),
        _ => {},
    }
}

/// The bindings of an enum depend on its name and on the names and values of
/// its variants, and on nothing else.
pub proof fn lemma_same_enum_text(a: EnumDeclaration, b: EnumDeclaration)
    requires
        same_enum(a, b),
    ensures
        RustCodeGenerator.enum_text(a) == RustCodeGenerator.enum_text(b),
{
    assert(variant_decl_lines(a.variants@) =~= variant_decl_lines(b.variants@));
    assert(variant_branch_lines(a.variants@) =~= variant_branch_lines(b.variants@));
}

proof fn lemma_same_record_text(
    name_a: Seq<char>,
    lines_a: Seq<Seq<char>>,
    idents_a: Seq<Identifier>,
    name_b: Seq<char>,
    lines_b: Seq<Seq<char>>,
    idents_b: Seq<Identifier>,
)
    requires
        name_a == name_b,
        lines_a == lines_b,
        idents_a.len() == idents_b.len(),
        forall|i: int| 0 <= i < idents_a.len() ==> (#[trigger] idents_a[i]).name@ == idents_b[i].name@,
    ensures
        record_decl_text(name_a, lines_a) + record_input_impl_text(name_a, idents_a)
            + record_output_impl_text(name_a, idents_a) == record_decl_text(name_b, lines_b)
            + record_input_impl_text(name_b, idents_b) + record_output_impl_text(name_b, idents_b),
{
    assert(field_input_lines(idents_a) =~= field_input_lines(idents_b));
    assert(field_output_lines(idents_a) =~= field_output_lines(idents_b));
}

/// The bindings of a struct depend on its name and on the names and types of
/// its fields, and on nothing else.
pub proof fn lemma_same_struct_text(a: StructDeclaration, b: StructDeclaration)
    requires
        same_struct(a, b),
    ensures
        RustCodeGenerator.struct_text(a) == RustCodeGenerator.struct_text(b),
{
    assert forall|i: int| 0 <= i < a.fields@.len() implies type_text(
        (#[trigger] a.fields@[i]).kind,
    ) == type_text(b.fields@[i].kind) by {
        lemma_same_type_text(a.fields@[i].kind, b.fields@[i].kind);
    }
    assert(struct_field_lines(a.fields@) =~= struct_field_lines(b.fields@));
    lemma_same_record_text(
        a.ident.name@,
        struct_field_lines(a.fields@),
        field_idents(a.fields@),
        b.ident.name@,
        struct_field_lines(b.fields@),
        field_idents(b.fields@),
    );
}

/// The parameter record of a procedure depends on the procedure's name and
/// on the names and types of its parameters, and on nothing else.
pub proof fn lemma_same_params_text(a: ProcedureDeclaration, b: ProcedureDeclaration)
    requires
        same_params(a, b),
    ensures
        RustCodeGenerator.procedure_params_text(a) == RustCodeGenerator.procedure_params_text(b),
{
    assert forall|i: int| 0 <= i < a.params@.len() implies type_text(
        (#[trigger] a.params@[i]).kind,
    ) == type_text(b.params@[i].kind) by {
        lemma_same_type_text(a.params@[i].kind, b.params@[i].kind);
    }
    assert(param_field_lines(a.params@) =~= param_field_lines(b.params@));
    lemma_same_record_text(
        params_record_name(a),
        param_field_lines(a.params@),
        param_idents(a.params@),
        params_record_name(b),
        param_field_lines(b.params@),
        param_idents(b.params@),
    );
}

/// The parameter record of a procedure is emitted exactly as the struct that
/// spells it out would be.
pub proof fn lemma_params_record_is_struct(record: StructDeclaration, parsed: ProcedureDeclaration)
    requires
        is_params_record(record, parsed),
    ensures
        RustCodeGenerator.procedure_params_text(parsed) == RustCodeGenerator.struct_text(record),
{
    assert forall|i: int| 0 <= i < record.fields@.len() implies type_text(
        (#[trigger] record.fields@[i]).kind,
    ) == type_text(parsed.params@[i].kind) by {
        lemma_same_type_text(record.fields@[i].kind, parsed.params@[i].kind);
    }
    assert(struct_field_lines(record.fields@) =~= param_field_lines(parsed.params@));
    lemma_same_record_text(
        record.ident.name@,
        struct_field_lines(record.fields@),
        field_idents(record.fields@),
        params_record_name(parsed),
        param_field_lines(parsed.params@),
        param_idents(parsed.params@),
    );
}

/// Two schemas declare the same enums, structs and procedures, in the same
/// order.
pub open spec fn same_declarations(a: Schema, b: Schema) -> bool {
    &&& a.enums@.len() == b.enums@.len()
    &&& forall|i: int| 0 <= i < a.enums@.len() ==> same_enum(#[trigger] a.enums@[i], b.enums@[i])
    &&& a.structs@.len() == b.structs@.len()
    &&& forall|i: int|
        0 <= i < a.structs@.len() ==> same_struct(#[trigger] a.structs@[i], b.structs@[i])
    &&& a.procedures@.len() == b.procedures@.len()
    &&& forall|i: int|
        0 <= i < a.procedures@.len() ==> same_params(
            #[trigger] a.procedures@[i],
            b.procedures@[i],
        )
}

/// Generation is deterministic: the generated text is a function of what the
/// schema declares. Two schemas that declare the same things generate the
/// same text, whatever their source and wherever their names were written.
pub proof fn lemma_generation_deterministic(a: Schema, b: Schema)
    requires
        same_declarations(a, b),
    ensures
        schema_text(&RustCodeGenerator, a) == schema_text(&RustCodeGenerator, b),
{
    let g = &RustCodeGenerator;
    assert forall|i: int| 0 <= i < a.enums@.len() implies g.enum_text(#[trigger] a.enums@[i])
        == g.enum_text(b.enums@[i]) by {
        lemma_same_enum_text(a.enums@[i], b.enums@[i]);
    }
    assert(enum_texts(g, a.enums@) =~= enum_texts(g, b.enums@));
    assert forall|i: int| 0 <= i < a.structs@.len() implies g.struct_text(
        #[trigger] a.structs@[i],
    ) == g.struct_text(b.structs@[i]) by {
        lemma_same_struct_text(a.structs@[i], b.structs@[i]);
    }
    assert(struct_texts(g, a.structs@) =~= struct_texts(g, b.structs@));
    assert forall|i: int| 0 <= i < a.procedures@.len() implies g.procedure_params_text(
        #[trigger] a.procedures@[i],
    ) == g.procedure_params_text(b.procedures@[i]) by {
        lemma_same_params_text(a.procedures@[i], b.procedures@[i]);
    }
    assert(procedure_texts(g, a.procedures@) =~= procedure_texts(g, b.procedures@));
}

} // verus!
