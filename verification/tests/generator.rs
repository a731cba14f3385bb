use olympus::compiler::compile;
use olympus::diagnostics::SemanticErrorKind;
use olympus::generator::rust::RustCodeGenerator;
use olympus::generator::{generate, CodeGenerator};
use olympus::schema::{
    CodeSource, EnumDeclaration, EnumVariant, Identifier, IntWidth, ProcedureDeclaration,
    ProcedureParam, Schema, Span, StructDeclaration, StructField, TypeExpression,
};

fn name(text: &str) -> Identifier {
    Identifier { name: text.to_string(), span: Span { start: 0, end: text.len() } }
}

fn named_type(text: &str) -> TypeExpression {
    TypeExpression::Named(name(text))
}

fn array_of(inner: TypeExpression) -> TypeExpression {
    TypeExpression::Array(Box::new(inner))
}

fn optional_of(inner: TypeExpression) -> TypeExpression {
    TypeExpression::Optional(Box::new(inner))
}

fn action() -> EnumDeclaration {
    EnumDeclaration {
        ident: name("Action"),
        variants: vec![
            EnumVariant { ident: name("Delete"), value: 1 },
            EnumVariant { ident: name("SecureDelete"), value: 2 },
            EnumVariant { ident: name("Encrypt"), value: 3 },
        ],
    }
}

fn file() -> StructDeclaration {
    StructDeclaration {
        ident: name("File"),
        fields: vec![
            StructField { ident: name("path"), kind: TypeExpression::Text },
            StructField { ident: name("size"), kind: TypeExpression::VariableInt(IntWidth::W64) },
            StructField {
                ident: name("content"),
                kind: array_of(TypeExpression::FixedInt(IntWidth::W8, false)),
            },
        ],
    }
}

fn delete_file_params() -> StructDeclaration {
    StructDeclaration {
        ident: name("DeleteFileParams"),
        fields: vec![StructField { ident: name("path"), kind: TypeExpression::Text }],
    }
}

fn get_file() -> ProcedureDeclaration {
    ProcedureDeclaration {
        ident: name("GetFile"),
        params: vec![
            ProcedureParam { ident: name("path"), kind: TypeExpression::Text },
            ProcedureParam { ident: name("after_action"), kind: optional_of(named_type("Action")) },
        ],
        return_kind: named_type("File"),
    }
}

fn schema_of(
    enums: Vec<EnumDeclaration>,
    structs: Vec<StructDeclaration>,
    procedures: Vec<ProcedureDeclaration>,
) -> Schema {
    Schema {
        source: CodeSource { name: "service".to_string(), content: String::new() },
        enums,
        structs,
        procedures,
    }
}

const HEADER: &str = "#![allow(unused_qualifications)]\n";

const ACTION_DECL: &str = "\n#[derive(Debug, Clone, Copy)]\n#[repr(u16)]\npub enum Action {\n\tDelete = 1,\n\tSecureDelete = 2,\n\tEncrypt = 3,\n}\n";

const ACTION_INPUT: &str = "\nimpl ::olympus_net_common::ProcedureInput for Action {\n    fn deserialize(input: &mut ::olympus_net_common::bytes::BytesMut) -> ::olympus_net_common::Result<Self> {\n        use ::olympus_net_common::bytes::Buf;\n        if input.remaining() < ::std::mem::size_of::<u16>() {\n            return Err(::olympus_net_common::error!(\"truncated tag\"));\n        }\n        let tag = input.get_u16();\n        match tag {\n\t\t\t1 => Ok(Self::Delete),\n\t\t\t2 => Ok(Self::SecureDelete),\n\t\t\t3 => Ok(Self::Encrypt),\n            _ => Err(::olympus_net_common::error!(\"invalid tag: {tag}\")),\n        }\n    }\n}\n";

const ACTION_OUTPUT: &str = "\nimpl ::olympus_net_common::ProcedureOutput for Action {\n    fn serialize(&self) -> ::olympus_net_common::Result<::olympus_net_common::bytes::BytesMut> {\n        use ::olympus_net_common::bytes::BufMut;\n        let mut out = ::olympus_net_common::bytes::BytesMut::with_capacity(::std::mem::size_of::<u16>());\n        out.put_u16(*self as _);\n        Ok(out)\n    }\n}\n";

const FILE_TEXT: &str = "\n#[derive(Debug, Clone)]\npub struct File {\n\tpub path: String,\n\tpub size: ::olympus_net_common::Variable<u64>,\n\tpub content: Vec<u8>,\n}\n\nimpl ::olympus_net_common::ProcedureInput for File {\n    fn deserialize(input: &mut ::olympus_net_common::bytes::BytesMut) -> ::olympus_net_common::Result<Self> {\n        Ok(Self {\n\t\t\tpath: ::olympus_net_common::ProcedureInput::deserialize(input)?,\n\t\t\tsize: ::olympus_net_common::ProcedureInput::deserialize(input)?,\n\t\t\tcontent: ::olympus_net_common::ProcedureInput::deserialize(input)?,\n        })\n    }\n}\n\nimpl ::olympus_net_common::ProcedureOutput for File {\n    fn serialize(&self) -> ::olympus_net_common::Result<::olympus_net_common::bytes::BytesMut> {\n        let mut out = ::olympus_net_common::bytes::BytesMut::new();\n\t\tout.extend(self.path.serialize()?);\n\t\tout.extend(self.size.serialize()?);\n\t\tout.extend(self.content.serialize()?);\n        Ok(out)\n    }\n}\n";

const DELETE_FILE_PARAMS_TEXT: &str = "\n#[derive(Debug, Clone)]\npub struct DeleteFileParams {\n\tpub path: String,\n}\n\nimpl ::olympus_net_common::ProcedureInput for DeleteFileParams {\n    fn deserialize(input: &mut ::olympus_net_common::bytes::BytesMut) -> ::olympus_net_common::Result<Self> {\n        Ok(Self {\n\t\t\tpath: ::olympus_net_common::ProcedureInput::deserialize(input)?,\n        })\n    }\n}\n\nimpl ::olympus_net_common::ProcedureOutput for DeleteFileParams {\n    fn serialize(&self) -> ::olympus_net_common::Result<::olympus_net_common::bytes::BytesMut> {\n        let mut out = ::olympus_net_common::bytes::BytesMut::new();\n\t\tout.extend(self.path.serialize()?);\n        Ok(out)\n    }\n}\n";

const GET_FILE_PARAMS_TEXT: &str = "\n#[derive(Debug, Clone)]\npub struct GetFileParams {\n\tpub path: String,\n\tpub after_action: Option<Action>,\n}\n\nimpl ::olympus_net_common::ProcedureInput for GetFileParams {\n    fn deserialize(input: &mut ::olympus_net_common::bytes::BytesMut) -> ::olympus_net_common::Result<Self> {\n        Ok(Self {\n\t\t\tpath: ::olympus_net_common::ProcedureInput::deserialize(input)?,\n\t\t\tafter_action: ::olympus_net_common::ProcedureInput::deserialize(input)?,\n        })\n    }\n}\n\nimpl ::olympus_net_common::ProcedureOutput for GetFileParams {\n    fn serialize(&self) -> ::olympus_net_common::Result<::olympus_net_common::bytes::BytesMut> {\n        let mut out = ::olympus_net_common::bytes::BytesMut::new();\n\t\tout.extend(self.path.serialize()?);\n\t\tout.extend(self.after_action.serialize()?);\n        Ok(out)\n    }\n}\n";

#[test]
fn file_header_is_emitted_as_is() {
    let mut out = String::new();
    RustCodeGenerator.generate_file_header(&mut out);
    assert_eq!(out, HEADER);
}

#[test]
fn enum_declaration_lists_variants_with_their_values() {
    let mut out = String::new();
    RustCodeGenerator::generate_enum_decl(&action(), &mut out);
    assert_eq!(out, ACTION_DECL);
}

#[test]
fn enum_decoder_maps_each_value_and_rejects_the_rest() {
    let mut out = String::new();
    RustCodeGenerator::generate_enum_input_impl(&action(), &mut out);
    assert_eq!(out, ACTION_INPUT);
}

#[test]
fn enum_encoder_writes_a_two_byte_tag() {
    let mut out = String::new();
    RustCodeGenerator::generate_enum_output_impl(&action(), &mut out);
    assert_eq!(out, ACTION_OUTPUT);
}

#[test]
fn enum_emission_is_declaration_then_decoder_then_encoder() {
    let mut out = String::from("// before\n");
    RustCodeGenerator.generate_enum(&action(), &mut out);
    assert_eq!(out, format!("// before\n{}{}{}", ACTION_DECL, ACTION_INPUT, ACTION_OUTPUT));
}

#[test]
fn enum_values_are_the_declared_ones_not_positions() {
    let parsed = EnumDeclaration {
        ident: name("Level"),
        variants: vec![
            EnumVariant { ident: name("Low"), value: -5 },
            EnumVariant { ident: name("Zero"), value: 0 },
            EnumVariant { ident: name("High"), value: 32767 },
            EnumVariant { ident: name("Least"), value: -32768 },
        ],
    };
    let mut decl = String::new();
    RustCodeGenerator::generate_enum_decl(&parsed, &mut decl);
    assert_eq!(
        decl,
        "\n#[derive(Debug, Clone, Copy)]\n#[repr(u16)]\npub enum Level {\n\tLow = -5,\n\tZero = 0,\n\tHigh = 32767,\n\tLeast = -32768,\n}\n"
    );
    let mut input = String::new();
    RustCodeGenerator::generate_enum_input_impl(&parsed, &mut input);
    assert!(input.contains(
        "        match tag {\n\t\t\t-5 => Ok(Self::Low),\n\t\t\t0 => Ok(Self::Zero),\n\t\t\t32767 => Ok(Self::High),\n\t\t\t-32768 => Ok(Self::Least),\n            _ => Err("
    ));
}

#[test]
fn enum_without_variants_has_an_empty_body() {
    let parsed = EnumDeclaration { ident: name("Never"), variants: vec![] };
    let mut out = String::new();
    RustCodeGenerator::generate_enum_decl(&parsed, &mut out);
    assert_eq!(out, "\n#[derive(Debug, Clone, Copy)]\n#[repr(u16)]\npub enum Never {\n\n}\n");
}

#[test]
fn struct_emission_keeps_the_fields_in_declaration_order() {
    let mut out = String::new();
    RustCodeGenerator.generate_struct(&file(), &mut out);
    assert_eq!(out, FILE_TEXT);
}

#[test]
fn struct_parts_can_be_emitted_one_by_one() {
    let parsed = delete_file_params();
    let idents = vec![name("path")];
    let mut out = String::new();
    RustCodeGenerator::generate_struct_decl(&parsed, &mut out);
    RustCodeGenerator::generate_struct_input_impl("DeleteFileParams", &idents, &mut out);
    RustCodeGenerator::generate_struct_output_impl("DeleteFileParams", &idents, &mut out);
    assert_eq!(out, DELETE_FILE_PARAMS_TEXT);
}

#[test]
fn procedure_emission_is_a_record_named_after_the_procedure() {
    let mut out = String::new();
    RustCodeGenerator.generate_procedure_params(&get_file(), &mut out);
    assert_eq!(out, GET_FILE_PARAMS_TEXT);
}

#[test]
fn procedure_record_is_the_struct_of_its_parameters() {
    let procedure = ProcedureDeclaration {
        ident: name("DeleteFile"),
        params: vec![ProcedureParam { ident: name("path"), kind: TypeExpression::Text }],
        return_kind: TypeExpression::FixedInt(IntWidth::W8, true),
    };
    let mut from_procedure = String::new();
    RustCodeGenerator.generate_procedure_params(&procedure, &mut from_procedure);
    let mut from_struct = String::new();
    RustCodeGenerator.generate_struct(&delete_file_params(), &mut from_struct);
    assert_eq!(from_procedure, from_struct);
    assert_eq!(from_procedure, DELETE_FILE_PARAMS_TEXT);
}

#[test]
fn every_type_is_bound_to_its_codec() {
    let cases = vec![
        (TypeExpression::FixedInt(IntWidth::W8, true), "i8"),
        (TypeExpression::FixedInt(IntWidth::W16, true), "i16"),
        (TypeExpression::FixedInt(IntWidth::W32, true), "i32"),
        (TypeExpression::FixedInt(IntWidth::W64, true), "i64"),
        (TypeExpression::FixedInt(IntWidth::W8, false), "u8"),
        (TypeExpression::FixedInt(IntWidth::W16, false), "u16"),
        (TypeExpression::FixedInt(IntWidth::W32, false), "u32"),
        (TypeExpression::FixedInt(IntWidth::W64, false), "u64"),
        (TypeExpression::VariableInt(IntWidth::W8), "::olympus_net_common::Variable<u8>"),
        (TypeExpression::VariableInt(IntWidth::W16), "::olympus_net_common::Variable<u16>"),
        (TypeExpression::VariableInt(IntWidth::W32), "::olympus_net_common::Variable<u32>"),
        (TypeExpression::VariableInt(IntWidth::W64), "::olympus_net_common::Variable<u64>"),
        (TypeExpression::Text, "String"),
        (array_of(TypeExpression::Text), "Vec<String>"),
        (optional_of(TypeExpression::Text), "Option<String>"),
        (named_type("File"), "File"),
        (array_of(optional_of(named_type("Action"))), "Vec<Option<Action>>"),
        (
            optional_of(array_of(array_of(TypeExpression::VariableInt(IntWidth::W32)))),
            "Option<Vec<Vec<::olympus_net_common::Variable<u32>>>>",
        ),
    ];
    for (kind, expected) in cases {
        assert_eq!(RustCodeGenerator::parsed_type_kind_to_rust(&kind), expected);
    }
}

#[test]
fn compile_emits_header_enums_structs_and_procedures_in_that_order() {
    let schema = schema_of(vec![action()], vec![file(), delete_file_params()], vec![get_file()]);
    let text = compile(&RustCodeGenerator, &schema).unwrap();
    assert_eq!(
        text,
        format!(
            "{}{}{}{}{}{}{}",
            HEADER,
            ACTION_DECL,
            ACTION_INPUT,
            ACTION_OUTPUT,
            FILE_TEXT,
            DELETE_FILE_PARAMS_TEXT,
            GET_FILE_PARAMS_TEXT
        )
    );
    assert_eq!(generate(&RustCodeGenerator, &schema), text);
}

#[test]
fn compile_of_an_empty_schema_is_the_header() {
    let text = compile(&RustCodeGenerator, &schema_of(vec![], vec![], vec![])).unwrap();
    assert_eq!(text, HEADER);
}

#[test]
fn compile_twice_gives_identical_text() {
    let schema = schema_of(vec![action()], vec![file(), delete_file_params()], vec![get_file()]);
    let first = compile(&RustCodeGenerator, &schema).unwrap();
    let second = compile(&RustCodeGenerator, &schema).unwrap();
    assert_eq!(first.as_bytes(), second.as_bytes());
}

#[test]
fn compile_ignores_where_names_were_written() {
    let mut moved = action();
    moved.ident.span = Span { start: 900, end: 906 };
    let here = compile(&RustCodeGenerator, &schema_of(vec![action()], vec![], vec![])).unwrap();
    let there = compile(&RustCodeGenerator, &schema_of(vec![moved], vec![], vec![])).unwrap();
    assert_eq!(here, there);
}

#[test]
fn reordering_two_structs_moves_only_their_regions() {
    let other = StructDeclaration {
        ident: name("Between"),
        fields: vec![StructField { ident: name("n"), kind: TypeExpression::FixedInt(IntWidth::W32, true) }],
    };
    let mut between = String::new();
    RustCodeGenerator.generate_struct(&other, &mut between);
    let one = schema_of(
        vec![action()],
        vec![file(), other, delete_file_params()],
        vec![get_file()],
    );
    let other_again = StructDeclaration {
        ident: name("Between"),
        fields: vec![StructField { ident: name("n"), kind: TypeExpression::FixedInt(IntWidth::W32, true) }],
    };
    let two = schema_of(
        vec![action()],
        vec![delete_file_params(), other_again, file()],
        vec![get_file()],
    );
    let before = format!("{}{}{}{}", HEADER, ACTION_DECL, ACTION_INPUT, ACTION_OUTPUT);
    let first = compile(&RustCodeGenerator, &one).unwrap();
    let second = compile(&RustCodeGenerator, &two).unwrap();
    assert_eq!(
        first,
        format!("{}{}{}{}{}", before, FILE_TEXT, between, DELETE_FILE_PARAMS_TEXT, GET_FILE_PARAMS_TEXT)
    );
    assert_eq!(
        second,
        format!("{}{}{}{}{}", before, DELETE_FILE_PARAMS_TEXT, between, FILE_TEXT, GET_FILE_PARAMS_TEXT)
    );
}

#[test]
fn compile_generates_nothing_for_a_schema_that_fails_verification() {
    let schema = schema_of(vec![action(), action()], vec![file()], vec![]);
    let error = compile(&RustCodeGenerator, &schema).unwrap_err();
    assert_eq!(error.kind, SemanticErrorKind::DuplicateIdentifier);

    let unresolved = schema_of(vec![], vec![], vec![get_file()]);
    let error = compile(&RustCodeGenerator, &unresolved).unwrap_err();
    assert_eq!(error.kind, SemanticErrorKind::UnresolvedType);
    assert_eq!(error.message, "Type 'Action' not found");
}
