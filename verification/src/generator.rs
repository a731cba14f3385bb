//! The code-generation contract: four emissions that a backend for one
//! target language provides, and the fixed order in which they are run over a
//! schema.

use vstd::prelude::*;
use crate::schema::{EnumDeclaration, ProcedureDeclaration, Schema, StructDeclaration};
use crate::semantic::well_formed;
use crate::text::{concat, lemma_concat_append, lemma_concat_one};

pub mod rust;

verus! {

/// A backend for one target language.
///
/// Each emission appends to `output` and leaves what was there untouched; the
/// text appended depends on the declaration alone.
pub trait CodeGenerator {
    /// The text that opens every generated file.
    spec fn file_header_text(&self) -> Seq<char>;

    /// The bindings for one enum.
    spec fn enum_text(&self, parsed: EnumDeclaration) -> Seq<char>;

    /// The bindings for one struct.
    spec fn struct_text(&self, parsed: StructDeclaration) -> Seq<char>;

    /// The bindings for the parameter record of one procedure.
    spec fn procedure_params_text(&self, parsed: ProcedureDeclaration) -> Seq<char>;

    fn generate_file_header(&self, output: &mut String)
        ensures
            final(output)@ == old(output)@ + self.file_header_text(),
    ;

    fn generate_enum(&self, parsed: &EnumDeclaration, output: &mut String)
        ensures
            final(output)@ == old(output)@ + self.enum_text(*parsed),
    ;

    fn generate_struct(&self, parsed: &StructDeclaration, output: &mut String)
        ensures
            final(output)@ == old(output)@ + self.struct_text(*parsed),
    ;

    fn generate_procedure_params(&self, parsed: &ProcedureDeclaration, output: &mut String)
        ensures
            final(output)@ == old(output)@ + self.procedure_params_text(*parsed),
    ;
}

pub open spec fn enum_texts<G: CodeGenerator>(generator: &G, enums: Seq<EnumDeclaration>) -> Seq<
    Seq<char>,
> {
    enums.map_values(|e: EnumDeclaration| generator.enum_text(e))
}

pub open spec fn struct_texts<G: CodeGenerator>(
    generator: &G,
    structs: Seq<StructDeclaration>,
) -> Seq<Seq<char>> {
    structs.map_values(|s: StructDeclaration| generator.struct_text(s))
}

pub open spec fn procedure_texts<G: CodeGenerator>(
    generator: &G,
    procedures: Seq<ProcedureDeclaration>,
) -> Seq<Seq<char>> {
    procedures.map_values(|p: ProcedureDeclaration| generator.procedure_params_text(p))
}

/// The text generated for a schema: the file header, then every enum, every
/// struct and every procedure, each group in declaration order.
pub open spec fn schema_text<G: CodeGenerator>(generator: &G, schema: Schema) -> Seq<char> {
    generator.file_header_text() + concat(enum_texts(generator, schema.enums@)) + concat(
        struct_texts(generator, schema.structs@),
    ) + concat(procedure_texts(generator, schema.procedures@))
}

proof fn lemma_concat_step(texts: Seq<Seq<char>>, i: int)
    requires
        0 <= i < texts.len(),
    ensures
        concat(texts.take(i + 1)) == concat(texts.take(i)) + texts[i],
{
    assert(texts.take(i + 1).drop_last() =~= texts.take(i));
}

/// Generates the bindings for a verified schema into a fresh buffer.
///
/// Generation is only defined for schemas that verification accepts.
pub fn generate<G: CodeGenerator>(generator: &G, schema: &Schema) -> (output: String)
    requires
        well_formed(*schema),
    ensures
        output@ == schema_text(generator, *schema),
{
    let mut output = String::new();
    generator.generate_file_header(&mut output);
    assert(output@ =~= generator.file_header_text());

    let ghost by_enum = enum_texts(generator, schema.enums@);
    let ghost head = output@;
    let mut i: usize = 0;
    while i < schema.enums.len()
        invariant
            i <= schema.enums.len(),
            by_enum == enum_texts(generator, schema.enums@),
            output@ == head + concat(by_enum.take(i as int)),
        decreases schema.enums.len() - i,
    {
        generator.generate_enum(&schema.enums[i], &mut output);
        proof {
            lemma_concat_step(by_enum, i as int);
            assert(output@ =~= head + concat(by_enum.take(i + 1)));
        }
        i += 1;
    }
    assert(by_enum.take(schema.enums.len() as int) =~= by_enum);

    let ghost by_struct = struct_texts(generator, schema.structs@);
    let ghost head = output@;
    let mut i: usize = 0;
    while i < schema.structs.len()
        invariant
            i <= schema.structs.len(),
            by_struct == struct_texts(generator, schema.structs@),
            output@ == head + concat(by_struct.take(i as int)),
        decreases schema.structs.len() - i,
    {
        generator.generate_struct(&schema.structs[i], &mut output);
        proof {
            lemma_concat_step(by_struct, i as int);
            assert(output@ =~= head + concat(by_struct.take(i + 1)));
        }
        i += 1;
    }
    assert(by_struct.take(schema.structs.len() as int) =~= by_struct);

    let ghost by_procedure = procedure_texts(generator, schema.procedures@);
    let ghost head = output@;
    let mut i: usize = 0;
    while i < schema.procedures.len()
        invariant
            i <= schema.procedures.len(),
            by_procedure == procedure_texts(generator, schema.procedures@),
            output@ == head + concat(by_procedure.take(i as int)),
        decreases schema.procedures.len() - i,
    {
        generator.generate_procedure_params(&schema.procedures[i], &mut output);
        proof {
            lemma_concat_step(by_procedure, i as int);
            assert(output@ =~= head + concat(by_procedure.take(i + 1)));
        }
        i += 1;
    }
    assert(by_procedure.take(schema.procedures.len() as int) =~= by_procedure);
    output
}

/// `s` with the elements at `i` and `j` exchanged.
pub open spec fn swapped<T>(s: Seq<T>, i: int, j: int) -> Seq<T> {
    s.update(i, s[j]).update(j, s[i])
}

/// What is generated ahead of the struct at position `i`.
pub open spec fn text_before_struct<G: CodeGenerator>(generator: &G, schema: Schema, i: int) -> Seq<
    char,
> {
    generator.file_header_text() + concat(enum_texts(generator, schema.enums@)) + concat(
        struct_texts(generator, schema.structs@.take(i)),
    )
}

/// What is generated for the structs strictly between positions `i` and `j`.
pub open spec fn text_between_structs<G: CodeGenerator>(
    generator: &G,
    schema: Schema,
    i: int,
    j: int,
) -> Seq<char> {
    concat(struct_texts(generator, schema.structs@.subrange(i + 1, j)))
}

/// What is generated after the struct at position `j`.
pub open spec fn text_after_struct<G: CodeGenerator>(generator: &G, schema: Schema, j: int) -> Seq<
    char,
> {
    concat(struct_texts(generator, schema.structs@.skip(j + 1))) + concat(
        procedure_texts(generator, schema.procedures@),
    )
}

/// The text of a schema, cut at two of its structs.
pub proof fn lemma_schema_text_split<G: CodeGenerator>(generator: &G, schema: Schema, i: int, j: int)
    requires
        0 <= i < j < schema.structs@.len(),
    ensures
        schema_text(generator, schema) == text_before_struct(generator, schema, i)
            + generator.struct_text(schema.structs@[i]) + text_between_structs(
            generator,
            schema,
            i,
            j,
        ) + generator.struct_text(schema.structs@[j]) + text_after_struct(generator, schema, j),
{
    let all = schema.structs@;
    let a = all.take(i);
    let b = seq![all[i]];
    let c = all.subrange(i + 1, j);
    let d = seq![all[j]];
    let e = all.skip(j + 1);
    assert(all =~= a + b + c + d + e);
    let ta = struct_texts(generator, a);
    let tb = struct_texts(generator, b);
    let tc = struct_texts(generator, c);
    let td = struct_texts(generator, d);
    let te = struct_texts(generator, e);
    assert(struct_texts(generator, all) =~= ta + tb + tc + td + te);
    lemma_concat_append(ta, tb);
    lemma_concat_append(ta + tb, tc);
    lemma_concat_append(ta + tb + tc, td);
    lemma_concat_append(ta + tb + tc + td, te);
    assert(concat(tb) == generator.struct_text(all[i])) by {
        assert(tb =~= seq![generator.struct_text(all[i])]);
        lemma_concat_one(generator.struct_text(all[i]));
    }
    assert(concat(td) == generator.struct_text(all[j])) by {
        assert(td =~= seq![generator.struct_text(all[j])]);
        lemma_concat_one(generator.struct_text(all[j]));
    }
    assert(schema_text(generator, schema) =~= text_before_struct(generator, schema, i)
        + generator.struct_text(schema.structs@[i]) + text_between_structs(generator, schema, i, j)
        + generator.struct_text(schema.structs@[j]) + text_after_struct(generator, schema, j));
}

/// Exchanging two struct declarations exchanges their two regions of the
/// generated text and changes nothing else: what comes before, between and
/// after them is the same text in both outputs.
pub proof fn lemma_struct_order_locality<G: CodeGenerator>(
    generator: &G,
    a: Schema,
    b: Schema,
    i: int,
    j: int,
)
    requires
        0 <= i < j < a.structs@.len(),
        b.enums@ == a.enums@,
        b.procedures@ == a.procedures@,
        b.structs@ == swapped(a.structs@, i, j),
    ensures
        schema_text(generator, a) == text_before_struct(generator, a, i) + generator.struct_text(
            a.structs@[i],
        ) + text_between_structs(generator, a, i, j) + generator.struct_text(a.structs@[j])
            + text_after_struct(generator, a, j),
        schema_text(generator, b) == text_before_struct(generator, a, i) + generator.struct_text(
            a.structs@[j],
        ) + text_between_structs(generator, a, i, j) + generator.struct_text(a.structs@[i])
            + text_after_struct(generator, a, j),
{
    lemma_schema_text_split(generator, a, i, j);
    lemma_schema_text_split(generator, b, i, j);
    assert(b.structs@.take(i) =~= a.structs@.take(i));
    assert(b.structs@.subrange(i + 1, j) =~= a.structs@.subrange(i + 1, j));
    assert(b.structs@.skip(j + 1) =~= a.structs@.skip(j + 1));
}

} // verus!
