//! The pipeline: a schema is verified first, and bindings are generated only
//! for a schema that verification accepts.

use vstd::prelude::*;
use crate::diagnostics::SemanticError;
use crate::generator::{generate, schema_text, CodeGenerator};
use crate::schema::Schema;
use crate::semantic::{first_violation, verify_parser_outputs, well_formed};

verus! {

/// Verifies `schema` and, if it is sound, generates its bindings with
/// `generator`.
///
/// Either the whole text is returned or the first semantic error is, and in
/// that case nothing was generated.
pub fn compile<G: CodeGenerator>(generator: &G, schema: &Schema) -> (outcome: Result<
    String,
    SemanticError,
>)
    ensures
        outcome is Ok <==> well_formed(*schema),
        match first_violation(*schema) {
            None => outcome is Ok && outcome->Ok_0@ == schema_text(generator, *schema),
            Some(v) => outcome is Err && outcome->Err_0@ == v,
        },
{
    match verify_parser_outputs(schema) {
        Err(e) => Err(e),
        Ok(()) => Ok(generate(generator, schema)),
    }
}

} // verus!
