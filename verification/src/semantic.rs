//! The semantic verifier: a pure pass over a schema that either accepts it or
//! returns the first rule it breaks.
//!
//! The checks run in a fixed order and stop at the first failure:
//! collisions among enum and struct names; per enum, collisions among variant
//! names and among variant values; per struct, collisions among field names
//! and fields that name their own struct; collisions among procedure names;
//! per procedure, collisions among parameter names; and finally the
//! resolution of every named type, looking through arrays and optionals.

use vstd::prelude::*;
use vstd::string::*;
use crate::diagnostics::{
    duplicate_error, single_error, SemanticError, SemanticErrorKind, SemanticErrorView,
};
use crate::schema::{
    field_ident_list, field_idents, names, param_ident_list, param_idents, procedure_ident_list,
    procedure_idents, type_idents, variant_ident_list, variant_idents, variant_values,
    EnumDeclaration, EnumVariant, Identifier, ProcedureDeclaration, ProcedureParam, Schema,
    StructDeclaration, StructField, TypeExpression,
};

verus! {

// ---------------------------------------------------------------------------
// Collisions
// ---------------------------------------------------------------------------

/// `(i, j)` is the earliest collision of `s`: `s[j]` repeats `s[i]`, and
/// nothing before position `j` repeats anything.
pub open spec fn is_first_duplicate<T>(s: Seq<T>, i: int, j: int) -> bool {
    &&& 0 <= i < j < s.len()
    &&& s[i] == s[j]
    &&& s.take(j).no_duplicates()
}

/// The earliest collision of `s`, or `None` when all its elements differ.
pub open spec fn duplicate_pair<T>(s: Seq<T>) -> Option<(int, int)> {
    if s.no_duplicates() {
        None
    } else {
        Some(choose|i: int, j: int| is_first_duplicate(s, i, j))
    }
}

/// A sequence has at most one earliest collision.
pub proof fn lemma_first_duplicate_unique<T>(s: Seq<T>, i: int, j: int, k: int, l: int)
    requires
        is_first_duplicate(s, i, j),
        is_first_duplicate(s, k, l),
    ensures
        i == k,
        j == l,
{
    if j < l {
        assert(s.take(l)[i] == s.take(l)[j]);
    }
    if l < j {
        assert(s.take(j)[k] == s.take(j)[l]);
    }
    if j == l && i != k {
        assert(s.take(j)[i] == s.take(j)[k]);
    }
}

/// An earliest collision, once exhibited, is the one `duplicate_pair` names.
pub proof fn lemma_duplicate_pair_is<T>(s: Seq<T>, i: int, j: int)
    requires
        is_first_duplicate(s, i, j),
    ensures
        duplicate_pair(s) == Some((i, j)),
{
    let (k, l) = choose|k: int, l: int| is_first_duplicate(s, k, l);
    lemma_first_duplicate_unique(s, i, j, k, l);
}

/// Whenever two elements coincide there is an earliest collision, and
/// `duplicate_pair` names it.
pub proof fn lemma_duplicate_pair_exists<T>(s: Seq<T>)
    requires
        !s.no_duplicates(),
    ensures
        duplicate_pair(s) matches Some((i, j)) && is_first_duplicate(s, i, j),
    decreases s.len(),
{
    let (a, b) = choose|a: int, b: int|
        0 <= a < s.len() && 0 <= b < s.len() && a != b && s[a] == s[b];
    let prefix = s.drop_last();
    let last = s.len() - 1;
    if prefix.no_duplicates() {
        let i = if a == last { b } else { a };
        assert(a == last || b == last) by {
            if a != last && b != last {
                assert(prefix[a] == prefix[b]);
            }
        }
        assert(s.take(last) =~= prefix);
        assert(is_first_duplicate(s, i, last));
    } else {
        lemma_duplicate_pair_exists(prefix);
        let (i, j) = duplicate_pair(prefix)->0;
        assert(s.take(j) =~= prefix.take(j));
        assert(is_first_duplicate(s, i, j));
    }
}

// ---------------------------------------------------------------------------
// What each check reports
// ---------------------------------------------------------------------------

/// The first of two possible findings.
pub open spec fn or_else(
    a: Option<SemanticErrorView>,
    b: Option<SemanticErrorView>,
) -> Option<SemanticErrorView> {
    if a is Some {
        a
    } else {
        b
    }
}

/// The first finding in a sequence of per-item findings.
pub open spec fn first_some(s: Seq<Option<SemanticErrorView>>) -> Option<SemanticErrorView>
    decreases s.len(),
{
    if s.len() == 0 {
        None
    } else {
        or_else(first_some(s.drop_last()), s.last())
    }
}

/// The finding for a list of identifiers: its earliest name collision.
pub open spec fn duplicate_ident_violation(
    idents: Seq<Identifier>,
    message: Seq<char>,
) -> Option<SemanticErrorView> {
    match duplicate_pair(names(idents)) {
        None => None,
        Some((i, j)) => Some(
            duplicate_error(
                SemanticErrorKind::DuplicateIdentifier,
                message,
                idents[i].span,
                idents[j].span,
            ),
        ),
    }
}

/// The finding for the values of an enum: the earliest collision of two tags.
pub open spec fn duplicate_value_violation(variants: Seq<EnumVariant>) -> Option<
    SemanticErrorView,
> {
    match duplicate_pair(variant_values(variants)) {
        None => None,
        Some((i, j)) => Some(
            duplicate_error(
                SemanticErrorKind::DuplicateEnumValue,
                "Duplicate variant value found"@,
                variants[i].ident.span,
                variants[j].ident.span,
            ),
        ),
    }
}

/// The finding for one enum: variant names first, variant values second.
pub open spec fn enum_violation(variants: Seq<EnumVariant>) -> Option<SemanticErrorView> {
    or_else(
        duplicate_ident_violation(variant_idents(variants), "Duplicate variant ident found"@),
        duplicate_value_violation(variants),
    )
}

/// The type is, with nothing around it, the name of `owner`.
pub open spec fn is_self_reference(owner: Identifier, kind: TypeExpression) -> bool {
    kind matches TypeExpression::Named(id) && id.name@ == owner.name@
}

pub open spec fn self_reference_violation(owner: Identifier, field: StructField) -> Option<
    SemanticErrorView,
> {
    if is_self_reference(owner, field.kind) {
        Some(
            single_error(
                SemanticErrorKind::SelfReferencingField,
                "Self referencing field type"@,
                field.kind->Named_0.span,
            ),
        )
    } else {
        None
    }
}

pub open spec fn self_reference_violations(owner: Identifier, fields: Seq<StructField>) -> Seq<
    Option<SemanticErrorView>,
> {
    fields.map_values(|f: StructField| self_reference_violation(owner, f))
}

/// The finding for one struct: field names first, then the first field that
/// names the struct itself.
pub open spec fn struct_violation(decl: StructDeclaration) -> Option<SemanticErrorView> {
    or_else(
        duplicate_ident_violation(field_idents(decl.fields@), "Duplicate field ident found"@),
        first_some(self_reference_violations(decl.ident, decl.fields@)),
    )
}

/// The message for a name that no enum or struct declares.
pub open spec fn unresolved_message(name: Seq<char>) -> Seq<char> {
    "Type '"@ + name + "' not found"@
}

/// The named type that `kind` comes down to once every array and optional
/// around it is taken off, if it comes down to one.
pub open spec fn named_leaf(kind: TypeExpression) -> Option<Identifier>
    decreases kind,
{
    match kind {
        TypeExpression::Named(id) => Some(id),
        TypeExpression::Array(inner) => named_leaf(*inner),
        TypeExpression::Optional(inner) => named_leaf(*inner),
        _ => None,
    }
}

/// Every named type inside `kind` is one of `known`.
pub open spec fn resolves(known: Seq<Seq<char>>, kind: TypeExpression) -> bool {
    named_leaf(kind) matches Some(id) ==> known.contains(id.name@)
}

/// The finding for one type: its named leaf, if no declaration carries that
/// name.
pub open spec fn unresolved_violation(known: Seq<Seq<char>>, kind: TypeExpression) -> Option<
    SemanticErrorView,
> {
    match named_leaf(kind) {
        Some(id) => if known.contains(id.name@) {
            None
        } else {
            Some(
                single_error(
                    SemanticErrorKind::UnresolvedType,
                    unresolved_message(id.name@),
                    id.span,
                ),
            )
        },
        None => None,
    }
}

pub open spec fn enum_violations(enums: Seq<EnumDeclaration>) -> Seq<Option<SemanticErrorView>> {
    enums.map_values(|e: EnumDeclaration| enum_violation(e.variants@))
}

pub open spec fn struct_violations(structs: Seq<StructDeclaration>) -> Seq<
    Option<SemanticErrorView>,
> {
    structs.map_values(|s: StructDeclaration| struct_violation(s))
}

pub open spec fn param_violations(procedures: Seq<ProcedureDeclaration>) -> Seq<
    Option<SemanticErrorView>,
> {
    procedures.map_values(
        |p: ProcedureDeclaration|
            duplicate_ident_violation(param_idents(p.params@), "Duplicate proc param ident found"@),
    )
}

pub open spec fn field_unresolved(known: Seq<Seq<char>>, fields: Seq<StructField>) -> Seq<
    Option<SemanticErrorView>,
> {
    fields.map_values(|f: StructField| unresolved_violation(known, f.kind))
}

pub open spec fn param_unresolved(known: Seq<Seq<char>>, params: Seq<ProcedureParam>) -> Seq<
    Option<SemanticErrorView>,
> {
    params.map_values(|p: ProcedureParam| unresolved_violation(known, p.kind))
}

pub open spec fn struct_unresolved(known: Seq<Seq<char>>, structs: Seq<StructDeclaration>) -> Seq<
    Option<SemanticErrorView>,
> {
    structs.map_values(|s: StructDeclaration| first_some(field_unresolved(known, s.fields@)))
}

/// The finding for the types of one procedure: its parameters in order, then
/// its return type.
pub open spec fn procedure_unresolved(known: Seq<Seq<char>>, decl: ProcedureDeclaration) -> Option<
    SemanticErrorView,
> {
    or_else(
        first_some(param_unresolved(known, decl.params@)),
        unresolved_violation(known, decl.return_kind),
    )
}

pub open spec fn procedures_unresolved(
    known: Seq<Seq<char>>,
    procedures: Seq<ProcedureDeclaration>,
) -> Seq<Option<SemanticErrorView>> {
    procedures.map_values(|p: ProcedureDeclaration| procedure_unresolved(known, p))
}

/// The finding for the name collisions and self references of a schema.
pub open spec fn declaration_violation(schema: Schema) -> Option<SemanticErrorView> {
    or_else(
        duplicate_ident_violation(type_idents(schema), "Duplicate enum/struct ident found"@),
        or_else(
            first_some(enum_violations(schema.enums@)),
            or_else(
                first_some(struct_violations(schema.structs@)),
                or_else(
                    duplicate_ident_violation(
                        procedure_idents(schema.procedures@),
                        "Duplicate proc ident found"@,
                    ),
                    first_some(param_violations(schema.procedures@)),
                ),
            ),
        ),
    )
}

/// The finding for the named types of a schema: struct fields first,
/// procedures second.
pub open spec fn resolution_violation(schema: Schema) -> Option<SemanticErrorView> {
    let known = names(type_idents(schema));
    or_else(
        first_some(struct_unresolved(known, schema.structs@)),
        first_some(procedures_unresolved(known, schema.procedures@)),
    )
}

/// What verification of a schema reports: the first broken rule in check
/// order, or `None` for a sound schema.
pub open spec fn first_violation(schema: Schema) -> Option<SemanticErrorView> {
    or_else(declaration_violation(schema), resolution_violation(schema))
}

/// `outcome` is the verdict that `expected` calls for.
pub open spec fn reports(outcome: Result<(), SemanticError>, expected: Option<SemanticErrorView>) -> bool {
    match expected {
        None => outcome is Ok,
        Some(v) => outcome is Err && outcome->Err_0@ == v,
    }
}

pub proof fn lemma_first_some_step(s: Seq<Option<SemanticErrorView>>, i: int)
    requires
        0 <= i < s.len(),
    ensures
        first_some(s.take(i + 1)) == or_else(first_some(s.take(i)), s[i]),
{
    assert(s.take(i + 1).drop_last() =~= s.take(i));
}

/// The first finding of a sequence is the first entry that holds one.
pub proof fn lemma_first_some_found(s: Seq<Option<SemanticErrorView>>, i: int)
    requires
        0 <= i < s.len(),
        first_some(s.take(i)) is None,
        s[i] is Some,
    ensures
        first_some(s) == s[i],
    decreases s.len(),
{
    if i == s.len() - 1 {
        assert(s.drop_last() =~= s.take(i));
    } else {
        let prefix = s.drop_last();
        assert(prefix.take(i) =~= s.take(i));
        lemma_first_some_found(prefix, i);
    }
}

/// A sequence of findings has no first finding exactly when every entry is
/// empty.
pub proof fn lemma_first_some_none(s: Seq<Option<SemanticErrorView>>)
    ensures
        first_some(s) is None <==> forall|i: int| 0 <= i < s.len() ==> (#[trigger] s[i]) is None,
    decreases s.len(),
{
    if s.len() > 0 {
        let prefix = s.drop_last();
        lemma_first_some_none(prefix);
        if first_some(s) is None {
            assert forall|i: int| 0 <= i < s.len() implies (#[trigger] s[i]) is None by {
                if i < s.len() - 1 {
                    assert(prefix[i] is None);
                }
            }
        }
        if forall|i: int| 0 <= i < s.len() ==> (#[trigger] s[i]) is None {
            assert forall|i: int| 0 <= i < prefix.len() implies (#[trigger] prefix[i]) is None by {
                assert(s[i] is None);
            }
        }
    }
}

// ---------------------------------------------------------------------------
// The checks
// ---------------------------------------------------------------------------

/// Finds the earliest name collision among `idents`.
///
/// Returns the identifier that is repeated and the one that repeats it, or
/// `None` when all names differ.
pub fn find_duplicate_ident(idents: &Vec<Identifier>) -> (found: Option<(Identifier, Identifier)>)
    ensures
        match found {
            None => names(idents@).no_duplicates(),
            Some((first, second)) => {
                &&& duplicate_pair(names(idents@)) matches Some((i, j))
                &&& is_first_duplicate(names(idents@), i, j)
                &&& first == idents@[i]
                &&& second == idents@[j]
            },
        },
{
    let ghost all = names(idents@);
    let mut j: usize = 0;
    while j < idents.len()
        invariant
            j <= idents.len(),
            all == names(idents@),
            all.take(j as int).no_duplicates(),
        decreases idents.len() - j,
    {
        let mut i: usize = 0;
        while i < j
            invariant
                i <= j < idents.len(),
                all == names(idents@),
                all.take(j as int).no_duplicates(),
                forall|k: int| 0 <= k < i ==> all[k] != all[j as int],
            decreases j - i,
        {
            if idents[i].name == idents[j].name {
                proof {
                    lemma_duplicate_pair_is(all, i as int, j as int);
                }
                return Some((idents[i].clone(), idents[j].clone()));
            }
            i += 1;
        }
        proof {
            let longer = all.take(j + 1);
            assert forall|a: int, b: int|
                0 <= a < longer.len() && 0 <= b < longer.len() && a != b implies longer[a]
                != longer[b] by {
                if a < j && b < j {
                    assert(all.take(j as int)[a] != all.take(j as int)[b]);
                }
            }
        }
        j += 1;
    }
    assert(all.take(idents.len() as int) =~= all);
    None
}

/// The identifiers that a named type may refer to: every enum, then every
/// struct.
pub fn accessible_types(schema: &Schema) -> (list: Vec<Identifier>)
    ensures
        list@ == type_idents(*schema),
{
    let mut list: Vec<Identifier> = Vec::new();
    let mut i: usize = 0;
    while i < schema.enums.len()
        invariant
            i <= schema.enums.len(),
            list@.len() == i,
            forall|k: int| 0 <= k < i ==> list@[k] == schema.enums@[k].ident,
        decreases schema.enums.len() - i,
    {
        list.push(schema.enums[i].ident.clone());
        i += 1;
    }
    let mut j: usize = 0;
    while j < schema.structs.len()
        invariant
            j <= schema.structs.len(),
            list@.len() == schema.enums.len() + j,
            forall|k: int| 0 <= k < schema.enums.len() ==> list@[k] == schema.enums@[k].ident,
            forall|k: int|
                0 <= k < j ==> list@[schema.enums.len() + k] == schema.structs@[k].ident,
        decreases schema.structs.len() - j,
    {
        list.push(schema.structs[j].ident.clone());
        j += 1;
    }
    assert(list@ =~= type_idents(*schema));
    list
}

/// Turns the outcome of a collision search into a verdict with `message`.
fn duplicate_ident_verdict(idents: &Vec<Identifier>, message: &str) -> (outcome: Result<
    (),
    SemanticError,
>)
    ensures
        reports(outcome, duplicate_ident_violation(idents@, message@)),
{
    match find_duplicate_ident(idents) {
        Some((first, second)) => Err(
            SemanticError::duplicate(
                SemanticErrorKind::DuplicateIdentifier,
                String::from_str(message),
                first.span,
                second.span,
            ),
        ),
        None => Ok(()),
    }
}

/// Checks one enum: no two variants share a name, and no two share a value.
pub fn find_enum_variant_duplicates(variants: &Vec<EnumVariant>) -> (outcome: Result<
    (),
    SemanticError,
>)
    ensures
        reports(outcome, enum_violation(variants@)),
{
    let idents = variant_ident_list(variants);
    let by_name = duplicate_ident_verdict(&idents, "Duplicate variant ident found");
    if by_name.is_err() {
        return by_name;
    }
    let ghost values = variant_values(variants@);
    let mut j: usize = 0;
    while j < variants.len()
        invariant
            j <= variants.len(),
            values == variant_values(variants@),
            values.take(j as int).no_duplicates(),
            duplicate_ident_violation(
                variant_idents(variants@),
                "Duplicate variant ident found"@,
            ) is None,
        decreases variants.len() - j,
    {
        let mut i: usize = 0;
        while i < j
            invariant
                i <= j < variants.len(),
                values == variant_values(variants@),
                values.take(j as int).no_duplicates(),
                duplicate_ident_violation(
                    variant_idents(variants@),
                    "Duplicate variant ident found"@,
                ) is None,
                forall|k: int| 0 <= k < i ==> values[k] != values[j as int],
            decreases j - i,
        {
            if variants[i].value == variants[j].value {
                proof {
                    lemma_duplicate_pair_is(values, i as int, j as int);
                }
                return Err(
                    SemanticError::duplicate(
                        SemanticErrorKind::DuplicateEnumValue,
                        String::from_str("Duplicate variant value found"),
                        variants[i].ident.span,
                        variants[j].ident.span,
                    ),
                );
            }
            i += 1;
        }
        proof {
            let longer = values.take(j + 1);
            assert forall|a: int, b: int|
                0 <= a < longer.len() && 0 <= b < longer.len() && a != b implies longer[a]
                != longer[b] by {
                if a < j && b < j {
                    assert(values.take(j as int)[a] != values.take(j as int)[b]);
                }
            }
        }
        j += 1;
    }
    assert(values.take(variants.len() as int) =~= values);
    Ok(())
}

/// Checks that no two fields of a struct share a name.
pub fn find_struct_field_duplicates(fields: &Vec<StructField>) -> (outcome: Result<
    (),
    SemanticError,
>)
    ensures
        reports(
            outcome,
            duplicate_ident_violation(field_idents(fields@), "Duplicate field ident found"@),
        ),
{
    let idents = field_ident_list(fields);
    duplicate_ident_verdict(&idents, "Duplicate field ident found")
}

/// Checks that no two procedures share a name.
pub fn find_rpc_procedure_duplicates(procedures: &Vec<ProcedureDeclaration>) -> (outcome: Result<
    (),
    SemanticError,
>)
    ensures
        reports(
            outcome,
            duplicate_ident_violation(procedure_idents(procedures@), "Duplicate proc ident found"@),
        ),
{
    let idents = procedure_ident_list(procedures);
    duplicate_ident_verdict(&idents, "Duplicate proc ident found")
}

/// Checks that no two parameters of a procedure share a name.
pub fn find_rpc_procedure_param_duplicates(params: &Vec<ProcedureParam>) -> (outcome: Result<
    (),
    SemanticError,
>)
    ensures
        reports(
            outcome,
            duplicate_ident_violation(
                param_idents(params@),
                "Duplicate proc param ident found"@,
            ),
        ),
{
    let idents = param_ident_list(params);
    duplicate_ident_verdict(&idents, "Duplicate proc param ident found")
}

/// Checks one struct: its field names, then that no field is of the struct's
/// own type.
pub fn check_struct(decl: &StructDeclaration) -> (outcome: Result<(), SemanticError>)
    ensures
        reports(outcome, struct_violation(*decl)),
{
    let by_name = find_struct_field_duplicates(&decl.fields);
    if by_name.is_err() {
        return by_name;
    }
    let ghost findings = self_reference_violations(decl.ident, decl.fields@);
    let mut i: usize = 0;
    while i < decl.fields.len()
        invariant
            i <= decl.fields.len(),
            findings == self_reference_violations(decl.ident, decl.fields@),
            first_some(findings.take(i as int)) is None,
            duplicate_ident_violation(
                field_idents(decl.fields@),
                "Duplicate field ident found"@,
            ) is None,
        decreases decl.fields.len() - i,
    {
        match &decl.fields[i].kind {
            TypeExpression::Named(id) => {
                if id.name == decl.ident.name {
                    proof {
                        lemma_first_some_found(findings, i as int);
                    }
                    return Err(
                        SemanticError::single(
                            SemanticErrorKind::SelfReferencingField,
                            String::from_str("Self referencing field type"),
                            id.span,
                        ),
                    );
                }
            },
            _ => {},
        }
        proof {
            lemma_first_some_step(findings, i as int);
        }
        i += 1;
    }
    assert(findings.take(decl.fields.len() as int) =~= findings);
    Ok(())
}

/// Whether some accessible type carries `name`.
fn is_accessible(accessible_types: &Vec<Identifier>, name: &String) -> (found: bool)
    ensures
        found == names(accessible_types@).contains(name@),
{
    let ghost known = names(accessible_types@);
    let mut i: usize = 0;
    while i < accessible_types.len()
        invariant
            i <= accessible_types.len(),
            known == names(accessible_types@),
            forall|k: int| 0 <= k < i ==> known[k] != name@,
        decreases accessible_types.len() - i,
    {
        if accessible_types[i].name == *name {
            assert(known[i as int] == name@);
            return true;
        }
        i += 1;
    }
    false
}

/// Checks that the named type inside `asking_for`, if it has one, is declared.
///
/// Arrays and optionals are looked through to any depth.
pub fn check_accessible_type(accessible_types: &Vec<Identifier>, asking_for: &TypeExpression) -> (outcome:
    Result<(), SemanticError>)
    ensures
        reports(outcome, unresolved_violation(names(accessible_types@), *asking_for)),
    decreases asking_for,
{
    match asking_for {
        TypeExpression::Named(id) => {
            if is_accessible(accessible_types, &id.name) {
                Ok(())
            } else {
                let mut message = String::from_str("Type '");
                message.append(id.name.as_str());
                message.append("' not found");
                Err(SemanticError::single(SemanticErrorKind::UnresolvedType, message, id.span))
            }
        },
        TypeExpression::Array(inner) => check_accessible_type(accessible_types, inner),
        TypeExpression::Optional(inner) => check_accessible_type(accessible_types, inner),
        _ => Ok(()),
    }
}


fn check_enums(enums: &Vec<EnumDeclaration>) -> (outcome: Result<(), SemanticError>)
    ensures
        reports(outcome, first_some(enum_violations(enums@))),
{
    let ghost findings = enum_violations(enums@);
    let mut i: usize = 0;
    while i < enums.len()
        invariant
            i <= enums.len(),
            findings == enum_violations(enums@),
            first_some(findings.take(i as int)) is None,
        decreases enums.len() - i,
    {
        let verdict = find_enum_variant_duplicates(&enums[i].variants);
        if verdict.is_err() {
            proof {
                lemma_first_some_found(findings, i as int);
            }
            return verdict;
        }
        proof {
            lemma_first_some_step(findings, i as int);
        }
        i += 1;
    }
    assert(findings.take(enums.len() as int) =~= findings);
    Ok(())
}

fn check_structs(structs: &Vec<StructDeclaration>) -> (outcome: Result<(), SemanticError>)
    ensures
        reports(outcome, first_some(struct_violations(structs@))),
{
    let ghost findings = struct_violations(structs@);
    let mut i: usize = 0;
    while i < structs.len()
        invariant
            i <= structs.len(),
            findings == struct_violations(structs@),
            first_some(findings.take(i as int)) is None,
        decreases structs.len() - i,
    {
        let verdict = check_struct(&structs[i]);
        if verdict.is_err() {
            proof {
                lemma_first_some_found(findings, i as int);
            }
            return verdict;
        }
        proof {
            lemma_first_some_step(findings, i as int);
        }
        i += 1;
    }
    assert(findings.take(structs.len() as int) =~= findings);
    Ok(())
}

fn check_procedure_params(procedures: &Vec<ProcedureDeclaration>) -> (outcome: Result<
    (),
    SemanticError,
>)
    ensures
        reports(outcome, first_some(param_violations(procedures@))),
{
    let ghost findings = param_violations(procedures@);
    let mut i: usize = 0;
    while i < procedures.len()
        invariant
            i <= procedures.len(),
            findings == param_violations(procedures@),
            first_some(findings.take(i as int)) is None,
        decreases procedures.len() - i,
    {
        let verdict = find_rpc_procedure_param_duplicates(&procedures[i].params);
        if verdict.is_err() {
            proof {
                lemma_first_some_found(findings, i as int);
            }
            return verdict;
        }
        proof {
            lemma_first_some_step(findings, i as int);
        }
        i += 1;
    }
    assert(findings.take(procedures.len() as int) =~= findings);
    Ok(())
}

fn check_field_types(accessible_types: &Vec<Identifier>, fields: &Vec<StructField>) -> (outcome:
    Result<(), SemanticError>)
    ensures
        reports(outcome, first_some(field_unresolved(names(accessible_types@), fields@))),
{
    let ghost findings = field_unresolved(names(accessible_types@), fields@);
    let mut i: usize = 0;
    while i < fields.len()
        invariant
            i <= fields.len(),
            findings == field_unresolved(names(accessible_types@), fields@),
            first_some(findings.take(i as int)) is None,
        decreases fields.len() - i,
    {
        let verdict = check_accessible_type(accessible_types, &fields[i].kind);
        if verdict.is_err() {
            proof {
                lemma_first_some_found(findings, i as int);
            }
            return verdict;
        }
        proof {
            lemma_first_some_step(findings, i as int);
        }
        i += 1;
    }
    assert(findings.take(fields.len() as int) =~= findings);
    Ok(())
}

fn check_param_types(accessible_types: &Vec<Identifier>, params: &Vec<ProcedureParam>) -> (outcome:
    Result<(), SemanticError>)
    ensures
        reports(outcome, first_some(param_unresolved(names(accessible_types@), params@))),
{
    let ghost findings = param_unresolved(names(accessible_types@), params@);
    let mut i: usize = 0;
    while i < params.len()
        invariant
            i <= params.len(),
            findings == param_unresolved(names(accessible_types@), params@),
            first_some(findings.take(i as int)) is None,
        decreases params.len() - i,
    {
        let verdict = check_accessible_type(accessible_types, &params[i].kind);
        if verdict.is_err() {
            proof {
                lemma_first_some_found(findings, i as int);
            }
            return verdict;
        }
        proof {
            lemma_first_some_step(findings, i as int);
        }
        i += 1;
    }
    assert(findings.take(params.len() as int) =~= findings);
    Ok(())
}

fn check_struct_types(accessible_types: &Vec<Identifier>, structs: &Vec<StructDeclaration>) -> (outcome:
    Result<(), SemanticError>)
    ensures
        reports(outcome, first_some(struct_unresolved(names(accessible_types@), structs@))),
{
    let ghost findings = struct_unresolved(names(accessible_types@), structs@);
    let mut i: usize = 0;
    while i < structs.len()
        invariant
            i <= structs.len(),
            findings == struct_unresolved(names(accessible_types@), structs@),
            first_some(findings.take(i as int)) is None,
        decreases structs.len() - i,
    {
        let verdict = check_field_types(accessible_types, &structs[i].fields);
        if verdict.is_err() {
            proof {
                lemma_first_some_found(findings, i as int);
            }
            return verdict;
        }
        proof {
            lemma_first_some_step(findings, i as int);
        }
        i += 1;
    }
    assert(findings.take(structs.len() as int) =~= findings);
    Ok(())
}

fn check_procedure_types(
    accessible_types: &Vec<Identifier>,
    procedures: &Vec<ProcedureDeclaration>,
) -> (outcome: Result<(), SemanticError>)
    ensures
        reports(outcome, first_some(procedures_unresolved(names(accessible_types@), procedures@))),
{
    let ghost findings = procedures_unresolved(names(accessible_types@), procedures@);
    let mut i: usize = 0;
    while i < procedures.len()
        invariant
            i <= procedures.len(),
            findings == procedures_unresolved(names(accessible_types@), procedures@),
            first_some(findings.take(i as int)) is None,
        decreases procedures.len() - i,
    {
        let by_param = check_param_types(accessible_types, &procedures[i].params);
        if by_param.is_err() {
            proof {
                lemma_first_some_found(findings, i as int);
            }
            return by_param;
        }
        let by_return = check_accessible_type(accessible_types, &procedures[i].return_kind);
        if by_return.is_err() {
            proof {
                lemma_first_some_found(findings, i as int);
            }
            return by_return;
        }
        proof {
            lemma_first_some_step(findings, i as int);
        }
        i += 1;
    }
    assert(findings.take(procedures.len() as int) =~= findings);
    Ok(())
}

/// Verifies a schema.
///
/// Returns `Ok` for a sound schema, and otherwise the error for the first
/// broken rule in check order; nothing after it is looked at. The schema is
/// only read.
pub fn verify_parser_outputs(schema: &Schema) -> (outcome: Result<(), SemanticError>)
    ensures
        reports(outcome, first_violation(*schema)),
        outcome is Ok <==> well_formed(*schema),
{
    proof {
        lemma_sound_iff_no_violation(*schema);
    }
    let accessible = accessible_types(schema);

    let by_type = duplicate_ident_verdict(&accessible, "Duplicate enum/struct ident found");
    if by_type.is_err() {
        return by_type;
    }
    let by_enum = check_enums(&schema.enums);
    if by_enum.is_err() {
        return by_enum;
    }
    let by_struct = check_structs(&schema.structs);
    if by_struct.is_err() {
        return by_struct;
    }
    let by_procedure = find_rpc_procedure_duplicates(&schema.procedures);
    if by_procedure.is_err() {
        return by_procedure;
    }
    let by_param = check_procedure_params(&schema.procedures);
    if by_param.is_err() {
        return by_param;
    }
    let by_field_type = check_struct_types(&accessible, &schema.structs);
    if by_field_type.is_err() {
        return by_field_type;
    }
    check_procedure_types(&accessible, &schema.procedures)
}

// ---------------------------------------------------------------------------
// Soundness of a schema, stated directly
// ---------------------------------------------------------------------------

/// Variant names differ pairwise, and so do variant values.
pub open spec fn enum_sound(decl: EnumDeclaration) -> bool {
    &&& names(variant_idents(decl.variants@)).no_duplicates()
    &&& variant_values(decl.variants@).no_duplicates()
}

/// Field names differ pairwise, and no field is of the struct's own type.
pub open spec fn struct_sound(decl: StructDeclaration) -> bool {
    &&& names(field_idents(decl.fields@)).no_duplicates()
    &&& forall|f: int|
        0 <= f < decl.fields@.len() ==> !is_self_reference(
            decl.ident,
            (#[trigger] decl.fields@[f]).kind,
        )
}

/// Every field type of the struct resolves.
pub open spec fn struct_resolves(known: Seq<Seq<char>>, decl: StructDeclaration) -> bool {
    forall|f: int| 0 <= f < decl.fields@.len() ==> resolves(known, (#[trigger] decl.fields@[f]).kind)
}

/// Every parameter type and the return type of the procedure resolve.
pub open spec fn procedure_resolves(known: Seq<Seq<char>>, decl: ProcedureDeclaration) -> bool {
    &&& forall|q: int|
        0 <= q < decl.params@.len() ==> resolves(known, (#[trigger] decl.params@[q]).kind)
    &&& resolves(known, decl.return_kind)
}

/// A schema is sound when enum and struct names differ pairwise in their
/// shared namespace, every enum and struct is sound, procedure names differ
/// pairwise and so do the parameter names of each procedure, and every named
/// type resolves to a declared enum or struct.
pub open spec fn well_formed(schema: Schema) -> bool {
    let known = names(type_idents(schema));
    &&& known.no_duplicates()
    &&& forall|e: int| 0 <= e < schema.enums@.len() ==> enum_sound(#[trigger] schema.enums@[e])
    &&& forall|s: int|
        0 <= s < schema.structs@.len() ==> struct_sound(#[trigger] schema.structs@[s])
    &&& names(procedure_idents(schema.procedures@)).no_duplicates()
    &&& forall|p: int|
        0 <= p < schema.procedures@.len() ==> names(
            param_idents((#[trigger] schema.procedures@[p]).params@),
        ).no_duplicates()
    &&& forall|s: int|
        0 <= s < schema.structs@.len() ==> struct_resolves(known, #[trigger] schema.structs@[s])
    &&& forall|p: int|
        0 <= p < schema.procedures@.len() ==> procedure_resolves(
            known,
            #[trigger] schema.procedures@[p],
        )
}

proof fn lemma_struct_sound(decl: StructDeclaration)
    ensures
        struct_violation(decl) is None <==> struct_sound(decl),
{
    let findings = self_reference_violations(decl.ident, decl.fields@);
    lemma_first_some_none(findings);
    if struct_violation(decl) is None {
        assert forall|f: int| 0 <= f < decl.fields@.len() implies !is_self_reference(
            decl.ident,
            (#[trigger] decl.fields@[f]).kind,
        ) by {
            assert(findings[f] is None);
        }
    }
    if struct_sound(decl) {
        assert forall|f: int| 0 <= f < findings.len() implies (#[trigger] findings[f]) is None by {
            assert(!is_self_reference(decl.ident, decl.fields@[f].kind));
        }
    }
}

proof fn lemma_struct_resolves(known: Seq<Seq<char>>, decl: StructDeclaration)
    ensures
        first_some(field_unresolved(known, decl.fields@)) is None <==> struct_resolves(known, decl),
{
    let findings = field_unresolved(known, decl.fields@);
    lemma_first_some_none(findings);
    if first_some(findings) is None {
        assert forall|f: int| 0 <= f < decl.fields@.len() implies resolves(
            known,
            (#[trigger] decl.fields@[f]).kind,
        ) by {
            assert(findings[f] is None);
        }
    }
    if struct_resolves(known, decl) {
        assert forall|f: int| 0 <= f < findings.len() implies (#[trigger] findings[f]) is None by {
            assert(resolves(known, decl.fields@[f].kind));
        }
    }
}

proof fn lemma_procedure_resolves(known: Seq<Seq<char>>, decl: ProcedureDeclaration)
    ensures
        procedure_unresolved(known, decl) is None <==> procedure_resolves(known, decl),
{
    let findings = param_unresolved(known, decl.params@);
    lemma_first_some_none(findings);
    if procedure_unresolved(known, decl) is None {
        assert forall|q: int| 0 <= q < decl.params@.len() implies resolves(
            known,
            (#[trigger] decl.params@[q]).kind,
        ) by {
            assert(findings[q] is None);
        }
    }
    if procedure_resolves(known, decl) {
        assert forall|q: int| 0 <= q < findings.len() implies (#[trigger] findings[q]) is None by {
            assert(resolves(known, decl.params@[q].kind));
        }
    }
}

/// Verification accepts exactly the sound schemas: no check has a finding
/// if and only if the schema is well formed.
pub proof fn lemma_sound_iff_no_violation(schema: Schema)
    ensures
        first_violation(schema) is None <==> well_formed(schema),
{
    let known = names(type_idents(schema));
    let by_enum = enum_violations(schema.enums@);
    let by_struct = struct_violations(schema.structs@);
    let by_param = param_violations(schema.procedures@);
    let by_field_type = struct_unresolved(known, schema.structs@);
    let by_procedure_type = procedures_unresolved(known, schema.procedures@);
    lemma_first_some_none(by_enum);
    lemma_first_some_none(by_struct);
    lemma_first_some_none(by_param);
    lemma_first_some_none(by_field_type);
    lemma_first_some_none(by_procedure_type);
    if first_violation(schema) is None {
        assert forall|e: int| 0 <= e < schema.enums@.len() implies enum_sound(
            #[trigger] schema.enums@[e],
        ) by {
            assert(by_enum[e] is None);
        }
        assert forall|s: int| 0 <= s < schema.structs@.len() implies struct_sound(
            #[trigger] schema.structs@[s],
        ) && struct_resolves(known, schema.structs@[s]) by {
            assert(by_struct[s] is None);
            assert(by_field_type[s] is None);
            lemma_struct_sound(schema.structs@[s]);
            lemma_struct_resolves(known, schema.structs@[s]);
        }
        assert forall|p: int| 0 <= p < schema.procedures@.len() implies names(
            param_idents((#[trigger] schema.procedures@[p]).params@),
        ).no_duplicates() && procedure_resolves(known, schema.procedures@[p]) by {
            assert(by_param[p] is None);
            assert(by_procedure_type[p] is None);
            lemma_procedure_resolves(known, schema.procedures@[p]);
        }
        assert(well_formed(schema));
    }
    if well_formed(schema) {
        assert forall|e: int| 0 <= e < by_enum.len() implies (#[trigger] by_enum[e]) is None by {
            assert(enum_sound(schema.enums@[e]));
        }
        assert forall|s: int| 0 <= s < by_struct.len() implies (#[trigger] by_struct[s]) is None by {
            assert(struct_sound(schema.structs@[s]));
            lemma_struct_sound(schema.structs@[s]);
        }
        assert forall|s: int| 0 <= s < by_field_type.len() implies (
        #[trigger] by_field_type[s]) is None by {
            assert(struct_resolves(known, schema.structs@[s]));
            lemma_struct_resolves(known, schema.structs@[s]);
        }
        assert forall|p: int| 0 <= p < by_param.len() implies (#[trigger] by_param[p]) is None by {
            assert(names(param_idents(schema.procedures@[p].params@)).no_duplicates());
        }
        assert forall|p: int| 0 <= p < by_procedure_type.len() implies (
        #[trigger] by_procedure_type[p]) is None by {
            assert(procedure_resolves(known, schema.procedures@[p]));
            lemma_procedure_resolves(known, schema.procedures@[p]);
        }
        assert(first_violation(schema) is None);
    }
}


/// Two enum or struct declarations that share a name are always reported,
/// whatever else is wrong with the schema: the error is a duplicate
/// identifier, and its two labels are the places of the earliest pair of
/// declarations whose names collide.
pub proof fn lemma_shared_type_name_reported(schema: Schema, a: int, b: int)
    requires
        0 <= a < b < type_idents(schema).len(),
        type_idents(schema)[a].name@ == type_idents(schema)[b].name@,
    ensures
        ({
            let idents = type_idents(schema);
            &&& duplicate_pair(names(idents)) matches Some((i, j))
            &&& is_first_duplicate(names(idents), i, j)
            &&& first_violation(schema) == Some(
                duplicate_error(
                    SemanticErrorKind::DuplicateIdentifier,
                    "Duplicate enum/struct ident found"@,
                    idents[i].span,
                    idents[j].span,
                ),
            )
        }),
{
    let all = names(type_idents(schema));
    assert(all[a] == all[b]);
    lemma_duplicate_pair_exists(all);
}

/// A struct with a field of the struct's own type is always rejected. When
/// every check that runs before that field passes, the error is the self
/// reference, labelled at the type of the field.
pub proof fn lemma_self_reference_reported(schema: Schema, s: int, f: int)
    requires
        0 <= s < schema.structs@.len(),
        0 <= f < schema.structs@[s].fields@.len(),
        is_self_reference(schema.structs@[s].ident, schema.structs@[s].fields@[f].kind),
    ensures
        first_violation(schema) is Some,
        ({
            &&& names(type_idents(schema)).no_duplicates()
            &&& forall|e: int|
                0 <= e < schema.enums@.len() ==> enum_sound(#[trigger] schema.enums@[e])
            &&& forall|t: int| 0 <= t < s ==> struct_sound(#[trigger] schema.structs@[t])
            &&& names(field_idents(schema.structs@[s].fields@)).no_duplicates()
            &&& forall|g: int|
                0 <= g < f ==> !is_self_reference(
                    schema.structs@[s].ident,
                    (#[trigger] schema.structs@[s].fields@[g]).kind,
                )
        }) ==> first_violation(schema) == Some(
            single_error(
                SemanticErrorKind::SelfReferencingField,
                "Self referencing field type"@,
                schema.structs@[s].fields@[f].kind->Named_0.span,
            ),
        ),
{
    lemma_sound_iff_no_violation(schema);
    assert(!struct_sound(schema.structs@[s]));
    let decl = schema.structs@[s];
    if ({
        &&& names(type_idents(schema)).no_duplicates()
        &&& forall|e: int| 0 <= e < schema.enums@.len() ==> enum_sound(#[trigger] schema.enums@[e])
        &&& forall|t: int| 0 <= t < s ==> struct_sound(#[trigger] schema.structs@[t])
        &&& names(field_idents(decl.fields@)).no_duplicates()
        &&& forall|g: int|
            0 <= g < f ==> !is_self_reference(decl.ident, (#[trigger] decl.fields@[g]).kind)
    }) {
        let by_enum = enum_violations(schema.enums@);
        lemma_first_some_none(by_enum);
        assert forall|e: int| 0 <= e < by_enum.len() implies (#[trigger] by_enum[e]) is None by {
            assert(enum_sound(schema.enums@[e]));
        }
        let by_field = self_reference_violations(decl.ident, decl.fields@);
        lemma_first_some_none(by_field.take(f));
        assert forall|g: int| 0 <= g < by_field.take(f).len() implies (#[trigger] by_field.take(
            f,
        )[g]) is None by {
            assert(!is_self_reference(decl.ident, decl.fields@[g].kind));
        }
        lemma_first_some_found(by_field, f);
        let by_struct = struct_violations(schema.structs@);
        lemma_first_some_none(by_struct.take(s));
        assert forall|t: int| 0 <= t < by_struct.take(s).len() implies (#[trigger] by_struct.take(
            s,
        )[t]) is None by {
            assert(struct_sound(schema.structs@[t]));
            lemma_struct_sound(schema.structs@[t]);
        }
        lemma_first_some_found(by_struct, s);
    }
}

/// A type that comes down to an undeclared name is always rejected, behind
/// any nesting of arrays and optionals: taken alone, its finding is the
/// unresolved type, labelled at the name.
pub proof fn lemma_unresolved_through_nesting(known: Seq<Seq<char>>, kind: TypeExpression)
    ensures
        unresolved_violation(known, TypeExpression::Array(Box::new(kind))) == unresolved_violation(
            known,
            kind,
        ),
        unresolved_violation(known, TypeExpression::Optional(Box::new(kind)))
            == unresolved_violation(known, kind),
        kind is Named && !known.contains(kind->Named_0.name@) ==> unresolved_violation(known, kind)
            == Some(
            single_error(
                SemanticErrorKind::UnresolvedType,
                unresolved_message(kind->Named_0.name@),
                kind->Named_0.span,
            ),
        ),
{
}

} // verus!
