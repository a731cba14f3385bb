//! Semantic errors: what was violated, a message, and the labelled places in
//! the source that a renderer needs to draw a report.

use vstd::prelude::*;
use vstd::string::*;
use crate::schema::Span;

verus! {

/// Which rule of the schema a semantic error reports.
#[derive(Clone, Copy, Debug, PartialEq, Eq)]
pub enum SemanticErrorKind {
    DuplicateIdentifier,
    DuplicateEnumValue,
    SelfReferencingField,
    UnresolvedType,
}

/// The severity colour a label is drawn in.
#[derive(Clone, Copy, Debug, PartialEq, Eq)]
pub enum ErrorColor {
    Red,
    Yellow,
}

/// One annotated place in the source.
#[derive(Clone, Debug, PartialEq, Eq)]
pub struct Label {
    pub span: Span,
    pub text: String,
    pub color: ErrorColor,
}

/// A violated rule with its message and one or two labels.
#[derive(Clone, Debug, PartialEq, Eq)]
pub struct SemanticError {
    pub kind: SemanticErrorKind,
    pub message: String,
    pub labels: Vec<Label>,
}

pub ghost struct LabelView {
    pub span: Span,
    pub text: Seq<char>,
    pub color: ErrorColor,
}

pub ghost struct SemanticErrorView {
    pub kind: SemanticErrorKind,
    pub message: Seq<char>,
    pub labels: Seq<LabelView>,
}

impl View for Label {
    type V = LabelView;

    open spec fn view(&self) -> LabelView {
        LabelView { span: self.span, text: self.text@, color: self.color }
    }
}

impl View for SemanticError {
    type V = SemanticErrorView;

    open spec fn view(&self) -> SemanticErrorView {
        SemanticErrorView {
            kind: self.kind,
            message: self.message@,
            labels: self.labels@.map_values(|l: Label| l@),
        }
    }
}

/// The error for a collision: the first occurrence in yellow, the repeated
/// one in red.
pub open spec fn duplicate_error(
    kind: SemanticErrorKind,
    message: Seq<char>,
    first: Span,
    second: Span,
) -> SemanticErrorView {
    SemanticErrorView {
        kind,
        message,
        labels: seq![
            LabelView { span: first, text: "Original here"@, color: ErrorColor::Yellow },
            LabelView { span: second, text: "Duplicate here"@, color: ErrorColor::Red },
        ],
    }
}

/// The error for a single offending place, labelled in red.
pub open spec fn single_error(
    kind: SemanticErrorKind,
    message: Seq<char>,
    span: Span,
) -> SemanticErrorView {
    SemanticErrorView {
        kind,
        message,
        labels: seq![LabelView { span, text: "error here"@, color: ErrorColor::Red }],
    }
}

impl SemanticError {
    /// Builds the error for a collision between two places.
    pub fn duplicate(kind: SemanticErrorKind, message: String, first: Span, second: Span) -> (e:
        SemanticError)
        ensures
            e@ == duplicate_error(kind, message@, first, second),
    {
        let mut labels: Vec<Label> = Vec::new();
        labels.push(
            Label { span: first, text: String::from_str("Original here"), color: ErrorColor::Yellow },
        );
        labels.push(
            Label { span: second, text: String::from_str("Duplicate here"), color: ErrorColor::Red },
        );
        let e = SemanticError { kind, message, labels };
        assert(e@.labels =~= duplicate_error(kind, message@, first, second).labels);
        e
    }

    /// Builds the error for one offending place.
    pub fn single(kind: SemanticErrorKind, message: String, span: Span) -> (e: SemanticError)
        ensures
            e@ == single_error(kind, message@, span),
    {
        let mut labels: Vec<Label> = Vec::new();
        labels.push(Label { span, text: String::from_str("error here"), color: ErrorColor::Red });
        let e = SemanticError { kind, message, labels };
        assert(e@.labels =~= single_error(kind, message@, span).labels);
        e
    }
}

} // verus!
