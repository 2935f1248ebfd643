//! The expression tree that the parser builds and the rules inspect.

use vstd::prelude::*;

use crate::error::Span;
use crate::error::SpecSpan;

verus! {

/// A leaf query atom.  Each term carries its raw textual value only;
/// validation rules interpret the text.
#[derive(Debug, Clone, PartialEq)]
pub enum Term {
    Word { value: String },
    Phrase { value: String },
    Wildcard { value: String },
    Replacement { value: String },
    Hashtag { value: String },
    Mention { value: String },
    CaseSensitive { value: String },
    Number { value: String },
}

/// The ghost counterpart of [`Term`].
pub enum SpecTerm {
    Word { value: Seq<char> },
    Phrase { value: Seq<char> },
    Wildcard { value: Seq<char> },
    Replacement { value: Seq<char> },
    Hashtag { value: Seq<char> },
    Mention { value: Seq<char> },
    CaseSensitive { value: Seq<char> },
    Number { value: Seq<char> },
}

impl View for Term {
    type V = SpecTerm;

    open spec fn view(&self) -> SpecTerm {
        match self {
            Term::Word { value } => SpecTerm::Word { value: value@ },
            Term::Phrase { value } => SpecTerm::Phrase { value: value@ },
            Term::Wildcard { value } => SpecTerm::Wildcard { value: value@ },
            Term::Replacement { value } => SpecTerm::Replacement { value: value@ },
            Term::Hashtag { value } => SpecTerm::Hashtag { value: value@ },
            Term::Mention { value } => SpecTerm::Mention { value: value@ },
            Term::CaseSensitive { value } => SpecTerm::CaseSensitive { value: value@ },
            Term::Number { value } => SpecTerm::Number { value: value@ },
        }
    }
}

/// The closed set of recognized query fields.
#[derive(Debug, Clone, Copy, PartialEq, Eq, Structural)]
pub enum FieldType {
    Title,
    Site,
    Language,
    AuthorFollowers,
}

/// One node of the expression tree.  Every node owns its children and
/// carries the span of the source text it was parsed from.
#[derive(Debug, PartialEq)]
pub enum Expression {
    Term { term: Term, span: Span },
    And { left: Box<Expression>, right: Box<Expression>, span: Span },
    Or { left: Box<Expression>, right: Box<Expression>, span: Span },
    Not { operand: Box<Expression>, span: Span },
    Group { inner: Box<Expression>, span: Span },
    Field { field: FieldType, operand: Box<Expression>, span: Span },
    Range { field: Option<FieldType>, start: String, end: String, span: Span },
    Proximity { terms: Vec<Term>, distance: u32, forward: bool, span: Span },
}

/// The ghost counterpart of [`Expression`].
pub enum SpecExpr {
    Term { term: SpecTerm, span: SpecSpan },
    And { left: Box<SpecExpr>, right: Box<SpecExpr>, span: SpecSpan },
    Or { left: Box<SpecExpr>, right: Box<SpecExpr>, span: SpecSpan },
    Not { operand: Box<SpecExpr>, span: SpecSpan },
    Group { inner: Box<SpecExpr>, span: SpecSpan },
    Field { field: FieldType, operand: Box<SpecExpr>, span: SpecSpan },
    Range { field: Option<FieldType>, start: Seq<char>, end: Seq<char>, span: SpecSpan },
    Proximity { terms: Seq<SpecTerm>, distance: u32, forward: bool, span: SpecSpan },
}

/// The ghost value of an expression tree.
pub open spec fn expr_view(e: Expression) -> SpecExpr
    decreases e,
{
    match e {
        Expression::Term { term, span } => SpecExpr::Term { term: term@, span: span@ },
        Expression::And { left, right, span } => SpecExpr::And {
            left: Box::new(expr_view(*left)),
            right: Box::new(expr_view(*right)),
            span: span@,
        },
        Expression::Or { left, right, span } => SpecExpr::Or {
            left: Box::new(expr_view(*left)),
            right: Box::new(expr_view(*right)),
            span: span@,
        },
        Expression::Not { operand, span } => SpecExpr::Not {
            operand: Box::new(expr_view(*operand)),
            span: span@,
        },
        Expression::Group { inner, span } => SpecExpr::Group {
            inner: Box::new(expr_view(*inner)),
            span: span@,
        },
        Expression::Field { field, operand, span } => SpecExpr::Field {
            field,
            operand: Box::new(expr_view(*operand)),
            span: span@,
        },
        Expression::Range { field, start, end, span } => SpecExpr::Range {
            field,
            start: start@,
            end: end@,
            span: span@,
        },
        Expression::Proximity { terms, distance, forward, span } => SpecExpr::Proximity {
            terms: terms@.map_values(|t: Term| t@),
            distance,
            forward,
            span: span@,
        },
    }
}

impl View for Expression {
    type V = SpecExpr;

    open spec fn view(&self) -> SpecExpr {
        expr_view(*self)
    }
}

/// The span of a ghost expression.
pub open spec fn spec_expr_span(e: SpecExpr) -> SpecSpan {
    match e {
        SpecExpr::Term { span, .. } => span,
        SpecExpr::And { span, .. } => span,
        SpecExpr::Or { span, .. } => span,
        SpecExpr::Not { span, .. } => span,
        SpecExpr::Group { span, .. } => span,
        SpecExpr::Field { span, .. } => span,
        SpecExpr::Range { span, .. } => span,
        SpecExpr::Proximity { span, .. } => span,
    }
}

impl Expression {
    /// The span this node was parsed from.
    pub fn span(&self) -> (s: Span)
        ensures
            s@ == spec_expr_span(self@),
    {
        match self {
            Expression::Term { span, .. } => *span,
            Expression::And { span, .. } => *span,
            Expression::Or { span, .. } => *span,
            Expression::Not { span, .. } => *span,
            Expression::Group { span, .. } => *span,
            Expression::Field { span, .. } => *span,
            Expression::Range { span, .. } => *span,
            Expression::Proximity { span, .. } => *span,
        }
    }
}

} // verus!
