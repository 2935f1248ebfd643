use bwq_linter::ast::{Expression, FieldType, Term};
use bwq_linter::error::{Diagnostic, LintError};
use bwq_linter::lexer::lex;
use bwq_linter::parser::parse;
use bwq_linter::validation::{lint, RuleSet, ValidationContext};

fn run(query: &str) -> Vec<Diagnostic> {
    let tokens = lex(query).unwrap();
    let expr = parse(&tokens).unwrap();
    lint(&expr, &RuleSet::all(), &ValidationContext::new())
}

#[test]
fn test_leading_wildcard_through_the_pipeline() {
    let report = run("*apple");
    assert!(report.len() >= 1);
    assert!(report.iter().any(|d| matches!(
        d,
        Diagnostic::Error(LintError::InvalidWildcardPlacement { .. })
    )));
}

#[test]
fn test_and_or_not_shape() {
    let tokens = lex("apple AND juice OR NOT pear").unwrap();
    let expr = parse(&tokens).unwrap();
    match expr {
        Expression::Or { left, right, .. } => {
            assert!(matches!(*left, Expression::And { .. }));
            assert!(matches!(*right, Expression::Not { .. }));
        }
        other => panic!("expected an OR at the top, got {:?}", other),
    }
}

#[test]
fn test_implicit_and() {
    let tokens = lex("apple juice").unwrap();
    let expr = parse(&tokens).unwrap();
    assert!(matches!(expr, Expression::And { .. }));
}

#[test]
fn test_field_scoping_and_unknown_field() {
    let tokens = lex("title:apple").unwrap();
    let expr = parse(&tokens).unwrap();
    match expr {
        Expression::Field { field, operand, .. } => {
            assert_eq!(field, FieldType::Title);
            assert!(matches!(
                *operand,
                Expression::Term { term: Term::Word { ref value }, .. } if value == "apple"
            ));
        }
        other => panic!("expected a field expression, got {:?}", other),
    }

    let tokens = lex("rating:apple").unwrap();
    match parse(&tokens) {
        Err(LintError::ParserError { message, .. }) => {
            assert_eq!(message, "Unknown field 'rating'");
        }
        other => panic!("expected a parser error, got {:?}", other),
    }
}

#[test]
fn test_follower_range_through_the_pipeline() {
    let report = run("authorFollowers:[-5 TO 100]");
    assert_eq!(report.len(), 1);
    assert!(matches!(
        report[0],
        Diagnostic::Error(LintError::RangeValidationError { .. })
    ));

    let report = run("authorFollowers:[0 TO 100]");
    assert!(report.is_empty());
}

#[test]
fn test_group_and_range_without_field() {
    let tokens = lex("(apple OR juice) [0 TO 9]").unwrap();
    let expr = parse(&tokens).unwrap();
    match expr {
        Expression::And { left, right, .. } => {
            assert!(matches!(*left, Expression::Group { .. }));
            assert!(matches!(
                *right,
                Expression::Range { field: None, ref start, ref end, .. }
                    if start == "0" && end == "9"
            ));
        }
        other => panic!("expected an AND of group and range, got {:?}", other),
    }
}

#[test]
fn test_proximity_forms() {
    let tokens = lex("\"apple juice\"~5").unwrap();
    let expr = parse(&tokens).unwrap();
    assert!(matches!(
        expr,
        Expression::Proximity { distance: 5, forward: false, .. }
    ));

    let tokens = lex("apple NEAR/3f juice").unwrap();
    let expr = parse(&tokens).unwrap();
    match expr {
        Expression::Proximity { ref terms, distance, forward, .. } => {
            assert_eq!(terms.len(), 2);
            assert_eq!(distance, 3);
            assert!(forward);
        }
        other => panic!("expected a proximity expression, got {:?}", other),
    }
}

#[test]
fn test_unbalanced_parenthesis_is_fatal() {
    let tokens = lex("(apple OR juice").unwrap();
    assert!(matches!(parse(&tokens), Err(LintError::ParserError { .. })));

    let tokens = lex("apple)").unwrap();
    assert!(matches!(parse(&tokens), Err(LintError::ParserError { .. })));
}

#[test]
fn test_parse_is_deterministic() {
    let tokens = lex("title:(apple OR juice*) AND #fresh").unwrap();
    let first = parse(&tokens).unwrap();
    let second = parse(&tokens).unwrap();
    assert_eq!(first, second);
}

#[test]
fn test_wildcard_classification_happens_at_parse_time() {
    let report = run("app?e");
    assert!(report.is_empty());

    let tokens = lex("app?e?x?y?").unwrap();
    let expr = parse(&tokens).unwrap();
    assert!(matches!(
        expr,
        Expression::Term { term: Term::Replacement { .. }, .. }
    ));
}

#[test]
fn test_empty_terms_through_the_pipeline() {
    let report = run("\"\"");
    assert_eq!(report.len(), 1);
    assert!(matches!(
        report[0],
        Diagnostic::Error(LintError::ValidationError { ref message, .. })
            if message == "Quoted phrase cannot be empty"
    ));

    let report = run("#");
    assert_eq!(report.len(), 1);
    assert!(matches!(
        report[0],
        Diagnostic::Error(LintError::ValidationError { ref message, .. })
            if message == "Hashtag cannot be empty"
    ));
}
