use bwq_linter::ast::{Expression, FieldType, Term};
use bwq_linter::error::{Diagnostic, LintError, LintWarning, Position, Span};
use bwq_linter::rules::{RangePerformanceRule, ShortTermRule, WildcardPerformanceRule};
use bwq_linter::validation::{lint, RuleSet, ValidationContext};

fn span() -> Span {
    Span::new(Position::new(1, 1, 0), Position::new(1, 2, 1))
}

fn wildcard(value: &str) -> Expression {
    Expression::Term {
        term: Term::Wildcard {
            value: String::from(value),
        },
        span: span(),
    }
}

fn replacement(value: &str) -> Expression {
    Expression::Term {
        term: Term::Replacement {
            value: String::from(value),
        },
        span: span(),
    }
}

fn followers_range(start: &str, end: &str) -> Expression {
    Expression::Range {
        field: Some(FieldType::AuthorFollowers),
        start: String::from(start),
        end: String::from(end),
        span: span(),
    }
}

#[test]
fn test_rule_names() {
    let ctx = ValidationContext::new();
    let _ = &ctx;
    assert_eq!(WildcardPerformanceRule.name(), "wildcard-performance");
    assert_eq!(ShortTermRule.name(), "short-term");
    assert_eq!(RangePerformanceRule.name(), "range-performance");
}

#[test]
fn test_leading_wildcard_is_an_error() {
    let ctx = ValidationContext::new();
    let expr = wildcard("*apple");
    assert!(WildcardPerformanceRule.can_validate(&expr));
    let r = WildcardPerformanceRule.validate(&expr, &ctx);
    assert_eq!(r.errors.len(), 1);
    assert!(matches!(r.errors[0], LintError::InvalidWildcardPlacement { .. }));
    assert!(r.warnings.is_empty());
}

#[test]
fn test_short_prefix_trailing_wildcard() {
    let ctx = ValidationContext::new();
    let r = WildcardPerformanceRule.validate(&wildcard("a*"), &ctx);
    assert_eq!(r.errors.len(), 1);
    assert!(matches!(
        r.errors[0],
        LintError::ValidationError { ref message, .. }
            if message == "This wildcard matches too many unique terms. Please make it more specific."
    ));

    let r = WildcardPerformanceRule.validate(&wildcard("apple*"), &ctx);
    assert!(r.errors.is_empty());
    assert!(r.warnings.is_empty());
}

#[test]
fn test_replacement_threshold() {
    let ctx = ValidationContext::new();
    let r = WildcardPerformanceRule.validate(&replacement("a?b?c?"), &ctx);
    assert!(r.errors.is_empty());
    assert!(r.warnings.is_empty());

    let r = WildcardPerformanceRule.validate(&replacement("a?b?c?d?"), &ctx);
    assert!(r.errors.is_empty());
    assert_eq!(r.warnings.len(), 1);
    assert!(matches!(
        r.warnings[0],
        LintWarning::PerformanceWarning { ref message, .. }
            if message == "Multiple replacement characters may impact performance"
    ));
}

#[test]
fn test_empty_terms_are_errors() {
    let ctx = ValidationContext::new();
    let phrase = Expression::Term {
        term: Term::Phrase { value: String::new() },
        span: span(),
    };
    let r = ShortTermRule.validate(&phrase, &ctx);
    assert_eq!(r.errors.len(), 1);
    assert!(r.warnings.is_empty());

    let hashtag = Expression::Term {
        term: Term::Hashtag { value: String::new() },
        span: span(),
    };
    let r = ShortTermRule.validate(&hashtag, &ctx);
    assert_eq!(r.errors.len(), 1);
    assert!(r.warnings.is_empty());
}

#[test]
fn test_mention_with_wildcard_prefix_warns() {
    let ctx = ValidationContext::new();
    let mention = Expression::Term {
        term: Term::Mention { value: String::from("*x") },
        span: span(),
    };
    let r = ShortTermRule.validate(&mention, &ctx);
    assert!(r.errors.is_empty());
    assert_eq!(r.warnings.len(), 1);
}

#[test]
fn test_follower_range_bounds() {
    let ctx = ValidationContext::new();

    let r = RangePerformanceRule.validate(&followers_range("-5", "100"), &ctx);
    assert_eq!(r.errors.len(), 1);
    assert!(matches!(
        r.errors[0],
        LintError::RangeValidationError { ref message, .. }
            if message == "Follower counts cannot be negative"
    ));
    assert!(r.warnings.is_empty());

    let r = RangePerformanceRule.validate(&followers_range("0", "2000000000"), &ctx);
    assert!(r.errors.is_empty());
    assert_eq!(r.warnings.len(), 1);

    let r = RangePerformanceRule.validate(&followers_range("0", "100"), &ctx);
    assert!(r.errors.is_empty());
    assert!(r.warnings.is_empty());
}

#[test]
fn test_unparseable_bounds_are_left_alone() {
    let ctx = ValidationContext::new();
    let r = RangePerformanceRule.validate(&followers_range("low", "3.5"), &ctx);
    assert!(r.errors.is_empty());
    assert!(r.warnings.is_empty());
}

#[test]
fn test_lint_is_deterministic() {
    let ctx = ValidationContext::new();
    let rules = RuleSet::all();
    let expr = Expression::And {
        left: Box::new(wildcard("*apple")),
        right: Box::new(followers_range("-5", "2000000000")),
        span: span(),
    };
    let first = lint(&expr, &rules, &ctx);
    let second = lint(&expr, &rules, &ctx);
    assert_eq!(first, second);
    assert_eq!(first.len(), 3);
    assert!(matches!(
        first[0],
        Diagnostic::Error(LintError::InvalidWildcardPlacement { .. })
    ));
    assert!(matches!(
        first[1],
        Diagnostic::Error(LintError::RangeValidationError { .. })
    ));
    assert!(matches!(
        first[2],
        Diagnostic::Warning(LintWarning::PerformanceWarning { .. })
    ));
}

#[test]
fn test_engine_walks_children_in_order() {
    let ctx = ValidationContext::new();
    let rules = RuleSet::all();
    let empty_word = Expression::Term {
        term: Term::Word { value: String::from(" ") },
        span: span(),
    };
    let expr = Expression::Not {
        operand: Box::new(Expression::Group {
            inner: Box::new(empty_word),
            span: span(),
        }),
        span: span(),
    };
    let report = lint(&expr, &rules, &ctx);
    assert_eq!(report.len(), 1);
    assert!(matches!(
        report[0],
        Diagnostic::Error(LintError::ValidationError { ref message, .. })
            if message == "Word cannot be empty"
    ));
}

#[test]
fn test_follower_range_integer_bounds() {
    let ctx = ValidationContext::new();

    let r = RangePerformanceRule.validate(
        &followers_range("-9223372036854775808", "9223372036854775807"),
        &ctx,
    );
    assert_eq!(r.errors.len(), 1);
    assert_eq!(r.warnings.len(), 1);

    let r = RangePerformanceRule.validate(&followers_range("0", "9223372036854775808"), &ctx);
    assert!(r.errors.is_empty());
    assert!(r.warnings.is_empty());
}
