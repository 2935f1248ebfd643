//! The validation rules: wildcard cost, empty or wildcarded short terms,
//! and follower-count ranges.  Each rule's result is pinned down by a
//! spec function over the node, and the laws at the end of the file state
//! the rules' guarantees once for all inputs.

use vstd::prelude::*;

use crate::ast::Expression;
use crate::ast::FieldType;
use crate::ast::SpecExpr;
use crate::ast::SpecTerm;
use crate::ast::Term;
use crate::chars::blank;
use crate::chars::is_blank;
use crate::error::LintError;
use crate::error::LintWarning;
use crate::error::SpecLintError;
use crate::error::SpecLintWarning;
use crate::error::SpecSpan;
use crate::numeric::spec_parse_i64;
use crate::numeric::parse_i64_str;
use crate::validation::SpecValidationResult;
use crate::validation::ValidationContext;
use crate::validation::ValidationResult;
use crate::validation::empty_result;

verus! {

/// A wildcard value that begins with `*`: disallowed outright.
pub open spec fn starts_with_star(value: Seq<char>) -> bool {
    value.len() > 0 && value[0] == '*'
}

/// A wildcard whose first segment before a `*` is exactly one character
/// and whose value ends with `*`: it matches far too many terms.
pub open spec fn too_broad_wildcard(value: Seq<char>) -> bool {
    value.len() >= 2 && value[0] != '*' && value[1] == '*' && value.last() == '*'
}

/// How many `?` replacement characters a value holds.
pub open spec fn qmark_count(s: Seq<char>) -> nat
    decreases s.len(),
{
    if s.len() == 0 {
        0
    } else {
        qmark_count(s.drop_last()) + if s.last() == '?' {
            1nat
        } else {
            0
        }
    }
}

pub open spec fn wildcard_can_validate(e: SpecExpr) -> bool {
    match e {
        SpecExpr::Term { term, .. } => term is Wildcard || term is Replacement,
        _ => false,
    }
}

/// What the wildcard rule reports at a node.
pub open spec fn wildcard_rule_result(e: SpecExpr) -> SpecValidationResult {
    match e {
        SpecExpr::Term { term, span } => match term {
            SpecTerm::Wildcard { value } => SpecValidationResult {
                errors: (if starts_with_star(value) {
                    seq![SpecLintError::InvalidWildcardPlacement { span }]
                } else {
                    Seq::empty()
                }) + (if too_broad_wildcard(value) {
                    seq![
                        SpecLintError::ValidationError {
                            span,
                            message:
                                "This wildcard matches too many unique terms. Please make it more specific."@,
                        },
                    ]
                } else {
                    Seq::empty()
                }),
                warnings: Seq::empty(),
            },
            SpecTerm::Replacement { value } => if qmark_count(value) > 3 {
                SpecValidationResult {
                    errors: Seq::empty(),
                    warnings: seq![
                        SpecLintWarning::PerformanceWarning {
                            span,
                            message: "Multiple replacement characters may impact performance"@,
                        },
                    ],
                }
            } else {
                empty_result()
            },
            _ => empty_result(),
        },
        _ => empty_result(),
    }
}

/// Counts the `?` characters of a value.
fn count_qmarks(value: &String) -> (n: usize)
    ensures
        n == qmark_count(value@),
{
    let text = value.as_str();
    let len = text.unicode_len();
    let mut n: usize = 0;
    let mut i: usize = 0;
    while i < len
        invariant
            0 <= i <= len,
            len == text@.len(),
            text@ == value@,
            n <= i,
            n == qmark_count(value@.take(i as int)),
        decreases len - i,
    {
        let c = text.get_char(i);
        proof {
            assert(value@.take(i + 1).drop_last() =~= value@.take(i as int));
            assert(value@.take(i + 1).last() == value@[i as int]);
        }
        if c == '?' {
            n = n + 1;
        }
        i = i + 1;
    }
    proof {
        assert(value@.take(len as int) =~= value@);
    }
    n
}

/// Flags expensive wildcard and replacement terms.
pub struct WildcardPerformanceRule;

impl WildcardPerformanceRule {
    pub fn name(&self) -> (r: &'static str)
        ensures
            r@ == "wildcard-performance"@,
    {
        "wildcard-performance"
    }

    pub fn can_validate(&self, expr: &Expression) -> (b: bool)
        ensures
            b == wildcard_can_validate(expr@),
    {
        match expr {
            Expression::Term { term, .. } => match term {
                Term::Wildcard { .. } => true,
                Term::Replacement { .. } => true,
                _ => false,
            },
            _ => false,
        }
    }

    pub fn validate(&self, expr: &Expression, _ctx: &ValidationContext) -> (r: ValidationResult)
        ensures
            r@ == wildcard_rule_result(expr@),
    {
        match expr {
            Expression::Term { term, span } => match term {
                Term::Wildcard { value } => {
                    let mut result = ValidationResult::new();
                    let text = value.as_str();
                    let n = text.unicode_len();
                    let lead = n > 0 && text.get_char(0) == '*';
                    let broad = n >= 2 && text.get_char(0) != '*' && text.get_char(1) == '*'
                        && text.get_char(n - 1) == '*';
                    proof {
                        assert(lead == starts_with_star(value@));
                        assert(broad == too_broad_wildcard(value@));
                    }
                    if lead {
                        result.errors.push(LintError::InvalidWildcardPlacement { span: *span });
                    }
                    if broad {
                        result.errors.push(
                            LintError::ValidationError {
                                span: *span,
                                message: String::from_str(
                                    "This wildcard matches too many unique terms. Please make it more specific.",
                                ),
                            },
                        );
                    }
                    proof {
                        assert(result@.errors =~= wildcard_rule_result(expr@).errors);
                        assert(result@.warnings =~= wildcard_rule_result(expr@).warnings);
                    }
                    result
                },
                Term::Replacement { value } => {
                    let q = count_qmarks(value);
                    if q > 3 {
                        let r = ValidationResult::with_warning(
                            LintWarning::PerformanceWarning {
                                span: *span,
                                message: String::from_str(
                                    "Multiple replacement characters may impact performance",
                                ),
                            },
                        );
                        proof {
                            assert(r@.errors =~= wildcard_rule_result(expr@).errors);
                        }
                        r
                    } else {
                        ValidationResult::new()
                    }
                },
                _ => ValidationResult::new(),
            },
            _ => ValidationResult::new(),
        }
    }
}

pub open spec fn short_term_can_validate(e: SpecExpr) -> bool {
    e is Term
}

/// What the short-term rule reports at a node: blank words, phrases,
/// hashtags and mentions are errors; a hashtag or mention that starts
/// with a wildcard is a warning.
pub open spec fn short_term_rule_result(e: SpecExpr) -> SpecValidationResult {
    match e {
        SpecExpr::Term { term, span } => match term {
            SpecTerm::Word { value } => if blank(value) {
                one_error(span, "Word cannot be empty"@)
            } else {
                empty_result()
            },
            SpecTerm::Phrase { value } => if blank(value) {
                one_error(span, "Quoted phrase cannot be empty"@)
            } else {
                empty_result()
            },
            SpecTerm::Hashtag { value } => if blank(value) {
                one_error(span, "Hashtag cannot be empty"@)
            } else if value[0] == '*' || value[0] == '?' {
                one_warning(
                    span,
                    "Wildcard usage after '#' is discouraged and may lead to unexpected results"@,
                )
            } else {
                empty_result()
            },
            SpecTerm::Mention { value } => if blank(value) {
                one_error(span, "Mention cannot be empty"@)
            } else if value[0] == '*' || value[0] == '?' {
                one_warning(
                    span,
                    "Wildcard usage after '@' is discouraged and may lead to unexpected results"@,
                )
            } else {
                empty_result()
            },
            _ => empty_result(),
        },
        _ => empty_result(),
    }
}

/// A result holding exactly one generic validation error.
pub open spec fn one_error(span: SpecSpan, message: Seq<char>) -> SpecValidationResult {
    SpecValidationResult {
        errors: seq![SpecLintError::ValidationError { span, message }],
        warnings: Seq::empty(),
    }
}

/// A result holding exactly one performance warning.
pub open spec fn one_warning(span: SpecSpan, message: Seq<char>) -> SpecValidationResult {
    SpecValidationResult {
        errors: Seq::empty(),
        warnings: seq![SpecLintWarning::PerformanceWarning { span, message }],
    }
}

/// Flags empty terms and wildcards directly after `#` or `@`.
pub struct ShortTermRule;

impl ShortTermRule {
    pub fn name(&self) -> (r: &'static str)
        ensures
            r@ == "short-term"@,
    {
        "short-term"
    }

    pub fn can_validate(&self, expr: &Expression) -> (b: bool)
        ensures
            b == short_term_can_validate(expr@),
    {
        match expr {
            Expression::Term { .. } => true,
            _ => false,
        }
    }

    pub fn validate(&self, expr: &Expression, _ctx: &ValidationContext) -> (r: ValidationResult)
        ensures
            r@ == short_term_rule_result(expr@),
    {
        match expr {
            Expression::Term { term, span } => match term {
                Term::Word { value } => {
                    if is_blank(value) {
                        ValidationResult::with_error(
                            LintError::ValidationError {
                                span: *span,
                                message: String::from_str("Word cannot be empty"),
                            },
                        )
                    } else {
                        ValidationResult::new()
                    }
                },
                Term::Phrase { value } => {
                    if is_blank(value) {
                        ValidationResult::with_error(
                            LintError::ValidationError {
                                span: *span,
                                message: String::from_str("Quoted phrase cannot be empty"),
                            },
                        )
                    } else {
                        ValidationResult::new()
                    }
                },
                Term::Hashtag { value } => {
                    if is_blank(value) {
                        ValidationResult::with_error(
                            LintError::ValidationError {
                                span: *span,
                                message: String::from_str("Hashtag cannot be empty"),
                            },
                        )
                    } else {
                        proof {
                            assert(value@.len() != 0);
                        }
                        let c0 = value.as_str().get_char(0);
                        if c0 == '*' || c0 == '?' {
                            ValidationResult::with_warning(
                                LintWarning::PerformanceWarning {
                                    span: *span,
                                    message: String::from_str(
                                        "Wildcard usage after '#' is discouraged and may lead to unexpected results",
                                    ),
                                },
                            )
                        } else {
                            ValidationResult::new()
                        }
                    }
                },
                Term::Mention { value } => {
                    if is_blank(value) {
                        ValidationResult::with_error(
                            LintError::ValidationError {
                                span: *span,
                                message: String::from_str("Mention cannot be empty"),
                            },
                        )
                    } else {
                        proof {
                            assert(value@.len() != 0);
                        }
                        let c0 = value.as_str().get_char(0);
                        if c0 == '*' || c0 == '?' {
                            ValidationResult::with_warning(
                                LintWarning::PerformanceWarning {
                                    span: *span,
                                    message: String::from_str(
                                        "Wildcard usage after '@' is discouraged and may lead to unexpected results",
                                    ),
                                },
                            )
                        } else {
                            ValidationResult::new()
                        }
                    }
                },
                _ => ValidationResult::new(),
            },
            _ => ValidationResult::new(),
        }
    }
}

pub open spec fn range_can_validate(e: SpecExpr) -> bool {
    match e {
        SpecExpr::Range { field, .. } => field == Some(FieldType::AuthorFollowers),
        _ => false,
    }
}

/// What the range rule reports: on a follower-count range whose bounds
/// both read as integers, a negative bound is an error and an upper bound
/// beyond one billion is a warning; unreadable bounds are left to other
/// checks.
pub open spec fn range_rule_result(e: SpecExpr) -> SpecValidationResult {
    match e {
        SpecExpr::Range { field, start, end, span } => {
            if field == Some(FieldType::AuthorFollowers) {
                match (spec_parse_i64(start), spec_parse_i64(end)) {
                    (Some(s), Some(en)) => SpecValidationResult {
                        errors: if s < 0 || en < 0 {
                            seq![
                                SpecLintError::RangeValidationError {
                                    span,
                                    message: "Follower counts cannot be negative"@,
                                },
                            ]
                        } else {
                            Seq::empty()
                        },
                        warnings: if en > 1000000000 {
                            seq![
                                SpecLintWarning::PerformanceWarning {
                                    span,
                                    message: "Very large follower counts may not match any results"@,
                                },
                            ]
                        } else {
                            Seq::empty()
                        },
                    },
                    _ => empty_result(),
                }
            } else {
                empty_result()
            }
        },
        _ => empty_result(),
    }
}

/// Flags unreasonable follower-count ranges.
pub struct RangePerformanceRule;

impl RangePerformanceRule {
    pub fn name(&self) -> (r: &'static str)
        ensures
            r@ == "range-performance"@,
    {
        "range-performance"
    }

    pub fn can_validate(&self, expr: &Expression) -> (b: bool)
        ensures
            b == range_can_validate(expr@),
    {
        match expr {
            Expression::Range { field: Some(FieldType::AuthorFollowers), .. } => true,
            _ => false,
        }
    }

    pub fn validate(&self, expr: &Expression, _ctx: &ValidationContext) -> (r: ValidationResult)
        ensures
            r@ == range_rule_result(expr@),
    {
        match expr {
            Expression::Range { field: Some(FieldType::AuthorFollowers), start, end, span } => {
                match (parse_i64_str(start), parse_i64_str(end)) {
                    (Some(s), Some(en)) => {
                        let mut result = ValidationResult::new();
                        if s < 0 || en < 0 {
                            result.errors.push(
                                LintError::RangeValidationError {
                                    span: *span,
                                    message: String::from_str(
                                        "Follower counts cannot be negative",
                                    ),
                                },
                            );
                        }
                        if en > 1000000000 {
                            result.warnings.push(
                                LintWarning::PerformanceWarning {
                                    span: *span,
                                    message: String::from_str(
                                        "Very large follower counts may not match any results",
                                    ),
                                },
                            );
                        }
                        proof {
                            assert(result@.errors =~= range_rule_result(expr@).errors);
                            assert(result@.warnings =~= range_rule_result(expr@).warnings);
                        }
                        result
                    },
                    _ => ValidationResult::new(),
                }
            },
            _ => ValidationResult::new(),
        }
    }
}

/// Law: a wildcard term that begins with `*` always yields the
/// invalid-placement error as its first finding.
pub proof fn lemma_leading_wildcard_error(value: Seq<char>, span: SpecSpan)
    requires
        value.len() > 0,
        value[0] == '*',
    ensures
        wildcard_rule_result(
            SpecExpr::Term { term: SpecTerm::Wildcard { value }, span },
        ).errors.len() >= 1,
        wildcard_rule_result(SpecExpr::Term { term: SpecTerm::Wildcard { value }, span }).errors[0]
            == (SpecLintError::InvalidWildcardPlacement { span }),
{
}

/// Law: a wildcard that does not begin with `*` yields the
/// too-many-unique-terms error exactly when its first segment is one
/// character and it ends with `*`; otherwise it yields nothing.
pub proof fn lemma_overly_broad_wildcard(value: Seq<char>, span: SpecSpan)
    requires
        !starts_with_star(value),
    ensures
        too_broad_wildcard(value) ==> wildcard_rule_result(
            SpecExpr::Term { term: SpecTerm::Wildcard { value }, span },
        ).errors == seq![
            SpecLintError::ValidationError {
                span,
                message:
                    "This wildcard matches too many unique terms. Please make it more specific."@,
            },
        ],
        !too_broad_wildcard(value) ==> wildcard_rule_result(
            SpecExpr::Term { term: SpecTerm::Wildcard { value }, span },
        ) == empty_result(),
        wildcard_rule_result(
            SpecExpr::Term { term: SpecTerm::Wildcard { value }, span },
        ).warnings == Seq::<SpecLintWarning>::empty(),
{
    let r = wildcard_rule_result(SpecExpr::Term { term: SpecTerm::Wildcard { value }, span });
    if too_broad_wildcard(value) {
        assert(r.errors =~= seq![
            SpecLintError::ValidationError {
                span,
                message:
                    "This wildcard matches too many unique terms. Please make it more specific."@,
            },
        ]);
    } else {
        assert(r.errors =~= Seq::<SpecLintError>::empty());
    }
}

/// Law: a replacement term warns exactly when it holds more than three
/// `?` characters, and then exactly once.
pub proof fn lemma_replacement_threshold(value: Seq<char>, span: SpecSpan)
    ensures
        qmark_count(value) <= 3 ==> wildcard_rule_result(
            SpecExpr::Term { term: SpecTerm::Replacement { value }, span },
        ) == empty_result(),
        qmark_count(value) > 3 ==> wildcard_rule_result(
            SpecExpr::Term { term: SpecTerm::Replacement { value }, span },
        ) == (SpecValidationResult {
            errors: Seq::empty(),
            warnings: seq![
                SpecLintWarning::PerformanceWarning {
                    span,
                    message: "Multiple replacement characters may impact performance"@,
                },
            ],
        }),
{
}

/// Law: a blank word, phrase, hashtag or mention yields exactly one error
/// and no warning.
pub proof fn lemma_blank_term_errors(value: Seq<char>, span: SpecSpan)
    requires
        blank(value),
    ensures
        short_term_rule_result(SpecExpr::Term { term: SpecTerm::Word { value }, span })
            == one_error(span, "Word cannot be empty"@),
        short_term_rule_result(SpecExpr::Term { term: SpecTerm::Phrase { value }, span })
            == one_error(span, "Quoted phrase cannot be empty"@),
        short_term_rule_result(SpecExpr::Term { term: SpecTerm::Hashtag { value }, span })
            == one_error(span, "Hashtag cannot be empty"@),
        short_term_rule_result(SpecExpr::Term { term: SpecTerm::Mention { value }, span })
            == one_error(span, "Mention cannot be empty"@),
{
}

/// Law: a non-blank hashtag or mention that starts with `*` or `?`
/// yields exactly one warning and no error.
pub proof fn lemma_tag_wildcard_warning(value: Seq<char>, span: SpecSpan)
    requires
        !blank(value),
        value[0] == '*' || value[0] == '?',
    ensures
        short_term_rule_result(SpecExpr::Term { term: SpecTerm::Hashtag { value }, span })
            == one_warning(
            span,
            "Wildcard usage after '#' is discouraged and may lead to unexpected results"@,
        ),
        short_term_rule_result(SpecExpr::Term { term: SpecTerm::Mention { value }, span })
            == one_warning(
            span,
            "Wildcard usage after '@' is discouraged and may lead to unexpected results"@,
        ),
{
}

/// Law: on a follower-count range whose bounds read as the integers `sv`
/// and `ev`, a negative bound yields exactly the negative-bound error, an
/// upper bound beyond one billion yields exactly the too-large warning,
/// and a range inside `[0, 10^9]` yields nothing.
pub proof fn lemma_follower_range(
    start: Seq<char>,
    end: Seq<char>,
    span: SpecSpan,
    sv: i64,
    ev: i64,
)
    requires
        spec_parse_i64(start) == Some(sv),
        spec_parse_i64(end) == Some(ev),
    ensures
        ({
            let r = range_rule_result(
                SpecExpr::Range {
                    field: Some(FieldType::AuthorFollowers),
                    start,
                    end,
                    span,
                },
            );
            &&& (sv < 0 || ev < 0) <==> r.errors == seq![
                SpecLintError::RangeValidationError {
                    span,
                    message: "Follower counts cannot be negative"@,
                },
            ]
            &&& (sv >= 0 && ev >= 0) <==> r.errors == Seq::<SpecLintError>::empty()
            &&& ev > 1000000000 <==> r.warnings == seq![
                SpecLintWarning::PerformanceWarning {
                    span,
                    message: "Very large follower counts may not match any results"@,
                },
            ]
            &&& ev <= 1000000000 <==> r.warnings == Seq::<SpecLintWarning>::empty()
        }),
{
    let r = range_rule_result(
        SpecExpr::Range { field: Some(FieldType::AuthorFollowers), start, end, span },
    );
    if sv < 0 || ev < 0 {
        assert(r.errors.len() == 1);
    } else {
        assert(r.errors.len() == 0);
    }
    if ev > 1000000000 {
        assert(r.warnings.len() == 1);
    } else {
        assert(r.warnings.len() == 0);
    }
}

} // verus!
