//! The validation engine: a pre-order walk that consults every registered
//! rule at every node and concatenates their findings in a fixed order.

use vstd::prelude::*;

use crate::ast::Expression;
use crate::ast::SpecExpr;
use crate::error::Diagnostic;
use crate::error::LintError;
use crate::error::LintWarning;
use crate::error::SpecDiagnostic;
use crate::error::SpecLintError;
use crate::error::SpecLintWarning;
use crate::rules::RangePerformanceRule;
use crate::rules::ShortTermRule;
use crate::rules::WildcardPerformanceRule;
use crate::rules::range_can_validate;
use crate::rules::range_rule_result;
use crate::rules::short_term_can_validate;
use crate::rules::short_term_rule_result;
use crate::rules::wildcard_can_validate;
use crate::rules::wildcard_rule_result;

verus! {

/// Read-only query-level information offered to the rules.  The current
/// rules need none of it, but every rule receives it, so the engine can
/// grow without changing the traversal.
pub struct ValidationContext {}

impl ValidationContext {
    pub fn new() -> (ctx: ValidationContext) {
        ValidationContext {  }
    }
}

/// What one rule reports for one node: errors first, then warnings.
#[derive(Debug, Clone, PartialEq)]
pub struct ValidationResult {
    pub errors: Vec<LintError>,
    pub warnings: Vec<LintWarning>,
}

/// The ghost counterpart of [`ValidationResult`].
pub struct SpecValidationResult {
    pub errors: Seq<SpecLintError>,
    pub warnings: Seq<SpecLintWarning>,
}

/// The views of a list of errors.
pub open spec fn errs_view(s: Seq<LintError>) -> Seq<SpecLintError> {
    s.map_values(|e: LintError| e@)
}

/// The views of a list of warnings.
pub open spec fn warns_view(s: Seq<LintWarning>) -> Seq<SpecLintWarning> {
    s.map_values(|w: LintWarning| w@)
}

/// Errors wrapped as report entries.
pub open spec fn as_error_diags(s: Seq<SpecLintError>) -> Seq<SpecDiagnostic> {
    s.map_values(|e: SpecLintError| SpecDiagnostic::Error(e))
}

/// Warnings wrapped as report entries.
pub open spec fn as_warning_diags(s: Seq<SpecLintWarning>) -> Seq<SpecDiagnostic> {
    s.map_values(|w: SpecLintWarning| SpecDiagnostic::Warning(w))
}

impl View for ValidationResult {
    type V = SpecValidationResult;

    open spec fn view(&self) -> SpecValidationResult {
        SpecValidationResult {
            errors: errs_view(self.errors@),
            warnings: warns_view(self.warnings@),
        }
    }
}

/// The result with no findings.
pub open spec fn empty_result() -> SpecValidationResult {
    SpecValidationResult { errors: Seq::empty(), warnings: Seq::empty() }
}

impl ValidationResult {
    pub fn new() -> (r: ValidationResult)
        ensures
            r@ == empty_result(),
    {
        let r = ValidationResult { errors: Vec::new(), warnings: Vec::new() };
        proof {
            assert(r@.errors =~= empty_result().errors);
            assert(r@.warnings =~= empty_result().warnings);
        }
        r
    }

    pub fn with_error(error: LintError) -> (r: ValidationResult)
        ensures
            r@.errors == seq![error@],
            r@.warnings == Seq::<SpecLintWarning>::empty(),
    {
        let ghost e = error@;
        let mut errors: Vec<LintError> = Vec::new();
        errors.push(error);
        let r = ValidationResult { errors, warnings: Vec::new() };
        proof {
            assert(r@.errors =~= seq![e]);
            assert(r@.warnings =~= Seq::<SpecLintWarning>::empty());
        }
        r
    }

    pub fn with_warning(warning: LintWarning) -> (r: ValidationResult)
        ensures
            r@.errors == Seq::<SpecLintError>::empty(),
            r@.warnings == seq![warning@],
    {
        let ghost w = warning@;
        let mut warnings: Vec<LintWarning> = Vec::new();
        warnings.push(warning);
        let r = ValidationResult { errors: Vec::new(), warnings };
        proof {
            assert(r@.errors =~= Seq::<SpecLintError>::empty());
            assert(r@.warnings =~= seq![w]);
        }
        r
    }
}

/// One registered rule, named by its place in the closed rule set.
#[derive(Debug, Clone, Copy, PartialEq, Eq, Structural)]
pub enum RuleKind {
    WildcardPerformance,
    ShortTerm,
    RangePerformance,
}

/// The ordered registry of rules the engine consults.
pub struct RuleSet {
    pub rules: Vec<RuleKind>,
}

impl RuleSet {
    /// All rules, in their standard registration order.
    pub fn all() -> (rs: RuleSet)
        ensures
            rs.rules@ == seq![
                RuleKind::WildcardPerformance,
                RuleKind::ShortTerm,
                RuleKind::RangePerformance,
            ],
    {
        let mut rules: Vec<RuleKind> = Vec::new();
        rules.push(RuleKind::WildcardPerformance);
        rules.push(RuleKind::ShortTerm);
        rules.push(RuleKind::RangePerformance);
        proof {
            assert(rules@ =~= seq![
                RuleKind::WildcardPerformance,
                RuleKind::ShortTerm,
                RuleKind::RangePerformance,
            ]);
        }
        RuleSet { rules }
    }
}

/// Whether a rule claims a node.
pub open spec fn spec_can_validate(rk: RuleKind, e: SpecExpr) -> bool {
    match rk {
        RuleKind::WildcardPerformance => wildcard_can_validate(e),
        RuleKind::ShortTerm => short_term_can_validate(e),
        RuleKind::RangePerformance => range_can_validate(e),
    }
}

/// What a rule reports for a node it claims.
pub open spec fn spec_validate(rk: RuleKind, e: SpecExpr) -> SpecValidationResult {
    match rk {
        RuleKind::WildcardPerformance => wildcard_rule_result(e),
        RuleKind::ShortTerm => short_term_rule_result(e),
        RuleKind::RangePerformance => range_rule_result(e),
    }
}

/// A rule's findings flattened into the report order: errors, then
/// warnings.
pub open spec fn result_diags(vr: SpecValidationResult) -> Seq<SpecDiagnostic> {
    as_error_diags(vr.errors) + as_warning_diags(vr.warnings)
}

/// What one rule contributes at one node.
pub open spec fn rule_diags_at(e: SpecExpr, rk: RuleKind) -> Seq<SpecDiagnostic> {
    if spec_can_validate(rk, e) {
        result_diags(spec_validate(rk, e))
    } else {
        Seq::empty()
    }
}

/// What all rules contribute at one node, in registration order.
pub open spec fn rules_at(e: SpecExpr, rules: Seq<RuleKind>) -> Seq<SpecDiagnostic>
    decreases rules.len(),
{
    if rules.len() == 0 {
        Seq::empty()
    } else {
        rule_diags_at(e, rules[0]) + rules_at(e, rules.skip(1))
    }
}

/// The whole report: a pre-order walk, the node's own findings before its
/// children's, left children before right.
pub open spec fn spec_lint(e: SpecExpr, rules: Seq<RuleKind>) -> Seq<SpecDiagnostic>
    decreases e,
{
    rules_at(e, rules) + match e {
        SpecExpr::And { left, right, .. } => spec_lint(*left, rules) + spec_lint(*right, rules),
        SpecExpr::Or { left, right, .. } => spec_lint(*left, rules) + spec_lint(*right, rules),
        SpecExpr::Not { operand, .. } => spec_lint(*operand, rules),
        SpecExpr::Group { inner, .. } => spec_lint(*inner, rules),
        SpecExpr::Field { operand, .. } => spec_lint(*operand, rules),
        SpecExpr::Term { .. } => Seq::empty(),
        SpecExpr::Range { .. } => Seq::empty(),
        SpecExpr::Proximity { .. } => Seq::empty(),
    }
}

/// The views of a diagnostic list.
pub open spec fn diags_view(s: Seq<Diagnostic>) -> Seq<SpecDiagnostic> {
    s.map_values(|d: Diagnostic| d@)
}

/// Whether `rk` claims the node `expr`.
fn rule_applies(rk: RuleKind, expr: &Expression) -> (b: bool)
    ensures
        b == spec_can_validate(rk, expr@),
{
    match rk {
        RuleKind::WildcardPerformance => WildcardPerformanceRule.can_validate(expr),
        RuleKind::ShortTerm => ShortTermRule.can_validate(expr),
        RuleKind::RangePerformance => RangePerformanceRule.can_validate(expr),
    }
}

/// Runs `rk` on the node `expr`.
fn run_rule(rk: RuleKind, expr: &Expression, ctx: &ValidationContext) -> (vr: ValidationResult)
    ensures
        vr@ == spec_validate(rk, expr@),
{
    match rk {
        RuleKind::WildcardPerformance => WildcardPerformanceRule.validate(expr, ctx),
        RuleKind::ShortTerm => ShortTermRule.validate(expr, ctx),
        RuleKind::RangePerformance => RangePerformanceRule.validate(expr, ctx),
    }
}

/// Appends one rule's findings to the report: errors first, then
/// warnings.
fn append_result(out: &mut Vec<Diagnostic>, vr: ValidationResult)
    ensures
        diags_view(final(out)@) == diags_view(old(out)@) + result_diags(vr@),
{
    let ghost base = out@;
    let ghost errs0 = vr.errors@;
    let ghost warns0 = vr.warnings@;
    let mut vr = vr;
    let ghost mut j: int = 0;
    proof {
        assert(errs0.skip(0) =~= errs0);
        assert(diags_view(out@) =~= diags_view(base) + as_error_diags(errs_view(errs0.take(0))));
    }

    while vr.errors.len() > 0
        invariant
            0 <= j <= errs0.len(),
            vr.errors@ == errs0.skip(j),
            vr.warnings@ == warns0,
            diags_view(out@) =~= diags_view(base) + as_error_diags(errs_view(errs0.take(j))),
        decreases vr.errors@.len(),
    {
        let ghost out_prev = out@;
        let e = vr.errors.remove(0);
        out.push(Diagnostic::Error(e));
        proof {
            assert(e == errs0[j]);
            assert(vr.errors@ =~= errs0.skip(j + 1));
            assert(errs_view(errs0.take(j + 1)) =~= errs_view(errs0.take(j)).push(e@));
            assert(as_error_diags(errs_view(errs0.take(j + 1))) =~= as_error_diags(
                errs_view(errs0.take(j)),
            ).push(SpecDiagnostic::Error(e@)));
            assert(diags_view(out@) =~= diags_view(out_prev).push(
                SpecDiagnostic::Error(e@),
            ));
            assert(diags_view(out@) =~= diags_view(base) + as_error_diags(
                errs_view(errs0.take(j + 1)),
            ));
            j = j + 1;
        }
    }
    proof {
        assert(errs0.take(errs0.len() as int) =~= errs0);
        assert(diags_view(out@) =~= diags_view(base) + as_error_diags(errs_view(errs0)));
    }

    let ghost mid = out@;
    let ghost mut k: int = 0;
    proof {
        assert(warns0.skip(0) =~= warns0);
        assert(diags_view(out@) =~= diags_view(mid) + as_warning_diags(
            warns_view(warns0.take(0)),
        ));
    }
    while vr.warnings.len() > 0
        invariant
            0 <= k <= warns0.len(),
            vr.warnings@ == warns0.skip(k),
            diags_view(mid) =~= diags_view(base) + as_error_diags(errs_view(errs0)),
            diags_view(out@) =~= diags_view(mid) + as_warning_diags(warns_view(warns0.take(k))),
        decreases vr.warnings@.len(),
    {
        let ghost out_prev = out@;
        let w = vr.warnings.remove(0);
        out.push(Diagnostic::Warning(w));
        proof {
            assert(w == warns0[k]);
            assert(vr.warnings@ =~= warns0.skip(k + 1));
            assert(warns_view(warns0.take(k + 1)) =~= warns_view(warns0.take(k)).push(w@));
            assert(as_warning_diags(warns_view(warns0.take(k + 1))) =~= as_warning_diags(
                warns_view(warns0.take(k)),
            ).push(SpecDiagnostic::Warning(w@)));
            assert(diags_view(out@) =~= diags_view(out_prev).push(
                SpecDiagnostic::Warning(w@),
            ));
            assert(diags_view(out@) =~= diags_view(mid) + as_warning_diags(
                warns_view(warns0.take(k + 1)),
            ));
            k = k + 1;
        }
    }
    proof {
        assert(warns0.take(warns0.len() as int) =~= warns0);
        assert(diags_view(out@) =~= diags_view(base) + (as_error_diags(errs_view(errs0))
            + as_warning_diags(warns_view(warns0))));
    }
}

/// Walks `expr` and appends everything the rules report, in order.
fn lint_into(
    expr: &Expression,
    rules: &RuleSet,
    ctx: &ValidationContext,
    out: &mut Vec<Diagnostic>,
)
    ensures
        diags_view(final(out)@) == diags_view(old(out)@) + spec_lint(expr@, rules.rules@),
    decreases *expr,
{
    let ghost base = out@;
    let ghost rsq = rules.rules@;
    let mut i: usize = 0;
    proof {
        assert(rsq.skip(0) =~= rsq);
    }

    while i < rules.rules.len()
        invariant
            0 <= i <= rsq.len(),
            rules.rules@ == rsq,
            diags_view(base) + rules_at(expr@, rsq) =~= diags_view(out@) + rules_at(
                expr@,
                rsq.skip(i as int),
            ),
        decreases rsq.len() - i,
    {
        let rk = rules.rules[i];
        proof {
            assert(rsq.skip(i as int).len() > 0);
            assert(rsq.skip(i as int)[0] == rsq[i as int]);
            assert(rsq.skip(i as int).skip(1) =~= rsq.skip(i + 1));
        }
        if rule_applies(rk, expr) {
            let vr = run_rule(rk, expr, ctx);
            append_result(out, vr);
        }
        proof {
            assert(diags_view(base) + rules_at(expr@, rsq) =~= diags_view(out@) + rules_at(
                expr@,
                rsq.skip(i + 1),
            ));
        }
        i = i + 1;
    }
    proof {
        assert(rsq.skip(rsq.len() as int) =~= Seq::<RuleKind>::empty());
        assert(diags_view(out@) =~= diags_view(base) + rules_at(expr@, rsq));
    }

    let ghost after_node = out@;
    match expr {
        Expression::And { left, right, .. } => {
            lint_into(&**left, rules, ctx, out);
            lint_into(&**right, rules, ctx, out);
            proof {
                assert(diags_view(out@) =~= diags_view(base) + spec_lint(expr@, rsq));
            }
        },
        Expression::Or { left, right, .. } => {
            lint_into(&**left, rules, ctx, out);
            lint_into(&**right, rules, ctx, out);
            proof {
                assert(diags_view(out@) =~= diags_view(base) + spec_lint(expr@, rsq));
            }
        },
        Expression::Not { operand, .. } => {
            lint_into(&**operand, rules, ctx, out);
            proof {
                assert(diags_view(out@) =~= diags_view(base) + spec_lint(expr@, rsq));
            }
        },
        Expression::Group { inner, .. } => {
            lint_into(&**inner, rules, ctx, out);
            proof {
                assert(diags_view(out@) =~= diags_view(base) + spec_lint(expr@, rsq));
            }
        },
        Expression::Field { operand, .. } => {
            lint_into(&**operand, rules, ctx, out);
            proof {
                assert(diags_view(out@) =~= diags_view(base) + spec_lint(expr@, rsq));
            }
        },
        _ => {
            proof {
                assert(diags_view(out@) =~= diags_view(base) + spec_lint(expr@, rsq));
            }
        },
    }
}

/// Lints a whole expression tree: the report is exactly the model's, so a
/// second run on the same tree and rule set yields the same diagnostics in
/// the same order.
pub fn lint(expr: &Expression, rules: &RuleSet, ctx: &ValidationContext) -> (r: Vec<Diagnostic>)
    ensures
        diags_view(r@) == spec_lint(expr@, rules.rules@),
{
    let mut out: Vec<Diagnostic> = Vec::new();
    proof {
        assert(diags_view(Seq::<Diagnostic>::empty()) =~= Seq::<SpecDiagnostic>::empty());
    }
    lint_into(expr, rules, ctx, &mut out);
    proof {
        assert(diags_view(out@) =~= spec_lint(expr@, rules.rules@));
    }
    out
}

} // verus!
