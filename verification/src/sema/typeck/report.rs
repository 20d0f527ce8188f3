use super::expr::{base_type, spec_coercion, Coercion, ExprChecker};
use super::rules::pattern_names;
use crate::parser::ast::SwitchCase;
use crate::sema::resolve_path::DefLink;
use crate::sema::ty::{TypeRegistry, TypeShape};
use super::messages::issue_message;
use super::rules::TypeIssue;
use crate::driver::context::{diagnostic_added, Context};
use crate::driver::diagnostic::DiagnosticLevel;
use crate::sema::resolve_imports::{diag_view, diag_views, DiagView};
use crate::sema::ty::TypeId;
use crate::utils::{concat3, symbol_text, Span, SymbolId};
use vstd::prelude::*;

verus! {

// Reporting what the type rules refuse as diagnostics of the context.

/// The hints of the diagnostic that `issue` stands for, as far as they do
/// not print a type.
pub open spec fn issue_hints(issue: TypeIssue) -> Seq<Seq<char>> {
    match issue {
        TypeIssue::Coercion(Coercion::ImmutableArrayToMutableSlice) => seq![
            "the slice must be immutable `[]T` to match the array's mutability"@,
        ],
        TypeIssue::PointerArithmetic => seq![
            "use explicit `as usize` casts to perform arithmetic, or use pointer methods"@,
        ],
        TypeIssue::AssignToImmutable => seq!["consider using the `mut` type modifier in the declaration"@],
        TypeIssue::VariadicSmallInteger => seq!["please cast it explicitly (e.g., `as i32` or `as u32`)"@],
        TypeIssue::VariadicF32 => seq!["please cast it explicitly (e.g., `as f64`)"@],
        TypeIssue::ReceiverNeedsPointer => seq![
            "the method expects a pointer receiver"@,
            "Kern does not implicitly take addresses for method calls. Try using `(&obj).method()` or `obj.&.method()`"@,
        ],
        _ => Seq::empty(),
    }
}

/// The diagnostic that `issue` at `span` stands for.
pub open spec fn issue_view(issue: TypeIssue, span: Span) -> DiagView {
    DiagView {
        level: DiagnosticLevel::Error,
        span,
        message: issue_message(issue),
        hints: issue_hints(issue),
        related: Seq::empty(),
    }
}

fn owned(s: &str) -> (r: String)
    ensures
        r@ == s@,
{
    s.to_owned()
}

/// The hints of the diagnostic for `issue`.
fn hints_of(issue: TypeIssue) -> (v: Vec<String>)
    ensures
        v@.map_values(|h: String| h@) == issue_hints(issue),
{
    let mut v: Vec<String> = Vec::new();
    match issue {
        TypeIssue::Coercion(Coercion::ImmutableArrayToMutableSlice) => {
            v.push(owned("the slice must be immutable `[]T` to match the array's mutability"));
        },
        TypeIssue::PointerArithmetic => {
            v.push(owned("use explicit `as usize` casts to perform arithmetic, or use pointer methods"));
        },
        TypeIssue::AssignToImmutable => {
            v.push(owned("consider using the `mut` type modifier in the declaration"));
        },
        TypeIssue::VariadicSmallInteger => {
            v.push(owned("please cast it explicitly (e.g., `as i32` or `as u32`)"));
        },
        TypeIssue::VariadicF32 => {
            v.push(owned("please cast it explicitly (e.g., `as f64`)"));
        },
        TypeIssue::ReceiverNeedsPointer => {
            v.push(owned("the method expects a pointer receiver"));
            v.push(
                owned(
                    "Kern does not implicitly take addresses for method calls. Try using `(&obj).method()` or `obj.&.method()`",
                ),
            );
        },
        _ => {},
    }
    assert(v@.map_values(|h: String| h@) =~= issue_hints(issue));
    v
}

/// Report `issue` at `span` as an error with its message and hints.
pub fn report_issue(ctx: &mut Context, span: Span, issue: TypeIssue)
    requires
        old(ctx).wf(),
        old(ctx).diagnostics@.len() < usize::MAX,
    ensures
        final(ctx).wf(),
        diagnostic_added(
            *old(ctx),
            *final(ctx),
            DiagnosticLevel::Error,
            span,
            issue_message(issue),
            issue_hints(issue),
            Seq::empty(),
        ),
{
    let mut b = ctx.struct_error(span, issue.message());
    let hints = hints_of(issue);
    let mut i: usize = 0;
    while i < hints.len()
        invariant
            0 <= i <= hints@.len(),
            hints@.map_values(|h: String| h@) == issue_hints(issue),
            b.pending().level == DiagnosticLevel::Error,
            b.pending().primary_span == span,
            b.pending().message@ == issue_message(issue),
            b.pending().hint_texts() == issue_hints(issue).take(i as int),
            b.pending().related() == Seq::<(Span, Seq<char>)>::empty(),
        decreases hints.len() - i,
    {
        let h = owned(hints[i].as_str());
        proof {
            assert(hints@.map_values(|h: String| h@)[i as int] == hints@[i as int]@);
            assert(issue_hints(issue).take(i as int).push(h@) =~= issue_hints(issue).take(i + 1));
        }
        b = b.with_hint(h);
        i = i + 1;
    }
    proof {
        assert(issue_hints(issue).take(hints@.len() as int) =~= issue_hints(issue));
    }
    b.emit(ctx);
}

/// Report each of `issues` at `span`, in order.
pub fn report_issues(ctx: &mut Context, span: Span, issues: &Vec<TypeIssue>)
    requires
        old(ctx).wf(),
        old(ctx).diagnostics@.len() + issues@.len() < usize::MAX,
    ensures
        final(ctx).wf(),
        diag_views(final(ctx).diagnostics@) == diag_views(old(ctx).diagnostics@) + issues@.map_values(
            |i: TypeIssue| issue_view(i, span),
        ),
        final(ctx).interner == old(ctx).interner,
        final(ctx).type_registry == old(ctx).type_registry,
        final(ctx).scopes == old(ctx).scopes,
        final(ctx).target == old(ctx).target,
        final(ctx).next_node_id == old(ctx).next_node_id,
{
    let mut k: usize = 0;
    proof {
        assert(diag_views(ctx.diagnostics@) =~= diag_views(old(ctx).diagnostics@) + issues@.take(0).map_values(
            |i: TypeIssue| issue_view(i, span),
        ));
    }
    while k < issues.len()
        invariant
            0 <= k <= issues@.len(),
            ctx.wf(),
            ctx.diagnostics@.len() == old(ctx).diagnostics@.len() + k,
            old(ctx).diagnostics@.len() + issues@.len() < usize::MAX,
            diag_views(ctx.diagnostics@) == diag_views(old(ctx).diagnostics@) + issues@.take(k as int).map_values(
                |i: TypeIssue| issue_view(i, span),
            ),
            ctx.interner == old(ctx).interner,
            ctx.type_registry == old(ctx).type_registry,
            ctx.scopes == old(ctx).scopes,
            ctx.target == old(ctx).target,
            ctx.next_node_id == old(ctx).next_node_id,
        decreases issues.len() - k,
    {
        let ghost before = ctx.diagnostics@;
        report_issue(ctx, span, issues[k]);
        proof {
            let n = before.len();
            assert forall|j: int| 0 <= j < n implies ctx.diagnostics@[j] == before[j] by {
                assert(ctx.diagnostics@.take(n as int)[j] == ctx.diagnostics@[j]);
            }
            assert(diag_views(ctx.diagnostics@) =~= diag_views(before).push(diag_view(ctx.diagnostics@[n as int])));
            assert(diag_view(ctx.diagnostics@[n as int]) == issue_view(issues@[k as int], span));
            assert(issues@.take(k + 1).map_values(|i: TypeIssue| issue_view(i, span)) =~= issues@.take(
                k as int,
            ).map_values(|i: TypeIssue| issue_view(i, span)).push(issue_view(issues@[k as int], span)));
        }
        k = k + 1;
    }
    proof {
        assert(issues@.take(issues@.len() as int) =~= issues@);
    }
}

/// Check that a value of type `actual` may stand where `expected` is
/// wanted, and report it at `span` where it may not. The result says
/// whether it may.
pub fn report_coercion(ctx: &mut Context, checker: &ExprChecker, span: Span, expected: TypeId, actual: TypeId) -> (r: bool)
    requires
        old(ctx).wf(),
        old(ctx).type_registry.contains(expected),
        old(ctx).type_registry.contains(actual),
        old(ctx).diagnostics@.len() < usize::MAX,
    ensures
        final(ctx).wf(),
        r == (spec_coercion(&old(ctx).type_registry, expected, actual) == Coercion::Accepted),
        r ==> *final(ctx) == *old(ctx),
        !r ==> diagnostic_added(
            *old(ctx),
            *final(ctx),
            DiagnosticLevel::Error,
            span,
            issue_message(TypeIssue::Coercion(spec_coercion(&old(ctx).type_registry, expected, actual))),
            issue_hints(TypeIssue::Coercion(spec_coercion(&old(ctx).type_registry, expected, actual))),
            Seq::empty(),
        ),
{
    let c = checker.check_coercion(&ctx.type_registry, expected, actual);
    match c {
        Coercion::Accepted => true,
        _ => {
            report_issue(ctx, span, TypeIssue::Coercion(c));
            false
        },
    }
}

pub open spec fn join_names(names: Seq<Seq<char>>) -> Seq<char>
    decreases names.len(),
{
    if names.len() == 0 {
        Seq::empty()
    } else if names.len() == 1 {
        names[0]
    } else {
        join_names(names.drop_last()) + ", "@ + names.last()
    }
}

/// The names of `syms` in the interner `names`.
pub open spec fn symbol_texts(names: Seq<Seq<char>>, syms: Seq<SymbolId>) -> Seq<Seq<char>> {
    syms.map_values(|s: SymbolId| symbol_text(names, s))
}

/// Report a `switch` without `else` that leaves cases out: the enum
/// variants `missing` (none where the target is no enum, `is_enum` false).
/// An enum switch that names every variant is not reported.
pub fn report_switch_exhaustiveness(ctx: &mut Context, is_enum: bool, missing: &Vec<SymbolId>, span: Span)
    requires
        old(ctx).wf(),
        old(ctx).diagnostics@.len() < usize::MAX,
    ensures
        final(ctx).wf(),
        if !is_enum {
            diagnostic_added(
                *old(ctx),
                *final(ctx),
                DiagnosticLevel::Error,
                span,
                "switch expression must be exhaustive"@,
                seq!["consider adding an `else =>` catch-all branch"@],
                Seq::empty(),
            )
        } else if missing@.len() == 0 {
            *final(ctx) == *old(ctx)
        } else {
            diagnostic_added(
                *old(ctx),
                *final(ctx),
                DiagnosticLevel::Error,
                span,
                "switch expression is not exhaustive"@,
                seq!["missing enum variants: "@ + join_names(symbol_texts(old(ctx).interner@, missing@))],
                Seq::empty(),
            )
        },
{
    if !is_enum {
        let b = ctx.struct_error(span, owned("switch expression must be exhaustive")).with_hint(
            owned("consider adding an `else =>` catch-all branch"),
        );
        proof {
            assert(b.pending().hint_texts() =~= seq!["consider adding an `else =>` catch-all branch"@]);
        }
        b.emit(ctx);
        return;
    }
    if missing.len() == 0 {
        return;
    }
    let ghost names = ctx.interner@;
    let mut list = concat3("", ctx.resolve(missing[0]), "");
    proof {
        reveal_strlit("");
        assert(symbol_texts(names, missing@.take(1)) =~= seq![symbol_text(names, missing@[0])]);
        assert(list@ =~= join_names(symbol_texts(names, missing@.take(1))));
    }
    let mut i: usize = 1;
    while i < missing.len()
        invariant
            1 <= i <= missing@.len(),
            names == ctx.interner@,
            list@ == join_names(symbol_texts(names, missing@.take(i as int))),
        decreases missing.len() - i,
    {
        list = concat3(list.as_str(), ", ", ctx.resolve(missing[i]));
        proof {
            let t = symbol_texts(names, missing@.take(i + 1));
            assert(t.drop_last() =~= symbol_texts(names, missing@.take(i as int)));
            assert(t.last() == symbol_text(names, missing@[i as int]));
        }
        i = i + 1;
    }
    proof {
        assert(missing@.take(missing@.len() as int) =~= missing@);
    }
    let hint = concat3("missing enum variants: ", list.as_str(), "");
    proof {
        reveal_strlit("");
        assert(hint@ =~= "missing enum variants: "@ + list@);
    }
    let b = ctx.struct_error(span, owned("switch expression is not exhaustive")).with_hint(hint);
    proof {
        assert(b.pending().hint_texts() =~= seq![
            "missing enum variants: "@ + join_names(symbol_texts(names, missing@)),
        ]);
    }
    b.emit(ctx);
}

/// The definition that a switch over `target` switches on: the one whose
/// type `target` is, under aliases and one `mut`.
pub open spec fn switch_def(reg: &TypeRegistry, target: TypeId) -> Option<crate::sema::ty::DefId> {
    match reg@[base_type(reg, target).0 as int] {
        TypeShape::Def(d, _) => Some(d),
        _ => None,
    }
}

/// The variants a switch over `target` has to name: those of the enum it
/// switches on, or `None` where it switches on no enum.
pub open spec fn switch_enum_variants(reg: &TypeRegistry, defs: Seq<DefLink>, target: TypeId) -> Option<
    Seq<SymbolId>,
> {
    match switch_def(reg, target) {
        Some(d) => match defs[d.0 as int] {
            DefLink::Enum { variants, .. } => Some(variants@),
            _ => None,
        },
        None => None,
    }
}

/// Check that a `switch` over a value of type `target_ty` covers every
/// case: with an `else` branch it does; over an enum it must name each
/// variant, and the variants it leaves out are reported in declaration
/// order; over anything else it needs an `else` branch.
pub fn check_switch_exhaustiveness(
    ctx: &mut Context,
    checker: &ExprChecker,
    defs: &Vec<DefLink>,
    target_ty: TypeId,
    cases: &Vec<SwitchCase>,
    has_default: bool,
    span: Span,
)
    requires
        old(ctx).wf(),
        old(ctx).diagnostics@.len() < usize::MAX,
        old(ctx).type_registry.contains(target_ty),
        switch_def(&old(ctx).type_registry, target_ty) matches Some(d) ==> d.0 < defs@.len(),
    ensures
        final(ctx).wf(),
        if has_default {
            *final(ctx) == *old(ctx)
        } else {
            match switch_enum_variants(&old(ctx).type_registry, defs@, target_ty) {
                None => diagnostic_added(
                    *old(ctx),
                    *final(ctx),
                    DiagnosticLevel::Error,
                    span,
                    "switch expression must be exhaustive"@,
                    seq!["consider adding an `else =>` catch-all branch"@],
                    Seq::empty(),
                ),
                Some(vs) => {
                    let missing = vs.filter(|n: SymbolId| !pattern_names(cases@).contains(n));
                    if missing.len() == 0 {
                        *final(ctx) == *old(ctx)
                    } else {
                        diagnostic_added(
                            *old(ctx),
                            *final(ctx),
                            DiagnosticLevel::Error,
                            span,
                            "switch expression is not exhaustive"@,
                            seq!["missing enum variants: "@ + join_names(symbol_texts(old(ctx).interner@, missing))],
                            Seq::empty(),
                        )
                    }
                },
            }
        },
{
    if has_default {
        return;
    }
    let base = checker.strip_mut(&ctx.type_registry, target_ty);
    let variants: Option<Vec<SymbolId>> = match ctx.type_registry.get(base) {
        crate::sema::ty::TypeKind::Def(d, _) => match &defs[d.0 as usize] {
            DefLink::Enum { variants, .. } => Some(variants.clone()),
            _ => None,
        },
        _ => None,
    };
    match variants {
        Some(vs) => {
            let missing = checker.unhandled_variants(&vs, cases);
            report_switch_exhaustiveness(ctx, true, &missing, span);
        },
        None => {
            report_switch_exhaustiveness(ctx, false, &Vec::new(), span);
        },
    }
}

} // verus!
