use kernc::driver::cli::{add_default_std_alias, parse_args, CliAction, CliError, ValueOption};
use kernc::driver::config::{AsmDialect, CompileOptions, OptLevel, TargetMachine};
use kernc::driver::context::{underline_extent, Context};
use kernc::driver::diagnostic::{Diagnostic, DiagnosticLevel};
use kernc::parser::ast::{BinaryOperator, Expr, ExprKind, NodeId, UnaryOperator};
use kernc::sema::prune::{conditions_hold, eval_condition, eval_condition_value, CondValue};
use kernc::utils::{Span, SymbolId};

fn args(v: &[&str]) -> Vec<String> {
    v.iter().map(|s| s.to_string()).collect()
}

fn compile_options(r: Result<CliAction, CliError>) -> CompileOptions {
    match r {
        Ok(CliAction::Compile(o)) => o,
        other => panic!("expected options, got {:?}", other),
    }
}

fn expr(kind: ExprKind) -> Expr {
    Expr { id: NodeId(0), span: Span::new(1, 2), kind }
}

fn ident(ctx: &mut Context, name: &str) -> Expr {
    let sym = ctx.intern(name);
    expr(ExprKind::Identifier(sym))
}

fn binary(lhs: Expr, op: BinaryOperator, rhs: Expr) -> Expr {
    expr(ExprKind::Binary { lhs: Box::new(lhs), op, rhs: Box::new(rhs) })
}

fn linux_context() -> Context {
    let mut ctx = Context::new(false);
    let mut o = CompileOptions::default();
    o.target = TargetMachine::new("x86_64-unknown-linux-gnu").unwrap();
    o.custom_defines.insert("feature".to_string(), "true".to_string());
    o.custom_defines.insert("off".to_string(), "false".to_string());
    o.custom_defines.insert("board".to_string(), "rpi".to_string());
    ctx.apply_options(&o);
    ctx
}

#[test]
fn diagnostic_level_names_and_colors() {
    assert_eq!(DiagnosticLevel::Error.name(), "error");
    assert_eq!(DiagnosticLevel::Warning.name(), "warning");
    assert_eq!(DiagnosticLevel::Note.name(), "note");
    assert_eq!(DiagnosticLevel::Ice.name(), "ICE");
    assert_eq!(DiagnosticLevel::Error.color_prefix(), "\x1b[31;1m");
    assert_eq!(DiagnosticLevel::Warning.color_prefix(), "\x1b[33;1m");
    assert_eq!(DiagnosticLevel::Note.color_prefix(), "\x1b[36;1m");
    assert_eq!(DiagnosticLevel::Ice.color_prefix(), "\x1b[35;1m");
}

#[test]
fn diagnostic_new_and_hints() {
    let d = Diagnostic::new(DiagnosticLevel::Warning, Span::new(4, 9), "unused".to_string());
    assert_eq!(d.level, DiagnosticLevel::Warning);
    assert_eq!(d.primary_span, Span::new(4, 9));
    assert_eq!(d.message, "unused");
    assert!(d.hints.is_empty());
    assert!(d.related_spans.is_empty());
    let d = d.with_hint("remove it".to_string()).with_hint("or use it".to_string());
    assert_eq!(d.hints, vec!["remove it".to_string(), "or use it".to_string()]);
}

#[test]
fn context_counts_errors() {
    let mut ctx = Context::new(false);
    assert!(!ctx.has_errors());
    ctx.emit_warning(Span::new(0, 1), "careful".to_string());
    ctx.report(Span::new(0, 1), DiagnosticLevel::Note, "fyi".to_string());
    assert!(!ctx.has_errors());
    assert_eq!(ctx.error_count, 0);
    ctx.emit_error(Span::new(2, 3), "bad".to_string());
    assert!(ctx.has_errors());
    assert_eq!(ctx.error_count, 1);
    ctx.emit_ice(Span::new(5, 6), "oops".to_string());
    assert_eq!(ctx.error_count, 2);
    assert_eq!(ctx.diagnostics.len(), 4);
    let ice = &ctx.diagnostics[3];
    assert_eq!(ice.level, DiagnosticLevel::Ice);
    assert_eq!(ice.hints, vec!["This is a bug in the Kern compiler. Please report it!".to_string()]);
}

#[test]
fn context_node_ids_and_symbols() {
    let mut ctx = Context::new(true);
    assert!(ctx.use_color);
    assert_eq!(ctx.next_node_id(), NodeId(0));
    assert_eq!(ctx.next_node_id(), NodeId(1));
    let a = ctx.intern("main");
    let b = ctx.intern("main");
    assert_eq!(a, b);
    assert_eq!(ctx.resolve(a), "main");
    assert_eq!(ctx.resolve(SymbolId(40)), "<unknown>");
}

#[test]
fn diagnostic_builder_emit() {
    let mut ctx = Context::new(false);
    let b = ctx
        .struct_error(Span::new(1, 4), "mismatched types".to_string())
        .with_hint("try a cast".to_string())
        .with_span_label(Span::new(7, 8), "expected because of this".to_string());
    assert!(!b.emit(&mut ctx));
    assert!(ctx.has_errors());
    let d = &ctx.diagnostics[0];
    assert_eq!(d.message, "mismatched types");
    assert_eq!(d.hints, vec!["try a cast".to_string()]);
    assert_eq!(d.related_spans, vec![(Span::new(7, 8), "expected because of this".to_string())]);
    let w = ctx.struct_warning(Span::new(0, 0), "w".to_string());
    assert!(!w.emit(&mut ctx));
    assert_eq!(ctx.error_count, 1);
}

#[test]
fn underline_extent_cases() {
    assert_eq!(underline_extent(20, 5, Span::new(10, 13)), (4, 3));
    assert_eq!(underline_extent(10, 8, Span::new(0, 50)), (7, 3));
    assert_eq!(underline_extent(10, 1, Span::new(5, 5)), (0, 1));
    assert_eq!(underline_extent(3, 9, Span::new(0, 4)), (8, 1));
    assert_eq!(underline_extent(3, 0, Span::new(0, 2)), (0, 2));
}

#[test]
fn target_machine_from_triple() {
    let t = TargetMachine::new("x86_64-unknown-linux-gnu").unwrap();
    assert_eq!(t.triple, "x86_64-unknown-linux-gnu");
    assert_eq!(t.arch, "x86_64");
    assert_eq!(t.os, "linux");
    assert_eq!(t.pointer_size, 8);
    let t32 = TargetMachine::new("i686-unknown-linux-gnu").unwrap();
    assert_eq!(t32.pointer_size, 4);
    assert_eq!(t32.arch, "i686");
    let e = TargetMachine::new("bogus").unwrap_err();
    assert_eq!(e, "Unrecognized architecture: bogus");
}

#[test]
fn target_machine_default_is_host() {
    let t = TargetMachine::default();
    assert!(t.pointer_size == 2 || t.pointer_size == 4 || t.pointer_size == 8);
    assert!(!t.triple.is_empty());
}

#[test]
fn compile_options_default() {
    let o = CompileOptions::default();
    assert_eq!(o.input_file, "");
    assert_eq!(o.output_file, "a.out");
    assert_eq!(o.opt_level, OptLevel::O0);
    assert!(!o.emit_llvm_ir);
    assert_eq!(o.asm_dialect, AsmDialect::Intel);
    assert!(!o.link_libc);
    assert_eq!(o.linker_cmd, "cc");
    assert_eq!(o.custom_defines.len(), 0);
    assert_eq!(o.module_aliases.len(), 0);
}

#[test]
fn cli_full_command_line() {
    let o = compile_options(parse_args(
        &args(&[
            "main.kn", "-o", "kernel.elf", "-O2", "--emit-llvm", "--link-libc", "--target",
            "i686-unknown-linux-gnu", "--asm-dialect", "att", "--cc", "clang", "-D", "arch=arm=v7",
            "-M", "std=./lib/std",
        ]),
        None,
    ));
    assert_eq!(o.input_file, "main.kn");
    assert_eq!(o.output_file, "kernel.elf");
    assert_eq!(o.opt_level, OptLevel::O2);
    assert!(o.emit_llvm_ir);
    assert!(o.link_libc);
    assert_eq!(o.target.pointer_size, 4);
    assert_eq!(o.asm_dialect, AsmDialect::Att);
    assert_eq!(o.linker_cmd, "clang");
    assert_eq!(o.custom_defines.get("arch").map(|s| s.as_str()), Some("arm=v7"));
    assert_eq!(o.module_aliases.get("std").map(|s| s.as_str()), Some("./lib/std"));
}

#[test]
fn cli_cc_environment_and_override() {
    let o = compile_options(parse_args(&args(&["a.kn"]), Some("gcc".to_string())));
    assert_eq!(o.linker_cmd, "gcc");
    let o = compile_options(parse_args(&args(&["a.kn", "--cc", "tcc"]), Some("gcc".to_string())));
    assert_eq!(o.linker_cmd, "tcc");
    let o = compile_options(parse_args(&args(&["a.kn"]), None));
    assert_eq!(o.linker_cmd, "cc");
}

#[test]
fn cli_later_options_win() {
    let o = compile_options(parse_args(&args(&["-O3", "-o", "x", "a.kn", "-O1", "-o", "y"]), None));
    assert_eq!(o.opt_level, OptLevel::O1);
    assert_eq!(o.output_file, "y");
}

#[test]
fn cli_help_and_version_stop_reading() {
    assert!(matches!(parse_args(&args(&["-h"]), None), Ok(CliAction::Help)));
    assert!(matches!(parse_args(&args(&["a.kn", "--help", "-bogus"]), None), Ok(CliAction::Help)));
    assert!(matches!(parse_args(&args(&["-v"]), None), Ok(CliAction::Version)));
    assert!(matches!(parse_args(&args(&["--version"]), None), Ok(CliAction::Version)));
}

#[test]
fn cli_errors() {
    assert_eq!(parse_args(&args(&[]), None).unwrap_err(), CliError::NoInput);
    assert_eq!(parse_args(&args(&["-O2"]), None).unwrap_err(), CliError::NoInput);
    assert_eq!(
        parse_args(&args(&["a.kn", "-o"]), None).unwrap_err(),
        CliError::MissingValue(ValueOption::Output)
    );
    assert_eq!(
        parse_args(&args(&["a.kn", "--target"]), None).unwrap_err(),
        CliError::MissingValue(ValueOption::Target)
    );
    assert_eq!(
        parse_args(&args(&["a.kn", "-D"]), None).unwrap_err(),
        CliError::MissingValue(ValueOption::Define)
    );
    assert_eq!(
        parse_args(&args(&["a.kn", "--target", "bogus"]), None).unwrap_err(),
        CliError::InvalidTarget("Unrecognized architecture: bogus".to_string())
    );
    assert_eq!(
        parse_args(&args(&["a.kn", "--asm-dialect", "masm"]), None).unwrap_err(),
        CliError::InvalidAsmDialect
    );
    assert_eq!(parse_args(&args(&["a.kn", "-D", "novalue"]), None).unwrap_err(), CliError::InvalidDefine);
    assert_eq!(parse_args(&args(&["a.kn", "-M", "std"]), None).unwrap_err(), CliError::InvalidModuleMap);
    assert_eq!(
        parse_args(&args(&["a.kn", "--fast"]), None).unwrap_err(),
        CliError::UnrecognizedOption("--fast".to_string())
    );
    assert_eq!(parse_args(&args(&["a.kn", "b.kn"]), None).unwrap_err(), CliError::MultipleInputs);
}

#[test]
fn cli_value_option_messages() {
    assert_eq!(ValueOption::Output.message(), "Expected file name after `-o`");
    assert_eq!(ValueOption::ModuleMap.message(), "Expected `name=path` after `-M`");
}

#[test]
fn condition_target_variables() {
    let mut ctx = linux_context();
    let os = ident(&mut ctx, "os");
    let linux = expr(ExprKind::String("linux".to_string()));
    let cond = binary(os, BinaryOperator::Equal, linux);
    assert_eq!(eval_condition(&mut ctx, &cond), Ok(true));
    let arch = ident(&mut ctx, "arch");
    let arm = expr(ExprKind::String("aarch64".to_string()));
    let cond = binary(arch, BinaryOperator::NotEqual, arm);
    assert_eq!(eval_condition(&mut ctx, &cond), Ok(true));
    assert!(!ctx.has_errors());
}

#[test]
fn condition_defines() {
    let mut ctx = linux_context();
    let f = ident(&mut ctx, "feature");
    assert_eq!(eval_condition(&mut ctx, &f), Ok(true));
    let off = ident(&mut ctx, "off");
    assert_eq!(eval_condition(&mut ctx, &off), Ok(false));
    let board = ident(&mut ctx, "board");
    match eval_condition_value(&mut ctx, &board) {
        Ok(CondValue::Text(t)) => assert_eq!(t, "rpi"),
        other => panic!("unexpected {:?}", other),
    }
    let off = ident(&mut ctx, "off");
    let not_off = expr(ExprKind::Unary { op: UnaryOperator::LogicalNot, operand: Box::new(off) });
    assert_eq!(eval_condition(&mut ctx, &not_off), Ok(true));
    assert!(!ctx.has_errors());
}

#[test]
fn condition_short_circuits() {
    let mut ctx = linux_context();
    // `off and missing`: the right side is never looked at.
    let off = ident(&mut ctx, "off");
    let missing = ident(&mut ctx, "missing");
    let cond = binary(off, BinaryOperator::LogicalAnd, missing);
    assert_eq!(eval_condition(&mut ctx, &cond), Ok(false));
    let f = ident(&mut ctx, "feature");
    let missing = ident(&mut ctx, "missing");
    let cond = binary(f, BinaryOperator::LogicalOr, missing);
    assert_eq!(eval_condition(&mut ctx, &cond), Ok(true));
    assert!(!ctx.has_errors());
}

#[test]
fn condition_errors_are_reported() {
    let mut ctx = linux_context();
    let missing = ident(&mut ctx, "missing");
    assert_eq!(eval_condition(&mut ctx, &missing), Err(()));
    assert_eq!(ctx.error_count, 1);
    assert_eq!(
        ctx.diagnostics[0].message,
        "unknown environment variable `missing` in compilation condition"
    );
    assert_eq!(ctx.diagnostics[0].hints.len(), 1);

    let board = ident(&mut ctx, "board");
    assert_eq!(eval_condition(&mut ctx, &board), Err(()));
    assert_eq!(ctx.diagnostics[1].message, "condition must evaluate to a boolean value");

    let text = expr(ExprKind::String("x".to_string()));
    let not_text = expr(ExprKind::Unary { op: UnaryOperator::LogicalNot, operand: Box::new(text) });
    assert_eq!(eval_condition(&mut ctx, &not_text), Err(()));
    assert_eq!(ctx.diagnostics[2].message, "cannot apply `!` to a non-boolean value");

    let lt = binary(expr(ExprKind::Bool(true)), BinaryOperator::LessThan, expr(ExprKind::Bool(false)));
    assert_eq!(eval_condition(&mut ctx, &lt), Err(()));
    assert_eq!(ctx.diagnostics[3].message, "unsupported operator in compilation condition");

    let num = expr(ExprKind::Integer(3));
    assert_eq!(eval_condition(&mut ctx, &num), Err(()));
    assert_eq!(ctx.diagnostics[4].message, "invalid expression in compilation condition");
    assert_eq!(ctx.error_count, 5);
}

#[test]
fn conditions_of_an_item() {
    let mut ctx = linux_context();
    let f = ident(&mut ctx, "feature");
    let t = expr(ExprKind::Bool(true));
    assert!(conditions_hold(&mut ctx, &vec![f, t]));
    assert!(conditions_hold(&mut ctx, &vec![]));
    let off = ident(&mut ctx, "off");
    let missing = ident(&mut ctx, "missing");
    // The first false condition decides; the unknown name after it is not read.
    assert!(!conditions_hold(&mut ctx, &vec![off, missing]));
    assert!(!ctx.has_errors());
    let missing = ident(&mut ctx, "missing");
    assert!(!conditions_hold(&mut ctx, &vec![missing]));
    assert!(ctx.has_errors());
}

#[test]
fn default_std_alias_added_when_absent() {
    let mut o = compile_options(parse_args(&args(&["--cc", "clang", "main.kn"]), Some("gcc".to_string())));
    assert_eq!(o.linker_cmd, "clang");
    assert_eq!(o.input_file, "main.kn");
    assert_eq!(o.output_file, "a.out");
    assert_eq!(o.opt_level, OptLevel::O0);
    assert!(!o.emit_llvm_ir);
    assert!(!o.link_libc);
    assert_eq!(o.custom_defines.len(), 0);
    add_default_std_alias(&mut o.module_aliases, "/opt/kstd".to_string());
    assert_eq!(o.module_aliases.len(), 1);
    assert_eq!(o.module_aliases.get("std").map(|s| s.as_str()), Some("/opt/kstd"));
}

#[test]
fn default_std_alias_keeps_command_line_mapping() {
    let mut o = compile_options(parse_args(&args(&["-M", "std=./lib/std", "main.kn"]), None));
    add_default_std_alias(&mut o.module_aliases, "/opt/kstd".to_string());
    assert_eq!(o.module_aliases.len(), 1);
    assert_eq!(o.module_aliases.get("std").map(|s| s.as_str()), Some("./lib/std"));
}
