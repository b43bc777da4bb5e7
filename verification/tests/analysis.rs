//! Semantic analysis: constant definition, evaluation and diagnostics.

use miden_vm_lib::felt::{Felt, P};
use miden_vm_lib::sema::{
    AnalysisContext, Constant, ConstantExpr, ConstantOp, ConstEvalVisitor, Immediate,
    SemanticAnalysisError, SourceFile, SourceSpan,
};

fn source() -> SourceFile {
    SourceFile { name: "test.masm".to_string(), content: String::new() }
}

fn lit(v: u64) -> ConstantExpr {
    ConstantExpr::Literal(Felt::new(v))
}

fn bin(op: ConstantOp, lhs: ConstantExpr, rhs: ConstantExpr) -> ConstantExpr {
    ConstantExpr::BinaryOp { op, lhs: Box::new(lhs), rhs: Box::new(rhs) }
}

#[test]
fn constants_evaluate_exactly() {
    let mut ctx = AnalysisContext::new(source());
    // A = 6 * 7
    ctx.define_constant(Constant {
        name: "A".to_string(),
        value: bin(ConstantOp::Mul, lit(6), lit(7)),
    })
    .unwrap();
    assert_eq!(ctx.get_constant(&"A".to_string()).unwrap().as_int(), 42);

    // B = A - 50 wraps around the field order
    ctx.define_constant(Constant {
        name: "B".to_string(),
        value: bin(ConstantOp::Sub, ConstantExpr::Var("A".to_string()), lit(50)),
    })
    .unwrap();
    assert_eq!(ctx.get_constant(&"B".to_string()).unwrap().as_int(), P - 8);

    // C = 45 // 7 is integer division
    ctx.define_constant(Constant {
        name: "C".to_string(),
        value: bin(ConstantOp::IntDiv, lit(45), lit(7)),
    })
    .unwrap();
    assert_eq!(ctx.get_constant(&"C".to_string()).unwrap().as_int(), 6);

    // D = 84 / 2 is field division
    ctx.define_constant(Constant {
        name: "D".to_string(),
        value: bin(ConstantOp::Div, lit(84), lit(2)),
    })
    .unwrap();
    assert_eq!(ctx.get_constant(&"D".to_string()).unwrap().as_int(), 42);
}

#[test]
fn conflicting_definition_is_recorded_not_fatal() {
    let mut ctx = AnalysisContext::new(source());
    ctx.define_constant(Constant { name: "A".to_string(), value: lit(1) }).unwrap();
    // the second definition returns cleanly but records a conflict
    ctx.define_constant(Constant { name: "A".to_string(), value: lit(2) }).unwrap();
    assert!(ctx.has_errors());
    assert_eq!(ctx.get_constant(&"A".to_string()).unwrap().as_int(), 1);
}

#[test]
fn undefined_reference_fails_definition() {
    let mut ctx = AnalysisContext::new(source());
    let r = ctx.define_constant(Constant {
        name: "A".to_string(),
        value: ConstantExpr::Var("MISSING".to_string()),
    });
    assert!(r.is_err());
}

#[test]
fn warnings_fail_only_when_promoted() {
    let mut ctx = AnalysisContext::new(source());
    ctx.error(SemanticAnalysisError::UnusedImport { span: SourceSpan::zero() });
    assert!(!ctx.has_errors());
    ctx.set_warnings_as_errors(true);
    assert!(ctx.warnings_as_errors());
    assert!(ctx.has_errors());
    assert!(ctx.into_result().is_err());
}

#[test]
fn visitor_folds_immediates() {
    let mut ctx = AnalysisContext::new(source());
    ctx.define_constant(Constant { name: "SMALL".to_string(), value: lit(200) }).unwrap();
    ctx.define_constant(Constant { name: "BIG".to_string(), value: lit(70000) }).unwrap();
    let mut visitor = ConstEvalVisitor::new(ctx);

    let mut imm: Immediate<u64> = Immediate::Constant("SMALL".to_string());
    visitor.visit_mut_immediate_u8(&mut imm);
    assert!(matches!(imm, Immediate::Value(200)));

    // too large for eight bits: the immediate stays and a diagnostic
    // is recorded
    let mut imm: Immediate<u64> = Immediate::Constant("BIG".to_string());
    visitor.visit_mut_immediate_u8(&mut imm);
    assert!(matches!(imm, Immediate::Constant(_)));
    let analyzer = visitor.into_analyzer();
    assert!(analyzer.has_errors());
}
