//! The span emitters for constant and environment inputs.

use miden_vm_lib::env_ops::{
    caller, locaddr, push_many, push_one, AssemblyContext, AssemblyError, Operation,
    ProcedureContext, SpanBuilder,
};
use miden_vm_lib::felt::Felt;

fn kernel_context() -> AssemblyContext {
    AssemblyContext {
        current_procedure: Some(ProcedureContext { is_kernel: true, num_locals: 4 }),
    }
}

fn user_context() -> AssemblyContext {
    AssemblyContext {
        current_procedure: Some(ProcedureContext { is_kernel: false, num_locals: 4 }),
    }
}

#[test]
fn constants_are_pushed_economically() {
    let mut span = SpanBuilder::new();
    push_one(Felt::new(0), &mut span);
    push_one(Felt::new(1), &mut span);
    push_one(Felt::new(9), &mut span);
    assert_eq!(
        span.ops,
        vec![Operation::Pad, Operation::Pad, Operation::Incr, Operation::Push(Felt::new(9))]
    );

    let mut span = SpanBuilder::new();
    push_many(&vec![Felt::new(2), Felt::new(0)], &mut span);
    assert_eq!(span.ops, vec![Operation::Push(Felt::new(2)), Operation::Pad]);
}

#[test]
fn locaddr_checks_the_local_index() {
    let ctx = user_context();
    let mut span = SpanBuilder::new();
    locaddr(&mut span, 1, &ctx).unwrap();
    assert_eq!(span.ops, vec![Operation::Push(Felt::new(3)), Operation::FmpAdd]);

    let mut span = SpanBuilder::new();
    let err = locaddr(&mut span, 4, &ctx).unwrap_err();
    assert_eq!(err, AssemblyError::InvalidLocalIndex { index: 4, num_locals: 4 });
    assert!(span.ops.is_empty());
}

#[test]
fn caller_is_kernel_only() {
    let mut span = SpanBuilder::new();
    caller(&mut span, &kernel_context()).unwrap();
    assert_eq!(span.ops, vec![Operation::Caller]);

    let mut span = SpanBuilder::new();
    let err = caller(&mut span, &user_context()).unwrap_err();
    assert_eq!(err, AssemblyError::CallerOutsideOfKernel);
    assert!(span.ops.is_empty());
}
