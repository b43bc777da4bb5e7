//! Emitters for constant and environment inputs: they append to a
//! span of operations the sequence that pushes a constant, a local's
//! absolute address, or the current syscall caller's hash.

use crate::felt::{is_felt, Felt};
use vstd::prelude::*;

verus! {

/// One machine operation of a span block.
#[derive(Debug, PartialEq, Eq, Structural, Clone, Copy)]
pub enum Operation {
    /// Pushes zero onto the stack.
    Pad,
    /// Increments the top of the stack.
    Incr,
    /// Pushes an immediate value onto the stack.
    Push(Felt),
    /// Adds the free-memory pointer to the top of the stack.
    FmpAdd,
    /// Pushes the hash of the function that initiated the current
    /// syscall.
    Caller,
}

/// Errors raised while assembling a span.
#[derive(Debug, PartialEq, Eq, Structural, Clone, Copy)]
pub enum AssemblyError {
    /// The `caller` instruction stands outside a kernel procedure.
    CallerOutsideOfKernel,
    /// A local index lies beyond the procedure's declared locals.
    InvalidLocalIndex { index: u16, num_locals: u16 },
}

/// Accumulates the operations of one span block.
pub struct SpanBuilder {
    pub ops: Vec<Operation>,
}

/// The procedure being assembled: what the emitters read from the
/// assembly context.
pub struct ProcedureContext {
    pub is_kernel: bool,
    pub num_locals: u16,
}

/// The assembly context the emitters consult.
pub struct AssemblyContext {
    pub current_procedure: Option<ProcedureContext>,
}

/// The operations that push one constant: zero becomes a pad, one a
/// pad-and-increment, anything else a plain push.
pub open spec fn s_push_felt_ops(value: Felt) -> Seq<Operation> {
    if value.v == 0 {
        seq![Operation::Pad]
    } else if value.v == 1 {
        seq![Operation::Pad, Operation::Incr]
    } else {
        seq![Operation::Push(value)]
    }
}

/// The concatenated push sequences of many constants.
pub open spec fn s_push_many_ops(values: Seq<Felt>) -> Seq<Operation>
    decreases values.len(),
{
    if values.len() == 0 {
        Seq::empty()
    } else {
        s_push_many_ops(values.drop_last()) + s_push_felt_ops(values.last())
    }
}

impl SpanBuilder {
    pub fn new() -> (r: SpanBuilder)
        ensures
            r.ops@.len() == 0,
    {
        SpanBuilder { ops: Vec::new() }
    }

    /// Appends one operation.
    pub fn add_op(&mut self, op: Operation)
        ensures
            final(self).ops@ == old(self).ops@.push(op),
    {
        self.ops.push(op);
    }
}

/// Appends the operations that push `value` onto the stack: a zero is
/// padded, a one is padded and incremented, since both beat a full
/// push.
pub fn push_felt(span: &mut SpanBuilder, value: Felt)
    requires
        is_felt(value),
    ensures
        final(span).ops@ == old(span).ops@ + s_push_felt_ops(value),
{
    if value.as_int() == 0 {
        span.add_op(Operation::Pad);
    } else if value.as_int() == 1 {
        span.add_op(Operation::Pad);
        span.add_op(Operation::Incr);
    } else {
        span.add_op(Operation::Push(value));
    }
    proof {
        assert(span.ops@ =~= old(span).ops@ + s_push_felt_ops(value));
    }
}

/// Appends the push of one constant value.
pub fn push_one(imm: Felt, span: &mut SpanBuilder)
    requires
        is_felt(imm),
    ensures
        final(span).ops@ == old(span).ops@ + s_push_felt_ops(imm),
{
    push_felt(span, imm);
}

/// Appends the pushes of up to sixteen constant values, in order.
pub fn push_many(imms: &Vec<Felt>, span: &mut SpanBuilder)
    requires
        forall|i: int| 0 <= i < imms@.len() ==> is_felt(#[trigger] imms@[i]),
    ensures
        final(span).ops@ == old(span).ops@ + s_push_many_ops(imms@),
{
    let n = imms.len();
    let mut i: usize = 0;
    while i < n
        invariant
            n == imms@.len(),
            i <= n,
            forall|j: int| 0 <= j < imms@.len() ==> is_felt(#[trigger] imms@[j]),
            span.ops@ == old(span).ops@ + s_push_many_ops(imms@.subrange(0, i as int)),
        decreases n - i,
    {
        push_felt(span, imms[i]);
        proof {
            let taken = imms@.subrange(0, i as int + 1);
            assert(taken.drop_last() =~= imms@.subrange(0, i as int));
            assert(span.ops@ =~= old(span).ops@ + s_push_many_ops(taken));
        }
        i = i + 1;
    }
    proof {
        assert(imms@.subrange(0, n as int) =~= imms@);
    }
}

/// Appends the sequence that computes a local's absolute address: the
/// local's offset from the frame is pushed and the free-memory pointer
/// added. Fails exactly when the index lies beyond the declared
/// locals.
pub fn local_to_absolute_addr(span: &mut SpanBuilder, index: u16, num_locals: u16) -> (r: Result<
    (),
    AssemblyError,
>)
    ensures
        index < num_locals ==> r is Ok && final(span).ops@ == old(span).ops@ + s_push_felt_ops(
            Felt { v: (num_locals - index) as u64 },
        ) + seq![Operation::FmpAdd],
        index >= num_locals ==> r == Err::<(), AssemblyError>(
            AssemblyError::InvalidLocalIndex { index, num_locals },
        ) && *final(span) == *old(span),
{
    if index >= num_locals {
        return Err(AssemblyError::InvalidLocalIndex { index, num_locals });
    }
    let offset = Felt::from_u32((num_locals - index) as u32);
    push_felt(span, offset);
    span.add_op(Operation::FmpAdd);
    proof {
        assert(span.ops@ =~= old(span).ops@ + s_push_felt_ops(
            Felt { v: (num_locals - index) as u64 },
        ) + seq![Operation::FmpAdd]);
    }
    Ok(())
}

/// Appends the sequence that executes a `locaddr` instruction.
pub fn locaddr(span: &mut SpanBuilder, index: u16, context: &AssemblyContext) -> (r: Result<
    (),
    AssemblyError,
>)
    requires
        context.current_procedure is Some,
    ensures
        index < context.current_procedure->0.num_locals ==> r is Ok,
        index >= context.current_procedure->0.num_locals ==> r is Err && *final(span) == *old(
            span,
        ),
{
    let num_locals = match &context.current_procedure {
        Some(p) => p.num_locals,
        None => {
            proof {
                assert(false);
            }
            0
        },
    };
    local_to_absolute_addr(span, index, num_locals)
}

/// Appends the operation that pushes the hash of the function that
/// initiated the current syscall. Fails exactly when the instruction
/// stands outside a kernel procedure.
pub fn caller(span: &mut SpanBuilder, context: &AssemblyContext) -> (r: Result<(), AssemblyError>)
    requires
        context.current_procedure is Some,
    ensures
        context.current_procedure->0.is_kernel ==> r is Ok && final(span).ops@ == old(
            span,
        ).ops@.push(Operation::Caller),
        !context.current_procedure->0.is_kernel ==> r == Err::<(), AssemblyError>(
            AssemblyError::CallerOutsideOfKernel,
        ) && *final(span) == *old(span),
{
    let is_kernel = match &context.current_procedure {
        Some(p) => p.is_kernel,
        None => {
            proof {
                assert(false);
            }
            false
        },
    };
    if !is_kernel {
        return Err(AssemblyError::CallerOutsideOfKernel);
    }
    span.add_op(Operation::Caller);
    Ok(())
}

} // verus!
