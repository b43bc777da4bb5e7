//! Semantic analysis of one assembly module: the analysis context that
//! accumulates constants, procedure names and diagnostics, and the
//! constant-expression evaluator.

use crate::felt::{f_add, f_mul, f_pow, f_sub, is_felt, Felt, P};
use vstd::prelude::*;

verus! {

/// A half-open span of source text.
#[derive(Debug, PartialEq, Eq, Structural, Clone, Copy)]
pub struct SourceSpan {
    pub start: usize,
    pub end: usize,
}

impl SourceSpan {
    pub fn zero() -> (r: SourceSpan)
        ensures
            r.start == 0 && r.end == 0,
    {
        SourceSpan { start: 0, end: 0 }
    }
}

/// A source file under analysis.
#[derive(Clone, Debug)]
pub struct SourceFile {
    pub name: String,
    pub content: String,
}

/// The module limit a diagnostic reports as exceeded.
#[derive(Debug, Copy, Clone, PartialEq, Eq, Structural)]
pub enum LimitKind {
    Procedures,
    Locals,
    Imports,
    CalledImports,
    Instructions,
}

impl LimitKind {
    /// A short description of the exceeded limit.
    pub fn message(&self) -> &'static str {
        match self {
            LimitKind::Procedures => "too many procedures in module",
            LimitKind::Locals => "too many procedure locals",
            LimitKind::Imports => "too many imported procedures",
            LimitKind::CalledImports => "too many calls to imported procedures",
            LimitKind::Instructions => "too many instructions in block",
        }
    }
}

/// The diagnostics semantic analysis can raise.
#[derive(Debug, PartialEq, Eq, Structural, Clone, Copy)]
pub enum SemanticAnalysisError {
    MissingEntrypoint,
    UnexpectedEntrypoint { span: SourceSpan },
    MultipleEntrypoints { span: SourceSpan, prev_span: SourceSpan },
    UnexpectedExport { span: SourceSpan },
    SymbolConflict { span: SourceSpan, prev_span: SourceSpan },
    SymbolUndefined { span: SourceSpan },
    UnusedImport { span: SourceSpan },
    MissingImport { span: SourceSpan },
    ImportConflict { span: SourceSpan, prev_span: SourceSpan },
    ImportToKernel { span: SourceSpan },
    SyscallInKernel { span: SourceSpan },
    CallInKernel { span: SourceSpan },
    CallerInKernel { span: SourceSpan },
    InvalidSyscallTarget { span: SourceSpan },
    InvalidRecursiveCall { span: SourceSpan },
    SelfRecursive { span: SourceSpan },
    ImmediateOverflow { span: SourceSpan },
    DivisionByZero { span: SourceSpan },
    LimitExceeded { span: SourceSpan, kind: LimitKind },
    UnusedDocstring { span: SourceSpan },
    ImportDocstring { span: SourceSpan },
}

/// Whether a diagnostic is only a warning.
pub open spec fn s_is_warning(e: SemanticAnalysisError) -> bool {
    e is UnusedImport || e is UnusedDocstring || e is ImportDocstring
}

impl SemanticAnalysisError {
    /// Warnings do not fail the analysis unless warnings are promoted.
    pub fn is_warning(&self) -> (r: bool)
        ensures
            r == s_is_warning(*self),
    {
        match self {
            SemanticAnalysisError::UnusedImport { .. } => true,
            SemanticAnalysisError::UnusedDocstring { .. } => true,
            SemanticAnalysisError::ImportDocstring { .. } => true,
            _ => false,
        }
    }
}

/// A syntax error: the analyzed source together with the diagnostics
/// that failed it.
#[derive(Debug)]
pub struct SyntaxError {
    pub input: SourceFile,
    pub errors: Vec<SemanticAnalysisError>,
}

// CONSTANT EXPRESSIONS
// ================================================================================================

/// An operator of a constant expression.
#[derive(Debug, PartialEq, Eq, Structural, Clone, Copy)]
pub enum ConstantOp {
    Add,
    Sub,
    Mul,
    Div,
    IntDiv,
}

/// A constant expression: a literal, a reference to another constant,
/// or a binary operation.
pub enum ConstantExpr {
    Literal(Felt),
    Var(String),
    BinaryOp { op: ConstantOp, lhs: Box<ConstantExpr>, rhs: Box<ConstantExpr> },
}

/// A named constant and its (possibly not yet evaluated) expression.
pub struct Constant {
    pub name: String,
    pub value: ConstantExpr,
}

/// Every literal of the expression is a canonical element, as the
/// expression grammar guarantees at construction.
pub open spec fn wf_expr(e: ConstantExpr) -> bool
    decreases e,
{
    match e {
        ConstantExpr::Literal(v) => is_felt(v),
        ConstantExpr::Var(_) => true,
        ConstantExpr::BinaryOp { op, lhs, rhs } => wf_expr(*lhs) && wf_expr(*rhs),
    }
}

/// The first definition bound to `name`, scanning in definition order.
pub open spec fn ctx_lookup(constants: Seq<Constant>, name: Seq<char>) -> Option<Constant>
    decreases constants.len(),
{
    if constants.len() == 0 {
        None
    } else if constants[0].name@ == name {
        Some(constants[0])
    } else {
        ctx_lookup(constants.subrange(1, constants.len() as int), name)
    }
}

/// The value of a constant expression under the given definitions, or
/// nothing where evaluation fails: an undefined or unevaluated
/// reference, or an integer division by zero. Field division
/// multiplies by the inverse power, with zero mapping to zero.
pub open spec fn s_eval(constants: Seq<Constant>, e: ConstantExpr) -> Option<Felt>
    decreases e,
{
    match e {
        ConstantExpr::Literal(v) => Some(v),
        ConstantExpr::Var(name) => match ctx_lookup(constants, name@) {
            Some(c) => match c.value {
                ConstantExpr::Literal(v) => Some(v),
                _ => None,
            },
            None => None,
        },
        ConstantExpr::BinaryOp { op, lhs, rhs } => {
            let a = s_eval(constants, *lhs);
            let b = s_eval(constants, *rhs);
            if a is Some && b is Some {
                let av = a->0;
                let bv = b->0;
                match op {
                    ConstantOp::Add => Some(f_add(av, bv)),
                    ConstantOp::Sub => Some(f_sub(av, bv)),
                    ConstantOp::Mul => Some(f_mul(av, bv)),
                    ConstantOp::Div => Some(f_mul(av, f_pow(bv, (P - 2) as nat))),
                    ConstantOp::IntDiv => if bv.v == 0 {
                        None
                    } else {
                        Some(Felt { v: (av.v as int / bv.v as int) as u64 })
                    },
                }
            } else {
                None
            }
        },
    }
}

// THE ANALYSIS CONTEXT
// ================================================================================================

/// State of the semantic analysis of a single module.
pub struct AnalysisContext {
    pub source_code: SourceFile,
    pub constants: Vec<Constant>,
    pub procedures: Vec<String>,
    pub errors: Vec<SemanticAnalysisError>,
    pub warnings_as_errors: bool,
}

/// Some diagnostic is a hard error.
pub open spec fn any_hard_error(errors: Seq<SemanticAnalysisError>) -> bool {
    exists|i: int| 0 <= i < errors.len() && !s_is_warning(errors[i])
}

/// A procedure name already stands in the registered set.
pub open spec fn s_procedure_registered(procedures: Seq<String>, name: Seq<char>) -> bool {
    exists|i: int| 0 <= i < procedures.len() && (#[trigger] procedures[i])@ == name
}

impl AnalysisContext {
    /// Every stored constant has been reduced to a canonical literal.
    pub open spec fn wf(self) -> bool {
        forall|i: int|
            0 <= i < self.constants.len() ==> (#[trigger] self.constants@[i]).value is Literal
                && is_felt(self.constants@[i].value->Literal_0)
    }

    /// Whether the context holds diagnostics that fail the analysis.
    pub open spec fn s_has_errors(self) -> bool {
        if self.warnings_as_errors {
            self.errors.len() > 0
        } else {
            any_hard_error(self.errors@)
        }
    }

    pub fn new(source_code: SourceFile) -> (r: AnalysisContext)
        ensures
            r.wf(),
            r.source_code == source_code,
            r.constants@.len() == 0,
            r.procedures@.len() == 0,
            r.errors@.len() == 0,
            !r.warnings_as_errors,
    {
        AnalysisContext {
            source_code,
            constants: Vec::new(),
            procedures: Vec::new(),
            errors: Vec::new(),
            warnings_as_errors: false,
        }
    }

    pub fn set_warnings_as_errors(&mut self, yes: bool)
        ensures
            *final(self) == (AnalysisContext { warnings_as_errors: yes, ..*old(self) }),
    {
        self.warnings_as_errors = yes;
    }

    pub fn warnings_as_errors(&self) -> (r: bool)
        ensures
            r == self.warnings_as_errors,
    {
        self.warnings_as_errors
    }

    /// The source file under analysis.
    pub fn source_file(&self) -> (r: &SourceFile)
        ensures
            r == &self.source_code,
    {
        &self.source_code
    }

    /// Registers a procedure name declared by the module. The set is
    /// idempotent: registering a name a second time changes nothing.
    pub fn register_procedure_name(&mut self, name: String)
        ensures
            s_procedure_registered(old(self).procedures@, name@) ==> *final(self) == *old(self),
            !s_procedure_registered(old(self).procedures@, name@) ==> final(self).procedures@
                == old(self).procedures@.push(name),
            s_procedure_registered(final(self).procedures@, name@),
            final(self).constants == old(self).constants,
            final(self).errors == old(self).errors,
            final(self).source_code == old(self).source_code,
            final(self).warnings_as_errors == old(self).warnings_as_errors,
    {
        let n = self.procedures.len();
        let mut i: usize = 0;
        while i < n
            invariant
                *self == *old(self),
                n == self.procedures@.len(),
                i <= n,
                forall|j: int| 0 <= j < i ==> (#[trigger] self.procedures@[j])@ != name@,
            decreases n - i,
        {
            if self.procedures[i] == name {
                return ;
            }
            i = i + 1;
        }
        self.procedures.push(name);
        proof {
            assert(self.procedures@[self.procedures@.len() - 1]@ == name@);
        }
    }

    /// Looks up the literal value bound to `name`. Fails exactly when
    /// the symbol is undefined.
    pub fn get_constant(&self, name: &String) -> (r: Result<Felt, SemanticAnalysisError>)
        requires
            self.wf(),
        ensures
            match ctx_lookup(self.constants@, name@) {
                Some(c) => r == Ok::<Felt, SemanticAnalysisError>(c.value->Literal_0),
                None => r == Err::<Felt, SemanticAnalysisError>(
                    SemanticAnalysisError::SymbolUndefined { span: SourceSpan { start: 0, end: 0 } },
                ),
            },
            r is Ok ==> is_felt(r->Ok_0),
    {
        let n = self.constants.len();
        let mut i: usize = 0;
        proof {
            assert(self.constants@.subrange(0, n as int) =~= self.constants@);
        }
        while i < n
            invariant
                self.wf(),
                n == self.constants@.len(),
                i <= n,
                ctx_lookup(self.constants@, name@) == ctx_lookup(
                    self.constants@.subrange(i as int, n as int),
                    name@,
                ),
            decreases n - i,
        {
            proof {
                let rest = self.constants@.subrange(i as int, n as int);
                assert(rest[0] == self.constants@[i as int]);
                assert(rest.subrange(1, rest.len() as int) =~= self.constants@.subrange(
                    i as int + 1,
                    n as int,
                ));
            }
            if self.constants[i].name == *name {
                match &self.constants[i].value {
                    ConstantExpr::Literal(v) => {
                        return Ok(*v);
                    },
                    _ => {
                        // excluded by the well-formedness invariant
                        proof {
                            assert(false);
                        }
                        return Err(
                            SemanticAnalysisError::SymbolUndefined { span: SourceSpan::zero() },
                        );
                    },
                }
            }
            i = i + 1;
        }
        proof {
            assert(self.constants@.subrange(n as int, n as int) =~= Seq::<Constant>::empty());
        }
        Err(SemanticAnalysisError::SymbolUndefined { span: SourceSpan { start: 0, end: 0 } })
    }

    /// Evaluates a constant expression against the stored definitions.
    /// Succeeds exactly when the specification evaluator does.
    pub fn const_eval(&self, value: &ConstantExpr) -> (r: Result<Felt, SemanticAnalysisError>)
        requires
            self.wf(),
            wf_expr(*value),
        ensures
            (r is Ok) <==> s_eval(self.constants@, *value) is Some,
            r is Ok ==> Some(r->Ok_0) == s_eval(self.constants@, *value),
        decreases *value,
    {
        match value {
            ConstantExpr::Literal(v) => Ok(*v),
            ConstantExpr::Var(name) => {
                proof {
                    if ctx_lookup(self.constants@, name@) is Some {
                        lemma_ctx_lookup_in(self.constants@, name@);
                    }
                }
                self.get_constant(name)
            },
            ConstantExpr::BinaryOp { op, lhs, rhs } => {
                // the right operand is evaluated first, as the grammar
                // builds the expressions
                let rhs_val = self.const_eval(rhs)?;
                let lhs_val = self.const_eval(lhs)?;
                proof {
                    assert(is_felt(rhs_val) && is_felt(lhs_val)) by {
                        lemma_s_eval_canonical(self.constants@, **lhs);
                        lemma_s_eval_canonical(self.constants@, **rhs);
                    }
                }
                match op {
                    ConstantOp::Add => Ok(lhs_val.add(rhs_val)),
                    ConstantOp::Sub => Ok(lhs_val.sub(rhs_val)),
                    ConstantOp::Mul => Ok(lhs_val.mul(rhs_val)),
                    ConstantOp::Div => Ok(lhs_val.mul(rhs_val.pow(P - 2))),
                    ConstantOp::IntDiv => {
                        if rhs_val.as_int() == 0 {
                            Err(SemanticAnalysisError::DivisionByZero { span: SourceSpan::zero() })
                        } else {
                            proof {
                                vstd::arithmetic::div_mod::lemma_div_nonincreasing(
                                    lhs_val.v as int,
                                    rhs_val.v as int,
                                );
                                vstd::arithmetic::div_mod::lemma_div_pos_is_pos(
                                    lhs_val.v as int,
                                    rhs_val.v as int,
                                );
                            }
                            Ok(Felt { v: lhs_val.v / rhs_val.v })
                        }
                    },
                }
            },
        }
    }

    /// Defines a new constant bound to the evaluated value of its
    /// expression. A name conflict is recorded as a diagnostic and
    /// otherwise ignored; an evaluation failure fails the analysis.
    pub fn define_constant(&mut self, constant: Constant) -> (r: Result<(), SyntaxError>)
        requires
            old(self).wf(),
            wf_expr(constant.value),
        ensures
            final(self).wf(),
            ctx_lookup(old(self).constants@, constant.name@) is Some ==> r is Ok && final(self).constants
                == old(self).constants && final(self).errors@ == old(self).errors@.push(
                SemanticAnalysisError::SymbolConflict {
                    span: SourceSpan { start: 0, end: 0 },
                    prev_span: SourceSpan { start: 0, end: 0 },
                },
            ),
            (ctx_lookup(old(self).constants@, constant.name@) is None && s_eval(
                old(self).constants@,
                constant.value,
            ) is Some) ==> r is Ok && final(self).constants@ == old(self).constants@.push(
                (Constant {
                    name: constant.name,
                    value: ConstantExpr::Literal(
                        s_eval(old(self).constants@, constant.value)->0,
                    ),
                }),
            ) && final(self).errors == old(self).errors,
            (ctx_lookup(old(self).constants@, constant.name@) is None && s_eval(
                old(self).constants@,
                constant.value,
            ) is None) ==> r is Err && final(self).errors@.len() == 0 && exists|
                e: SemanticAnalysisError,
            | (r->Err_0).errors@ == #[trigger] old(self).errors@.push(e),
    {
        let n = self.constants.len();
        let mut i: usize = 0;
        let mut conflict = false;
        proof {
            assert(self.constants@.subrange(0, n as int) =~= self.constants@);
        }
        while i < n && !conflict
            invariant
                self.wf(),
                n == self.constants@.len(),
                i <= n,
                !conflict ==> ctx_lookup(self.constants@, constant.name@) == ctx_lookup(
                    self.constants@.subrange(i as int, n as int),
                    constant.name@,
                ),
                conflict ==> ctx_lookup(self.constants@, constant.name@) is Some,
            decreases n - i + (if conflict {
                0int
            } else {
                1int
            }),
        {
            proof {
                let rest = self.constants@.subrange(i as int, n as int);
                assert(rest[0] == self.constants@[i as int]);
                assert(rest.subrange(1, rest.len() as int) =~= self.constants@.subrange(
                    i as int + 1,
                    n as int,
                ));
            }
            if self.constants[i].name == constant.name {
                conflict = true;
            } else {
                i = i + 1;
            }
        }
        proof {
            assert(self.constants@.subrange(n as int, n as int) =~= Seq::<Constant>::empty());
        }
        if conflict {
            self.errors.push(
                SemanticAnalysisError::SymbolConflict {
                    span: SourceSpan::zero(),
                    prev_span: SourceSpan::zero(),
                },
            );
            return Ok(());
        }
        match self.const_eval(&constant.value) {
            Ok(value) => {
                proof {
                    lemma_s_eval_canonical(self.constants@, constant.value);
                }
                self.constants.push(
                    Constant { name: constant.name, value: ConstantExpr::Literal(value) },
                );
                Ok(())
            },
            Err(err) => {
                self.errors.push(err);
                let mut errors: Vec<SemanticAnalysisError> = Vec::new();
                core::mem::swap(&mut errors, &mut self.errors);
                Err(SyntaxError { input: self.source_code.clone(), errors })
            },
        }
    }

    /// Records a diagnostic.
    pub fn error(&mut self, diagnostic: SemanticAnalysisError)
        ensures
            final(self).errors@ == old(self).errors@.push(diagnostic),
            final(self).constants == old(self).constants,
            final(self).procedures == old(self).procedures,
            final(self).source_code == old(self).source_code,
            final(self).warnings_as_errors == old(self).warnings_as_errors,
    {
        self.errors.push(diagnostic);
    }

    /// Whether the recorded diagnostics fail the analysis: any
    /// diagnostic when warnings are promoted, any hard error otherwise.
    pub fn has_errors(&self) -> (r: bool)
        ensures
            r == self.s_has_errors(),
    {
        if self.warnings_as_errors() {
            return self.errors.len() > 0;
        }
        let n = self.errors.len();
        let mut i: usize = 0;
        while i < n
            invariant
                n == self.errors@.len(),
                i <= n,
                forall|j: int| 0 <= j < i ==> s_is_warning(#[trigger] self.errors@[j]),
            decreases n - i,
        {
            if !self.errors[i].is_warning() {
                return true;
            }
            i = i + 1;
        }
        false
    }

    /// Fails fast: drains the diagnostics into a syntax error when the
    /// analysis has failed.
    pub fn has_failed(&mut self) -> (r: Result<(), SyntaxError>)
        ensures
            old(self).s_has_errors() ==> r is Err && final(self).errors@.len() == 0 && (
            r->Err_0).errors == old(self).errors,
            !old(self).s_has_errors() ==> r is Ok && *final(self) == *old(self),
    {
        if self.has_errors() {
            let mut errors: Vec<SemanticAnalysisError> = Vec::new();
            core::mem::swap(&mut errors, &mut self.errors);
            Err(SyntaxError { input: self.source_code.clone(), errors })
        } else {
            Ok(())
        }
    }

    /// Finishes the analysis: fails with the recorded diagnostics, or
    /// succeeds, discarding any remaining warnings.
    pub fn into_result(self) -> (r: Result<(), SyntaxError>)
        ensures
            self.s_has_errors() ==> r is Err && r->Err_0.errors == self.errors,
            !self.s_has_errors() ==> r is Ok,
    {
        if self.has_errors() {
            Err(SyntaxError { input: self.source_code, errors: self.errors })
        } else {
            Ok(())
        }
    }
}

/// A successful evaluation yields a canonical element.
proof fn lemma_s_eval_canonical(constants: Seq<Constant>, e: ConstantExpr)
    requires
        forall|i: int|
            0 <= i < constants.len() ==> (#[trigger] constants[i]).value is Literal && is_felt(
                constants[i].value->Literal_0,
            ),
        wf_expr(e),
        s_eval(constants, e) is Some,
    ensures
        is_felt(s_eval(constants, e)->0),
    decreases e,
{
    match e {
        ConstantExpr::Literal(v) => {
        },
        ConstantExpr::Var(name) => {
            lemma_ctx_lookup_in(constants, name@);
        },
        ConstantExpr::BinaryOp { op, lhs, rhs } => {
            lemma_s_eval_canonical(constants, *lhs);
            lemma_s_eval_canonical(constants, *rhs);
            let a = s_eval(constants, *lhs)->0;
            let b = s_eval(constants, *rhs)->0;
            vstd::arithmetic::div_mod::lemma_mod_bound((a.v + b.v) as int, P as int);
            vstd::arithmetic::div_mod::lemma_mod_bound((a.v - b.v) as int, P as int);
            vstd::arithmetic::div_mod::lemma_mod_bound((a.v * b.v) as int, P as int);
            vstd::arithmetic::div_mod::lemma_mod_bound(
                (a.v * f_pow(b, (P - 2) as nat).v) as int,
                P as int,
            );
            if op is IntDiv && b.v != 0 {
                vstd::arithmetic::div_mod::lemma_div_nonincreasing(a.v as int, b.v as int);
                vstd::arithmetic::div_mod::lemma_div_pos_is_pos(a.v as int, b.v as int);
            }
        },
    }
}

/// Whatever a lookup returns was one of the stored constants.
proof fn lemma_ctx_lookup_in(constants: Seq<Constant>, name: Seq<char>)
    requires
        ctx_lookup(constants, name) is Some,
    ensures
        exists|i: int|
            0 <= i < constants.len() && constants[i] == ctx_lookup(constants, name)->0,
    decreases constants.len(),
{
    if constants.len() > 0 {
        if constants[0].name@ == name {
        } else {
            lemma_ctx_lookup_in(constants.subrange(1, constants.len() as int), name);
        }
    }
}


// CONSTANT-FOLDING OF IMMEDIATES
// ================================================================================================

/// An instruction immediate: either an already-known value or a
/// reference to a named constant.
pub enum Immediate<T> {
    Value(T),
    Constant(String),
}

/// Rewrites constant references in immediates to their evaluated
/// values, recording a diagnostic where a name is undefined or its
/// value does not fit the immediate's width.
pub struct ConstEvalVisitor {
    pub analyzer: AnalysisContext,
}

impl ConstEvalVisitor {
    pub fn new(analyzer: AnalysisContext) -> (r: ConstEvalVisitor)
        ensures
            r.analyzer == analyzer,
    {
        ConstEvalVisitor { analyzer }
    }

    /// Returns the analysis context when the pass is done.
    pub fn into_analyzer(self) -> (r: AnalysisContext)
        ensures
            r == self.analyzer,
    {
        self.analyzer
    }

    /// Folds one bounded immediate: a defined constant that fits the
    /// width is written back as a value; an undefined name or an
    /// oversized value is recorded as a diagnostic and the immediate
    /// stays as it was.
    fn fold_bounded(&mut self, imm: &mut Immediate<u64>, max: u64) -> (r: core::ops::ControlFlow<
        (),
    >)
        requires
            old(self).analyzer.wf(),
        ensures
            final(self).analyzer.wf(),
            r is Continue,
            *old(imm) is Value ==> *final(imm) == *old(imm) && *final(self) == *old(self),
            *old(imm) is Constant ==> match ctx_lookup(
                old(self).analyzer.constants@,
                ((*old(imm))->Constant_0)@,
            ) {
                Some(c) => if c.value->Literal_0.v <= max {
                    *final(imm) == (Immediate::Value(c.value->Literal_0.v)) && final(self).analyzer.errors == old(self).analyzer.errors
                } else {
                    *final(imm) == *old(imm) && final(self).analyzer.errors@ == old(self).analyzer.errors@.push(
                        SemanticAnalysisError::ImmediateOverflow {
                            span: SourceSpan { start: 0, end: 0 },
                        },
                    )
                },
                None => *final(imm) == *old(imm) && final(self).analyzer.errors@ == old(self).analyzer.errors@.push(
                    SemanticAnalysisError::SymbolUndefined {
                        span: SourceSpan { start: 0, end: 0 },
                    },
                ),
            },
    {
        match imm {
            Immediate::Value(_) => core::ops::ControlFlow::Continue(()),
            Immediate::Constant(name) => {
                match self.analyzer.get_constant(name) {
                    Ok(value) => {
                        if value.as_int() <= max {
                            *imm = Immediate::Value(value.as_int());
                        } else {
                            self.analyzer.error(
                                SemanticAnalysisError::ImmediateOverflow {
                                    span: SourceSpan::zero(),
                                },
                            );
                        }
                        core::ops::ControlFlow::Continue(())
                    },
                    Err(error) => {
                        self.analyzer.error(error);
                        core::ops::ControlFlow::Continue(())
                    },
                }
            },
        }
    }

    /// Folds an eight-bit immediate.
    pub fn visit_mut_immediate_u8(&mut self, imm: &mut Immediate<u64>) -> (r:
        core::ops::ControlFlow<()>)
        requires
            old(self).analyzer.wf(),
        ensures
            final(self).analyzer.wf(),
            r is Continue,
    {
        self.fold_bounded(imm, 0xff)
    }

    /// Folds a sixteen-bit immediate.
    pub fn visit_mut_immediate_u16(&mut self, imm: &mut Immediate<u64>) -> (r:
        core::ops::ControlFlow<()>)
        requires
            old(self).analyzer.wf(),
        ensures
            final(self).analyzer.wf(),
            r is Continue,
    {
        self.fold_bounded(imm, 0xffff)
    }

    /// Folds a thirty-two-bit immediate.
    pub fn visit_mut_immediate_u32(&mut self, imm: &mut Immediate<u64>) -> (r:
        core::ops::ControlFlow<()>)
        requires
            old(self).analyzer.wf(),
        ensures
            final(self).analyzer.wf(),
            r is Continue,
    {
        self.fold_bounded(imm, 0xffff_ffff)
    }

    /// Folds an error-code immediate, which is thirty-two bits wide.
    pub fn visit_mut_immediate_error_code(&mut self, imm: &mut Immediate<u64>) -> (r:
        core::ops::ControlFlow<()>)
        requires
            old(self).analyzer.wf(),
        ensures
            final(self).analyzer.wf(),
            r is Continue,
    {
        self.fold_bounded(imm, 0xffff_ffff)
    }

    /// Folds a field-element immediate: any defined constant fits.
    pub fn visit_mut_immediate_felt(&mut self, imm: &mut Immediate<Felt>) -> (r:
        core::ops::ControlFlow<()>)
        requires
            old(self).analyzer.wf(),
        ensures
            final(self).analyzer.wf(),
            r is Continue,
            *old(imm) is Value ==> *final(imm) == *old(imm) && *final(self) == *old(self),
            *old(imm) is Constant ==> match ctx_lookup(
                old(self).analyzer.constants@,
                ((*old(imm))->Constant_0)@,
            ) {
                Some(c) => *final(imm) == (Immediate::Value(c.value->Literal_0)) && final(self).analyzer.errors == old(self).analyzer.errors,
                None => *final(imm) == *old(imm) && final(self).analyzer.errors@ == old(self).analyzer.errors@.push(
                    SemanticAnalysisError::SymbolUndefined {
                        span: SourceSpan { start: 0, end: 0 },
                    },
                ),
            },
    {
        match imm {
            Immediate::Value(_) => core::ops::ControlFlow::Continue(()),
            Immediate::Constant(name) => {
                match self.analyzer.get_constant(name) {
                    Ok(value) => {
                        *imm = Immediate::Value(value);
                        core::ops::ControlFlow::Continue(())
                    },
                    Err(error) => {
                        self.analyzer.error(error);
                        core::ops::ControlFlow::Continue(())
                    },
                }
            },
        }
    }
}

} // verus!
