//! An analysis pass over one procedure: it checks every invocation
//! target against the procedure names of the module and its imports,
//! rewrites import-qualified targets to absolute paths, and collects
//! the set of procedures the body invokes.

use crate::name_resolver::{InvocationTarget, InvokeKind};
use crate::sema::{AnalysisContext, SemanticAnalysisError, SourceSpan};
use vstd::prelude::*;

verus! {

/// One import of the module under analysis, with its use counter.
pub struct Import {
    pub name: String,
    pub path: String,
    pub uses: u64,
}

/// The module under analysis, reduced to what this pass reads and
/// writes.
pub struct AstModule {
    pub is_kernel: bool,
    pub imports: Vec<Import>,
}

/// The index of the first import bound to an identifier.
pub open spec fn s_import_index(imports: Seq<Import>, ident: Seq<char>) -> Option<int>
    decreases imports.len(),
{
    if imports.len() == 0 {
        None
    } else if imports[0].name@ == ident {
        Some(0int)
    } else {
        match s_import_index(imports.subrange(1, imports.len() as int), ident) {
            Some(i) => Some(i + 1),
            None => None,
        }
    }
}

/// A name stands among the module's procedure names.
pub open spec fn s_name_defined(procedures: Seq<String>, name: Seq<char>) -> bool {
    exists|i: int| 0 <= i < procedures.len() && (#[trigger] procedures[i])@ == name
}

/// Verifies the invocation targets of one procedure.
pub struct VerifyInvokeTargets {
    pub analyzer: AnalysisContext,
    pub module: AstModule,
    pub procedures: Vec<String>,
    pub current_procedure: String,
    pub invoked: Vec<(InvokeKind, InvocationTarget)>,
}

impl VerifyInvokeTargets {
    pub fn new(
        analyzer: AnalysisContext,
        module: AstModule,
        procedures: Vec<String>,
        current_procedure: String,
    ) -> (r: VerifyInvokeTargets)
        ensures
            r.analyzer == analyzer,
            r.module == module,
            r.procedures == procedures,
            r.current_procedure == current_procedure,
            r.invoked@.len() == 0,
    {
        VerifyInvokeTargets { analyzer, module, procedures, current_procedure, invoked: Vec::new() }
    }

    /// Checks that a locally named callee is one of the module's
    /// procedures; an unknown name is recorded as a diagnostic.
    pub fn resolve_local(&mut self, name: &String)
        ensures
            s_name_defined(old(self).procedures@, name@) ==> *final(self) == *old(self),
            !s_name_defined(old(self).procedures@, name@) ==> final(self).analyzer.errors@ == old(self).analyzer.errors@.push(
                SemanticAnalysisError::SymbolUndefined { span: SourceSpan { start: 0, end: 0 } },
            ) && final(self).module == old(self).module && final(self).invoked == old(self).invoked,
    {
        let n = self.procedures.len();
        let mut i: usize = 0;
        while i < n
            invariant
                *self == *old(self),
                n == self.procedures@.len(),
                i <= n,
                forall|j: int| 0 <= j < i ==> (#[trigger] self.procedures@[j])@ != name@,
            decreases n - i,
        {
            if self.procedures[i] == *name {
                return ;
            }
            i = i + 1;
        }
        self.analyzer.error(
            SemanticAnalysisError::SymbolUndefined { span: SourceSpan::zero() },
        );
    }

    /// Resolves an import-qualified callee to an absolute path,
    /// counting the use; a missing import is recorded as a diagnostic.
    pub fn resolve_external(&mut self, name: &String, module_ident: &String) -> (r: Option<
        InvocationTarget,
    >)
        requires
            forall|i: int|
                0 <= i < old(self).module.imports@.len() ==> (#[trigger] old(self).module.imports@[i]).uses < u64::MAX,
        ensures
            s_import_index(old(self).module.imports@, module_ident@) is None ==> r is None && final(self).analyzer.errors@ == old(self).analyzer.errors@.push(
                SemanticAnalysisError::MissingImport { span: SourceSpan { start: 0, end: 0 } },
            ),
            s_import_index(old(self).module.imports@, module_ident@) is Some ==> r is Some
                && final(self).analyzer == old(self).analyzer,
    {
        let n = self.module.imports.len();
        let mut i: usize = 0;
        proof {
            assert(self.module.imports@.subrange(0, n as int) =~= self.module.imports@);
        }
        while i < n
            invariant
                *self == *old(self),
                n == self.module.imports@.len(),
                i <= n,
                forall|j: int|
                    0 <= j < self.module.imports@.len() ==> (#[trigger] self.module.imports@[j]).uses
                        < u64::MAX,
                forall|j: int| 0 <= j < i ==> (#[trigger] self.module.imports@[j]).name@
                    != module_ident@,
            decreases n - i,
        {
            if self.module.imports[i].name == *module_ident {
                proof {
                    lemma_import_index_at(self.module.imports@, module_ident@, i as int);
                }
                let path = self.module.imports[i].path.clone();
                let uses = self.module.imports[i].uses;
                let old_import = self.module.imports.remove(i);
                self.module.imports.insert(
                    i,
                    Import { name: old_import.name, path: old_import.path, uses: uses + 1 },
                );
                return Some(
                    InvocationTarget::AbsoluteProcedurePath { name: name.clone(), path },
                );
            }
            i = i + 1;
        }
        proof {
            lemma_import_index_absent(self.module.imports@, module_ident@);
        }
        self.analyzer.error(
            SemanticAnalysisError::MissingImport { span: SourceSpan::zero() },
        );
        None
    }

    /// Checks one invocation target: digests and absolute paths pass
    /// through, a self-call is recorded as recursive, a local name is
    /// checked against the module, and an import-qualified name is
    /// rewritten to its absolute path.
    pub fn visit_mut_invoke_target(&mut self, target: &mut InvocationTarget)
        requires
            forall|i: int|
                0 <= i < old(self).module.imports@.len() ==> (#[trigger] old(self).module.imports@[i]).uses < u64::MAX,
    {
        let is_self_call = match &*target {
            InvocationTarget::ProcedureName(name) => *name == self.current_procedure,
            _ => false,
        };
        if is_self_call {
            self.analyzer.error(
                SemanticAnalysisError::SelfRecursive { span: SourceSpan::zero() },
            );
            return ;
        }
        let replacement = match &*target {
            InvocationTarget::MastRoot(_) => None,
            InvocationTarget::AbsoluteProcedurePath { .. } => None,
            InvocationTarget::ProcedureName(name) => {
                let name = name.clone();
                self.resolve_local(&name);
                None
            },
            InvocationTarget::ProcedurePath { name, module } => {
                let name = name.clone();
                let module = module.clone();
                self.resolve_external(&name, &module)
            },
        };
        match replacement {
            Some(new_target) => {
                *target = new_target;
            },
            None => {},
        }
    }

    /// Checks a syscall target: a syscall inside the kernel is a
    /// diagnostic, and a locally named target is left for resolution
    /// against the kernel of the eventual assembly.
    pub fn visit_mut_syscall(&mut self, target: &mut InvocationTarget)
        requires
            forall|i: int|
                0 <= i < old(self).module.imports@.len() ==> (#[trigger] old(self).module.imports@[i]).uses < u64::MAX,
    {
        if self.module.is_kernel {
            self.analyzer.error(
                SemanticAnalysisError::SyscallInKernel { span: SourceSpan::zero() },
            );
        }
        let skip_rewrite = match &*target {
            InvocationTarget::ProcedureName(_) => true,
            _ => false,
        };
        if !skip_rewrite {
            self.visit_mut_invoke_target(target);
        }
        self.record_invoke(InvokeKind::SysCall, target);
    }

    /// Checks a call target: a call from the kernel to the outside is
    /// a diagnostic.
    pub fn visit_mut_call(&mut self, target: &mut InvocationTarget)
        requires
            forall|i: int|
                0 <= i < old(self).module.imports@.len() ==> (#[trigger] old(self).module.imports@[i]).uses < u64::MAX,
    {
        if self.module.is_kernel {
            self.analyzer.error(
                SemanticAnalysisError::CallInKernel { span: SourceSpan::zero() },
            );
        }
        self.visit_mut_invoke_target(target);
        self.record_invoke(InvokeKind::Call, target);
    }

    /// Checks an exec target.
    pub fn visit_mut_exec(&mut self, target: &mut InvocationTarget)
        requires
            forall|i: int|
                0 <= i < old(self).module.imports@.len() ==> (#[trigger] old(self).module.imports@[i]).uses < u64::MAX,
    {
        self.visit_mut_invoke_target(target);
        self.record_invoke(InvokeKind::Exec, target);
    }

    /// Checks a procedure-reference target, which resolves like an
    /// exec.
    pub fn visit_mut_procref(&mut self, target: &mut InvocationTarget)
        requires
            forall|i: int|
                0 <= i < old(self).module.imports@.len() ==> (#[trigger] old(self).module.imports@[i]).uses < u64::MAX,
    {
        self.visit_mut_invoke_target(target);
        self.record_invoke(InvokeKind::Exec, target);
    }

    /// Counts the import a procedure alias re-exports through, where
    /// there is one.
    pub fn visit_mut_procedure_alias(&mut self, alias_name: &String)
        requires
            forall|i: int|
                0 <= i < old(self).module.imports@.len() ==> (#[trigger] old(self).module.imports@[i]).uses < u64::MAX,
    {
        let n = self.module.imports.len();
        let mut i: usize = 0;
        while i < n
            invariant
                n == self.module.imports@.len(),
                i <= n,
                forall|j: int|
                    0 <= j < self.module.imports@.len() ==> (#[trigger] self.module.imports@[j]).uses
                        < u64::MAX,
            decreases n - i,
        {
            if self.module.imports[i].name == *alias_name {
                let old_import = self.module.imports.remove(i);
                let uses = old_import.uses;
                self.module.imports.insert(
                    i,
                    Import { name: old_import.name, path: old_import.path, uses: uses + 1 },
                );
                return ;
            }
            i = i + 1;
        }
    }

    /// Records one invocation the procedure body makes.
    fn record_invoke(&mut self, kind: InvokeKind, target: &InvocationTarget)
        ensures
            final(self).invoked@.len() == old(self).invoked@.len() + 1,
            final(self).analyzer == old(self).analyzer,
            final(self).module == old(self).module,
    {
        let copy = match target {
            InvocationTarget::MastRoot(d) => InvocationTarget::MastRoot(*d),
            InvocationTarget::ProcedureName(n) => InvocationTarget::ProcedureName(n.clone()),
            InvocationTarget::ProcedurePath { name, module } => InvocationTarget::ProcedurePath {
                name: name.clone(),
                module: module.clone(),
            },
            InvocationTarget::AbsoluteProcedurePath {
                name,
                path,
            } => InvocationTarget::AbsoluteProcedurePath { name: name.clone(), path: path.clone() },
        };
        self.invoked.push((kind, copy));
    }
}

/// A matching entry behind a non-matching prefix is the found index.
proof fn lemma_import_index_at(imports: Seq<Import>, ident: Seq<char>, i: int)
    requires
        0 <= i < imports.len(),
        forall|j: int| 0 <= j < i ==> (#[trigger] imports[j]).name@ != ident,
        imports[i].name@ == ident,
    ensures
        s_import_index(imports, ident) == Some(i),
    decreases i,
{
    if i > 0 {
        let rest = imports.subrange(1, imports.len() as int);
        assert(forall|j: int| 0 <= j < i - 1 ==> (#[trigger] rest[j]).name@ != ident);
        assert(rest[i - 1] == imports[i]);
        lemma_import_index_at(rest, ident, i - 1);
    }
}

/// An identifier no import binds has no index.
proof fn lemma_import_index_absent(imports: Seq<Import>, ident: Seq<char>)
    requires
        forall|j: int| 0 <= j < imports.len() ==> (#[trigger] imports[j]).name@ != ident,
    ensures
        s_import_index(imports, ident) is None,
    decreases imports.len(),
{
    if imports.len() > 0 {
        let rest = imports.subrange(1, imports.len() as int);
        assert(forall|j: int| 0 <= j < rest.len() ==> (#[trigger] rest[j]).name@ != ident);
        lemma_import_index_absent(rest, ident);
    }
}

} // verus!
