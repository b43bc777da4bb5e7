//! Resolution of procedure invocation targets against a module graph:
//! a name may resolve locally, through a chain of re-exporting
//! aliases, or to a procedure known only by its digest.

use crate::sema::SourceSpan;
use crate::word::Word;
use vstd::prelude::*;

verus! {

/// The position of a module in the graph.
#[derive(Debug, Clone, Copy, PartialEq, Eq, Structural)]
pub struct ModuleIndex {
    pub index: usize,
}

impl ModuleIndex {
    pub fn new(index: usize) -> (r: ModuleIndex)
        ensures
            r.index == index,
    {
        ModuleIndex { index }
    }

    pub fn as_usize(&self) -> (r: usize)
        ensures
            r == self.index,
    {
        self.index
    }
}

/// The graph-wide identity of one procedure.
#[derive(Debug, Clone, Copy, PartialEq, Eq, Structural)]
pub struct GlobalProcedureIndex {
    pub module: ModuleIndex,
    pub index: usize,
}

/// How a callee is being invoked; local names of a syscall resolve in
/// the kernel module, not in the caller's.
#[derive(Debug, Clone, Copy, PartialEq, Eq, Structural)]
pub enum InvokeKind {
    Exec,
    Call,
    SysCall,
}

/// A procedure named together with the path of its defining module.
#[derive(Debug, PartialEq, Eq)]
pub struct FullyQualifiedProcedureName {
    pub module: String,
    pub name: String,
}

/// What a module knows about one of its procedures.
pub struct ProcInfo {
    pub name: String,
    pub mast_root: Option<Word>,
}

/// What one resolved name means inside a module: a definition in the
/// module itself, or a re-export of a procedure defined elsewhere.
pub enum ResolvedProcedure {
    Local(usize),
    External(FullyQualifiedProcedureName),
}

/// One module of the graph: its path, its procedures in definition
/// order, its re-exporting aliases, and its imports.
pub struct ModuleEntry {
    pub path: String,
    pub procs: Vec<ProcInfo>,
    pub aliases: Vec<(String, FullyQualifiedProcedureName)>,
    pub imports: Vec<(String, String)>,
}

/// The graph of already-added modules.
pub struct ModuleGraph {
    pub modules: Vec<ModuleEntry>,
    pub kernel_index: Option<usize>,
}

impl ModuleGraph {
    /// A configured kernel index points at a module of the graph.
    pub open spec fn wf(self) -> bool {
        self.kernel_index is Some ==> self.kernel_index->0 < self.modules.len()
    }
}

// LOOKUPS WITHIN ONE MODULE
// ================================================================================================

/// The index of the first procedure with the given name.
pub open spec fn s_proc_index(procs: Seq<ProcInfo>, name: Seq<char>) -> Option<int>
    decreases procs.len(),
{
    if procs.len() == 0 {
        None
    } else if procs[0].name@ == name {
        Some(0int)
    } else {
        match s_proc_index(procs.subrange(1, procs.len() as int), name) {
            Some(i) => Some(i + 1),
            None => None,
        }
    }
}

/// The qualified name the first matching alias re-exports.
pub open spec fn s_alias_lookup(
    aliases: Seq<(String, FullyQualifiedProcedureName)>,
    name: Seq<char>,
) -> Option<FullyQualifiedProcedureName>
    decreases aliases.len(),
{
    if aliases.len() == 0 {
        None
    } else if aliases[0].0@ == name {
        Some(aliases[0].1)
    } else {
        s_alias_lookup(aliases.subrange(1, aliases.len() as int), name)
    }
}

/// The module path the first matching import binds an identifier to.
pub open spec fn s_import_lookup(imports: Seq<(String, String)>, ident: Seq<char>) -> Option<
    String,
>
    decreases imports.len(),
{
    if imports.len() == 0 {
        None
    } else if imports[0].0@ == ident {
        Some(imports[0].1)
    } else {
        s_import_lookup(imports.subrange(1, imports.len() as int), ident)
    }
}

/// What a name means inside a module: its own procedures shadow its
/// aliases.
pub open spec fn s_module_resolve(m: ModuleEntry, name: Seq<char>) -> Option<ResolvedProcedure> {
    match s_proc_index(m.procs@, name) {
        Some(i) => Some(ResolvedProcedure::Local(i as usize)),
        None => match s_alias_lookup(m.aliases@, name) {
            Some(fqn) => Some(ResolvedProcedure::External(fqn)),
            None => None,
        },
    }
}

// RESOLUTION RESULTS
// ================================================================================================

/// The context a name is resolved in: where the call stands and how
/// the callee is invoked.
#[derive(Debug, Clone, Copy)]
pub struct CallerInfo {
    pub span: SourceSpan,
    pub module: ModuleIndex,
    pub kind: InvokeKind,
}

/// The output of resolving a procedure invocation target.
pub enum ResolvedTarget {
    /// The callee's digest is known.
    Cached { digest: Word, gid: Option<GlobalProcedureIndex> },
    /// The callee resolved to a known procedure of the graph.
    Exact { gid: GlobalProcedureIndex },
    /// The callee resolved to a concrete definition reachable as
    /// `target`.
    Resolved { gid: GlobalProcedureIndex, target: InvocationTarget },
    /// Only the callee's digest is known; no definition is available.
    Phantom(Word),
}

impl ResolvedTarget {
    /// The graph identity of the resolved callee, where one is known.
    pub fn into_global_id(self) -> (r: Option<GlobalProcedureIndex>)
        ensures
            r == match self {
                ResolvedTarget::Exact { gid } => Some(gid),
                ResolvedTarget::Resolved { gid, .. } => Some(gid),
                ResolvedTarget::Cached { gid, .. } => gid,
                ResolvedTarget::Phantom(_) => None::<GlobalProcedureIndex>,
            },
    {
        match self {
            ResolvedTarget::Exact { gid } => Some(gid),
            ResolvedTarget::Resolved { gid, .. } => Some(gid),
            ResolvedTarget::Cached { gid, .. } => gid,
            ResolvedTarget::Phantom(_) => None,
        }
    }
}

/// The resolution points at the given procedure of the graph.
pub open spec fn resolves_to(
    r: Result<ResolvedTarget, AssemblyError>,
    gid: GlobalProcedureIndex,
) -> bool {
    match r {
        Ok(ResolvedTarget::Cached { gid: g, .. }) => g == Some(gid),
        Ok(ResolvedTarget::Exact { gid: g }) => g == gid,
        Ok(ResolvedTarget::Resolved { gid: g, .. }) => g == gid,
        _ => false,
    }
}

/// A possibly-unresolved callee reference, as the parser produced it.
pub enum InvocationTarget {
    MastRoot(Word),
    ProcedureName(String),
    ProcedurePath { name: String, module: String },
    AbsoluteProcedurePath { name: String, path: String },
}

/// Errors raised while resolving an invocation target.
#[derive(Debug, PartialEq, Eq)]
pub enum AssemblyError {
    /// The referenced module is not part of the graph.
    UndefinedModule { span: SourceSpan, path: String },
    /// A syscall resolved outside the kernel module.
    InvalidSysCallTarget { span: SourceSpan, callee: FullyQualifiedProcedureName },
    /// The name has no definition in scope.
    UndefinedProcedure { span: SourceSpan },
    /// A syscall name has no definition in the kernel.
    UndefinedKernelProcedure { span: SourceSpan },
    /// A chain of re-exports loops back on itself.
    RecursiveAlias { span: SourceSpan },
}

// THE NAME RESOLVER
// ================================================================================================

/// Resolves procedure invocation targets to concrete definitions,
/// consulting the graph's modules and a set of pending modules that
/// are being added but are not fully processed yet.
pub struct NameResolver<'a> {
    pub graph: &'a ModuleGraph,
    pub pending: Vec<ModuleEntry>,
}

impl<'a> NameResolver<'a> {
    /// Modules of the graph come first, pending modules after.
    pub open spec fn total_modules(self) -> int {
        self.graph.modules.len() + self.pending.len()
    }

    /// The module at a position spanning graph and pending modules.
    pub open spec fn s_module_at(self, idx: int) -> ModuleEntry {
        if idx < self.graph.modules.len() {
            self.graph.modules@[idx]
        } else {
            self.pending@[idx - self.graph.modules.len()]
        }
    }

    pub open spec fn wf(self) -> bool {
        self.graph.wf() && self.total_modules() <= usize::MAX
    }

    /// Creates a new resolver for the provided module graph.
    pub fn new(graph: &'a ModuleGraph) -> (r: NameResolver<'a>)
        ensures
            r.graph == graph,
            r.pending@.len() == 0,
    {
        NameResolver { graph, pending: Vec::new() }
    }

    /// Adds a module to the pending set this resolver consults.
    pub fn push_pending(&mut self, module: ModuleEntry)
        ensures
            final(self).graph == old(self).graph,
            final(self).pending@ == old(self).pending@.push(module),
    {
        self.pending.push(module);
    }

    /// The module at `idx`, whichever set holds it.
    fn module_at(&self, idx: usize) -> (r: &ModuleEntry)
        requires
            idx < self.total_modules(),
        ensures
            *r == self.s_module_at(idx as int),
    {
        let pending_offset = self.graph.modules.len();
        if idx < pending_offset {
            &self.graph.modules[idx]
        } else {
            &self.pending[idx - pending_offset]
        }
    }

    /// Resolves a name inside the module at the given index.
    pub fn resolve_local_with_index(&self, module: ModuleIndex, callee: &String) -> (r: Option<
        ResolvedProcedure,
    >)
        requires
            module.index < self.total_modules(),
        ensures
            r == s_module_resolve(self.s_module_at(module.index as int), callee@),
    {
        let m = self.module_at(module.index);
        let n = m.procs.len();
        let mut i: usize = 0;
        proof {
            assert(m.procs@.subrange(0, n as int) =~= m.procs@);
        }
        while i < n
            invariant
                *m == self.s_module_at(module.index as int),
                n == m.procs@.len(),
                i <= n,
                match s_proc_index(m.procs@, callee@) {
                    Some(k) => match s_proc_index(
                        m.procs@.subrange(i as int, n as int),
                        callee@,
                    ) {
                        Some(k2) => k == k2 + i,
                        None => false,
                    },
                    None => s_proc_index(m.procs@.subrange(i as int, n as int), callee@) is None,
                },
            decreases n - i,
        {
            proof {
                let rest = m.procs@.subrange(i as int, n as int);
                assert(rest[0] == m.procs@[i as int]);
                assert(rest.subrange(1, rest.len() as int) =~= m.procs@.subrange(
                    i as int + 1,
                    n as int,
                ));
            }
            if m.procs[i].name == *callee {
                return Some(ResolvedProcedure::Local(i));
            }
            i = i + 1;
        }
        proof {
            assert(m.procs@.subrange(n as int, n as int) =~= Seq::<ProcInfo>::empty());
        }
        let k = m.aliases.len();
        let mut j: usize = 0;
        proof {
            assert(m.aliases@.subrange(0, k as int) =~= m.aliases@);
        }
        while j < k
            invariant
                *m == self.s_module_at(module.index as int),
                k == m.aliases@.len(),
                j <= k,
                s_proc_index(m.procs@, callee@) is None,
                s_alias_lookup(m.aliases@, callee@) == s_alias_lookup(
                    m.aliases@.subrange(j as int, k as int),
                    callee@,
                ),
            decreases k - j,
        {
            proof {
                let rest = m.aliases@.subrange(j as int, k as int);
                assert(rest[0] == m.aliases@[j as int]);
                assert(rest.subrange(1, rest.len() as int) =~= m.aliases@.subrange(
                    j as int + 1,
                    k as int,
                ));
            }
            if m.aliases[j].0 == *callee {
                let fqn = FullyQualifiedProcedureName {
                    module: m.aliases[j].1.module.clone(),
                    name: m.aliases[j].1.name.clone(),
                };
                proof {
                    assert(fqn == m.aliases@[j as int].1);
                }
                return Some(ResolvedProcedure::External(fqn));
            }
            j = j + 1;
        }
        proof {
            assert(m.aliases@.subrange(k as int, k as int) =~= Seq::<
                (String, FullyQualifiedProcedureName),
            >::empty());
        }
        None
    }

    /// Resolves a name in the caller's own scope: the kernel module
    /// for syscalls, the caller's module otherwise.
    pub fn resolve_local(&self, caller: &CallerInfo, callee: &String) -> (r: Option<
        ResolvedProcedure,
    >)
        requires
            self.wf(),
            caller.module.index < self.total_modules(),
        ensures
            caller.kind is SysCall && self.graph.kernel_index is None ==> r is None,
            caller.kind is SysCall && self.graph.kernel_index is Some ==> r == s_module_resolve(
                self.s_module_at(self.graph.kernel_index->0 as int),
                callee@,
            ),
            !(caller.kind is SysCall) ==> r == s_module_resolve(
                self.s_module_at(caller.module.index as int),
                callee@,
            ),
    {
        let module = if matches!(caller.kind, InvokeKind::SysCall) {
            match self.graph.kernel_index {
                Some(k) => ModuleIndex::new(k),
                None => {
                    return None;
                },
            }
        } else {
            caller.module
        };
        self.resolve_local_with_index(module, callee)
    }

    /// Resolves an imported module identifier to the library path the
    /// caller's module imports it as.
    pub fn resolve_import(&self, caller: &CallerInfo, name: &String) -> (r: Option<String>)
        requires
            caller.module.index < self.total_modules(),
        ensures
            match r {
                Some(path) => s_import_lookup(
                    self.s_module_at(caller.module.index as int).imports@,
                    name@,
                ) == Some(path),
                None => s_import_lookup(
                    self.s_module_at(caller.module.index as int).imports@,
                    name@,
                ) is None,
            },
    {
        let m = self.module_at(caller.module.index);
        let n = m.imports.len();
        let mut i: usize = 0;
        proof {
            assert(m.imports@.subrange(0, n as int) =~= m.imports@);
        }
        while i < n
            invariant
                *m == self.s_module_at(caller.module.index as int),
                n == m.imports@.len(),
                i <= n,
                s_import_lookup(m.imports@, name@) == s_import_lookup(
                    m.imports@.subrange(i as int, n as int),
                    name@,
                ),
            decreases n - i,
        {
            proof {
                let rest = m.imports@.subrange(i as int, n as int);
                assert(rest[0] == m.imports@[i as int]);
                assert(rest.subrange(1, rest.len() as int) =~= m.imports@.subrange(
                    i as int + 1,
                    n as int,
                ));
            }
            if m.imports[i].0 == *name {
                return Some(m.imports[i].1.clone());
            }
            i = i + 1;
        }
        proof {
            assert(m.imports@.subrange(n as int, n as int) =~= Seq::<(String, String)>::empty());
        }
        None
    }

    /// Resolves a library path to its module's position in the graph.
    pub fn find_module_index(&self, name: &String) -> (r: Option<ModuleIndex>)
        requires
            self.total_modules() <= usize::MAX,
        ensures
            match r {
                Some(m) => m.index < self.total_modules() && self.s_module_at(
                    m.index as int,
                ).path@ == name@,
                None => forall|i: int|
                    0 <= i < self.total_modules() ==> (#[trigger] self.s_module_at(i)).path@
                        != name@,
            },
    {
        let offset = self.graph.modules.len();
        let total = offset + self.pending.len();
        let mut i: usize = 0;
        while i < total
            invariant
                offset == self.graph.modules@.len(),
                total == self.total_modules(),
                i <= total,
                forall|j: int| 0 <= j < i ==> (#[trigger] self.s_module_at(j)).path@ != name@,
            decreases total - i,
        {
            let m = self.module_at(i);
            if m.path == *name {
                return Some(ModuleIndex::new(i));
            }
            i = i + 1;
        }
        None
    }

    /// The library path of the module at the given position.
    pub fn path_of_module(&self, module: ModuleIndex) -> (r: String)
        requires
            module.index < self.total_modules(),
        ensures
            r@ == self.s_module_at(module.index as int).path@,
    {
        self.module_at(module.index).path.clone()
    }

    /// The digest recorded for a procedure of the graph, if one is.
    fn get_mast_root(&self, gid: GlobalProcedureIndex) -> (r: Option<Word>)
        requires
            gid.module.index < self.total_modules(),
            gid.index < self.s_module_at(gid.module.index as int).procs.len(),
        ensures
            r == self.s_module_at(gid.module.index as int).procs@[gid.index as int].mast_root,
    {
        let m = self.module_at(gid.module.index);
        m.procs[gid.index].mast_root
    }

    /// A resolved callee identity lies within the graph.
    pub open spec fn gid_in_range(self, gid: GlobalProcedureIndex) -> bool {
        gid.module.index < self.total_modules() && gid.index < self.s_module_at(
            gid.module.index as int,
        ).procs.len()
    }

    /// Every procedure identity a resolution produces is in range.
    pub open spec fn target_in_range(self, t: ResolvedTarget) -> bool {
        match t {
            ResolvedTarget::Cached { gid, .. } => gid is Some ==> self.gid_in_range(gid->0),
            ResolvedTarget::Exact { gid } => self.gid_in_range(gid),
            ResolvedTarget::Resolved { gid, .. } => self.gid_in_range(gid),
            ResolvedTarget::Phantom(_) => true,
        }
    }

    /// The recorded digest of a procedure of the graph.
    pub open spec fn recorded_root(self, gid: GlobalProcedureIndex) -> Option<Word> {
        self.s_module_at(gid.module.index as int).procs@[gid.index as int].mast_root
    }

    /// The discipline every resolution result obeys: a cached target
    /// carries exactly the digest its procedure records, and a rewrite
    /// names a digest-less procedure by its absolute path.
    pub open spec fn well_shaped_target(self, t: ResolvedTarget) -> bool {
        match t {
            ResolvedTarget::Cached { digest, gid } => gid matches Some(g) ==> self.gid_in_range(g)
                && self.recorded_root(g) == Some(digest),
            ResolvedTarget::Exact { gid } => self.gid_in_range(gid),
            ResolvedTarget::Resolved { gid, target } => self.gid_in_range(gid)
                && self.recorded_root(gid) is None && (target matches
            InvocationTarget::AbsoluteProcedurePath { name, path } && name@ == self.s_module_at(
                gid.module.index as int,
            ).procs@[gid.index as int].name@ && path@ == self.s_module_at(
                gid.module.index as int,
            ).path@),
            ResolvedTarget::Phantom(_) => true,
        }
    }

    /// The alias budget of the graph: a resolution chain longer than
    /// this must revisit a name, which is a recursive alias.
    fn alias_budget(&self) -> (r: u64)
        requires
            self.total_modules() <= usize::MAX,
    {
        let offset = self.graph.modules.len();
        let total = offset + self.pending.len();
        let mut budget: u64 = 1;
        let mut i: usize = 0;
        while i < total
            invariant
                total == self.total_modules(),
            decreases total - i,
        {
            let m = self.module_at(i);
            let a = m.aliases.len() as u64;
            budget = if budget > 0x7fff_ffff_ffff_ffffu64 {
                budget
            } else if a > 0x7fff_ffff_ffff_ffffu64 {
                0x8000_0000_0000_0000u64
            } else {
                budget + a
            };
            i = i + 1;
        }
        budget
    }

    /// Resolves a qualified name to its concrete definition, chasing
    /// re-exporting aliases across modules. A syscall must land in the
    /// kernel module; a chain that revisits a name is a recursive
    /// alias. Where the resolution succeeds the returned identity is a
    /// procedure of the graph.
    pub fn find(&self, caller: &CallerInfo, callee: &FullyQualifiedProcedureName) -> (r: Result<
        GlobalProcedureIndex,
        AssemblyError,
    >)
        requires
            self.wf(),
        ensures
            r is Ok ==> self.gid_in_range(r->Ok_0),
            r is Ok && caller.kind is SysCall ==> self.graph.kernel_index == Some(
                r->Ok_0.module.index,
            ),
            r matches Err(AssemblyError::UndefinedModule { span, path }) ==> span == caller.span
                && (forall|i: int|
                0 <= i < self.total_modules() ==> (#[trigger] self.s_module_at(i)).path@
                    != path@),
            r matches Err(AssemblyError::InvalidSysCallTarget { span, callee: c }) ==> span
                == caller.span && caller.kind is SysCall,
            r matches Err(AssemblyError::UndefinedProcedure { span }) ==> span == caller.span && !(
            caller.kind is SysCall),
            r matches Err(AssemblyError::UndefinedKernelProcedure { span }) ==> span == caller.span
                && caller.kind is SysCall,
            r matches Err(AssemblyError::RecursiveAlias { span }) ==> span == caller.span,
    {
        let mut current_module = callee.module.clone();
        let mut current_name = callee.name.clone();
        let mut fuel = self.alias_budget();
        loop
            invariant
                self.wf(),
            decreases fuel,
        {
            let module_index = match self.find_module_index(&current_module) {
                Some(m) => m,
                None => {
                    return Err(
                        AssemblyError::UndefinedModule {
                            span: caller.span,
                            path: current_module,
                        },
                    );
                },
            };
            match self.resolve_local_with_index(module_index, &current_name) {
                Some(ResolvedProcedure::Local(index)) => {
                    let id = GlobalProcedureIndex { module: module_index, index };
                    if matches!(caller.kind, InvokeKind::SysCall) {
                        let is_kernel = match self.graph.kernel_index {
                            Some(k) => k == module_index.index,
                            None => false,
                        };
                        if !is_kernel {
                            return Err(
                                AssemblyError::InvalidSysCallTarget {
                                    span: caller.span,
                                    callee: FullyQualifiedProcedureName {
                                        module: current_module,
                                        name: current_name,
                                    },
                                },
                            );
                        }
                    }
                    proof {
                        lemma_proc_index_in_range(
                            self.s_module_at(module_index.index as int).procs@,
                            current_name@,
                        );
                    }
                    return Ok(id);
                },
                Some(ResolvedProcedure::External(fqn)) => {
                    if fuel == 0 {
                        // the chain is longer than the alias budget, so
                        // it must have revisited a name
                        return Err(AssemblyError::RecursiveAlias { span: caller.span });
                    }
                    fuel = fuel - 1;
                    current_module = fqn.module;
                    current_name = fqn.name;
                },
                None => {
                    if matches!(caller.kind, InvokeKind::SysCall) {
                        return Err(
                            AssemblyError::UndefinedKernelProcedure { span: caller.span },
                        );
                    }
                    return Err(AssemblyError::UndefinedProcedure { span: caller.span });
                },
            }
        }
    }

    /// Resolves a callee name in the caller's context.
    pub fn resolve(&self, caller: &CallerInfo, callee: &String) -> (r: Result<
        ResolvedTarget,
        AssemblyError,
    >)
        requires
            self.wf(),
            caller.module.index < self.total_modules(),
        ensures
            r is Ok ==> self.target_in_range(r->Ok_0),
            r is Ok ==> self.well_shaped_target(r->Ok_0),
            !(caller.kind is SysCall) ==> (s_module_resolve(
                self.s_module_at(caller.module.index as int),
                callee@,
            ) is None ==> r == Err::<ResolvedTarget, AssemblyError>(
                AssemblyError::UndefinedProcedure { span: caller.span },
            )),
            !(caller.kind is SysCall) ==> (s_module_resolve(
                self.s_module_at(caller.module.index as int),
                callee@,
            ) matches Some(ResolvedProcedure::Local(i)) ==> resolves_to(
                r,
                GlobalProcedureIndex { module: caller.module, index: i },
            ) && !(r->Ok_0 is Resolved)),
            (caller.kind is SysCall && self.graph.kernel_index is None) ==> r == Err::<
                ResolvedTarget,
                AssemblyError,
            >(AssemblyError::UndefinedProcedure { span: caller.span }),
            caller.kind is SysCall ==> (self.graph.kernel_index matches Some(k) ==> (
            s_module_resolve(self.s_module_at(k as int), callee@) is None ==> r == Err::<
                ResolvedTarget,
                AssemblyError,
            >(AssemblyError::UndefinedProcedure { span: caller.span }))),
            caller.kind is SysCall ==> (self.graph.kernel_index matches Some(k) ==> (
            s_module_resolve(self.s_module_at(k as int), callee@) matches Some(
                ResolvedProcedure::Local(i),
            ) ==> resolves_to(
                r,
                GlobalProcedureIndex { module: ModuleIndex { index: k }, index: i },
            ) && !(r->Ok_0 is Resolved))),
    {
        let kind_is_syscall = matches!(caller.kind, InvokeKind::SysCall);
        match self.resolve_local(caller, callee) {
            Some(ResolvedProcedure::Local(index)) => {
                let module = if kind_is_syscall {
                    match self.graph.kernel_index {
                        Some(k) => ModuleIndex::new(k),
                        None => {
                            // resolve_local only answers a syscall out
                            // of the kernel module
                            proof {
                                assert(false);
                            }
                            caller.module
                        },
                    }
                } else {
                    caller.module
                };
                let gid = GlobalProcedureIndex { module, index };
                proof {
                    lemma_proc_index_in_range(
                        self.s_module_at(module.index as int).procs@,
                        callee@,
                    );
                }
                match self.get_mast_root(gid) {
                    Some(digest) => Ok(ResolvedTarget::Cached { digest, gid: Some(gid) }),
                    None => Ok(ResolvedTarget::Exact { gid }),
                }
            },
            Some(ResolvedProcedure::External(fqn)) => {
                let gid = self.find(caller, &fqn)?;
                match self.get_mast_root(gid) {
                    Some(digest) => Ok(ResolvedTarget::Cached { digest, gid: Some(gid) }),
                    None => {
                        let path = self.path_of_module(gid.module);
                        let name = self.module_at(gid.module.index).procs[gid.index].name.clone();
                        Ok(
                            ResolvedTarget::Resolved {
                                gid,
                                target: InvocationTarget::AbsoluteProcedurePath { name, path },
                            },
                        )
                    },
                }
            },
            None => Err(AssemblyError::UndefinedProcedure { span: caller.span }),
        }
    }

    /// Resolves a possibly-qualified invocation target in the caller's
    /// context.
    pub fn resolve_target(&self, caller: &CallerInfo, target: &InvocationTarget) -> (r: Result<
        ResolvedTarget,
        AssemblyError,
    >)
        requires
            self.wf(),
            caller.module.index < self.total_modules(),
        ensures
            r is Ok ==> self.target_in_range(r->Ok_0),
            r is Ok ==> self.well_shaped_target(r->Ok_0),
            *target matches InvocationTarget::MastRoot(d) ==> (match r {
                Ok(ResolvedTarget::Exact { gid }) => self.gid_in_range(gid)
                    && self.recorded_root(gid) == Some(d),
                Ok(ResolvedTarget::Phantom(pd)) => pd == d && (forall|mi: int, pi: int|
                    0 <= mi < self.total_modules() && 0 <= pi < self.s_module_at(mi).procs.len()
                        ==> (#[trigger] self.s_module_at(mi).procs@[pi]).mast_root != Some(d)),
                _ => false,
            }),
            *target matches InvocationTarget::ProcedurePath { name, module } ==> (s_import_lookup(
                self.s_module_at(caller.module.index as int).imports@,
                module@,
            ) is None ==> (match r {
                Err(AssemblyError::UndefinedModule { span, path }) => span == caller.span && path@
                    == module@,
                _ => false,
            })),
    {
        match target {
            InvocationTarget::MastRoot(mast_root) => {
                match self.find_procedure_by_digest(mast_root) {
                    Some(gid) => Ok(ResolvedTarget::Exact { gid }),
                    None => Ok(ResolvedTarget::Phantom(*mast_root)),
                }
            },
            InvocationTarget::ProcedureName(callee) => self.resolve(caller, callee),
            InvocationTarget::ProcedurePath { name, module } => {
                match self.resolve_import(caller, module) {
                    Some(path) => {
                        let fqn = FullyQualifiedProcedureName { module: path, name: name.clone() };
                        let gid = self.find(caller, &fqn)?;
                        match self.get_mast_root(gid) {
                            Some(digest) => Ok(ResolvedTarget::Cached { digest, gid: Some(gid) }),
                            None => {
                                let path = self.path_of_module(gid.module);
                                let name = self.module_at(
                                    gid.module.index,
                                ).procs[gid.index].name.clone();
                                Ok(
                                    ResolvedTarget::Resolved {
                                        gid,
                                        target: InvocationTarget::AbsoluteProcedurePath {
                                            name,
                                            path,
                                        },
                                    },
                                )
                            },
                        }
                    },
                    None => Err(
                        AssemblyError::UndefinedModule { span: caller.span, path: module.clone() },
                    ),
                }
            },
            InvocationTarget::AbsoluteProcedurePath { name, path } => {
                let fqn = FullyQualifiedProcedureName {
                    module: path.clone(),
                    name: name.clone(),
                };
                let gid = self.find(caller, &fqn)?;
                match self.get_mast_root(gid) {
                    Some(digest) => Ok(ResolvedTarget::Cached { digest, gid: Some(gid) }),
                    None => Ok(ResolvedTarget::Exact { gid }),
                }
            },
        }
    }

    /// Scans the graph for the procedure recorded under a digest; where
    /// nothing is found, no procedure of the graph records it.
    fn find_procedure_by_digest(&self, digest: &Word) -> (r: Option<GlobalProcedureIndex>)
        requires
            self.total_modules() <= usize::MAX,
        ensures
            r is Some ==> self.gid_in_range(r->0) && self.s_module_at(
                r->0.module.index as int,
            ).procs@[r->0.index as int].mast_root == Some(*digest),
            r is None ==> forall|mi: int, pi: int|
                0 <= mi < self.total_modules() && 0 <= pi < self.s_module_at(mi).procs.len() ==> (
                #[trigger] self.s_module_at(mi).procs@[pi]).mast_root != Some(*digest),
    {
        let offset = self.graph.modules.len();
        let total = offset + self.pending.len();
        let mut i: usize = 0;
        while i < total
            invariant
                total == self.total_modules(),
                i <= total,
                forall|mi: int, pi: int|
                    0 <= mi < i && 0 <= pi < self.s_module_at(mi).procs.len() ==> (
                    #[trigger] self.s_module_at(mi).procs@[pi]).mast_root != Some(*digest),
            decreases total - i,
        {
            let m = self.module_at(i);
            let n = m.procs.len();
            let mut j: usize = 0;
            while j < n
                invariant
                    total == self.total_modules(),
                    i < total,
                    n == m.procs@.len(),
                    j <= n,
                    *m == self.s_module_at(i as int),
                    forall|mi: int, pi: int|
                        0 <= mi < i && 0 <= pi < self.s_module_at(mi).procs.len() ==> (
                        #[trigger] self.s_module_at(mi).procs@[pi]).mast_root != Some(*digest),
                    forall|pi: int|
                        0 <= pi < j ==> (#[trigger] self.s_module_at(i as int).procs@[pi]).mast_root
                            != Some(*digest),
                decreases n - j,
            {
                match &m.procs[j].mast_root {
                    Some(root) => {
                        if *root == *digest {
                            return Some(
                                GlobalProcedureIndex { module: ModuleIndex::new(i), index: j },
                            );
                        }
                    },
                    None => {},
                }
                j = j + 1;
            }
            i = i + 1;
        }
        None
    }
}

/// A found procedure index lies within its module.
proof fn lemma_proc_index_in_range(procs: Seq<ProcInfo>, name: Seq<char>)
    requires
        s_proc_index(procs, name) is Some,
    ensures
        0 <= s_proc_index(procs, name)->0 < procs.len(),
    decreases procs.len(),
{
    if procs.len() > 0 && procs[0].name@ != name {
        lemma_proc_index_in_range(procs.subrange(1, procs.len() as int), name);
    }
}

} // verus!
