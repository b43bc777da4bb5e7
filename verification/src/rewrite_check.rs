//! An analysis pass over an already-added module that looks for
//! evidence that newly added modules would let at least one of its
//! invocation targets be rewritten to something more concrete.

use crate::name_resolver::{
    AssemblyError, CallerInfo, InvocationTarget, InvokeKind, ModuleIndex, NameResolver,
    ResolvedTarget,
};
use crate::sema::SourceSpan;
use vstd::prelude::*;

verus! {

/// A module body reduced to what this pass reads: the invocations it
/// makes, each with the kind it is invoked by.
pub struct ModuleBody {
    pub invokes: Vec<(InvokeKind, InvocationTarget)>,
}

/// Checks whether rewriting a module would change it, by resolving
/// each of its invocation targets against the current graph.
pub struct MaybeRewriteCheck<'a, 'b: 'a> {
    pub resolver: &'a NameResolver<'b>,
}

impl<'a, 'b: 'a> MaybeRewriteCheck<'a, 'b> {
    /// Creates a new instance of this analysis with the given
    /// resolver.
    pub fn new(resolver: &'a NameResolver<'b>) -> (r: MaybeRewriteCheck<'a, 'b>)
        ensures
            r.resolver == resolver,
    {
        MaybeRewriteCheck { resolver }
    }

    /// Runs the analysis: true when some invocation target of the
    /// module now resolves to a concrete rewrite, false when none
    /// does, or the first resolution error. A module without
    /// invocations never needs a rewrite.
    pub fn check(&self, module_id: ModuleIndex, module: &ModuleBody) -> (r: Result<
        bool,
        AssemblyError,
    >)
        requires
            self.resolver.wf(),
            module_id.index < self.resolver.total_modules(),
        ensures
            module.invokes@.len() == 0 ==> r == Ok::<bool, AssemblyError>(false),
            r == Ok::<bool, AssemblyError>(true) ==> module.invokes@.len() > 0,
    {
        let n = module.invokes.len();
        let mut i: usize = 0;
        while i < n
            invariant
                self.resolver.wf(),
                module_id.index < self.resolver.total_modules(),
                n == module.invokes@.len(),
                i <= n,
            decreases n - i,
        {
            let (kind, target) = &module.invokes[i];
            let caller = CallerInfo {
                span: SourceSpan { start: 0, end: 0 },
                module: module_id,
                kind: *kind,
            };
            match self.resolver.resolve_target(&caller, target) {
                Err(err) => {
                    return Err(err);
                },
                Ok(ResolvedTarget::Resolved { .. }) => {
                    return Ok(true);
                },
                Ok(ResolvedTarget::Exact { .. }) => {},
                Ok(ResolvedTarget::Phantom(_)) => {},
                Ok(ResolvedTarget::Cached { .. }) => {
                    match target {
                        InvocationTarget::MastRoot(_) => {},
                        _ => {
                            return Ok(true);
                        },
                    }
                },
            }
            i = i + 1;
        }
        Ok(false)
    }
}

} // verus!
