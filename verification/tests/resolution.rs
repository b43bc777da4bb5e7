//! Name resolution against a module graph: local names, re-exporting
//! aliases, imports, digests and the rewrite/invoke analysis passes.

use miden_vm_lib::felt::Felt;
use miden_vm_lib::name_resolver::{
    AssemblyError, CallerInfo, FullyQualifiedProcedureName, InvocationTarget, InvokeKind,
    ModuleEntry, ModuleGraph, ModuleIndex, NameResolver, ProcInfo, ResolvedTarget,
};
use miden_vm_lib::rewrite_check::{MaybeRewriteCheck, ModuleBody};
use miden_vm_lib::sema::{AnalysisContext, SourceFile, SourceSpan};
use miden_vm_lib::verify_invoke::{AstModule, Import, VerifyInvokeTargets};
use miden_vm_lib::word::Word;

fn word(a: u64) -> Word {
    Word::new(Felt::new(a), Felt::new(0), Felt::new(0), Felt::new(0))
}

fn fqn(module: &str, name: &str) -> FullyQualifiedProcedureName {
    FullyQualifiedProcedureName { module: module.to_string(), name: name.to_string() }
}

fn caller(module: usize, kind: InvokeKind) -> CallerInfo {
    CallerInfo { span: SourceSpan { start: 0, end: 0 }, module: ModuleIndex::new(module), kind }
}

/// Two modules: `lib` defines `f` (with a known digest) and `g`, and
/// re-exports `sys::h` as `h_alias`; `main` imports `lib` as `l`.
fn graph() -> ModuleGraph {
    let lib = ModuleEntry {
        path: "std::lib".to_string(),
        procs: vec![
            ProcInfo { name: "f".to_string(), mast_root: Some(word(77)) },
            ProcInfo { name: "g".to_string(), mast_root: None },
        ],
        aliases: vec![("h_alias".to_string(), fqn("std::sys", "h"))],
        imports: Vec::new(),
    };
    let sys = ModuleEntry {
        path: "std::sys".to_string(),
        procs: vec![ProcInfo { name: "h".to_string(), mast_root: None }],
        aliases: Vec::new(),
        imports: Vec::new(),
    };
    let main = ModuleEntry {
        path: "exec::main".to_string(),
        procs: vec![ProcInfo { name: "entry".to_string(), mast_root: None }],
        aliases: Vec::new(),
        imports: vec![("l".to_string(), "std::lib".to_string())],
    };
    ModuleGraph { modules: vec![lib, sys, main], kernel_index: Some(1) }
}

#[test]
fn resolves_local_names_and_digests() {
    let g = graph();
    let resolver = NameResolver::new(&g);
    // a cached procedure resolves with its digest
    let r = resolver.resolve(&caller(0, InvokeKind::Exec), &"f".to_string()).unwrap();
    match r {
        ResolvedTarget::Cached { digest, gid } => {
            assert_eq!(digest, word(77));
            assert_eq!(gid.unwrap().module.as_usize(), 0);
            assert_eq!(gid.unwrap().index, 0);
        },
        _ => panic!("expected a cached resolution"),
    }
    // a procedure without a digest resolves exactly
    let r = resolver.resolve(&caller(0, InvokeKind::Exec), &"g".to_string()).unwrap();
    assert_eq!(r.into_global_id().unwrap().index, 1);
    // an undefined name is an error
    assert!(resolver.resolve(&caller(0, InvokeKind::Exec), &"missing".to_string()).is_err());
}

#[test]
fn resolves_aliases_across_modules() {
    let g = graph();
    let resolver = NameResolver::new(&g);
    let r = resolver.resolve(&caller(0, InvokeKind::Exec), &"h_alias".to_string()).unwrap();
    match r {
        ResolvedTarget::Resolved { gid, target } => {
            assert_eq!(gid.module.as_usize(), 1);
            assert_eq!(gid.index, 0);
            match target {
                InvocationTarget::AbsoluteProcedurePath { name, path } => {
                    assert_eq!(name, "h");
                    assert_eq!(path, "std::sys");
                },
                _ => panic!("expected an absolute path rewrite"),
            }
        },
        _ => panic!("expected a resolved alias"),
    }
}

#[test]
fn syscall_resolves_in_the_kernel_only() {
    let g = graph();
    let resolver = NameResolver::new(&g);
    // `h` is a kernel procedure: the syscall resolves there
    let r = resolver.resolve(&caller(2, InvokeKind::SysCall), &"h".to_string()).unwrap();
    assert_eq!(r.into_global_id().unwrap().module.as_usize(), 1);
    // `f` is not in the kernel module
    assert!(resolver.resolve(&caller(2, InvokeKind::SysCall), &"f".to_string()).is_err());
    // a syscall chased into a non-kernel module is invalid
    let err = resolver.find(&caller(2, InvokeKind::SysCall), &fqn("std::lib", "f")).unwrap_err();
    assert!(matches!(err, AssemblyError::InvalidSysCallTarget { .. }));
}

#[test]
fn recursive_alias_is_detected() {
    let looping = ModuleEntry {
        path: "a".to_string(),
        procs: Vec::new(),
        aliases: vec![("x".to_string(), fqn("b", "y"))],
        imports: Vec::new(),
    };
    let other = ModuleEntry {
        path: "b".to_string(),
        procs: Vec::new(),
        aliases: vec![("y".to_string(), fqn("a", "x"))],
        imports: Vec::new(),
    };
    let g = ModuleGraph { modules: vec![looping, other], kernel_index: None };
    let resolver = NameResolver::new(&g);
    let err = resolver.find(&caller(0, InvokeKind::Exec), &fqn("a", "x")).unwrap_err();
    assert!(matches!(err, AssemblyError::RecursiveAlias { .. }));
}

#[test]
fn resolve_target_handles_digests_and_imports() {
    let g = graph();
    let mut resolver = NameResolver::new(&g);
    // a known digest resolves exactly, an unknown one is a phantom
    let r = resolver
        .resolve_target(&caller(2, InvokeKind::Exec), &InvocationTarget::MastRoot(word(77)))
        .unwrap();
    assert_eq!(r.into_global_id().unwrap().module.as_usize(), 0);
    let r = resolver
        .resolve_target(&caller(2, InvokeKind::Exec), &InvocationTarget::MastRoot(word(5)))
        .unwrap();
    assert!(matches!(r, ResolvedTarget::Phantom(_)));
    // an import-qualified name goes through the caller's imports
    let t = InvocationTarget::ProcedurePath { name: "f".to_string(), module: "l".to_string() };
    let r = resolver.resolve_target(&caller(2, InvokeKind::Exec), &t).unwrap();
    assert_eq!(r.into_global_id().unwrap().module.as_usize(), 0);
    // an unimported identifier is an undefined module
    let t = InvocationTarget::ProcedurePath { name: "f".to_string(), module: "nope".to_string() };
    assert!(resolver.resolve_target(&caller(2, InvokeKind::Exec), &t).is_err());
    // a pending module participates in resolution
    resolver.push_pending(ModuleEntry {
        path: "exec::extra".to_string(),
        procs: vec![ProcInfo { name: "p".to_string(), mast_root: None }],
        aliases: Vec::new(),
        imports: Vec::new(),
    });
    let idx = resolver.find_module_index(&"exec::extra".to_string()).unwrap();
    assert_eq!(idx.as_usize(), 3);
}

#[test]
fn rewrite_check_reports_refinable_targets() {
    let g = graph();
    let resolver = NameResolver::new(&g);
    let check = MaybeRewriteCheck::new(&resolver);
    // nothing to rewrite in an empty module
    let empty = ModuleBody { invokes: Vec::new() };
    assert_eq!(check.check(ModuleIndex::new(0), &empty), Ok(false));
    // an alias that now resolves concretely calls for a rewrite
    let body = ModuleBody {
        invokes: vec![(
            InvokeKind::Exec,
            InvocationTarget::ProcedureName("h_alias".to_string()),
        )],
    };
    assert_eq!(check.check(ModuleIndex::new(0), &body), Ok(true));
    // an exact target does not
    let body = ModuleBody {
        invokes: vec![(InvokeKind::Exec, InvocationTarget::ProcedureName("g".to_string()))],
    };
    assert_eq!(check.check(ModuleIndex::new(0), &body), Ok(false));
}

#[test]
fn invoke_targets_are_verified_and_rewritten() {
    let analyzer = AnalysisContext::new(SourceFile {
        name: "m.masm".to_string(),
        content: String::new(),
    });
    let module = AstModule {
        is_kernel: false,
        imports: vec![Import { name: "l".to_string(), path: "std::lib".to_string(), uses: 0 }],
    };
    let mut pass = VerifyInvokeTargets::new(
        analyzer,
        module,
        vec!["entry".to_string(), "helper".to_string()],
        "entry".to_string(),
    );

    // a known local name passes silently
    let mut t = InvocationTarget::ProcedureName("helper".to_string());
    pass.visit_mut_exec(&mut t);
    assert!(!pass.analyzer.has_errors());

    // an import-qualified name is rewritten to an absolute path and
    // the import use is counted
    let mut t = InvocationTarget::ProcedurePath { name: "f".to_string(), module: "l".to_string() };
    pass.visit_mut_call(&mut t);
    assert!(matches!(t, InvocationTarget::AbsoluteProcedurePath { .. }));
    assert_eq!(pass.module.imports[0].uses, 1);

    // a self-call is recorded as recursive
    let mut t = InvocationTarget::ProcedureName("entry".to_string());
    pass.visit_mut_exec(&mut t);
    assert!(pass.analyzer.has_errors());

    // all three invocations were collected
    assert_eq!(pass.invoked.len(), 3);
}
