use melior::dialect::DialectRegistry;
use melior::utility::{
    register_all_dialects, register_all_llvm_translations, register_all_passes, register_cse,
    register_print_operation_stats, PassRegistry,
};
use melior::Context;

#[test]
fn register_dialects() {
    let mut registry = DialectRegistry::new();

    register_all_dialects(&mut registry);
}

#[test]
fn register_dialects_twice() {
    let mut registry = DialectRegistry::new();

    register_all_dialects(&mut registry);
    register_all_dialects(&mut registry);

    let mut context = Context::new();
    context.append_dialect_registry(&registry);
    assert!(context.get_or_load_dialect("arith"));
    assert!(!context.get_or_load_dialect("unknown"));
}

#[test]
fn register_llvm_translations() {
    let mut context = Context::new();

    register_all_llvm_translations(&mut context);
}

#[test]
fn register_llvm_translations_twice() {
    let mut context = Context::new();

    register_all_llvm_translations(&mut context);
    register_all_llvm_translations(&mut context);
}

#[test]
fn register_passes() {
    let mut registry = PassRegistry::new();
    register_all_passes(&mut registry);

    assert!(registry.contains("cse"));
}

#[test]
fn register_passes_twice() {
    let mut registry = PassRegistry::new();
    register_all_passes(&mut registry);
    register_all_passes(&mut registry);

    assert!(registry.contains("canonicalize"));
}

#[test]
fn register_passes_many_times() {
    let mut registry = PassRegistry::new();
    for _ in 0..1000 {
        register_all_passes(&mut registry);
    }

    assert!(registry.contains("inline"));
}

#[test]
fn register_single_passes() {
    let mut registry = PassRegistry::new();
    assert!(!registry.contains("cse"));

    register_cse(&mut registry);
    register_print_operation_stats(&mut registry);

    assert!(registry.contains("cse"));
    assert!(registry.contains("print-op-stats"));
    assert!(!registry.contains("inline"));
}

#[test]
fn builtin_dialect_always_loaded() {
    let mut context = Context::new();

    assert!(context.get_or_load_dialect("builtin"));
    assert!(!context.get_or_load_dialect("func"));
}
