use shader_compose::compose::compose;
use shader_compose::defines::DefineSet;
use shader_compose::diagnostic::{render, DiagnosticKind};
use shader_compose::registry::ModuleRegistry;

fn bv(s: &str) -> Vec<u8> {
    s.as_bytes().to_vec()
}

fn defs(names: &[&str]) -> DefineSet {
    let list: Vec<Vec<u8>> = names.iter().map(|n| bv(n)).collect();
    DefineSet::from_names(&list)
}

#[test]
fn registration_failure_kind() {
    let mut reg = ModuleRegistry::new();
    let d = reg.register(bv("broken"), bv("fn ok\nnot a line"), defs(&[])).unwrap_err();
    assert_eq!(d.kind(), DiagnosticKind::RegistrationFailure);
}

#[test]
fn unresolved_import_kind() {
    let reg = ModuleRegistry::new();
    let d = compose(&reg, &bv("#import missing"), &defs(&[])).unwrap_err();
    assert_eq!(d.kind(), DiagnosticKind::UnresolvedImport);
}

#[test]
fn unresolved_import_even_with_other_errors_in_main() {
    // Import resolution runs before validation of the main source.
    let reg = ModuleRegistry::new();
    let d = compose(&reg, &bv("garbage line\n#import missing"), &defs(&[])).unwrap_err();
    assert_eq!(d.kind(), DiagnosticKind::UnresolvedImport);
}

#[test]
fn self_import_cycle_kind() {
    let mut reg = ModuleRegistry::new();
    reg.register(bv("selfish"), bv("#import selfish\nfn a"), defs(&[])).unwrap();
    let d = compose(&reg, &bv("#import selfish"), &defs(&[])).unwrap_err();
    assert_eq!(d.kind(), DiagnosticKind::ImportCycle);
}

#[test]
fn mutual_import_cycle_kind() {
    let mut reg = ModuleRegistry::new();
    reg.register(bv("ping"), bv("#import pong\nfn ping_decl"), defs(&[])).unwrap();
    reg.register(bv("pong"), bv("#import ping\nfn pong_decl"), defs(&[])).unwrap();
    let d = compose(&reg, &bv("#import ping"), &defs(&[])).unwrap_err();
    assert_eq!(d.kind(), DiagnosticKind::ImportCycle);
}

#[test]
fn duplicate_symbol_kind() {
    let mut reg = ModuleRegistry::new();
    reg.register(bv("first"), bv("fn foo"), defs(&[])).unwrap();
    reg.register(bv("second"), bv("fn foo"), defs(&[])).unwrap();
    let d = compose(&reg, &bv("#import first\n#import second"), &defs(&[])).unwrap_err();
    assert_eq!(d.kind(), DiagnosticKind::DuplicateSymbol);
}

#[test]
fn duplicate_between_module_and_main() {
    let mut reg = ModuleRegistry::new();
    reg.register(bv("util"), bv("fn shared"), defs(&[])).unwrap();
    let d = compose(&reg, &bv("#import util\nfn shared"), &defs(&[])).unwrap_err();
    assert_eq!(d.kind(), DiagnosticKind::DuplicateSymbol);
}

#[test]
fn invalid_main_source_fails_validation() {
    let reg = ModuleRegistry::new();
    let d = compose(&reg, &bv("fn ok\nwhat is this"), &defs(&[])).unwrap_err();
    assert_eq!(d.kind(), DiagnosticKind::ValidationFailed);
}

#[test]
fn dangling_reference_fails_validation() {
    let reg = ModuleRegistry::new();
    let d = compose(&reg, &bv("fn entry @missing_ref"), &defs(&[])).unwrap_err();
    assert_eq!(d.kind(), DiagnosticKind::ValidationFailed);
    assert_eq!(d.frame_count(), 1);
}

#[test]
fn dangling_reference_inside_module_chains_cause() {
    let mut reg = ModuleRegistry::new();
    // The reference resolves only under EXTRA, which the module was not
    // registered with; the failure originates inside the imported module.
    reg.register(
        bv("shaky"),
        bv("#ifdef EXTRA\nfn target\n#endif\nfn user @target"),
        defs(&[]),
    )
    .unwrap();
    let d = compose(&reg, &bv("#import shaky"), &defs(&[])).unwrap_err();
    assert_eq!(d.kind(), DiagnosticKind::ValidationFailed);
    assert_eq!(d.frame_count(), 2);
}

#[test]
fn failed_composition_leaves_registry_usable() {
    let mut reg = ModuleRegistry::new();
    reg.register(bv("util"), bv("fn helper"), defs(&[])).unwrap();
    let bad = compose(&reg, &bv("#import nowhere"), &defs(&[]));
    assert!(bad.is_err());
    let good = compose(&reg, &bv("#import util"), &defs(&[])).unwrap();
    assert!(good.contains_decl(&bv("helper")));
}

#[test]
fn render_unresolved_import_text() {
    let reg = ModuleRegistry::new();
    let d = compose(&reg, &bv("#import util"), &defs(&[])).unwrap_err();
    let text = render(&d, &reg);
    // Label, the importer (the main source renders as the empty name), the
    // missing module, the detail, one line per frame.
    assert_eq!(text, bv("unresolved import  util util\n"));
}

#[test]
fn render_registration_failure_includes_excerpt() {
    let mut reg = ModuleRegistry::new();
    let d = reg.register(bv("broken"), bv("fn ok\nbad line here"), defs(&[])).unwrap_err();
    let text = render(&d, &reg);
    // The span names line 1 of the failing source, but the module was not
    // inserted, so the excerpt degrades to nothing.
    assert_eq!(text, bv("registration failure broken\n"));
}

#[test]
fn render_duplicate_symbol_with_excerpt() {
    let mut reg = ModuleRegistry::new();
    reg.register(bv("first"), bv("fn foo"), defs(&[])).unwrap();
    reg.register(bv("second"), bv("fn foo"), defs(&[])).unwrap();
    let d = compose(&reg, &bv("#import first\n#import second"), &defs(&[])).unwrap_err();
    let text = render(&d, &reg);
    // Both implicated modules, the symbol, and the second module's
    // offending source line.
    assert_eq!(text, bv("duplicate symbol first second foo\nfn foo\n"));
}

#[test]
fn render_never_fails_on_spanless_frames() {
    let mut reg = ModuleRegistry::new();
    reg.register(bv("selfish"), bv("#import selfish"), defs(&[])).unwrap();
    let d = compose(&reg, &bv("#import selfish"), &defs(&[])).unwrap_err();
    let text = render(&d, &reg);
    assert_eq!(text, bv("import cycle selfish selfish selfish\n"));
}
