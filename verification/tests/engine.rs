use shader_compose::compose::{compose, CompositionRequest};
use shader_compose::defines::DefineSet;
use shader_compose::registry::ModuleRegistry;

fn bv(s: &str) -> Vec<u8> {
    s.as_bytes().to_vec()
}

fn defs(names: &[&str]) -> DefineSet {
    let list: Vec<Vec<u8>> = names.iter().map(|n| bv(n)).collect();
    DefineSet::from_names(&list)
}

#[test]
fn register_valid_then_contains() {
    let mut reg = ModuleRegistry::new();
    assert!(!reg.contains(&bv("colormap")));
    let r = reg.register(bv("colormap"), bv("fn base_color"), defs(&[]));
    assert!(r.is_ok());
    assert!(reg.contains(&bv("colormap")));
    assert_eq!(reg.module_count(), 1);
}

#[test]
fn register_invalid_then_not_contains() {
    let mut reg = ModuleRegistry::new();
    let r = reg.register(bv("broken"), bv("what is this line"), defs(&[]));
    assert!(r.is_err());
    assert!(!reg.contains(&bv("broken")));
    // A later registration under the same name can retry and succeed.
    let r2 = reg.register(bv("broken"), bv("fn fixed"), defs(&[]));
    assert!(r2.is_ok());
    assert!(reg.contains(&bv("broken")));
}

#[test]
fn register_unbalanced_conditional_rejected() {
    let mut reg = ModuleRegistry::new();
    let r = reg.register(bv("open_block"), bv("#ifdef X\nfn a"), defs(&[]));
    assert!(r.is_err());
    assert!(!reg.contains(&bv("open_block")));
    let r2 = reg.register(bv("stray"), bv("fn a\n#endif"), defs(&[]));
    assert!(r2.is_err());
}

#[test]
fn register_is_idempotent_first_wins() {
    let mut reg = ModuleRegistry::new();
    reg.register(bv("util"), bv("fn first_decl"), defs(&[])).unwrap();
    // Same name, different source: a no-op reporting success.
    let r = reg.register(bv("util"), bv("fn second_decl"), defs(&[])).is_ok();
    assert!(r);
    assert_eq!(reg.module_count(), 1);
    let art = compose(&reg, &bv("#import util"), &defs(&[])).unwrap();
    assert!(art.contains_decl(&bv("first_decl")));
    assert!(!art.contains_decl(&bv("second_decl")));
}

#[test]
fn compose_is_deterministic() {
    let mut reg = ModuleRegistry::new();
    reg.register(bv("util"), bv("fn helper\nfn helper_b"), defs(&[])).unwrap();
    let main = bv("#import util\nfn entry @helper");
    let a = compose(&reg, &main, &defs(&[])).unwrap();
    let b = compose(&reg, &main, &defs(&[])).unwrap();
    assert_eq!(a.decl_count(), b.decl_count());
    for i in 0..a.decl_count() {
        assert_eq!(a.decl_name(i), b.decl_name(i));
        assert_eq!(a.decl_text(i), b.decl_text(i));
        assert_eq!(a.decl_module(i), b.decl_module(i));
    }
}

#[test]
fn conditional_declaration_included_iff_active() {
    let reg = ModuleRegistry::new();
    let main = bv("#ifdef X\nfn guarded\n#endif");
    let with = compose(&reg, &main, &defs(&["X"])).unwrap();
    assert!(with.contains_decl(&bv("guarded")));
    assert_eq!(with.decl_count(), 1);
    let without = compose(&reg, &main, &defs(&[])).unwrap();
    assert!(!without.contains_decl(&bv("guarded")));
    assert_eq!(without.decl_count(), 0);
    // An unrelated activated symbol is inert.
    let inert = compose(&reg, &main, &defs(&["OTHER"])).unwrap();
    assert_eq!(inert.decl_count(), 0);
}

#[test]
fn nested_conditionals_require_all_symbols() {
    let reg = ModuleRegistry::new();
    let main = bv("#ifdef A\n#ifdef B\nfn both\n#endif\nfn only_a\n#endif");
    let ab = compose(&reg, &main, &defs(&["A", "B"])).unwrap();
    assert!(ab.contains_decl(&bv("both")));
    assert!(ab.contains_decl(&bv("only_a")));
    let a_only = compose(&reg, &main, &defs(&["A"])).unwrap();
    assert!(!a_only.contains_decl(&bv("both")));
    assert!(a_only.contains_decl(&bv("only_a")));
}

#[test]
fn modules_use_registration_defines_not_request_defines() {
    let mut reg = ModuleRegistry::new();
    // Registered without the symbol: its guarded declaration never appears,
    // whatever the request activates.
    reg.register(bv("plain"), bv("#ifdef EXTRA\nfn extra_decl\n#endif\nfn plain_decl"), defs(&[]))
        .unwrap();
    let art = compose(&reg, &bv("#import plain"), &defs(&["EXTRA"])).unwrap();
    assert!(art.contains_decl(&bv("plain_decl")));
    assert!(!art.contains_decl(&bv("extra_decl")));
}

#[test]
fn transitive_imports_resolve() {
    let mut reg = ModuleRegistry::new();
    reg.register(bv("base"), bv("fn base_decl"), defs(&[])).unwrap();
    reg.register(bv("mid"), bv("#import base\nfn mid_decl @base_decl"), defs(&[])).unwrap();
    let art = compose(&reg, &bv("#import mid\nfn top_decl @mid_decl"), &defs(&[])).unwrap();
    assert!(art.contains_decl(&bv("base_decl")));
    assert!(art.contains_decl(&bv("mid_decl")));
    assert!(art.contains_decl(&bv("top_decl")));
    assert_eq!(art.decl_count(), 3);
}

#[test]
fn diamond_import_merges_each_module_once() {
    let mut reg = ModuleRegistry::new();
    reg.register(bv("base"), bv("fn base_decl"), defs(&[])).unwrap();
    reg.register(bv("left"), bv("#import base\nfn left_decl"), defs(&[])).unwrap();
    reg.register(bv("right"), bv("#import base\nfn right_decl"), defs(&[])).unwrap();
    let art = compose(&reg, &bv("#import left\n#import right"), &defs(&[])).unwrap();
    assert_eq!(art.decl_count(), 3);
}

#[test]
fn artifact_order_is_resolution_order_then_main() {
    let mut reg = ModuleRegistry::new();
    reg.register(bv("one"), bv("fn one_decl"), defs(&[])).unwrap();
    reg.register(bv("two"), bv("fn two_decl"), defs(&[])).unwrap();
    let art = compose(&reg, &bv("#import two\n#import one\nfn main_decl"), &defs(&[])).unwrap();
    assert_eq!(art.decl_count(), 3);
    assert_eq!(art.decl_name(0), &bv("two_decl"));
    assert_eq!(art.decl_module(0), &bv("two"));
    assert_eq!(art.decl_name(1), &bv("one_decl"));
    assert_eq!(art.decl_name(2), &bv("main_decl"));
    assert_eq!(art.decl_module(2), &bv(""));
}

#[test]
fn composition_scenario_with_activated_module_defines() {
    let mut reg = ModuleRegistry::new();
    let src_a = bv("#ifdef USE_ALPHA\nfn alpha_color\n#endif\nfn base_color");
    let src_b = bv("fn normal_vector");
    reg.register(bv("colormap"), src_a, defs(&["USE_ALPHA"])).unwrap();
    reg.register(bv("normalmap"), src_b, defs(&[])).unwrap();
    let main = bv("#import colormap\n#import normalmap\nfn shade @alpha_color @normal_vector");
    let art = compose(&reg, &main, &defs(&["USE_ALPHA"])).unwrap();
    assert!(art.contains_decl(&bv("alpha_color")));
    assert!(art.contains_decl(&bv("base_color")));
    assert!(art.contains_decl(&bv("normal_vector")));
    assert!(art.contains_decl(&bv("shade")));
    assert_eq!(art.decl_count(), 4);
}

#[test]
fn blank_lines_and_comments_are_ignored() {
    let reg = ModuleRegistry::new();
    let main = bv("// a comment\n\nfn entry\n");
    let art = compose(&reg, &main, &defs(&[])).unwrap();
    assert_eq!(art.decl_count(), 1);
    assert!(art.contains_decl(&bv("entry")));
}

#[test]
fn normalize_activates_exactly_the_activated_subset() {
    let declared = vec![bv("A"), bv("B")];
    let activated = vec![bv("B"), bv("C")];
    let d = DefineSet::normalize(&declared, &activated);
    assert!(!d.is_active(&bv("A")));
    assert!(d.is_active(&bv("B")));
    assert!(d.is_active(&bv("C")));
    assert!(!d.is_active(&bv("D")));
}

#[test]
fn define_set_activation() {
    let mut d = DefineSet::new();
    assert!(!d.is_active(&bv("X")));
    d.activate(bv("X"));
    assert!(d.is_active(&bv("X")));
    assert!(!d.is_active(&bv("Y")));
}

#[test]
fn composition_request_runs_like_compose() {
    let mut reg = ModuleRegistry::new();
    reg.register(bv("util"), bv("fn helper"), defs(&[])).unwrap();
    let req = CompositionRequest::new(bv("#import util\nfn entry"), defs(&[]));
    let art = req.run(&reg).unwrap();
    assert!(art.contains_decl(&bv("helper")));
    assert!(art.contains_decl(&bv("entry")));
}
