//! The engine's laws: properties that relate several operations, stated
//! over the same spec functions that the operations' own contracts use.

use crate::compose::{
    compose_spec, cycle_frames, decl_names, main_name, merged_from, resolve_from, resolve_ok,
    tag_decls_from, unresolved_frames, MergedDeclV,
};
use crate::diagnostic::{DiagFrameV, DiagnosticKind};
use crate::lines::{
    classify_spec, init_unit, nl, parse_unit_spec, unit_from, unit_step, DeclV, LineV,
};
use crate::registry::{
    lemma_module_index_none, module_at, module_index_from, reg_contains, register_spec, ModuleV,
};
use crate::text::{
    first_index_from, lemma_first_index_none, lemma_first_index_some, split_bytes,
};
use vstd::prelude::*;

verus! {

proof fn lemma_module_index_push(r: Seq<ModuleV>, m: ModuleV, name: Seq<u8>, j: int)
    requires
        0 <= j <= r.len(),
        forall|k: int| j <= k < r.len() ==> r[k].name != name,
        m.name == name,
    ensures
        module_index_from(r.push(m), name, j) == Some(r.len() as int),
    decreases r.len() - j,
{
    let r2 = r.push(m);
    if j == r.len() {
        assert(r2[j] == m);
    } else {
        assert(r2[j] == r[j]);
        lemma_module_index_push(r, m, name, j + 1);
    }
}

/// Registering an unregistered name makes `contains` true exactly when the
/// source is structurally valid against the given defines.
pub proof fn lemma_register_then_contains(
    r: Seq<ModuleV>,
    name: Seq<u8>,
    source: Seq<u8>,
    defines: Seq<Seq<u8>>,
)
    requires
        !reg_contains(r, name),
    ensures
        reg_contains(register_spec(r, name, source, defines).0, name) <==> parse_unit_spec(
            source,
            defines,
        ).ok,
{
    if parse_unit_spec(source, defines).ok {
        let u = parse_unit_spec(source, defines);
        let m = ModuleV { name, source, defines, imports: u.imports, decls: u.decls };
        lemma_module_index_none(r, name, 0);
        lemma_module_index_push(r, m, name, 0);
    }
}

/// Registration is idempotent: once a name is registered, a second call
/// under the same name — even with a different source or defines — leaves
/// the registry unchanged and reports success.
pub proof fn lemma_register_idempotent(
    r: Seq<ModuleV>,
    name: Seq<u8>,
    source: Seq<u8>,
    defines: Seq<Seq<u8>>,
    source2: Seq<u8>,
    defines2: Seq<Seq<u8>>,
)
    requires
        parse_unit_spec(source, defines).ok || reg_contains(r, name),
    ensures
        register_spec(register_spec(r, name, source, defines).0, name, source2, defines2).0
            == register_spec(r, name, source, defines).0,
        register_spec(register_spec(r, name, source, defines).0, name, source2, defines2).1
            == Ok::<(), Seq<DiagFrameV>>(()),
{
    if !reg_contains(r, name) {
        let u = parse_unit_spec(source, defines);
        let m = ModuleV { name, source, defines, imports: u.imports, decls: u.decls };
        lemma_module_index_none(r, name, 0);
        lemma_module_index_push(r, m, name, 0);
    }
}

/// Composition is deterministic: two outcomes of the same main source and
/// defines against the same registry state are the same outcome.
pub proof fn lemma_compose_deterministic(
    r: Seq<ModuleV>,
    main: Seq<u8>,
    defs: Seq<Seq<u8>>,
    a: Result<Seq<MergedDeclV>, Seq<DiagFrameV>>,
    b: Result<Seq<MergedDeclV>, Seq<DiagFrameV>>,
)
    requires
        a == compose_spec(r, main, defs),
        b == compose_spec(r, main, defs),
    ensures
        a == b,
{
}

/// An import of an unregistered name fails as an unresolved import, never
/// as another kind: when the first import of the main source is
/// unregistered, the outcome is exactly the unresolved-import diagnostic
/// naming that import.
pub proof fn lemma_unresolved_import(r: Seq<ModuleV>, main: Seq<u8>, defs: Seq<Seq<u8>>)
    requires
        parse_unit_spec(main, defs).imports.len() > 0,
        !reg_contains(r, parse_unit_spec(main, defs).imports[0].name),
    ensures
        compose_spec(r, main, defs) == Err::<Seq<MergedDeclV>, Seq<DiagFrameV>>(
            unresolved_frames(main_name(), parse_unit_spec(main, defs).imports[0]),
        ),
        unresolved_frames(main_name(), parse_unit_spec(main, defs).imports[0])[0].kind
            == DiagnosticKind::UnresolvedImport,
{
    let mu = parse_unit_spec(main, defs);
    let p0 = Seq::<Seq<u8>>::empty();
    let a0 = Seq::<Seq<u8>>::empty();
    assert(resolve_ok(r, p0));
    assert(resolve_from(r, mu.imports, 0, main_name(), p0, a0) == Err::<
        Seq<Seq<u8>>,
        Seq<DiagFrameV>,
    >(unresolved_frames(main_name(), mu.imports[0])));
}

/// A registered self- or mutually-importing pair fails as an import cycle
/// before any validation runs: `a`'s first import names `b`, `b`'s first
/// import names `a` (take `a == b` for a self-import), and the main
/// source's first import names `a`.  Nothing is assumed about the main
/// source's validity.
pub proof fn lemma_import_cycle(
    r: Seq<ModuleV>,
    main: Seq<u8>,
    defs: Seq<Seq<u8>>,
    a: Seq<u8>,
    b: Seq<u8>,
)
    requires
        reg_contains(r, a),
        reg_contains(r, b),
        module_at(r, a).imports.len() > 0,
        module_at(r, a).imports[0].name == b,
        module_at(r, b).imports.len() > 0,
        module_at(r, b).imports[0].name == a,
        parse_unit_spec(main, defs).imports.len() > 0,
        parse_unit_spec(main, defs).imports[0].name == a,
    ensures
        compose_spec(r, main, defs) matches Err(d) && d.len() >= 1 && d[0].kind
            == DiagnosticKind::ImportCycle,
{
    let mu = parse_unit_spec(main, defs);
    let p0 = Seq::<Seq<u8>>::empty();
    let a0 = Seq::<Seq<u8>>::empty();
    assert(resolve_ok(r, p0));
    assert(!p0.contains(a));
    assert(!a0.contains(a));
    crate::compose::lemma_resolve_ok_push(r, p0, a);
    let p1 = p0.push(a);
    let a1 = a0.push(a);
    let ma = module_at(r, a);
    if a == b {
        assert(p1[0] == a);
        assert(p1.contains(a));
        assert(resolve_from(r, ma.imports, 0, a, p1, a1) == Err::<Seq<Seq<u8>>, Seq<DiagFrameV>>(
            cycle_frames(p1, a),
        ));
        assert(resolve_from(r, mu.imports, 0, main_name(), p0, a0) == Err::<
            Seq<Seq<u8>>,
            Seq<DiagFrameV>,
        >(cycle_frames(p1, a)));
    } else {
        assert(forall|k: int| 0 <= k < p1.len() ==> p1[k] == a);
        assert(!p1.contains(b));
        assert(!a1.contains(b));
        crate::compose::lemma_resolve_ok_push(r, p1, b);
        let p2 = p1.push(b);
        let a2 = a1.push(b);
        let mb = module_at(r, b);
        assert(p2[0] == a);
        assert(p2.contains(a));
        assert(resolve_from(r, mb.imports, 0, b, p2, a2) == Err::<Seq<Seq<u8>>, Seq<DiagFrameV>>(
            cycle_frames(p2, a),
        ));
        assert(resolve_from(r, ma.imports, 0, a, p1, a1) == Err::<Seq<Seq<u8>>, Seq<DiagFrameV>>(
            cycle_frames(p2, a),
        ));
        assert(resolve_from(r, mu.imports, 0, main_name(), p0, a0) == Err::<
            Seq<Seq<u8>>,
            Seq<DiagFrameV>,
        >(cycle_frames(p2, a)));
    }
}

/// Conditional compilation, on a main source of exactly one declaration
/// guarded by one `#ifdef` block: with the symbol activated the guarded
/// declaration appears in the artifact's namespace; with it absent the
/// artifact is empty.
pub proof fn lemma_conditional_inclusion(
    r: Seq<ModuleV>,
    main: Seq<u8>,
    defs: Seq<Seq<u8>>,
    x: Seq<u8>,
    dname: Seq<u8>,
)
    requires
        split_bytes(main, nl()).len() == 3,
        classify_spec(split_bytes(main, nl())[0]) == (LineV::Ifdef { sym: x }),
        classify_spec(split_bytes(main, nl())[1]) == (LineV::Decl {
            name: dname,
            refs: Seq::empty(),
        }),
        classify_spec(split_bytes(main, nl())[2]) == LineV::Endif,
    ensures
        defs.contains(x) ==> (compose_spec(r, main, defs) matches Ok(m) && decl_names(m).contains(
            dname,
        )),
        !defs.contains(x) ==> (compose_spec(r, main, defs) matches Ok(m) && m.len() == 0),
{
    let ls = split_bytes(main, nl());
    let st0 = init_unit();
    let st1 = unit_step(st0, ls[0], 0, defs);
    let st2 = unit_step(st1, ls[1], 1, defs);
    let st3 = unit_step(st2, ls[2], 2, defs);
    assert(unit_from(ls, defs, 0, st0) == unit_from(ls, defs, 1, st1));
    assert(unit_from(ls, defs, 1, st1) == unit_from(ls, defs, 2, st2));
    assert(unit_from(ls, defs, 2, st2) == unit_from(ls, defs, 3, st3));
    assert(unit_from(ls, defs, 3, st3) == st3);
    let active = defs.contains(x);
    assert(st1.stack =~= seq![active]);
    if active {
        assert(st1.stack[0]);
        assert(crate::lines::all_true(st1.stack));
        assert(st2.decls =~= seq![
            DeclV { name: dname, refs: Seq::empty(), text: ls[1], line: 1 },
        ]);
    } else {
        assert(!st1.stack[0]);
        assert(!crate::lines::all_true(st1.stack));
        assert(st2.decls =~= Seq::<DeclV>::empty());
    }
    assert(st3.stack =~= Seq::<bool>::empty());
    let mu = parse_unit_spec(main, defs);
    assert(mu == st3);
    assert(mu.ok);
    assert(mu.imports =~= Seq::<crate::lines::ImportV>::empty());
    let p0 = Seq::<Seq<u8>>::empty();
    let a0 = Seq::<Seq<u8>>::empty();
    assert(resolve_ok(r, p0));
    assert(resolve_from(r, mu.imports, 0, main_name(), p0, a0) == Ok::<
        Seq<Seq<u8>>,
        Seq<DiagFrameV>,
    >(a0));
    assert(merged_from(r, a0, 0, Seq::<MergedDeclV>::empty()) == Seq::<MergedDeclV>::empty());
    let merged = tag_decls_from(main_name(), mu.decls, 0, Seq::<MergedDeclV>::empty());
    if active {
        let md = MergedDeclV { module: main_name(), decl: mu.decls[0] };
        lemma_tag_shape(main_name(), mu.decls, 0, Seq::<MergedDeclV>::empty());
        assert(merged[0] == md);
        assert(merged =~= seq![md]);
        let names = decl_names(merged);
        assert(names[0] == dname);
        assert(first_index_from(names, names[0], 0) == Some(0int));
        assert(crate::compose::conflict_from(names, 0) == crate::compose::conflict_from(
            names,
            1,
        ));
        assert(crate::compose::conflict_from(names, 1) is None);
        assert(md.decl.refs.len() == 0);
        assert(crate::compose::dangling_from(merged, 0, 0) == crate::compose::dangling_from(
            merged,
            1,
            0,
        ));
        assert(crate::compose::dangling_from(merged, 1, 0) is None);
        assert(compose_spec(r, main, defs) == Ok::<Seq<MergedDeclV>, Seq<DiagFrameV>>(merged));
        assert(decl_names(merged).contains(dname));
    } else {
        assert(merged =~= Seq::<MergedDeclV>::empty());
        let names = decl_names(merged);
        assert(crate::compose::conflict_from(names, 0) is None);
        assert(crate::compose::dangling_from(merged, 0, 0) is None);
        assert(compose_spec(r, main, defs) == Ok::<Seq<MergedDeclV>, Seq<DiagFrameV>>(merged));
    }
}


/// The other face of the unresolved-import law: whenever composition fails
/// with an unresolved import, the module the diagnostic details is indeed
/// not registered — no registered import is ever reported unresolved.
pub proof fn lemma_unresolved_is_unregistered(
    r: Seq<ModuleV>,
    imps: Seq<crate::lines::ImportV>,
    pos: int,
    importer: Seq<u8>,
    path: Seq<Seq<u8>>,
    acc: Seq<Seq<u8>>,
)
    requires
        resolve_ok(r, path),
        0 <= pos,
        resolve_from(r, imps, pos, importer, path, acc) matches Err(fr) && fr.len() >= 1 && fr[
            0
        ].kind == DiagnosticKind::UnresolvedImport,
    ensures
        resolve_from(r, imps, pos, importer, path, acc) matches Err(fr) && fr.len() >= 1
            && !reg_contains(r, fr[0].detail),
    decreases r.len() - path.len(), imps.len() - pos,
{
    crate::compose::lemma_path_bound(r, path);
    if pos >= imps.len() {
    } else {
        let n = imps[pos].name;
        if !reg_contains(r, n) {
        } else if path.contains(n) {
        } else if acc.contains(n) {
            lemma_unresolved_is_unregistered(r, imps, pos + 1, importer, path, acc);
        } else {
            crate::compose::lemma_resolve_ok_push(r, path, n);
            crate::compose::lemma_path_bound(r, path.push(n));
            let inner = resolve_from(
                r,
                module_at(r, n).imports,
                0,
                n,
                path.push(n),
                acc.push(n),
            );
            match inner {
                Err(_) => {
                    lemma_unresolved_is_unregistered(
                        r,
                        module_at(r, n).imports,
                        0,
                        n,
                        path.push(n),
                        acc.push(n),
                    );
                },
                Ok(acc2) => {
                    lemma_unresolved_is_unregistered(r, imps, pos + 1, importer, path, acc2);
                },
            }
        }
    }
}

/// At the composition level: a diagnostic of the unresolved-import kind
/// always details an unregistered module name.
pub proof fn lemma_compose_unresolved_is_unregistered(
    r: Seq<ModuleV>,
    main: Seq<u8>,
    defs: Seq<Seq<u8>>,
)
    requires
        compose_spec(r, main, defs) matches Err(d) && d.len() >= 1 && d[0].kind
            == DiagnosticKind::UnresolvedImport,
    ensures
        compose_spec(r, main, defs) matches Err(d) && d.len() >= 1 && !reg_contains(
            r,
            d[0].detail,
        ),
{
    let mu = parse_unit_spec(main, defs);
    let p0 = Seq::<Seq<u8>>::empty();
    let a0 = Seq::<Seq<u8>>::empty();
    assert(resolve_ok(r, p0));
    match resolve_from(r, mu.imports, 0, main_name(), p0, a0) {
        Err(fr) => {
            lemma_unresolved_is_unregistered(r, mu.imports, 0, main_name(), p0, a0);
        },
        Ok(order) => {
            // Every failure after resolution carries another kind.
            let merged = tag_decls_from(
                main_name(),
                mu.decls,
                0,
                merged_from(r, order, 0, Seq::<MergedDeclV>::empty()),
            );
            match crate::compose::conflict_from(decl_names(merged), 0) {
                Some(p) => {},
                None => {
                    if mu.ok {
                        match crate::compose::dangling_from(merged, 0, 0) {
                            Some(p) => {},
                            None => {},
                        }
                    }
                },
            }
        },
    }
}

proof fn lemma_tag_shape(module: Seq<u8>, decls: Seq<DeclV>, j: int, acc: Seq<MergedDeclV>)
    requires
        0 <= j <= decls.len(),
    ensures
        tag_decls_from(module, decls, j, acc).len() == acc.len() + decls.len() - j,
        forall|k: int|
            0 <= k < acc.len() ==> tag_decls_from(module, decls, j, acc)[k] == acc[k],
        forall|u: int|
            j <= u < decls.len() ==> tag_decls_from(module, decls, j, acc)[acc.len() + u - j]
                == (MergedDeclV { module, decl: decls[u] }),
    decreases decls.len() - j,
{
    let t = tag_decls_from(module, decls, j, acc);
    if j == decls.len() {
    } else {
        let acc2 = acc.push(MergedDeclV { module, decl: decls[j] });
        lemma_tag_shape(module, decls, j + 1, acc2);
        let t2 = tag_decls_from(module, decls, j + 1, acc2);
        assert(t == t2);
        assert forall|k: int| 0 <= k < acc.len() implies t[k] == acc[k] by {
            assert(t2[k] == acc2[k]);
        }
        assert forall|u: int|
            j <= u < decls.len() implies t[acc.len() + u - j] == (MergedDeclV {
                module,
                decl: decls[u],
            }) by {
            if u == j {
                assert(t2[acc2.len() - 1] == acc2[acc2.len() - 1]);
            } else {
                assert(t2[acc2.len() + u - (j + 1)] == (MergedDeclV {
                    module,
                    decl: decls[u],
                }));
            }
        }
    }
}

proof fn lemma_conflict_none_distinct(names: Seq<Seq<u8>>, s: int)
    requires
        0 <= s,
        crate::compose::conflict_from(names, s) is None,
    ensures
        forall|i: int, j: int|
            0 <= i < j < names.len() && s <= j ==> names[i] != names[j],
    decreases names.len() - s,
{
    if s >= names.len() {
    } else {
        match first_index_from(names, names[s], 0) {
            Some(j0) => {
                lemma_first_index_some(names, names[s], 0, j0);
                assert(j0 <= s) by {
                    if j0 > s {
                        assert(names[s] != names[s]);
                    }
                }
                assert(j0 == s);
                lemma_conflict_none_distinct(names, s + 1);
                assert forall|i: int, j: int|
                    0 <= i < j < names.len() && s <= j implies names[i] != names[j] by {
                    if j == s {
                        assert(names[i] != names[s]);
                    }
                }
            },
            None => {
                lemma_first_index_none(names, names[s], 0);
                assert(names[s] != names[s]);
            },
        }
    }
}

/// Two registered modules that both declare the same top-level symbol and
/// are both imported by the main source yield a duplicate-symbol failure,
/// before any validation of the main source runs.
pub proof fn lemma_duplicate_symbol(
    r: Seq<ModuleV>,
    main: Seq<u8>,
    defs: Seq<Seq<u8>>,
    n1: Seq<u8>,
    n2: Seq<u8>,
    f: Seq<u8>,
    i1: int,
    i2: int,
)
    requires
        reg_contains(r, n1),
        reg_contains(r, n2),
        n1 != n2,
        module_at(r, n1).imports.len() == 0,
        module_at(r, n2).imports.len() == 0,
        0 <= i1 < module_at(r, n1).decls.len(),
        module_at(r, n1).decls[i1].name == f,
        0 <= i2 < module_at(r, n2).decls.len(),
        module_at(r, n2).decls[i2].name == f,
        parse_unit_spec(main, defs).imports.len() == 2,
        parse_unit_spec(main, defs).imports[0].name == n1,
        parse_unit_spec(main, defs).imports[1].name == n2,
    ensures
        compose_spec(r, main, defs) matches Err(d) && d.len() >= 1 && d[0].kind
            == DiagnosticKind::DuplicateSymbol,
{
    let mu = parse_unit_spec(main, defs);
    let p0 = Seq::<Seq<u8>>::empty();
    let a0 = Seq::<Seq<u8>>::empty();
    let m1 = module_at(r, n1);
    let m2 = module_at(r, n2);
    // Resolve: both modules import nothing, so the walk succeeds.
    assert(resolve_ok(r, p0));
    assert(!p0.contains(n1));
    assert(!a0.contains(n1));
    crate::compose::lemma_resolve_ok_push(r, p0, n1);
    let a1 = a0.push(n1);
    assert(resolve_from(r, m1.imports, 0, n1, p0.push(n1), a1) == Ok::<
        Seq<Seq<u8>>,
        Seq<DiagFrameV>,
    >(a1));
    assert(forall|k: int| 0 <= k < a1.len() ==> a1[k] == n1);
    assert(!p0.contains(n2));
    assert(!a1.contains(n2));
    crate::compose::lemma_resolve_ok_push(r, p0, n2);
    let a2 = a1.push(n2);
    assert(resolve_from(r, m2.imports, 0, n2, p0.push(n2), a2) == Ok::<
        Seq<Seq<u8>>,
        Seq<DiagFrameV>,
    >(a2));
    assert(resolve_from(r, mu.imports, 2, main_name(), p0, a2) == Ok::<
        Seq<Seq<u8>>,
        Seq<DiagFrameV>,
    >(a2));
    assert(resolve_from(r, mu.imports, 1, main_name(), p0, a1) == Ok::<
        Seq<Seq<u8>>,
        Seq<DiagFrameV>,
    >(a2));
    assert(resolve_from(r, mu.imports, 0, main_name(), p0, a0) == Ok::<
        Seq<Seq<u8>>,
        Seq<DiagFrameV>,
    >(a2));
    // Merge: first m1's declarations, then m2's, then the main source's.
    let e: Seq<MergedDeclV> = Seq::empty();
    let t1 = tag_decls_from(n1, m1.decls, 0, e);
    let t2 = tag_decls_from(n2, m2.decls, 0, t1);
    assert(a2[0] == n1 && a2[1] == n2);
    assert(merged_from(r, a2, 0, e) == merged_from(r, a2, 1, t1));
    assert(merged_from(r, a2, 1, t1) == merged_from(r, a2, 2, t2));
    assert(merged_from(r, a2, 2, t2) == t2);
    let merged = tag_decls_from(main_name(), mu.decls, 0, t2);
    lemma_tag_shape(n1, m1.decls, 0, e);
    lemma_tag_shape(n2, m2.decls, 0, t1);
    lemma_tag_shape(main_name(), mu.decls, 0, t2);
    let q1 = i1;
    let q2 = t1.len() + i2;
    assert(t1[q1] == (MergedDeclV { module: n1, decl: m1.decls[i1] }));
    assert(t2[q1] == t1[q1]);
    assert(merged[q1] == t2[q1]);
    assert(t2[q2] == (MergedDeclV { module: n2, decl: m2.decls[i2] }));
    assert(merged[q2] == t2[q2]);
    assert(q1 < t1.len());
    assert(q1 < q2 < merged.len());
    let names = decl_names(merged);
    assert(names[q1] == f && names[q2] == f);
    // A namespace with a repeated name cannot scan clean.
    if crate::compose::conflict_from(names, 0) is None {
        lemma_conflict_none_distinct(names, 0);
        assert(names[q1] != names[q2]);
    }
    assert(crate::compose::conflict_from(names, 0) is Some);
}

} // verus!
