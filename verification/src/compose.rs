//! The resolver/composer.
//!
//! One composition call walks the transitive import closure of the main
//! source against the registry, depth first and in directive order; an
//! import of an unregistered name fails with an unresolved-import
//! diagnostic, and an import back into the path being walked fails with an
//! import-cycle diagnostic.  Each unit of the closure is filtered against
//! its own defines — registered modules use the defines they were
//! registered with, only the main source uses the request's — and the
//! surviving declarations are merged, modules in resolution order first,
//! the main source last.  A declaration name appearing twice is a
//! duplicate-symbol failure; then the merged unit is validated (the main
//! source must be well-formed and every reference must resolve inside the
//! merged namespace) and wrapped as a [`CompiledArtifact`].
//!
//! The outcome is a function of the registry view, the main source and the
//! request defines alone, so composition is deterministic.

use crate::defines::DefineSet;
use crate::diagnostic::{DiagFrameV, Diagnostic, DiagnosticFrame, DiagnosticKind};
use crate::lines::{opt_line_view, parse_unit, parse_unit_spec, Decl, DeclV, ImportItem, ImportV};
use crate::registry::{
    lemma_module_index_some, lemma_registry_view, module_at, module_index_from, reg_contains,
    ModuleRegistry, ModuleV,
};
use crate::text::{
    bytes_eq, clone_bytes, clone_names, contains_name, find_name_from, first_index_from,
    lemma_bytes_deep_view, lemma_first_index_some,
};
use vstd::prelude::*;

verus! {

/// The empty name stands for the main source of the request.
pub open spec fn main_name() -> Seq<u8> {
    Seq::empty()
}

/// One declaration of the merged namespace, tagged with the unit it came
/// from.
#[verifier::ext_equal]
pub struct MergedDeclV {
    pub module: Seq<u8>,
    pub decl: DeclV,
}

#[derive(Debug)]
pub struct MergedDecl {
    pub module: Vec<u8>,
    pub decl: Decl,
}

impl View for MergedDecl {
    type V = MergedDeclV;

    open spec fn view(&self) -> MergedDeclV {
        MergedDeclV { module: self.module@, decl: self.decl@ }
    }
}

impl DeepView for MergedDecl {
    type V = MergedDeclV;

    open spec fn deep_view(&self) -> MergedDeclV {
        self.view()
    }
}

/// The names of the registered modules, in registration order.
pub open spec fn names_seq(r: Seq<ModuleV>) -> Seq<Seq<u8>> {
    r.map_values(|m: ModuleV| m.name)
}

/// The walk invariant: the path of modules being descended into holds no
/// repeats and only registered names.
pub open spec fn resolve_ok(r: Seq<ModuleV>, path: Seq<Seq<u8>>) -> bool {
    path.no_duplicates() && (forall|k: int|
        0 <= k < path.len() ==> reg_contains(r, #[trigger] path[k]))
}

pub proof fn lemma_reg_contains_names(r: Seq<ModuleV>, x: Seq<u8>)
    requires
        reg_contains(r, x),
    ensures
        names_seq(r).contains(x),
{
    match module_index_from(r, x, 0) {
        Some(i) => {
            lemma_module_index_some(r, x, 0, i);
            assert(names_seq(r)[i] == x);
        },
        None => {},
    }
}

/// A duplicate-free path of registered names is no longer than the
/// registry.
pub proof fn lemma_path_bound(r: Seq<ModuleV>, path: Seq<Seq<u8>>)
    requires
        resolve_ok(r, path),
    ensures
        path.len() <= r.len(),
{
    let names = names_seq(r);
    assert forall|x: Seq<u8>| path.to_set().contains(x) implies names.to_set().contains(x) by {
        lemma_reg_contains_names(r, x);
    }
    path.unique_seq_to_set();
    vstd::seq_lib::seq_to_set_is_finite::<Seq<u8>>(names);
    vstd::set_lib::lemma_len_subset::<Seq<u8>>(path.to_set(), names.to_set());
    names.lemma_cardinality_of_set();
}

pub proof fn lemma_resolve_ok_push(r: Seq<ModuleV>, path: Seq<Seq<u8>>, n: Seq<u8>)
    requires
        resolve_ok(r, path),
        reg_contains(r, n),
        !path.contains(n),
    ensures
        resolve_ok(r, path.push(n)),
{
    let p2 = path.push(n);
    assert forall|i: int, j: int| 0 <= i < j < p2.len() implies p2[i] != p2[j] by {
        if j < path.len() {
        } else {
            assert(p2[j] == n);
            assert(p2[i] == path[i]);
        }
    }
}

/// An unresolved-import failure: the importer, the missing name, and the
/// line of the directive.
pub open spec fn unresolved_frames(importer: Seq<u8>, imp: ImportV) -> Seq<DiagFrameV> {
    seq![
        DiagFrameV {
            kind: DiagnosticKind::UnresolvedImport,
            modules: seq![importer, imp.name],
            detail: imp.name,
            span: Some(imp.line),
        },
    ]
}

/// An import-cycle failure, listing the walked path closed by the repeated
/// name.
pub open spec fn cycle_frames(path: Seq<Seq<u8>>, n: Seq<u8>) -> Seq<DiagFrameV> {
    seq![
        DiagFrameV {
            kind: DiagnosticKind::ImportCycle,
            modules: path.push(n),
            detail: n,
            span: None,
        },
    ]
}

/// The depth-first walk of the import closure, from directive `pos` of the
/// unit named `importer`: `path` is the descent stack, `acc` the modules
/// resolved so far, in first-visit order.
pub open spec fn resolve_from(
    r: Seq<ModuleV>,
    imps: Seq<ImportV>,
    pos: int,
    importer: Seq<u8>,
    path: Seq<Seq<u8>>,
    acc: Seq<Seq<u8>>,
) -> Result<Seq<Seq<u8>>, Seq<DiagFrameV>>
    decreases r.len() - path.len(), imps.len() - pos,
        when resolve_ok(r, path)
        via resolve_from_dec
{
    if pos < 0 || pos >= imps.len() {
        Ok(acc)
    } else {
        let n = imps[pos].name;
        if !reg_contains(r, n) {
            Err(unresolved_frames(importer, imps[pos]))
        } else if path.contains(n) {
            Err(cycle_frames(path, n))
        } else if acc.contains(n) {
            resolve_from(r, imps, pos + 1, importer, path, acc)
        } else {
            match resolve_from(r, module_at(r, n).imports, 0, n, path.push(n), acc.push(n)) {
                Err(e) => Err(e),
                Ok(acc2) => resolve_from(r, imps, pos + 1, importer, path, acc2),
            }
        }
    }
}

#[via_fn]
proof fn resolve_from_dec(
    r: Seq<ModuleV>,
    imps: Seq<ImportV>,
    pos: int,
    importer: Seq<u8>,
    path: Seq<Seq<u8>>,
    acc: Seq<Seq<u8>>,
) {
    lemma_path_bound(r, path);
    if 0 <= pos < imps.len() {
        let n = imps[pos].name;
        if reg_contains(r, n) && !path.contains(n) && !acc.contains(n) {
            lemma_resolve_ok_push(r, path, n);
            lemma_path_bound(r, path.push(n));
        }
    }
}

/// Tag the declarations of one unit with its name.
pub open spec fn tag_decls_from(
    module: Seq<u8>,
    decls: Seq<DeclV>,
    j: int,
    acc: Seq<MergedDeclV>,
) -> Seq<MergedDeclV>
    decreases decls.len() - j,
{
    if j < 0 || j >= decls.len() {
        acc
    } else {
        tag_decls_from(module, decls, j + 1, acc.push(MergedDeclV { module, decl: decls[j] }))
    }
}

/// The declarations of the resolved modules, in resolution order.
pub open spec fn merged_from(
    r: Seq<ModuleV>,
    order: Seq<Seq<u8>>,
    i: int,
    acc: Seq<MergedDeclV>,
) -> Seq<MergedDeclV>
    decreases order.len() - i,
{
    if i < 0 || i >= order.len() {
        acc
    } else {
        let acc2 = match module_index_from(r, order[i], 0) {
            Some(k) => tag_decls_from(order[i], r[k].decls, 0, acc),
            None => acc,
        };
        merged_from(r, order, i + 1, acc2)
    }
}

pub open spec fn decl_names(m: Seq<MergedDeclV>) -> Seq<Seq<u8>> {
    m.map_values(|d: MergedDeclV| d.decl.name)
}

/// The first pair of positions that declare the same name, ordered by the
/// second position then the first.
pub open spec fn conflict_from(names: Seq<Seq<u8>>, i: int) -> Option<(int, int)>
    decreases names.len() - i,
{
    if i < 0 || i >= names.len() {
        None
    } else {
        match first_index_from(names, names[i], 0) {
            Some(j) => if j < i {
                Some((j, i))
            } else {
                conflict_from(names, i + 1)
            },
            None => conflict_from(names, i + 1),
        }
    }
}

/// The first reference, in declaration order, that names no declaration of
/// the merged namespace.
pub open spec fn dangling_from(m: Seq<MergedDeclV>, i: int, j: int) -> Option<(int, int)>
    decreases m.len() - i, (if 0 <= i < m.len() && j <= m[i].decl.refs.len() {
        m[i].decl.refs.len() - j
    } else {
        0
    }),
{
    if i < 0 || i >= m.len() {
        None
    } else if j < 0 || j >= m[i].decl.refs.len() {
        dangling_from(m, i + 1, 0)
    } else if first_index_from(decl_names(m), m[i].decl.refs[j], 0) is None {
        Some((i, j))
    } else {
        dangling_from(m, i, j + 1)
    }
}

/// A duplicate-symbol failure: the two implicated units and the name.
pub open spec fn duplicate_frames(m: Seq<MergedDeclV>, j: int, i: int) -> Seq<DiagFrameV> {
    seq![
        DiagFrameV {
            kind: DiagnosticKind::DuplicateSymbol,
            modules: seq![m[j].module, m[i].module],
            detail: m[i].decl.name,
            span: Some(m[i].decl.line),
        },
    ]
}

/// A validation failure of the main source itself.
pub open spec fn invalid_main_frames(err_line: Option<int>) -> Seq<DiagFrameV> {
    seq![
        DiagFrameV {
            kind: DiagnosticKind::ValidationFailed,
            modules: seq![main_name()],
            detail: Seq::empty(),
            span: err_line,
        },
    ]
}

/// A dangling-reference validation failure; when it originates inside an
/// imported module, the frame naming that module is chained as the cause.
pub open spec fn dangling_frames(d: MergedDeclV, rj: int) -> Seq<DiagFrameV> {
    let f = DiagFrameV {
        kind: DiagnosticKind::ValidationFailed,
        modules: seq![d.module],
        detail: d.decl.refs[rj],
        span: Some(d.decl.line),
    };
    if d.module == main_name() {
        seq![f]
    } else {
        seq![
            DiagFrameV {
                kind: DiagnosticKind::ValidationFailed,
                modules: seq![main_name()],
                detail: d.decl.refs[rj],
                span: None,
            },
            f,
        ]
    }
}

/// What one composition call returns, as a function of the registry view,
/// the main source and the request defines alone.
pub open spec fn compose_spec(r: Seq<ModuleV>, main: Seq<u8>, defs: Seq<Seq<u8>>) -> Result<
    Seq<MergedDeclV>,
    Seq<DiagFrameV>,
> {
    let mu = parse_unit_spec(main, defs);
    match resolve_from(r, mu.imports, 0, main_name(), Seq::empty(), Seq::empty()) {
        Err(fr) => Err(fr),
        Ok(order) => {
            let merged = tag_decls_from(
                main_name(),
                mu.decls,
                0,
                merged_from(r, order, 0, Seq::empty()),
            );
            match conflict_from(decl_names(merged), 0) {
                Some((j, i)) => Err(duplicate_frames(merged, j, i)),
                None => if !mu.ok {
                    Err(invalid_main_frames(mu.err_line))
                } else {
                    match dangling_from(merged, 0, 0) {
                        Some((di, rj)) => Err(dangling_frames(merged[di], rj)),
                        None => Ok(merged),
                    }
                },
            }
        },
    }
}


fn clone_decl(d: &Decl) -> (r: Decl)
    ensures
        r@ == d@,
{
    let r = Decl {
        name: clone_bytes(&d.name),
        refs: clone_names(&d.refs),
        text: clone_bytes(&d.text),
        line: d.line,
    };
    proof {
        assert(r@ =~= d@);
    }
    r
}

fn one_frame(
    kind: DiagnosticKind,
    modules: Vec<Vec<u8>>,
    detail: Vec<u8>,
    span: Option<usize>,
) -> (d: Diagnostic)
    ensures
        d@ == seq![
            DiagFrameV {
                kind,
                modules: modules.deep_view(),
                detail: detail@,
                span: opt_line_view(span),
            },
        ],
        d@.len() == 1,
{
    let ghost mv = modules.deep_view();
    let ghost dv = detail@;
    let frame = DiagnosticFrame { kind, modules, detail, span };
    let mut frames: Vec<DiagnosticFrame> = Vec::new();
    frames.push(frame);
    let d = Diagnostic { frames };
    proof {
        assert(d@ =~= seq![
            DiagFrameV { kind, modules: mv, detail: dv, span: opt_line_view(span) },
        ]);
    }
    d
}

/// The depth-first walk, executably: from directive `pos` of the unit
/// named `importer`.
fn resolve_exec(
    reg: &ModuleRegistry,
    imps: &Vec<ImportItem>,
    pos: usize,
    importer: &Vec<u8>,
    path: &Vec<Vec<u8>>,
    acc: Vec<Vec<u8>>,
) -> (r: Result<Vec<Vec<u8>>, Diagnostic>)
    requires
        reg.wf(),
        resolve_ok(reg@, path.deep_view()),
        pos <= imps@.len(),
    ensures
        (match r {
            Ok(a) => resolve_from(
                reg@,
                imps.deep_view(),
                pos as int,
                importer@,
                path.deep_view(),
                acc.deep_view(),
            ) == Ok::<Seq<Seq<u8>>, Seq<DiagFrameV>>(a.deep_view()),
            Err(d) => resolve_from(
                reg@,
                imps.deep_view(),
                pos as int,
                importer@,
                path.deep_view(),
                acc.deep_view(),
            ) == Err::<Seq<Seq<u8>>, Seq<DiagFrameV>>(d@) && d@.len() >= 1,
        }),
    decreases reg@.len() - path.deep_view().len(), imps@.len() - pos,
{
    proof {
        lemma_path_bound(reg@, path.deep_view());
    }
    if pos == imps.len() {
        return Ok(acc);
    }
    let ghost idv = imps.deep_view();
    let ghost n = imps@[pos as int].name@;
    proof {
        assert(idv[pos as int] == imps@[pos as int].deep_view());
    }
    let found = reg.find_index(&imps[pos].name);
    match found {
        None => {
            let mut mods: Vec<Vec<u8>> = Vec::new();
            mods.push(clone_bytes(importer));
            mods.push(clone_bytes(&imps[pos].name));
            let line = imps[pos].line;
            let d = one_frame(
                DiagnosticKind::UnresolvedImport,
                mods,
                clone_bytes(&imps[pos].name),
                Some(line),
            );
            proof {
                assert(d@ =~~= unresolved_frames(importer@, idv[pos as int]));
            }
            Err(d)
        },
        Some(k) => {
            if contains_name(path, &imps[pos].name) {
                let mut mods = clone_names(path);
                mods.push(clone_bytes(&imps[pos].name));
                let d = one_frame(
                    DiagnosticKind::ImportCycle,
                    mods,
                    clone_bytes(&imps[pos].name),
                    None,
                );
                proof {
                    assert(d@ =~~= cycle_frames(path.deep_view(), n));
                }
                Err(d)
            } else if contains_name(&acc, &imps[pos].name) {
                resolve_exec(reg, imps, pos + 1, importer, path, acc)
            } else {
                proof {
                    lemma_registry_view(reg);
                    lemma_module_index_some(reg@, n, 0, k as int);
                    assert(module_at(reg@, n) == reg@[k as int]);
                    assert(reg@[k as int] == reg.modules@[k as int].deep_view());
                }
                let ghost adv = acc.deep_view();
                let mut path2 = clone_names(path);
                path2.push(clone_bytes(&imps[pos].name));
                let mut acc2 = acc;
                acc2.push(clone_bytes(&imps[pos].name));
                proof {
                    assert(path2.deep_view() =~~= path.deep_view().push(n));
                    assert(acc2.deep_view() =~~= adv.push(n));
                    lemma_resolve_ok_push(reg@, path.deep_view(), n);
                    lemma_path_bound(reg@, path2.deep_view());
                }
                let m = &reg.modules[k];
                let inner = resolve_exec(reg, &m.imports, 0, &m.name, &path2, acc2);
                match inner {
                    Err(d) => Err(d),
                    Ok(a2) => resolve_exec(reg, imps, pos + 1, importer, path, a2),
                }
            }
        },
    }
}

/// The declarations of the resolved modules, in resolution order.
fn merged_decls_exec(reg: &ModuleRegistry, order: &Vec<Vec<u8>>) -> (m: Vec<MergedDecl>)
    ensures
        m.deep_view() == merged_from(reg@, order.deep_view(), 0, Seq::empty()),
{
    let mut out: Vec<MergedDecl> = Vec::new();
    let ghost odv = order.deep_view();
    let mut i: usize = 0;
    proof {
        assert(out.deep_view() =~= Seq::<MergedDeclV>::empty());
    }
    while i < order.len()
        invariant
            i <= order@.len(),
            odv == order.deep_view(),
            merged_from(reg@, odv, 0, Seq::empty()) == merged_from(
                reg@,
                odv,
                i as int,
                out.deep_view(),
            ),
        decreases order.len() - i,
    {
        proof {
            lemma_bytes_deep_view(order@[i as int]);
        }
        let found = reg.find_index(&order[i]);
        match found {
            None => {},
            Some(k) => {
                proof {
                    lemma_registry_view(reg);
                    assert(reg@[k as int] == reg.modules@[k as int].deep_view());
                }
                let ghost pre = out.deep_view();
                let mut j: usize = 0;
                while j < reg.modules[k].decls.len()
                    invariant
                        k < reg.modules@.len(),
                        reg@[k as int] == reg.modules@[k as int].deep_view(),
                        j <= reg@[k as int].decls.len(),
                        odv == order.deep_view(),
                        i < order@.len(),
                        tag_decls_from(odv[i as int], reg@[k as int].decls, 0, pre)
                            == tag_decls_from(
                            odv[i as int],
                            reg@[k as int].decls,
                            j as int,
                            out.deep_view(),
                        ),
                    decreases reg@[k as int].decls.len() - j,
                {
                    let ghost p0 = out.deep_view();
                    proof {
                        lemma_bytes_deep_view(order@[i as int]);
                        assert(reg@[k as int].decls[j as int] == reg.modules@[k as int].decls@[
                            j as int
                        ].deep_view());
                    }
                    let md = MergedDecl {
                        module: clone_bytes(&order[i]),
                        decl: clone_decl(&reg.modules[k].decls[j]),
                    };
                    out.push(md);
                    proof {
                        assert(out.deep_view() =~~= p0.push(
                            MergedDeclV {
                                module: odv[i as int],
                                decl: reg@[k as int].decls[j as int],
                            },
                        ));
                    }
                    j += 1;
                }
            },
        }
        i += 1;
    }
    out
}

/// The declaration names of the merged namespace, in order.
fn decl_names_exec(m: &Vec<MergedDecl>) -> (names: Vec<Vec<u8>>)
    ensures
        names.deep_view() == decl_names(m.deep_view()),
{
    let mut names: Vec<Vec<u8>> = Vec::new();
    let mut i: usize = 0;
    while i < m.len()
        invariant
            i <= m@.len(),
            names@.len() == i,
            forall|k: int| 0 <= k < i ==> names@[k]@ == m@[k].decl.name@,
        decreases m.len() - i,
    {
        names.push(clone_bytes(&m[i].decl.name));
        i += 1;
    }
    proof {
        assert(names.deep_view() =~~= decl_names(m.deep_view()));
    }
    names
}

fn conflict_exec(names: &Vec<Vec<u8>>) -> (r: Option<(usize, usize)>)
    ensures
        (match r {
            Some(p) => conflict_from(names.deep_view(), 0) == Some((p.0 as int, p.1 as int)),
            None => conflict_from(names.deep_view(), 0) is None,
        }),
{
    let ghost ndv = names.deep_view();
    let mut i: usize = 0;
    while i < names.len()
        invariant
            i <= names@.len(),
            ndv == names.deep_view(),
            conflict_from(ndv, 0) == conflict_from(ndv, i as int),
        decreases names.len() - i,
    {
        proof {
            lemma_bytes_deep_view(names@[i as int]);
        }
        let found = find_name_from(names, &names[i], 0);
        match found {
            Some(j) => {
                if j < i {
                    return Some((j, i));
                }
            },
            None => {},
        }
        i += 1;
    }
    None
}

fn dangling_exec(m: &Vec<MergedDecl>, names: &Vec<Vec<u8>>) -> (r: Option<(usize, usize)>)
    requires
        names.deep_view() == decl_names(m.deep_view()),
    ensures
        (match r {
            Some(p) => dangling_from(m.deep_view(), 0, 0) == Some((p.0 as int, p.1 as int)),
            None => dangling_from(m.deep_view(), 0, 0) is None,
        }),
{
    let ghost mdv = m.deep_view();
    let mut i: usize = 0;
    while i < m.len()
        invariant
            i <= m@.len(),
            mdv == m.deep_view(),
            names.deep_view() == decl_names(mdv),
            dangling_from(mdv, 0, 0) == dangling_from(mdv, i as int, 0),
        decreases m.len() - i,
    {
        let mut j: usize = 0;
        proof {
            assert(mdv[i as int].decl.refs == m@[i as int].decl.refs.deep_view());
        }
        while j < m[i].decl.refs.len()
            invariant
                i < m@.len(),
                j <= mdv[i as int].decl.refs.len(),
                mdv == m.deep_view(),
                names.deep_view() == decl_names(mdv),
                mdv[i as int].decl.refs == m@[i as int].decl.refs.deep_view(),
                dangling_from(mdv, 0, 0) == dangling_from(mdv, i as int, j as int),
            decreases m@[i as int].decl.refs.len() - j,
        {
            proof {
                lemma_bytes_deep_view(m@[i as int].decl.refs@[j as int]);
            }
            let found = find_name_from(names, &m[i].decl.refs[j], 0);
            match found {
                None => {
                    return Some((i, j));
                },
                Some(_) => {},
            }
            j += 1;
        }
        i += 1;
    }
    None
}

/// The validated, immutable merged unit: the surviving declarations of the
/// import closure and the main source, in composition order.  Owned by the
/// caller; opaque to the backend until it consumes it.
#[derive(Debug)]
pub struct CompiledArtifact {
    decls: Vec<MergedDecl>,
}

impl View for CompiledArtifact {
    type V = Seq<MergedDeclV>;

    closed spec fn view(&self) -> Seq<MergedDeclV> {
        self.decls.deep_view()
    }
}

impl CompiledArtifact {
    /// How many declarations the merged namespace holds.
    pub fn decl_count(&self) -> (n: usize)
        ensures
            n == self@.len(),
    {
        self.decls.len()
    }

    /// Whether the merged namespace declares `name`.
    pub fn contains_decl(&self, name: &Vec<u8>) -> (r: bool)
        ensures
            r == decl_names(self@).contains(name@),
    {
        let mut i: usize = 0;
        while i < self.decls.len()
            invariant
                i <= self@.len(),
                forall|k: int| 0 <= k < i ==> decl_names(self@)[k] != name@,
            decreases self.decls.len() - i,
        {
            if bytes_eq(&self.decls[i].decl.name, name) {
                proof {
                    assert(decl_names(self@)[i as int] == name@);
                }
                return true;
            }
            i += 1;
        }
        false
    }

    /// The name of the declaration at `i`.
    pub fn decl_name(&self, i: usize) -> (r: &Vec<u8>)
        requires
            i < self@.len(),
        ensures
            r@ == self@[i as int].decl.name,
    {
        &self.decls[i].decl.name
    }

    /// The source text of the declaration at `i`.
    pub fn decl_text(&self, i: usize) -> (r: &Vec<u8>)
        requires
            i < self@.len(),
        ensures
            r@ == self@[i as int].decl.text,
    {
        &self.decls[i].decl.text
    }

    /// The unit that declared the declaration at `i`; empty for the main
    /// source.
    pub fn decl_module(&self, i: usize) -> (r: &Vec<u8>)
        requires
            i < self@.len(),
        ensures
            r@ == self@[i as int].module,
    {
        &self.decls[i].module
    }
}


/// One composition request: a main source plus the defines activated for
/// this call.  Transient: nothing of it outlives the call.
pub struct CompositionRequest {
    pub main_source: Vec<u8>,
    pub defines: DefineSet,
}

impl CompositionRequest {
    pub fn new(main_source: Vec<u8>, defines: DefineSet) -> (r: CompositionRequest)
        ensures
            r.main_source@ == main_source@,
            r.defines@ == defines@,
    {
        CompositionRequest { main_source, defines }
    }

    /// Compose this request against `registry`.
    pub fn run(&self, registry: &ModuleRegistry) -> (r: Result<CompiledArtifact, Diagnostic>)
        requires
            registry.wf(),
        ensures
            (match r {
                Ok(a) => compose_spec(registry@, self.main_source@, self.defines@) == Ok::<
                    Seq<MergedDeclV>,
                    Seq<DiagFrameV>,
                >(a@),
                Err(d) => compose_spec(registry@, self.main_source@, self.defines@) == Err::<
                    Seq<MergedDeclV>,
                    Seq<DiagFrameV>,
                >(d@) && d@.len() >= 1,
            }),
    {
        compose(registry, &self.main_source, &self.defines)
    }
}

/// Compose the main source against the registry: resolve its imports
/// transitively, filter every unit by its own defines, merge and validate,
/// and return the artifact or the diagnostic that `compose_spec` assigns
/// to these exact inputs.
pub fn compose(
    registry: &ModuleRegistry,
    main_source: &Vec<u8>,
    request_defines: &DefineSet,
) -> (r: Result<CompiledArtifact, Diagnostic>)
    requires
        registry.wf(),
    ensures
        (match r {
            Ok(a) => compose_spec(registry@, main_source@, request_defines@) == Ok::<
                Seq<MergedDeclV>,
                Seq<DiagFrameV>,
            >(a@),
            Err(d) => compose_spec(registry@, main_source@, request_defines@) == Err::<
                Seq<MergedDeclV>,
                Seq<DiagFrameV>,
            >(d@) && d@.len() >= 1,
        }),
{
    let ghost rv = registry@;
    let ghost mv = main_source@;
    let ghost dfv = request_defines@;
    let mu = parse_unit(main_source, request_defines.names());
    let ghost sp_mu = parse_unit_spec(mv, dfv);
    let main_nm: Vec<u8> = Vec::new();
    let empty_path: Vec<Vec<u8>> = Vec::new();
    let empty_acc: Vec<Vec<u8>> = Vec::new();
    proof {
        assert(empty_path.deep_view() =~= Seq::<Seq<u8>>::empty());
        assert(empty_acc.deep_view() =~= Seq::<Seq<u8>>::empty());
        assert(main_nm@ =~= main_name());
    }
    let resolved = resolve_exec(registry, &mu.imports, 0, &main_nm, &empty_path, empty_acc);
    match resolved {
        Err(d) => Err(d),
        Ok(order) => {
            let mut merged = merged_decls_exec(registry, &order);
            let ghost pre = merged.deep_view();
            let mut j: usize = 0;
            while j < mu.decls.len()
                invariant
                    j <= mu.decls@.len(),
                    mu.decls.deep_view() == sp_mu.decls,
                    tag_decls_from(main_name(), sp_mu.decls, 0, pre) == tag_decls_from(
                        main_name(),
                        sp_mu.decls,
                        j as int,
                        merged.deep_view(),
                    ),
                decreases mu.decls.len() - j,
            {
                let ghost p0 = merged.deep_view();
                let md = MergedDecl { module: Vec::new(), decl: clone_decl(&mu.decls[j]) };
                merged.push(md);
                proof {
                    assert(merged.deep_view() =~= p0.push(
                        MergedDeclV { module: main_name(), decl: sp_mu.decls[j as int] },
                    ));
                }
                j += 1;
            }
            let ghost mgv = merged.deep_view();
            proof {
                assert(mgv == tag_decls_from(
                    main_name(),
                    sp_mu.decls,
                    0,
                    merged_from(rv, order.deep_view(), 0, Seq::empty()),
                ));
            }
            let names = decl_names_exec(&merged);
            let conflict = conflict_exec(&names);
            match conflict {
                Some(ji) => {
                    let j2 = ji.0;
                    let i2 = ji.1;
                    proof {
                        lemma_conflict_bounds(mgv, j2 as int, i2 as int);
                    }
                    let mut mods: Vec<Vec<u8>> = Vec::new();
                    mods.push(clone_bytes(&merged[j2].module));
                    mods.push(clone_bytes(&merged[i2].module));
                    let line = merged[i2].decl.line;
                    let d = one_frame(
                        DiagnosticKind::DuplicateSymbol,
                        mods,
                        clone_bytes(&merged[i2].decl.name),
                        Some(line),
                    );
                    proof {
                        assert(d@ =~~= duplicate_frames(mgv, j2 as int, i2 as int));
                    }
                    Err(d)
                },
                None => {
                    if !mu.ok {
                        let mut mods: Vec<Vec<u8>> = Vec::new();
                        mods.push(Vec::new());
                        let d = one_frame(
                            DiagnosticKind::ValidationFailed,
                            mods,
                            Vec::new(),
                            mu.err_line,
                        );
                        proof {
                            assert(d@ =~~= invalid_main_frames(sp_mu.err_line));
                        }
                        Err(d)
                    } else {
                        let dang = dangling_exec(&merged, &names);
                        match dang {
                            Some(ij) => {
                                let di = ij.0;
                                let rj = ij.1;
                                proof {
                                    lemma_dangling_bounds(mgv, di as int, rj as int);
                                    assert(mgv[di as int].decl.refs == merged@[
                                        di as int
                                    ].decl.refs.deep_view());
                                    lemma_bytes_deep_view(
                                        merged@[di as int].decl.refs@[rj as int],
                                    );
                                }
                                let mut mods: Vec<Vec<u8>> = Vec::new();
                                mods.push(clone_bytes(&merged[di].module));
                                let line = merged[di].decl.line;
                                let f = DiagnosticFrame {
                                    kind: DiagnosticKind::ValidationFailed,
                                    modules: mods,
                                    detail: clone_bytes(&merged[di].decl.refs[rj]),
                                    span: Some(line),
                                };
                                let ghost fv = f@;
                                let mut frames: Vec<DiagnosticFrame> = Vec::new();
                                if merged[di].module.len() > 0 {
                                    let mut mods0: Vec<Vec<u8>> = Vec::new();
                                    mods0.push(Vec::new());
                                    frames.push(
                                        DiagnosticFrame {
                                            kind: DiagnosticKind::ValidationFailed,
                                            modules: mods0,
                                            detail: clone_bytes(&merged[di].decl.refs[rj]),
                                            span: None,
                                        },
                                    );
                                }
                                frames.push(f);
                                let d = Diagnostic { frames };
                                proof {
                                    assert(mgv[di as int].module == merged@[di as int].module@);
                                    if merged@[di as int].module@.len() > 0 {
                                        assert(d@ =~~= dangling_frames(mgv[di as int], rj as int));
                                    } else {
                                        assert(merged@[di as int].module@ =~= main_name());
                                        assert(d@ =~~= dangling_frames(mgv[di as int], rj as int));
                                    }
                                }
                                Err(d)
                            },
                            None => {
                                let a = CompiledArtifact { decls: merged };
                                Ok(a)
                            },
                        }
                    }
                },
            }
        },
    }
}

/// A conflict returned by the scan lies inside the namespace.
proof fn lemma_conflict_bounds(m: Seq<MergedDeclV>, j: int, i: int)
    requires
        conflict_from(decl_names(m), 0) == Some((j, i)),
    ensures
        0 <= j < m.len(),
        0 <= i < m.len(),
{
    lemma_conflict_bounds_from(decl_names(m), 0, j, i);
}

proof fn lemma_conflict_bounds_from(names: Seq<Seq<u8>>, s: int, j: int, i: int)
    requires
        0 <= s,
        conflict_from(names, s) == Some((j, i)),
    ensures
        0 <= j < names.len(),
        s <= i < names.len(),
    decreases names.len() - s,
{
    if s < 0 || s >= names.len() {
    } else {
        match first_index_from(names, names[s], 0) {
            Some(j2) => {
                if j2 < s {
                    lemma_first_index_some(names, names[s], 0, j2);
                } else {
                    lemma_conflict_bounds_from(names, s + 1, j, i);
                }
            },
            None => {
                lemma_conflict_bounds_from(names, s + 1, j, i);
            },
        }
    }
}

/// A dangling reference returned by the scan lies inside the namespace.
proof fn lemma_dangling_bounds(m: Seq<MergedDeclV>, i: int, j: int)
    requires
        dangling_from(m, 0, 0) == Some((i, j)),
    ensures
        0 <= i < m.len(),
        0 <= j < m[i].decl.refs.len(),
{
    lemma_dangling_bounds_from(m, 0, 0, i, j);
}

proof fn lemma_dangling_bounds_from(m: Seq<MergedDeclV>, s: int, t: int, i: int, j: int)
    requires
        0 <= s,
        0 <= t,
        dangling_from(m, s, t) == Some((i, j)),
    ensures
        0 <= i < m.len(),
        0 <= j < m[i].decl.refs.len(),
    decreases m.len() - s, (if 0 <= s < m.len() && t <= m[s].decl.refs.len() {
        m[s].decl.refs.len() - t
    } else {
        0
    }),
{
    if s < 0 || s >= m.len() {
    } else if t < 0 || t >= m[s].decl.refs.len() {
        lemma_dangling_bounds_from(m, s + 1, 0, i, j);
    } else if first_index_from(decl_names(m), m[s].decl.refs[t], 0) is None {
    } else {
        lemma_dangling_bounds_from(m, s, t + 1, i, j);
    }
}

} // verus!
