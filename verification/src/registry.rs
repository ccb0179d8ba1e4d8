//! The module registry: a process-length, append-only store of named
//! composable modules with idempotent, first-registration-wins insertion.

use crate::defines::DefineSet;
use crate::diagnostic::{DiagFrameV, Diagnostic, DiagnosticFrame, DiagnosticKind};
use crate::lines::{opt_line_view, parse_unit, parse_unit_spec, Decl, DeclV, ImportItem, ImportV};
use crate::text::bytes_eq;
use vstd::prelude::*;

verus! {

/// One registered composable module: its name, its source, the defines it
/// was registered with, and its derived import list and export surface.
/// Immutable once registered.
pub struct Module {
    pub name: Vec<u8>,
    pub source: Vec<u8>,
    pub defines: DefineSet,
    pub imports: Vec<ImportItem>,
    pub decls: Vec<Decl>,
}

#[verifier::ext_equal]
pub struct ModuleV {
    pub name: Seq<u8>,
    pub source: Seq<u8>,
    pub defines: Seq<Seq<u8>>,
    pub imports: Seq<ImportV>,
    pub decls: Seq<DeclV>,
}

impl View for Module {
    type V = ModuleV;

    open spec fn view(&self) -> ModuleV {
        ModuleV {
            name: self.name@,
            source: self.source@,
            defines: self.defines@,
            imports: self.imports.deep_view(),
            decls: self.decls.deep_view(),
        }
    }
}

impl DeepView for Module {
    type V = ModuleV;

    open spec fn deep_view(&self) -> ModuleV {
        self.view()
    }
}

/// A registered module is structurally valid against its own defines, and
/// its stored import list and export surface are the derived ones.
pub open spec fn module_wf(m: ModuleV) -> bool {
    let u = parse_unit_spec(m.source, m.defines);
    u.ok && m.imports == u.imports && m.decls == u.decls
}

/// Position of the first module named `name`, at or after `j`.
pub open spec fn module_index_from(r: Seq<ModuleV>, name: Seq<u8>, j: int) -> Option<int>
    decreases r.len() - j,
{
    if j < 0 || j >= r.len() {
        None
    } else if r[j].name == name {
        Some(j)
    } else {
        module_index_from(r, name, j + 1)
    }
}

pub open spec fn reg_contains(r: Seq<ModuleV>, name: Seq<u8>) -> bool {
    module_index_from(r, name, 0) is Some
}

/// The module registered under `name`.
pub open spec fn module_at(r: Seq<ModuleV>, name: Seq<u8>) -> ModuleV
    recommends
        reg_contains(r, name),
{
    r[module_index_from(r, name, 0).unwrap()]
}

pub proof fn lemma_module_index_none(r: Seq<ModuleV>, name: Seq<u8>, j: int)
    requires
        0 <= j,
        module_index_from(r, name, j) is None,
    ensures
        forall|k: int| j <= k < r.len() ==> r[k].name != name,
    decreases r.len() - j,
{
    if j < 0 || j >= r.len() {
    } else {
        lemma_module_index_none(r, name, j + 1);
    }
}

pub proof fn lemma_module_index_some(r: Seq<ModuleV>, name: Seq<u8>, j: int, i: int)
    requires
        0 <= j,
        module_index_from(r, name, j) == Some(i),
    ensures
        j <= i < r.len(),
        r[i].name == name,
        forall|k: int| j <= k < i ==> r[k].name != name,
    decreases r.len() - j,
{
    if j < 0 || j >= r.len() {
    } else if r[j].name == name {
    } else {
        lemma_module_index_some(r, name, j + 1, i);
    }
}

/// Registry well-formedness: every module parses clean against its own
/// defines, and names are unique.
pub open spec fn reg_wf(r: Seq<ModuleV>) -> bool {
    (forall|i: int| 0 <= i < r.len() ==> module_wf(#[trigger] r[i])) && (forall|i: int, j: int|
        0 <= i < j < r.len() ==> r[i].name != r[j].name)
}

/// What one `register` call does: nothing if the name is taken (first
/// registration wins); otherwise the module is appended when its source is
/// structurally valid, and a registration-failure diagnostic is returned,
/// with nothing inserted, when it is not.
pub open spec fn register_spec(
    r: Seq<ModuleV>,
    name: Seq<u8>,
    source: Seq<u8>,
    defines: Seq<Seq<u8>>,
) -> (Seq<ModuleV>, Result<(), Seq<DiagFrameV>>) {
    if reg_contains(r, name) {
        (r, Ok(()))
    } else {
        let u = parse_unit_spec(source, defines);
        if u.ok {
            (
                r.push(
                    ModuleV { name, source, defines, imports: u.imports, decls: u.decls },
                ),
                Ok(()),
            )
        } else {
            (
                r,
                Err(
                    seq![
                        DiagFrameV {
                            kind: DiagnosticKind::RegistrationFailure,
                            modules: seq![name],
                            detail: Seq::empty(),
                            span: u.err_line,
                        },
                    ],
                ),
            )
        }
    }
}

/// The process-wide store of composable modules: append-only, idempotent
/// insertion, no update or removal.
pub struct ModuleRegistry {
    pub(crate) modules: Vec<Module>,
}

impl View for ModuleRegistry {
    type V = Seq<ModuleV>;

    closed spec fn view(&self) -> Seq<ModuleV> {
        self.modules.deep_view()
    }
}

/// The registry's view is its module list, module by module.
pub(crate) proof fn lemma_registry_view(r: &ModuleRegistry)
    ensures
        r@ == r.modules.deep_view(),
{
}

impl ModuleRegistry {
    pub open spec fn wf(&self) -> bool {
        reg_wf(self@)
    }

    pub fn new() -> (r: ModuleRegistry)
        ensures
            r@ == Seq::<ModuleV>::empty(),
            r.wf(),
    {
        let r = ModuleRegistry { modules: Vec::new() };
        proof {
            assert(r@ =~= Seq::<ModuleV>::empty());
        }
        r
    }

    /// Position of the module registered under `name`, if any.
    pub fn find_index(&self, name: &Vec<u8>) -> (r: Option<usize>)
        ensures
            module_index_from(self@, name@, 0) == (match r {
                Some(k) => Some(k as int),
                None => None::<int>,
            }),
            r matches Some(k) ==> k < self@.len(),
    {
        let mut j: usize = 0;
        while j < self.modules.len()
            invariant
                j <= self.modules@.len(),
                module_index_from(self@, name@, 0) == module_index_from(self@, name@, j as int),
            decreases self.modules.len() - j,
        {
            if bytes_eq(&self.modules[j].name, name) {
                return Some(j);
            }
            j += 1;
        }
        None
    }

    /// Whether a module is registered under `name`.
    pub fn contains(&self, name: &Vec<u8>) -> (r: bool)
        ensures
            r == reg_contains(self@, name@),
    {
        self.find_index(name).is_some()
    }

    /// How many modules are registered.
    pub fn module_count(&self) -> (n: usize)
        ensures
            n == self@.len(),
    {
        self.modules.len()
    }

    /// Register a composable module under `name`.  Idempotent: when the
    /// name is taken, even with a different source, the call is a no-op
    /// and the first registration stays in effect, so callers may register
    /// unconditionally on every request.  A structurally invalid source
    /// yields a diagnostic and no insertion, so `contains(name)` stays
    /// false and a later call can retry.
    pub fn register(&mut self, name: Vec<u8>, source: Vec<u8>, defines: DefineSet) -> (r: Result<
        (),
        Diagnostic,
    >)
        ensures
            final (self)@ == register_spec(old(self)@, name@, source@, defines@).0,
            (match r {
                Ok(()) => register_spec(old(self)@, name@, source@, defines@).1
                    == Ok::<(), Seq<DiagFrameV>>(()),
                Err(d) => register_spec(old(self)@, name@, source@, defines@).1 == Err::<
                    (),
                    Seq<DiagFrameV>,
                >(d@),
            }),
            old(self).wf() ==> final (self).wf(),
    {
        let ghost r0 = self@;
        let ghost nv = name@;
        let ghost sv = source@;
        let ghost dv = defines@;
        if self.contains(&name) {
            return Ok(());
        }
        let u = parse_unit(&source, defines.names());
        if u.ok {
            let m = Module { name, source, defines, imports: u.imports, decls: u.decls };
            let ghost mv = m@;
            self.modules.push(m);
            proof {
                assert(self@ =~= r0.push(mv));
                let s = register_spec(r0, nv, sv, dv);
                assert(mv =~= s.0[r0.len() as int]);
                assert(self@ =~= s.0);
                if reg_wf(r0) {
                    lemma_module_index_none(r0, nv, 0);
                    assert forall|i: int, j: int| 0 <= i < j < self@.len() implies self@[i].name
                        != self@[j].name by {
                        if j < r0.len() {
                        } else {
                            assert(self@[j] == mv);
                        }
                    }
                    assert(reg_wf(self@));
                }
            }
            Ok(())
        } else {
            let mut mods: Vec<Vec<u8>> = Vec::new();
            mods.push(name);
            let frame = DiagnosticFrame {
                kind: DiagnosticKind::RegistrationFailure,
                modules: mods,
                detail: Vec::new(),
                span: u.err_line,
            };
            let ghost fv = frame@;
            let mut frames: Vec<DiagnosticFrame> = Vec::new();
            frames.push(frame);
            let d = Diagnostic { frames };
            proof {
                let su = parse_unit_spec(sv, dv);
                assert(fv.modules =~~= seq![nv]);
                assert(fv.detail =~= Seq::<u8>::empty());
                assert(d@ =~~= seq![
                    DiagFrameV {
                        kind: DiagnosticKind::RegistrationFailure,
                        modules: seq![nv],
                        detail: Seq::empty(),
                        span: su.err_line,
                    },
                ]);
            }
            Err(d)
        }
    }
}

} // verus!
