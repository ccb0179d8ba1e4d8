//! Structured composition failures and their rendering.
//!
//! A [`Diagnostic`] is a non-empty chain of frames: the first frame is the
//! primary failure, later frames are its nested causes.  Each frame carries
//! a kind, the implicated module names (the empty name stands for the main
//! source of the request), an optional detail (a symbol or module name),
//! and an optional line number inside the first implicated module's source.
//! Rendering never fails: missing span metadata simply degrades the output.

use crate::lines::{nl, opt_line_view};
use crate::registry::{module_index_from, ModuleRegistry, ModuleV};
use crate::text::{append_bytes, lemma_bytes_deep_view, split_bytes, split_bytes_exec};
use vstd::prelude::*;

verus! {

#[derive(Clone, Copy, PartialEq, Eq, Debug, Structural)]
pub enum DiagnosticKind {
    RegistrationFailure,
    UnresolvedImport,
    ImportCycle,
    DuplicateSymbol,
    ValidationFailed,
}

/// One failure frame.
#[verifier::ext_equal]
pub struct DiagFrameV {
    pub kind: DiagnosticKind,
    pub modules: Seq<Seq<u8>>,
    pub detail: Seq<u8>,
    pub span: Option<int>,
}

#[derive(Debug)]
pub struct DiagnosticFrame {
    pub kind: DiagnosticKind,
    pub modules: Vec<Vec<u8>>,
    pub detail: Vec<u8>,
    pub span: Option<usize>,
}

impl View for DiagnosticFrame {
    type V = DiagFrameV;

    open spec fn view(&self) -> DiagFrameV {
        DiagFrameV {
            kind: self.kind,
            modules: self.modules.deep_view(),
            detail: self.detail@,
            span: opt_line_view(self.span),
        }
    }
}

impl DeepView for DiagnosticFrame {
    type V = DiagFrameV;

    open spec fn deep_view(&self) -> DiagFrameV {
        self.view()
    }
}

/// A structured failure: the primary frame followed by its cause chain.
#[derive(Debug)]
pub struct Diagnostic {
    pub frames: Vec<DiagnosticFrame>,
}

impl View for Diagnostic {
    type V = Seq<DiagFrameV>;

    open spec fn view(&self) -> Seq<DiagFrameV> {
        self.frames.deep_view()
    }
}

impl Diagnostic {
    /// The kind of the primary failure.
    pub fn kind(&self) -> (k: DiagnosticKind)
        requires
            self@.len() >= 1,
        ensures
            k == self@[0].kind,
    {
        self.frames[0].kind
    }

    /// How many frames the cause chain holds, the primary one included.
    pub fn frame_count(&self) -> (n: usize)
        ensures
            n == self@.len(),
    {
        self.frames.len()
    }
}

pub open spec fn label_of(k: DiagnosticKind) -> Seq<u8> {
    match k {
        DiagnosticKind::RegistrationFailure => seq![114u8, 101u8, 103u8, 105u8, 115u8, 116u8, 114u8, 97u8, 116u8, 105u8, 111u8, 110u8, 32u8, 102u8, 97u8, 105u8, 108u8, 117u8, 114u8, 101u8],
        DiagnosticKind::UnresolvedImport => seq![117u8, 110u8, 114u8, 101u8, 115u8, 111u8, 108u8, 118u8, 101u8, 100u8, 32u8, 105u8, 109u8, 112u8, 111u8, 114u8, 116u8],
        DiagnosticKind::ImportCycle => seq![105u8, 109u8, 112u8, 111u8, 114u8, 116u8, 32u8, 99u8, 121u8, 99u8, 108u8, 101u8],
        DiagnosticKind::DuplicateSymbol => seq![100u8, 117u8, 112u8, 108u8, 105u8, 99u8, 97u8, 116u8, 101u8, 32u8, 115u8, 121u8, 109u8, 98u8, 111u8, 108u8],
        DiagnosticKind::ValidationFailed => seq![118u8, 97u8, 108u8, 105u8, 100u8, 97u8, 116u8, 105u8, 111u8, 110u8, 32u8, 102u8, 97u8, 105u8, 108u8, 101u8, 100u8],
    }
}

fn label_exec(k: DiagnosticKind) -> (r: Vec<u8>)
    ensures
        r@ == label_of(k),
{
    let mut v: Vec<u8> = Vec::new();
    match k {
        DiagnosticKind::RegistrationFailure => {
            v.push(114);
            v.push(101);
            v.push(103);
            v.push(105);
            v.push(115);
            v.push(116);
            v.push(114);
            v.push(97);
            v.push(116);
            v.push(105);
            v.push(111);
            v.push(110);
            v.push(32);
            v.push(102);
            v.push(97);
            v.push(105);
            v.push(108);
            v.push(117);
            v.push(114);
            v.push(101);
        },
        DiagnosticKind::UnresolvedImport => {
            v.push(117);
            v.push(110);
            v.push(114);
            v.push(101);
            v.push(115);
            v.push(111);
            v.push(108);
            v.push(118);
            v.push(101);
            v.push(100);
            v.push(32);
            v.push(105);
            v.push(109);
            v.push(112);
            v.push(111);
            v.push(114);
            v.push(116);
        },
        DiagnosticKind::ImportCycle => {
            v.push(105);
            v.push(109);
            v.push(112);
            v.push(111);
            v.push(114);
            v.push(116);
            v.push(32);
            v.push(99);
            v.push(121);
            v.push(99);
            v.push(108);
            v.push(101);
        },
        DiagnosticKind::DuplicateSymbol => {
            v.push(100);
            v.push(117);
            v.push(112);
            v.push(108);
            v.push(105);
            v.push(99);
            v.push(97);
            v.push(116);
            v.push(101);
            v.push(32);
            v.push(115);
            v.push(121);
            v.push(109);
            v.push(98);
            v.push(111);
            v.push(108);
        },
        DiagnosticKind::ValidationFailed => {
            v.push(118);
            v.push(97);
            v.push(108);
            v.push(105);
            v.push(100);
            v.push(97);
            v.push(116);
            v.push(105);
            v.push(111);
            v.push(110);
            v.push(32);
            v.push(102);
            v.push(97);
            v.push(105);
            v.push(108);
            v.push(101);
            v.push(100);
        },
    }
    proof {
        assert(v@ =~= label_of(k));
    }
    v
}

/// The module names of a frame, each preceded by one space.
pub open spec fn names_part_from(mods: Seq<Seq<u8>>, j: int, acc: Seq<u8>) -> Seq<u8>
    decreases mods.len() - j,
{
    if j < 0 || j >= mods.len() {
        acc
    } else {
        names_part_from(mods, j + 1, acc + seq![32u8] + mods[j])
    }
}

pub open spec fn detail_part(f: DiagFrameV) -> Seq<u8> {
    if f.detail.len() > 0 {
        seq![32u8] + f.detail
    } else {
        Seq::empty()
    }
}

/// A source excerpt: the implicated line of the first implicated module,
/// when the frame carries a span and the registry still holds the module.
pub open spec fn excerpt_part(f: DiagFrameV, reg: Seq<ModuleV>) -> Seq<u8> {
    match f.span {
        None => Seq::empty(),
        Some(ln) => if f.modules.len() > 0 {
            match module_index_from(reg, f.modules[0], 0) {
                Some(k) => {
                    let ls = split_bytes(reg[k].source, nl());
                    if 0 <= ln < ls.len() {
                        seq![10u8] + ls[ln]
                    } else {
                        Seq::empty()
                    }
                },
                None => Seq::empty(),
            }
        } else {
            Seq::empty()
        },
    }
}

pub open spec fn frame_text(f: DiagFrameV, reg: Seq<ModuleV>) -> Seq<u8> {
    label_of(f.kind) + names_part_from(f.modules, 0, Seq::empty()) + detail_part(f)
        + excerpt_part(f, reg) + seq![10u8]
}

pub open spec fn render_from(
    frames: Seq<DiagFrameV>,
    reg: Seq<ModuleV>,
    i: int,
    acc: Seq<u8>,
) -> Seq<u8>
    decreases frames.len() - i,
{
    if i < 0 || i >= frames.len() {
        acc
    } else {
        render_from(frames, reg, i + 1, acc + frame_text(frames[i], reg))
    }
}

/// The rendered text of a diagnostic against a registry: one line per
/// frame, best effort, never a failure.
pub open spec fn render_spec(frames: Seq<DiagFrameV>, reg: Seq<ModuleV>) -> Seq<u8> {
    render_from(frames, reg, 0, Seq::empty())
}

pub fn render(d: &Diagnostic, reg: &ModuleRegistry) -> (out: Vec<u8>)
    ensures
        out@ == render_spec(d@, reg@),
{
    let mut out: Vec<u8> = Vec::new();
    let ghost fdv = d@;
    let ghost rdv = reg@;
    let mut i: usize = 0;
    proof {
        crate::registry::lemma_registry_view(reg);
        assert(out@ =~= Seq::<u8>::empty());
    }
    while i < d.frames.len()
        invariant
            i <= d.frames@.len(),
            fdv == d@,
            rdv == reg@,
            render_spec(fdv, rdv) == render_from(fdv, rdv, i as int, out@),
        decreases d.frames.len() - i,
    {
        let ghost pre = out@;
        let f = &d.frames[i];
        proof {
            assert(fdv[i as int] == f@);
        }
        let label = label_exec(f.kind);
        append_bytes(&mut out, &label);
        // module names
        let mut part: Vec<u8> = Vec::new();
        let mut j: usize = 0;
        proof {
            assert(part@ =~= Seq::<u8>::empty());
        }
        while j < f.modules.len()
            invariant
                j <= f.modules@.len(),
                names_part_from(f@.modules, 0, Seq::empty()) == names_part_from(
                    f@.modules,
                    j as int,
                    part@,
                ),
            decreases f.modules.len() - j,
        {
            let ghost p0 = part@;
            part.push(32);
            append_bytes(&mut part, &f.modules[j]);
            proof {
                lemma_bytes_deep_view(f.modules@[j as int]);
                assert(part@ =~= p0 + seq![32u8] + f@.modules[j as int]);
            }
            j += 1;
        }
        append_bytes(&mut out, &part);
        // detail
        if f.detail.len() > 0 {
            out.push(32);
            append_bytes(&mut out, &f.detail);
        }
        proof {
            assert(out@ =~= pre + label_of(f@.kind) + names_part_from(f@.modules, 0, Seq::empty())
                + detail_part(f@));
        }
        let ghost mid = out@;
        // excerpt
        match f.span {
            None => {},
            Some(ln) => {
                if f.modules.len() > 0 {
                    proof {
                        lemma_bytes_deep_view(f.modules@[0]);
                    }
                    match reg.find_index(&f.modules[0]) {
                        None => {},
                        Some(k) => {
                            proof {
                                crate::registry::lemma_registry_view(reg);
                                assert(rdv[k as int] == reg.modules@[k as int].deep_view());
                            }
                            let ls = split_bytes_exec(&reg.modules[k].source, 10);
                            if ln < ls.len() {
                                out.push(10);
                                proof {
                                    lemma_bytes_deep_view(ls@[ln as int]);
                                }
                                append_bytes(&mut out, &ls[ln]);
                                proof {
                                    assert(out@ =~= mid + seq![10u8] + ls.deep_view()[ln as int]);
                                }
                            }
                        },
                    }
                }
            },
        }
        proof {
            assert(out@ =~= mid + excerpt_part(f@, rdv));
        }
        out.push(10);
        proof {
            assert(out@ =~= pre + frame_text(f@, rdv));
        }
        i += 1;
    }
    out
}

} // verus!
