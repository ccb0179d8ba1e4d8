//! The engine's source grammar, line by line.
//!
//! A source is a sequence of lines separated by `\n`.  Each line is one of:
//! an empty line; a comment starting with `//`; an import directive
//! `#import <name>`; a conditional opener `#ifdef <SYMBOL>`; its closer
//! `#endif`; or a top-level declaration `fn <name> ...`, whose later tokens
//! of the form `@<name>` reference other top-level declarations.  Anything
//! else is a syntax error.  Conditional blocks nest; a declaration survives
//! conditional compilation when every enclosing `#ifdef` symbol is active.
//! Import directives take effect wherever they appear, so the import set of
//! a unit does not depend on its define set.

use crate::text::{
    bytes_eq, clone_bytes, contains_name, has_prefix, has_prefix_exec, lemma_bytes_deep_view,
    split_bytes, split_bytes_exec, tail_from,
};
use vstd::prelude::*;

verus! {

pub open spec fn nl() -> u8 {
    10u8
}

pub open spec fn sp() -> u8 {
    32u8
}

pub open spec fn at_sign() -> u8 {
    64u8
}

pub open spec fn kw_comment() -> Seq<u8> {
    seq![47u8, 47u8]
}

pub open spec fn kw_import() -> Seq<u8> {
    seq![35u8, 105u8, 109u8, 112u8, 111u8, 114u8, 116u8, 32u8]
}

pub open spec fn kw_ifdef() -> Seq<u8> {
    seq![35u8, 105u8, 102u8, 100u8, 101u8, 102u8, 32u8]
}

pub open spec fn kw_endif() -> Seq<u8> {
    seq![35u8, 101u8, 110u8, 100u8, 105u8, 102u8]
}

pub open spec fn kw_fn() -> Seq<u8> {
    seq![102u8, 110u8, 32u8]
}

fn kw_comment_exec() -> (r: Vec<u8>)
    ensures
        r@ == kw_comment(),
{
    let mut v: Vec<u8> = Vec::new();
    v.push(47);
    v.push(47);
    proof {
        assert(v@ =~= kw_comment());
    }
    v
}

fn kw_import_exec() -> (r: Vec<u8>)
    ensures
        r@ == kw_import(),
{
    let mut v: Vec<u8> = Vec::new();
    v.push(35);
    v.push(105);
    v.push(109);
    v.push(112);
    v.push(111);
    v.push(114);
    v.push(116);
    v.push(32);
    proof {
        assert(v@ =~= kw_import());
    }
    v
}

fn kw_ifdef_exec() -> (r: Vec<u8>)
    ensures
        r@ == kw_ifdef(),
{
    let mut v: Vec<u8> = Vec::new();
    v.push(35);
    v.push(105);
    v.push(102);
    v.push(100);
    v.push(101);
    v.push(102);
    v.push(32);
    proof {
        assert(v@ =~= kw_ifdef());
    }
    v
}

fn kw_endif_exec() -> (r: Vec<u8>)
    ensures
        r@ == kw_endif(),
{
    let mut v: Vec<u8> = Vec::new();
    v.push(35);
    v.push(101);
    v.push(110);
    v.push(100);
    v.push(105);
    v.push(102);
    proof {
        assert(v@ =~= kw_endif());
    }
    v
}

fn kw_fn_exec() -> (r: Vec<u8>)
    ensures
        r@ == kw_fn(),
{
    let mut v: Vec<u8> = Vec::new();
    v.push(102);
    v.push(110);
    v.push(32);
    proof {
        assert(v@ =~= kw_fn());
    }
    v
}

/// A module or symbol name: non-empty, no spaces.
pub open spec fn valid_name(s: Seq<u8>) -> bool {
    s.len() > 0 && forall|k: int| 0 <= k < s.len() ==> s[k] != sp()
}

pub fn valid_name_exec(s: &Vec<u8>) -> (r: bool)
    ensures
        r == valid_name(s@),
{
    if s.len() == 0 {
        return false;
    }
    let mut k: usize = 0;
    while k < s.len()
        invariant
            k <= s@.len(),
            forall|m: int| 0 <= m < k ==> s@[m] != sp(),
        decreases s.len() - k,
    {
        if s[k] == 32 {
            return false;
        }
        k += 1;
    }
    true
}

/// References extracted from the tokens after a declaration's name: each
/// token `@<name>` contributes `<name>`.
pub open spec fn refs_from(toks: Seq<Seq<u8>>, j: int, acc: Seq<Seq<u8>>) -> Seq<Seq<u8>>
    decreases toks.len() - j,
{
    if j < 0 || j >= toks.len() {
        acc
    } else if toks[j].len() >= 1 && toks[j][0] == at_sign() {
        refs_from(toks, j + 1, acc.push(toks[j].skip(1)))
    } else {
        refs_from(toks, j + 1, acc)
    }
}

/// The meaning of one line.
pub enum LineV {
    Blank,
    Comment,
    Import { name: Seq<u8> },
    Ifdef { sym: Seq<u8> },
    Endif,
    Decl { name: Seq<u8>, refs: Seq<Seq<u8>> },
    Invalid,
}

pub open spec fn classify_spec(line: Seq<u8>) -> LineV {
    if line.len() == 0 {
        LineV::Blank
    } else if has_prefix(line, kw_comment()) {
        LineV::Comment
    } else if line == kw_endif() {
        LineV::Endif
    } else if has_prefix(line, kw_import()) {
        let name = line.skip(kw_import().len() as int);
        if valid_name(name) {
            LineV::Import { name }
        } else {
            LineV::Invalid
        }
    } else if has_prefix(line, kw_ifdef()) {
        let sym = line.skip(kw_ifdef().len() as int);
        if valid_name(sym) {
            LineV::Ifdef { sym }
        } else {
            LineV::Invalid
        }
    } else if has_prefix(line, kw_fn()) {
        let toks = split_bytes(line.skip(kw_fn().len() as int), sp());
        let name = toks[0];
        if valid_name(name) && name[0] != at_sign() {
            LineV::Decl { name, refs: refs_from(toks, 1, Seq::empty()) }
        } else {
            LineV::Invalid
        }
    } else {
        LineV::Invalid
    }
}

pub enum LineKind {
    Blank,
    Comment,
    Import { name: Vec<u8> },
    Ifdef { sym: Vec<u8> },
    Endif,
    Decl { name: Vec<u8>, refs: Vec<Vec<u8>> },
    Invalid,
}

impl View for LineKind {
    type V = LineV;

    open spec fn view(&self) -> LineV {
        match self {
            LineKind::Blank => LineV::Blank,
            LineKind::Comment => LineV::Comment,
            LineKind::Import { name } => LineV::Import { name: name@ },
            LineKind::Ifdef { sym } => LineV::Ifdef { sym: sym@ },
            LineKind::Endif => LineV::Endif,
            LineKind::Decl { name, refs } => LineV::Decl {
                name: name@,
                refs: refs.deep_view(),
            },
            LineKind::Invalid => LineV::Invalid,
        }
    }
}

pub fn classify(line: &Vec<u8>) -> (k: LineKind)
    ensures
        k@ == classify_spec(line@),
{
    if line.len() == 0 {
        return LineKind::Blank;
    }
    let kwc = kw_comment_exec();
    if has_prefix_exec(line, &kwc) {
        return LineKind::Comment;
    }
    let kwe = kw_endif_exec();
    if bytes_eq(line, &kwe) {
        return LineKind::Endif;
    }
    let kwi = kw_import_exec();
    if has_prefix_exec(line, &kwi) {
        let name = tail_from(line, 8);
        proof {
            assert(kw_import().len() == 8);
        }
        if valid_name_exec(&name) {
            return LineKind::Import { name };
        } else {
            return LineKind::Invalid;
        }
    }
    let kwd = kw_ifdef_exec();
    if has_prefix_exec(line, &kwd) {
        let sym = tail_from(line, 7);
        proof {
            assert(kw_ifdef().len() == 7);
        }
        if valid_name_exec(&sym) {
            return LineKind::Ifdef { sym };
        } else {
            return LineKind::Invalid;
        }
    }
    let kwf = kw_fn_exec();
    if has_prefix_exec(line, &kwf) {
        proof {
            assert(kw_fn().len() == 3);
        }
        let tail = tail_from(line, 3);
        let toks = split_bytes_exec(&tail, 32);
        proof {
            lemma_bytes_deep_view(toks@[0]);
        }
        let name = clone_bytes(&toks[0]);
        let name_ok = valid_name_exec(&name);
        if !(name_ok && name[0] != 64) {
            return LineKind::Invalid;
        }
        let ghost tdv = toks.deep_view();
        let mut refs: Vec<Vec<u8>> = Vec::new();
        let mut j: usize = 1;
        proof {
            assert(refs.deep_view() =~= Seq::<Seq<u8>>::empty());
        }
        while j < toks.len()
            invariant
                1 <= j <= toks@.len(),
                tdv == toks.deep_view(),
                refs_from(tdv, 1, Seq::empty()) == refs_from(tdv, j as int, refs.deep_view()),
            decreases toks.len() - j,
        {
            let ghost pre = refs.deep_view();
            proof {
                lemma_bytes_deep_view(toks@[j as int]);
            }
            if toks[j].len() >= 1 && toks[j][0] == 64 {
                let rn = tail_from(&toks[j], 1);
                refs.push(rn);
                proof {
                    assert(refs.deep_view() =~~= pre.push(tdv[j as int].skip(1)));
                }
            }
            j += 1;
        }
        return LineKind::Decl { name, refs };
    }
    LineKind::Invalid
}

/// One import directive: the module name and the line it stands on.
#[verifier::ext_equal]
pub struct ImportV {
    pub name: Seq<u8>,
    pub line: int,
}

pub struct ImportItem {
    pub name: Vec<u8>,
    pub line: usize,
}

impl View for ImportItem {
    type V = ImportV;

    open spec fn view(&self) -> ImportV {
        ImportV { name: self.name@, line: self.line as int }
    }
}

impl DeepView for ImportItem {
    type V = ImportV;

    open spec fn deep_view(&self) -> ImportV {
        self.view()
    }
}

/// One surviving top-level declaration.
#[verifier::ext_equal]
pub struct DeclV {
    pub name: Seq<u8>,
    pub refs: Seq<Seq<u8>>,
    pub text: Seq<u8>,
    pub line: int,
}

#[derive(Debug)]
pub struct Decl {
    pub name: Vec<u8>,
    pub refs: Vec<Vec<u8>>,
    pub text: Vec<u8>,
    pub line: usize,
}

impl View for Decl {
    type V = DeclV;

    open spec fn view(&self) -> DeclV {
        DeclV {
            name: self.name@,
            refs: self.refs.deep_view(),
            text: self.text@,
            line: self.line as int,
        }
    }
}

impl DeepView for Decl {
    type V = DeclV;

    open spec fn deep_view(&self) -> DeclV {
        self.view()
    }
}

/// State of the line fold over one unit.
#[verifier::ext_equal]
pub struct UnitV {
    pub imports: Seq<ImportV>,
    pub decls: Seq<DeclV>,
    pub stack: Seq<bool>,
    pub ok: bool,
    pub err_line: Option<int>,
}

pub open spec fn init_unit() -> UnitV {
    UnitV {
        imports: Seq::empty(),
        decls: Seq::empty(),
        stack: Seq::empty(),
        ok: true,
        err_line: None,
    }
}

pub open spec fn all_true(stack: Seq<bool>) -> bool {
    forall|k: int| 0 <= k < stack.len() ==> stack[k]
}

pub open spec fn fail_unit(st: UnitV, idx: int) -> UnitV {
    UnitV {
        ok: false,
        err_line: if st.err_line is Some {
            st.err_line
        } else {
            Some(idx)
        },
        ..st
    }
}

pub open spec fn unit_step(st: UnitV, line: Seq<u8>, idx: int, defs: Seq<Seq<u8>>) -> UnitV {
    match classify_spec(line) {
        LineV::Blank => st,
        LineV::Comment => st,
        LineV::Import { name } => UnitV {
            imports: st.imports.push(ImportV { name, line: idx }),
            ..st
        },
        LineV::Ifdef { sym } => UnitV { stack: st.stack.push(defs.contains(sym)), ..st },
        LineV::Endif => if st.stack.len() > 0 {
            UnitV { stack: st.stack.drop_last(), ..st }
        } else {
            fail_unit(st, idx)
        },
        LineV::Decl { name, refs } => if all_true(st.stack) {
            UnitV {
                decls: st.decls.push(DeclV { name, refs, text: line, line: idx }),
                ..st
            }
        } else {
            st
        },
        LineV::Invalid => fail_unit(st, idx),
    }
}

pub open spec fn unit_from(lines: Seq<Seq<u8>>, defs: Seq<Seq<u8>>, i: int, st: UnitV) -> UnitV
    decreases lines.len() - i,
{
    if i < 0 || i >= lines.len() {
        st
    } else {
        unit_from(lines, defs, i + 1, unit_step(st, lines[i], i, defs))
    }
}

/// The meaning of one unit of source against one define set: its imports,
/// its surviving declarations, and whether it is structurally well-formed
/// (every line classifies, every `#ifdef` is closed, no stray `#endif`).
pub open spec fn parse_unit_spec(src: Seq<u8>, defs: Seq<Seq<u8>>) -> UnitV {
    let st = unit_from(split_bytes(src, nl()), defs, 0, init_unit());
    if st.stack.len() == 0 {
        st
    } else {
        UnitV { ok: false, ..st }
    }
}

pub open spec fn opt_line_view(o: Option<usize>) -> Option<int> {
    match o {
        Some(v) => Some(v as int),
        None => None,
    }
}

fn stack_all_true(v: &Vec<bool>) -> (r: bool)
    ensures
        r == all_true(v@),
{
    let mut k: usize = 0;
    while k < v.len()
        invariant
            k <= v@.len(),
            forall|m: int| 0 <= m < k ==> v@[m],
        decreases v.len() - k,
    {
        if !v[k] {
            return false;
        }
        k += 1;
    }
    true
}

/// The parsed form of one unit.
pub struct UnitData {
    pub imports: Vec<ImportItem>,
    pub decls: Vec<Decl>,
    pub ok: bool,
    pub err_line: Option<usize>,
}

pub fn parse_unit(src: &Vec<u8>, defs: &Vec<Vec<u8>>) -> (u: UnitData)
    ensures
        ({
            let s = parse_unit_spec(src@, defs.deep_view());
            &&& u.imports.deep_view() == s.imports
            &&& u.decls.deep_view() == s.decls
            &&& u.ok == s.ok
            &&& opt_line_view(u.err_line) == s.err_line
        }),
{
    let lines = split_bytes_exec(src, 10);
    let ghost ldv = lines.deep_view();
    let ghost ddv = defs.deep_view();
    let mut imports: Vec<ImportItem> = Vec::new();
    let mut decls: Vec<Decl> = Vec::new();
    let mut stack: Vec<bool> = Vec::new();
    let mut ok: bool = true;
    let mut err_line: Option<usize> = None;
    let mut i: usize = 0;
    proof {
        assert(imports.deep_view() =~= Seq::<ImportV>::empty());
        assert(decls.deep_view() =~= Seq::<DeclV>::empty());
        assert(UnitV {
            imports: imports.deep_view(),
            decls: decls.deep_view(),
            stack: stack@,
            ok,
            err_line: opt_line_view(err_line),
        } =~= init_unit());
    }
    while i < lines.len()
        invariant
            i <= lines@.len(),
            ldv == lines.deep_view(),
            ddv == defs.deep_view(),
            unit_from(ldv, ddv, 0, init_unit()) == unit_from(
                ldv,
                ddv,
                i as int,
                UnitV {
                    imports: imports.deep_view(),
                    decls: decls.deep_view(),
                    stack: stack@,
                    ok,
                    err_line: opt_line_view(err_line),
                },
            ),
        decreases lines.len() - i,
    {
        let ghost pre = UnitV {
            imports: imports.deep_view(),
            decls: decls.deep_view(),
            stack: stack@,
            ok,
            err_line: opt_line_view(err_line),
        };
        proof {
            lemma_bytes_deep_view(lines@[i as int]);
        }
        let k = classify(&lines[i]);
        match k {
            LineKind::Blank => {},
            LineKind::Comment => {},
            LineKind::Import { name } => {
                let ghost nv = name@;
                imports.push(ImportItem { name, line: i });
                proof {
                    assert(imports.deep_view() =~= pre.imports.push(
                        ImportV { name: nv, line: i as int },
                    ));
                }
            },
            LineKind::Ifdef { sym } => {
                let active = contains_name(defs, &sym);
                stack.push(active);
            },
            LineKind::Endif => {
                if stack.len() > 0 {
                    stack.pop();
                } else {
                    ok = false;
                    if err_line.is_none() {
                        err_line = Some(i);
                    }
                }
            },
            LineKind::Decl { name, refs } => {
                if stack_all_true(&stack) {
                    let ghost nv = name@;
                    let ghost rv = refs.deep_view();
                    let text = clone_bytes(&lines[i]);
                    decls.push(Decl { name, refs, text, line: i });
                    proof {
                        assert(decls.deep_view() =~= pre.decls.push(
                            DeclV { name: nv, refs: rv, text: ldv[i as int], line: i as int },
                        ));
                    }
                }
            },
            LineKind::Invalid => {
                ok = false;
                if err_line.is_none() {
                    err_line = Some(i);
                }
            },
        }
        proof {
            let cur = UnitV {
                imports: imports.deep_view(),
                decls: decls.deep_view(),
                stack: stack@,
                ok,
                err_line: opt_line_view(err_line),
            };
            assert(cur =~= unit_step(pre, ldv[i as int], i as int, ddv));
        }
        i += 1;
    }
    if stack.len() > 0 {
        ok = false;
    }
    UnitData { imports, decls, ok, err_line }
}

} // verus!
