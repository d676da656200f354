//! The index renumbering itself: the classifier that maps an old call target
//! to its new one, the recursive call-site rewriter, the import synthesizer
//! and the export patcher, and the whole pass tying them together.

use vstd::prelude::*;
use crate::module::{
    bodies_view, body_view, exports_view, instr_view, Export, ExportRef, ExportRefV, ExportV,
    FuncImport, ImportV, Instr, InstrV, Module, ModuleV,
};
use crate::plan::{
    lemma_locate_targets_ok, lemma_plan_pos, locate_spec, names_view, plan_pos, plan_view,
    PlanEntry, PlanEntryV, RewriteError,
};

verus! {

/// Where a function index `t` points after the pass, with `i` existing
/// imported functions and the given plan: an index the plan converts is
/// redirected to its new import at `i` plus its plan position; any other
/// index at or past the import boundary — a local function left alone — is
/// shifted past the appended imports; an index of an existing import is
/// untouched. The same renumbering applies to call targets and to function
/// exports.
pub open spec fn new_target(t: int, i: int, plan: Seq<PlanEntryV>) -> int {
    let p = plan_pos(plan, t);
    if p >= 0 {
        i + p
    } else if t >= i {
        t + plan.len()
    } else {
        t
    }
}

/// One instruction after call-site rewriting: calls are retargeted through
/// [`new_target`], nested blocks are rewritten recursively, everything else
/// is untouched.
pub open spec fn rewrite_instr_v(ins: InstrV, i: int, plan: Seq<PlanEntryV>) -> InstrV
    decreases ins,
{
    match ins {
        InstrV::Block(b) => InstrV::Block(rewrite_body_v(b, i, plan)),
        InstrV::If(b) => InstrV::If(rewrite_body_v(b, i, plan)),
        InstrV::Loop(b) => InstrV::Loop(rewrite_body_v(b, i, plan)),
        InstrV::Call(t) => InstrV::Call(new_target(t, i, plan)),
        InstrV::Other => InstrV::Other,
    }
}

/// An instruction sequence after call-site rewriting, element by element.
pub open spec fn rewrite_body_v(b: Seq<InstrV>, i: int, plan: Seq<PlanEntryV>) -> Seq<InstrV>
    decreases b,
{
    Seq::new(
        b.len(),
        |k: int| if 0 <= k < b.len() {
            rewrite_instr_v(b[k], i, plan)
        } else {
            InstrV::Other
        },
    )
}

/// Every call target anywhere in the instruction tree, nested blocks
/// included, satisfies `p`.
pub open spec fn instr_calls_ok(ins: InstrV, p: spec_fn(int) -> bool) -> bool
    decreases ins,
{
    match ins {
        InstrV::Block(b) => body_calls_ok(b, p),
        InstrV::If(b) => body_calls_ok(b, p),
        InstrV::Loop(b) => body_calls_ok(b, p),
        InstrV::Call(t) => p(t),
        InstrV::Other => true,
    }
}

/// Every call target anywhere in the instruction sequence satisfies `p`.
pub open spec fn body_calls_ok(b: Seq<InstrV>, p: spec_fn(int) -> bool) -> bool
    decreases b,
{
    forall|k: int| 0 <= k < b.len() ==> instr_calls_ok(#[trigger] b[k], p)
}

/// The predicate that a call target lies in the index space `[0, bound)`.
pub open spec fn within(bound: int) -> spec_fn(int) -> bool {
    |t: int| 0 <= t < bound
}

/// Every call target anywhere in the instruction sequence lies in
/// `[0, bound)`.
pub open spec fn body_calls_within(b: Seq<InstrV>, bound: int) -> bool {
    body_calls_ok(b, within(bound))
}

/// One export entry after patching: the function index is renumbered by
/// [`new_target`] — an export of a converted function is redirected to its
/// new import, any other function export at or past the import boundary is
/// shifted past the appended imports. Non-function exports are untouched.
pub open spec fn patch_export_v(e: ExportV, i: int, plan: Seq<PlanEntryV>) -> ExportV {
    match e.target {
        ExportRefV::Function(f) => ExportV {
            name: e.name,
            target: ExportRefV::Function(new_target(f, i, plan)),
        },
        _ => e,
    }
}

/// The import synthesized for one plan entry: the fixed host module name, the
/// export's field name, and the original function's type reference.
pub open spec fn synthesized_import(e: PlanEntryV, host: Seq<char>) -> ImportV {
    ImportV { module_name: host, field: e.name, type_ref: e.type_ref }
}

/// The module after import synthesis: one import appended per plan entry, in
/// plan order; every other section untouched.
pub open spec fn synthesize_spec(m: ModuleV, plan: Seq<PlanEntryV>, host: Seq<char>) -> ModuleV {
    ModuleV {
        imports: Some(
            m.imports.unwrap() + plan.map_values(|e: PlanEntryV| synthesized_import(e, host)),
        ),
        functions: m.functions,
        exports: m.exports,
        bodies: m.bodies,
    }
}

/// The module after the whole plan is applied: imports synthesized, every
/// function body rewritten, every export patched. The function-definition
/// table is untouched.
pub open spec fn apply_plan_spec(m: ModuleV, plan: Seq<PlanEntryV>, host: Seq<char>) -> ModuleV {
    let i = m.imports.unwrap().len() as int;
    let m1 = synthesize_spec(m, plan, host);
    ModuleV {
        imports: m1.imports,
        functions: m.functions,
        exports: Some(m.exports.unwrap().map_values(|e: ExportV| patch_export_v(e, i, plan))),
        bodies: match m.bodies {
            Some(bs) => Some(bs.map_values(|b: Seq<InstrV>| rewrite_body_v(b, i, plan))),
            None => None,
        },
    }
}

/// The whole pass: an empty target list leaves the module untouched;
/// otherwise the plan is located (failing fast, before any mutation) and then
/// applied.
pub open spec fn rewrite_spec(
    m: ModuleV,
    targets: Seq<Seq<char>>,
    host: Seq<char>,
) -> Result<ModuleV, RewriteError> {
    if targets.len() == 0 {
        Ok(m)
    } else {
        match locate_spec(m, targets) {
            Ok(plan) => Ok(apply_plan_spec(m, plan, host)),
            Err(e) => Err(e),
        }
    }
}

/// What the machine forces on a run of the pass over `tlen` target names:
/// the enlarged index space must fit in the `u32` a call instruction carries,
/// and every call target and function export must lie in the current index
/// space. An empty target list runs on any module; so does a module whose
/// missing sections make the pass fail before mutating anything.
pub open spec fn rewrite_pre(m: ModuleV, tlen: int) -> bool {
    tlen == 0 || match (m.imports, m.functions) {
        (Some(imps), Some(fs)) => {
            let bound = (imps.len() + fs.len()) as int;
            &&& bound + tlen <= u32::MAX
            &&& (m.bodies matches Some(bs) ==> forall|k: int|
                0 <= k < bs.len() ==> body_calls_within(#[trigger] bs[k], bound))
            &&& (m.exports matches Some(es) ==> forall|k: int|
                0 <= k < es.len() ==> ((#[trigger] es[k]).target matches ExportRefV::Function(f)
                    ==> 0 <= f < bound))
        },
        _ => true,
    }
}

/// The position in the plan of the first entry converting the function at
/// index `t`, or `None` if the plan does not convert it.
fn find_plan_pos(inserts: &Vec<PlanEntry>, t: u32) -> (r: Option<usize>)
    ensures
        match r {
            Some(q) => q == plan_pos(plan_view(inserts@), t as int),
            None => plan_pos(plan_view(inserts@), t as int) == -1,
        },
{
    let ghost plan = plan_view(inserts@);
    proof {
        lemma_plan_pos(plan, t as int);
        assert(plan.len() == inserts@.len());
    }
    let mut k: usize = 0;
    while k < inserts.len()
        invariant
            k <= inserts@.len(),
            plan == plan_view(inserts@),
            plan.len() == inserts@.len(),
            -1 <= plan_pos(plan, t as int) < plan.len(),
            plan_pos(plan, t as int) >= 0 ==> plan[plan_pos(plan, t as int)].original_index
                == t as int,
            plan_pos(plan, t as int) == -1 ==> forall|j: int|
                0 <= j < plan.len() ==> (#[trigger] plan[j]).original_index != t as int,
            forall|j: int| 0 <= j < k ==> (#[trigger] plan[j]).original_index != t as int,
        decreases inserts@.len() - k,
    {
        if inserts[k].original_index == t {
            proof {
                assert(plan[k as int] == inserts@[k as int]@);
                lemma_plan_pos(plan, t as int);
            }
            return Some(k);
        }
        proof {
            assert(plan[k as int] == inserts@[k as int]@);
        }
        k += 1;
    }
    None
}

/// The index classifier as executable code: where a call that used to target
/// `call_index` targets after the pass. The preconditions say only that the
/// shifted indices still fit in a `u32`.
pub fn new_call_index(call_index: u32, original_imports: usize, inserts: &Vec<PlanEntry>) -> (r:
    u32)
    requires
        original_imports + inserts@.len() <= u32::MAX,
        call_index + inserts@.len() <= u32::MAX,
    ensures
        r as int == new_target(call_index as int, original_imports as int, plan_view(inserts@)),
{
    proof {
        lemma_plan_pos(plan_view(inserts@), call_index as int);
    }
    match find_plan_pos(inserts, call_index) {
        Some(p) => (original_imports + p) as u32,
        None => {
            if (call_index as usize) >= original_imports {
                call_index + (inserts.len() as u32)
            } else {
                call_index
            }
        },
    }
}

/// The call-site rewriter: rewrites every direct call in the instruction
/// sequence, recursing into nested block, conditional and loop bodies, so
/// that each call target is renumbered by [`new_target`]. The preconditions
/// say only that the shifted indices still fit in a `u32`.
pub fn update_call_index(instrs: &Vec<Instr>, original_imports: usize, inserts: &Vec<PlanEntry>)
    -> (out: Vec<Instr>)
    requires
        original_imports + inserts@.len() <= u32::MAX,
        body_calls_within(body_view(instrs@), u32::MAX + 1 - inserts@.len()),
    ensures
        body_view(out@) == rewrite_body_v(
            body_view(instrs@),
            original_imports as int,
            plan_view(inserts@),
        ),
    decreases instrs@,
{
    let ghost bv = body_view(instrs@);
    let ghost plan = plan_view(inserts@);
    let ghost i = original_imports as int;
    let ghost bound = u32::MAX + 1 - inserts@.len();
    let mut out: Vec<Instr> = Vec::new();
    let mut k: usize = 0;
    while k < instrs.len()
        invariant
            k <= instrs@.len(),
            out@.len() == k,
            bv == body_view(instrs@),
            plan == plan_view(inserts@),
            i == original_imports as int,
            bound == u32::MAX + 1 - inserts@.len(),
            original_imports + inserts@.len() <= u32::MAX,
            body_calls_within(body_view(instrs@), bound),
            forall|j: int|
                0 <= j < k ==> instr_view(out@[j]) == rewrite_instr_v(bv[j], i, plan),
        decreases instrs@.len() - k,
    {
        proof {
            assert(bv[k as int] == instr_view(instrs@[k as int]));
            assert(instr_calls_ok(bv[k as int], within(bound)));
        }
        match &instrs[k] {
            Instr::Block(b) => {
                proof {
                    assert(decreases_to!(instrs@ => instrs@[k as int]));
                    assert(decreases_to!(instrs@[k as int] => instrs@[k as int]->Block_0));
                    assert(*b == instrs@[k as int]->Block_0);
                    assert(decreases_to!(*b => b@));
                }
                let nb = update_call_index(b, original_imports, inserts);
                out.push(Instr::Block(nb));
            },
            Instr::If(b) => {
                proof {
                    assert(decreases_to!(instrs@ => instrs@[k as int]));
                    assert(decreases_to!(instrs@[k as int] => instrs@[k as int]->If_0));
                    assert(*b == instrs@[k as int]->If_0);
                    assert(decreases_to!(*b => b@));
                }
                let nb = update_call_index(b, original_imports, inserts);
                out.push(Instr::If(nb));
            },
            Instr::Loop(b) => {
                proof {
                    assert(decreases_to!(instrs@ => instrs@[k as int]));
                    assert(decreases_to!(instrs@[k as int] => instrs@[k as int]->Loop_0));
                    assert(*b == instrs@[k as int]->Loop_0);
                    assert(decreases_to!(*b => b@));
                }
                let nb = update_call_index(b, original_imports, inserts);
                out.push(Instr::Loop(nb));
            },
            Instr::Call(t) => {
                proof {
                    let tt = *t as int;
                    assert(within(bound)(tt));
                    assert(0 <= tt && tt < bound);
                }
                let nt = new_call_index(*t, original_imports, inserts);
                out.push(Instr::Call(nt));
            },
            Instr::Other => {
                out.push(Instr::Other);
            },
        }
        k += 1;
    }
    proof {
        assert(body_view(out@) =~= rewrite_body_v(bv, i, plan));
    }
    out
}

/// A bound on every call target of an instruction can be weakened.
pub proof fn lemma_instr_calls_ok_weaken(ins: InstrV, p: spec_fn(int) -> bool, q: spec_fn(int) -> bool)
    requires
        instr_calls_ok(ins, p),
        forall|t: int| #[trigger] p(t) ==> q(t),
    ensures
        instr_calls_ok(ins, q),
    decreases ins,
{
    match ins {
        InstrV::Block(b) => lemma_body_calls_ok_weaken(b, p, q),
        InstrV::If(b) => lemma_body_calls_ok_weaken(b, p, q),
        InstrV::Loop(b) => lemma_body_calls_ok_weaken(b, p, q),
        InstrV::Call(t) => {
            assert(p(t));
        },
        InstrV::Other => {},
    }
}

/// A bound on every call target of an instruction sequence can be weakened.
pub proof fn lemma_body_calls_ok_weaken(b: Seq<InstrV>, p: spec_fn(int) -> bool, q: spec_fn(int) -> bool)
    requires
        body_calls_ok(b, p),
        forall|t: int| #[trigger] p(t) ==> q(t),
    ensures
        body_calls_ok(b, q),
    decreases b,
{
    assert forall|k: int| 0 <= k < b.len() implies instr_calls_ok(#[trigger] b[k], q) by {
        assert(instr_calls_ok(b[k], p));
        lemma_instr_calls_ok_weaken(b[k], p, q);
    }
}

/// The import synthesizer: appends, in plan order, one new import per plan
/// entry — the fixed host module name, the export's field name, and the
/// original function's type reference. Purely additive: nothing already in
/// the module is removed or reordered.
pub fn synthesize_imports(m: Module, plan: &Vec<PlanEntry>, host_module: &String) -> (out: Module)
    requires
        m@.imports is Some,
    ensures
        out@ == synthesize_spec(m@, plan_view(plan@), host_module@),
{
    let ghost m0 = m@;
    let ghost pv = plan_view(plan@);
    let Module { imports, functions, exports, bodies } = m;
    let mut imps: Vec<FuncImport> = match imports {
        Some(v) => v,
        None => {
            proof {
                assert(false);
            }
            Vec::new()
        },
    };
    let ghost base = imps@;
    let mut k: usize = 0;
    while k < plan.len()
        invariant
            k <= plan@.len(),
            pv == plan_view(plan@),
            pv.len() == plan@.len(),
            imps@.len() == base.len() + k,
            forall|j: int| 0 <= j < base.len() ==> imps@[j] == base[j],
            forall|j: int| 0 <= j < k ==> (#[trigger] imps@[base.len() + j])@
                == synthesized_import(pv[j], host_module@),
        decreases plan@.len() - k,
    {
        let entry = &plan[k];
        proof {
            assert(pv[k as int] == plan@[k as int]@);
        }
        imps.push(FuncImport {
            module_name: host_module.clone(),
            field: entry.name.clone(),
            type_ref: entry.type_ref,
        });
        k += 1;
    }
    let out = Module { imports: Some(imps), functions, exports, bodies };
    proof {
        let appended = pv.map_values(|e: PlanEntryV| synthesized_import(e, host_module@));
        assert(m0.imports == Some(crate::module::imports_view(base)));
        assert forall|j: int| 0 <= j < imps@.len() implies crate::module::imports_view(imps@)[j]
            == (m0.imports.unwrap() + appended)[j] by {
            if j < base.len() {
                assert(imps@[j] == base[j]);
            } else {
                assert(imps@[base.len() + (j - base.len())]@
                    == synthesized_import(pv[j - base.len()], host_module@));
            }
        }
        assert(crate::module::imports_view(imps@) =~= m0.imports.unwrap() + appended);
        assert(out@ =~~= synthesize_spec(m0, pv, host_module@));
    }
    out
}

/// The export patcher: redirects the export of every converted function to
/// its new import, shifts every other function export at or past the import
/// boundary by the number of appended imports, and leaves exports of existing
/// imports, and non-function exports, untouched. The preconditions say only
/// that the renumbered indices still fit in a `u32`.
pub fn patch_exports(exports: Vec<Export>, original_imports: usize, inserts: &Vec<PlanEntry>)
    -> (out: Vec<Export>)
    requires
        original_imports + inserts@.len() <= u32::MAX,
        forall|k: int| 0 <= k < exports@.len()
            ==> ((#[trigger] exports_view(exports@)[k]).target matches ExportRefV::Function(f)
            ==> 0 <= f && f + inserts@.len() <= u32::MAX),
    ensures
        exports_view(out@) == exports_view(exports@).map_values(
            |e: ExportV| patch_export_v(e, original_imports as int, plan_view(inserts@)),
        ),
{
    let ghost es0 = exports_view(exports@);
    let ghost i = original_imports as int;
    let ghost pv = plan_view(inserts@);
    let total = exports.len();
    let mut src = exports;
    let mut out: Vec<Export> = Vec::new();
    let mut k: usize = 0;
    while src.len() > 0
        invariant
            k + src@.len() == total,
            total == es0.len(),
            out@.len() == k,
            i == original_imports as int,
            pv == plan_view(inserts@),
            original_imports + inserts@.len() <= u32::MAX,
            forall|j: int| 0 <= j < es0.len()
                ==> ((#[trigger] es0[j]).target matches ExportRefV::Function(f)
                ==> 0 <= f && f + inserts@.len() <= u32::MAX),
            forall|j: int| 0 <= j < src@.len() ==> (#[trigger] src@[j])@ == es0[k + j],
            forall|j: int| 0 <= j < k ==> (#[trigger] out@[j])@ == patch_export_v(es0[j], i, pv),
        decreases src@.len(),
    {
        let ghost src_old = src@;
        let e = src.remove(0);
        proof {
            assert(e == src_old[0]);
            assert(e@ == es0[k as int]);
            assert forall|j: int| 0 <= j < src@.len() implies (#[trigger] src@[j])@
                == es0[k + 1 + j] by {
                assert(src@[j] == src_old[j + 1]);
            }
        }
        let Export { name, target } = e;
        let patched = match target {
            ExportRef::Function(f) => {
                proof {
                    assert(es0[k as int].target == ExportRefV::Function(f as int));
                }
                ExportRef::Function(new_call_index(f, original_imports, inserts))
            },
            other => other,
        };
        out.push(Export { name, target: patched });
        proof {
            assert(out@[k as int]@ == patch_export_v(es0[k as int], i, pv));
        }
        k += 1;
    }
    proof {
        assert(exports_view(out@) =~= es0.map_values(|e: ExportV| patch_export_v(e, i, pv)));
    }
    out
}

/// The export patcher for a single function index, as executable code: where
/// a function export that recorded `f` points after the pass — redirected to
/// the new import when the plan converts the function at `f`, shifted past
/// the appended imports otherwise when at or past the import boundary. The
/// preconditions say only that the renumbered index still fits in a `u32`.
pub fn patched_export_index(f: u32, original_imports: usize, inserts: &Vec<PlanEntry>) -> (r: u32)
    requires
        original_imports + inserts@.len() <= u32::MAX,
        f + inserts@.len() <= u32::MAX,
    ensures
        r as int == new_target(f as int, original_imports as int, plan_view(inserts@)),
{
    new_call_index(f, original_imports, inserts)
}

/// The call-site rewriter over a whole code section: every function body is
/// rewritten independently with the same import count and plan.
fn rewrite_bodies(bodies: &Vec<Vec<Instr>>, original_imports: usize, inserts: &Vec<PlanEntry>)
    -> (out: Vec<Vec<Instr>>)
    requires
        original_imports + inserts@.len() <= u32::MAX,
        forall|k: int| 0 <= k < bodies@.len() ==> body_calls_within(
            #[trigger] bodies_view(bodies@)[k],
            u32::MAX + 1 - inserts@.len(),
        ),
    ensures
        bodies_view(out@) == bodies_view(bodies@).map_values(
            |b: Seq<InstrV>| rewrite_body_v(b, original_imports as int, plan_view(inserts@)),
        ),
{
    let ghost bs0 = bodies_view(bodies@);
    let ghost i = original_imports as int;
    let ghost plan = plan_view(inserts@);
    let mut out: Vec<Vec<Instr>> = Vec::new();
    let mut k: usize = 0;
    while k < bodies.len()
        invariant
            k <= bodies@.len(),
            out@.len() == k,
            bs0 == bodies_view(bodies@),
            bs0.len() == bodies@.len(),
            i == original_imports as int,
            plan == plan_view(inserts@),
            original_imports + inserts@.len() <= u32::MAX,
            forall|j: int| 0 <= j < bodies@.len() ==> body_calls_within(
                #[trigger] bs0[j],
                u32::MAX + 1 - inserts@.len(),
            ),
            forall|j: int| 0 <= j < k ==> body_view((#[trigger] out@[j])@)
                == rewrite_body_v(bs0[j], i, plan),
        decreases bodies@.len() - k,
    {
        proof {
            assert(bs0[k as int] == body_view(bodies@[k as int]@));
        }
        let nb = update_call_index(&bodies[k], original_imports, inserts);
        out.push(nb);
        k += 1;
    }
    proof {
        assert(bodies_view(out@) =~= bs0.map_values(|b: Seq<InstrV>| rewrite_body_v(b, i, plan)));
    }
    out
}

/// The whole pass: locate every target export (failing fast, before any
/// mutation), append one import per target, rewrite every call site in every
/// function body, and patch the export table. An empty target list returns
/// the module unchanged. The precondition says only that the module's call
/// targets and function exports lie in its own index space and that the
/// enlarged space still fits in a `u32`.
pub fn rewrite(m: Module, targets: &Vec<String>, host_module: &String) -> (r: Result<
    Module,
    RewriteError,
>)
    requires
        rewrite_pre(m@, targets@.len() as int),
    ensures
        targets@.len() == 0 ==> r == Ok::<Module, RewriteError>(m),
        match r {
            Ok(out) => rewrite_spec(m@, names_view(targets@), host_module@) == Ok::<
                ModuleV,
                RewriteError,
            >(out@),
            Err(e) => rewrite_spec(m@, names_view(targets@), host_module@) == Err::<
                ModuleV,
                RewriteError,
            >(e),
        },
{
    if targets.len() == 0 {
        return Ok(m);
    }
    let ghost m0 = m@;
    let ghost tv = names_view(targets@);
    proof {
        assert(tv.len() == targets@.len());
    }
    let plan = match crate::plan::build_plan(&m, targets) {
        Ok(p) => p,
        Err(e) => {
            return Err(e);
        },
    };
    let ghost pv = plan_view(plan@);
    proof {
        assert(m0.imports is Some);
        assert(m0.exports is Some);
        assert(m0.functions is Some);
    }
    let original_imports = match &m.imports {
        Some(v) => v.len(),
        None => {
            proof {
                assert(false);
            }
            0
        },
    };
    let ghost i = original_imports as int;
    let ghost l = m0.functions.unwrap().len() as int;
    let ghost bound = i + l;
    proof {
        lemma_locate_targets_ok(i, m0.functions.unwrap(), m0.exports.unwrap(), tv, pv);
        assert(pv.len() == tv.len());
    }
    let m2 = synthesize_imports(m, &plan, host_module);
    let Module { imports, functions, exports, bodies } = m2;
    let new_bodies: Option<Vec<Vec<Instr>>> = match bodies {
        Some(bs) => {
            proof {
                assert(m0.bodies == Some(bodies_view(bs@)));
                assert forall|j: int| 0 <= j < bs@.len() implies body_calls_within(
                    #[trigger] bodies_view(bs@)[j],
                    u32::MAX + 1 - plan@.len(),
                ) by {
                    assert(body_calls_within(bodies_view(bs@)[j], bound));
                    assert forall|t: int| #[trigger] within(bound)(t) implies within(
                        u32::MAX + 1 - plan@.len(),
                    )(t) by {
                        assert(0 <= t < bound);
                    }
                    lemma_body_calls_ok_weaken(
                        bodies_view(bs@)[j],
                        within(bound),
                        within(u32::MAX + 1 - plan@.len()),
                    );
                }
            }
            let nb = rewrite_bodies(&bs, original_imports, &plan);
            Some(nb)
        },
        None => None,
    };
    let new_exports: Option<Vec<Export>> = match exports {
        Some(es) => {
            proof {
                assert(m0.exports == Some(exports_view(es@)));
            }
            Some(patch_exports(es, original_imports, &plan))
        },
        None => {
            proof {
                assert(false);
            }
            None
        },
    };
    let out = Module { imports, functions, exports: new_exports, bodies: new_bodies };
    proof {
        assert(out@ =~~= apply_plan_spec(m0, pv, host_module@));
        assert(rewrite_spec(m0, tv, host_module@) == Ok::<ModuleV, RewriteError>(out@));
    }
    Ok(out)
}

} // verus!
