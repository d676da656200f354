//! The guarantees of the pass, stated against the specification functions
//! that the executable functions are proved to implement.

use vstd::prelude::*;
use crate::module::{ExportRefV, InstrV, ModuleV};
use crate::plan::{
    in_plan, lemma_locate_targets_ok, lemma_plan_pos, locate_spec, plan_pos, PlanEntryV,
    RewriteError,
};
use crate::rewire::{
    apply_plan_spec, body_calls_ok, body_calls_within, instr_calls_ok, new_target,
    rewrite_body_v, rewrite_instr_v, synthesized_import, within,
};

verus! {

/// Every plan entry converts a locally defined function: its original index
/// lies in `[i, i + l)`, the local half of the index space.
pub open spec fn plan_wf(plan: Seq<PlanEntryV>, i: int, l: int) -> bool {
    forall|k: int| 0 <= k < plan.len() ==> i <= (#[trigger] plan[k]).original_index < i + l
}

/// Index-space partition, at the level of one function index: after
/// renumbering, a target `t2` lies below `i` exactly when it was an untouched
/// original import, in `[i, i + n)` exactly when the plan converts the
/// function (and then at `i` plus its plan position), and at or past `i + n`
/// exactly when it was a local function left alone, shifted by `n`. The union
/// covers every call: `t2` always lies inside the enlarged index space.
pub proof fn lemma_new_target_partition(t: int, i: int, l: int, plan: Seq<PlanEntryV>)
    requires
        0 <= i,
        0 <= l,
        0 <= t < i + l,
        plan_wf(plan, i, l),
    ensures
        ({
            let t2 = new_target(t, i, plan);
            let n = plan.len() as int;
            &&& 0 <= t2 < i + n + l
            &&& (t2 < i <==> t < i && !in_plan(plan, t))
            &&& (i <= t2 < i + n <==> in_plan(plan, t))
            &&& (i + n <= t2 <==> i <= t && !in_plan(plan, t))
            &&& (in_plan(plan, t) ==> t2 == i + plan_pos(plan, t))
            &&& (!in_plan(plan, t) && t < i ==> t2 == t)
            &&& (!in_plan(plan, t) && t >= i ==> t2 == t + plan.len())
        }),
{
    lemma_plan_pos(plan, t);
}

/// Whatever holds of every call target before rewriting, its image under
/// [`new_target`] holds of every call target afterwards — at any nesting
/// depth of the instruction tree.
pub proof fn lemma_instr_calls_map(
    ins: InstrV,
    i: int,
    plan: Seq<PlanEntryV>,
    p: spec_fn(int) -> bool,
    q: spec_fn(int) -> bool,
)
    requires
        instr_calls_ok(ins, p),
        forall|t: int| #[trigger] p(t) ==> q(new_target(t, i, plan)),
    ensures
        instr_calls_ok(rewrite_instr_v(ins, i, plan), q),
    decreases ins,
{
    match ins {
        InstrV::Block(b) => lemma_body_calls_map(b, i, plan, p, q),
        InstrV::If(b) => lemma_body_calls_map(b, i, plan, p, q),
        InstrV::Loop(b) => lemma_body_calls_map(b, i, plan, p, q),
        InstrV::Call(t) => {
            assert(p(t));
        },
        InstrV::Other => {},
    }
}

/// [`lemma_instr_calls_map`], over an instruction sequence.
pub proof fn lemma_body_calls_map(
    b: Seq<InstrV>,
    i: int,
    plan: Seq<PlanEntryV>,
    p: spec_fn(int) -> bool,
    q: spec_fn(int) -> bool,
)
    requires
        body_calls_ok(b, p),
        forall|t: int| #[trigger] p(t) ==> q(new_target(t, i, plan)),
    ensures
        body_calls_ok(rewrite_body_v(b, i, plan), q),
    decreases b,
{
    let rb = rewrite_body_v(b, i, plan);
    assert forall|k: int| 0 <= k < rb.len() implies instr_calls_ok(#[trigger] rb[k], q) by {
        assert(rb[k] == rewrite_instr_v(b[k], i, plan));
        assert(instr_calls_ok(b[k], p));
        lemma_instr_calls_map(b[k], i, plan, p, q);
    }
}

/// Index-space partition, over a whole body: if every call target of a body
/// lies in the original index space `[0, i + l)`, then after rewriting
/// against a well-formed plan every call target — however deeply nested —
/// lies in the enlarged index space `[0, i + n + l)`. No call ends up
/// pointing outside the new function tables.
pub proof fn lemma_index_space_partition(b: Seq<InstrV>, i: int, l: int, plan: Seq<PlanEntryV>)
    requires
        0 <= i,
        0 <= l,
        plan_wf(plan, i, l),
        body_calls_within(b, i + l),
    ensures
        body_calls_within(rewrite_body_v(b, i, plan), i + plan.len() + l),
{
    let n = plan.len() as int;
    assert forall|t: int| #[trigger] within(i + l)(t) implies within(i + n + l)(
        new_target(t, i, plan),
    ) by {
        lemma_plan_pos(plan, t);
    }
    lemma_body_calls_map(b, i, plan, within(i + l), within(i + n + l));
}

/// Index-space partition, over a whole module: if every call target of every
/// body lies in the module's own index space, then applying a plan located
/// against that module leaves every call target of every rewritten body
/// inside the enlarged index space `[0, i + n + l)`.
pub proof fn lemma_module_index_space_partition(
    m: ModuleV,
    targets: Seq<Seq<char>>,
    host: Seq<char>,
    plan: Seq<PlanEntryV>,
)
    requires
        locate_spec(m, targets) == Ok::<Seq<PlanEntryV>, RewriteError>(plan),
        m.bodies matches Some(bs) ==> forall|k: int|
            0 <= k < bs.len() ==> body_calls_within(
                #[trigger] bs[k],
                (m.imports.unwrap().len() + m.functions.unwrap().len()) as int,
            ),
    ensures
        ({
            let i = m.imports.unwrap().len() as int;
            let l = m.functions.unwrap().len() as int;
            let n = plan.len() as int;
            apply_plan_spec(m, plan, host).bodies matches Some(bs2) ==> forall|k: int|
                0 <= k < bs2.len() ==> body_calls_within(#[trigger] bs2[k], i + n + l)
        }),
{
    let i = m.imports.unwrap().len() as int;
    let l = m.functions.unwrap().len() as int;
    let n = plan.len() as int;
    lemma_locate_targets_ok(i, m.functions.unwrap(), m.exports.unwrap(), targets, plan);
    if m.bodies is Some {
        let bs = m.bodies.unwrap();
        let bs2 = apply_plan_spec(m, plan, host).bodies.unwrap();
        assert forall|k: int| 0 <= k < bs2.len() implies body_calls_within(
            #[trigger] bs2[k],
            i + n + l,
        ) by {
            assert(bs2[k] == rewrite_body_v(bs[k], i, plan));
            assert(body_calls_within(bs[k], i + l));
            lemma_index_space_partition(bs[k], i, l, plan);
        }
    }
}

/// An instruction wrapped `depth` levels deep in alternating nested loop,
/// conditional and block bodies, each holding just that one instruction.
pub open spec fn nest(ins: InstrV, depth: nat) -> InstrV
    decreases depth,
{
    if depth == 0 {
        ins
    } else {
        let inner = nest(ins, (depth - 1) as nat);
        if depth % 3 == 0 {
            InstrV::Block(seq![inner])
        } else if depth % 3 == 1 {
            InstrV::If(seq![inner])
        } else {
            InstrV::Loop(seq![inner])
        }
    }
}

/// Rewriting commutes with nesting: rewriting an instruction wrapped in any
/// depth of block, conditional and loop bodies wraps the rewritten
/// instruction to the same depth.
pub proof fn lemma_rewrite_commutes_with_nesting(
    ins: InstrV,
    depth: nat,
    i: int,
    plan: Seq<PlanEntryV>,
)
    ensures
        rewrite_instr_v(nest(ins, depth), i, plan) == nest(rewrite_instr_v(ins, i, plan), depth),
    decreases depth,
{
    if depth > 0 {
        let inner = nest(ins, (depth - 1) as nat);
        lemma_rewrite_commutes_with_nesting(ins, (depth - 1) as nat, i, plan);
        assert(rewrite_body_v(seq![inner], i, plan) =~= seq![rewrite_instr_v(inner, i, plan)]);
    }
}

/// Recursion completeness: a call nested arbitrarily deep inside nested
/// block, conditional and loop bodies is rewritten exactly as a top-level
/// call with the same target index — to [`new_target`] of that index.
pub proof fn lemma_recursion_completeness(t: int, depth: nat, i: int, plan: Seq<PlanEntryV>)
    ensures
        rewrite_instr_v(nest(InstrV::Call(t), depth), i, plan) == nest(
            InstrV::Call(new_target(t, i, plan)),
            depth,
        ),
{
    lemma_rewrite_commutes_with_nesting(InstrV::Call(t), depth, i, plan);
}

/// Plan-order determinism: the plan located for a target list has one entry
/// per target, in target order, and applying it gives the entry at position
/// `p` the new import index `i + p` — the import table afterwards holds, at
/// exactly that index, the synthesized import carrying the target's name.
pub proof fn lemma_plan_order_determinism(
    m: ModuleV,
    targets: Seq<Seq<char>>,
    host: Seq<char>,
    plan: Seq<PlanEntryV>,
    p: int,
)
    requires
        locate_spec(m, targets) == Ok::<Seq<PlanEntryV>, RewriteError>(plan),
        0 <= p < plan.len(),
    ensures
        ({
            let i = m.imports.unwrap().len() as int;
            let m2 = apply_plan_spec(m, plan, host);
            &&& plan.len() == targets.len()
            &&& plan[p].name == targets[p]
            &&& m2.imports.unwrap().len() == i + plan.len()
            &&& m2.imports.unwrap()[i + p] == synthesized_import(plan[p], host)
            &&& m2.imports.unwrap()[i + p].field == targets[p]
        }),
{
    let i = m.imports.unwrap().len() as int;
    lemma_locate_targets_ok(i, m.functions.unwrap(), m.exports.unwrap(), targets, plan);
}

/// A call instruction with target `t` occurs somewhere in the instruction
/// tree, nested blocks included.
pub open spec fn instr_has_call(ins: InstrV, t: int) -> bool
    decreases ins,
{
    match ins {
        InstrV::Block(b) => body_has_call(b, t),
        InstrV::If(b) => body_has_call(b, t),
        InstrV::Loop(b) => body_has_call(b, t),
        InstrV::Call(u) => u == t,
        InstrV::Other => false,
    }
}

/// A call instruction with target `t` occurs somewhere in the instruction
/// sequence.
pub open spec fn body_has_call(b: Seq<InstrV>, t: int) -> bool
    decreases b,
{
    exists|k: int| 0 <= k < b.len() && instr_has_call(#[trigger] b[k], t)
}

/// No call is missed: a call with target `t`, wherever it sits in the tree —
/// under any mix of nested blocks, with any siblings — reappears in the
/// rewritten tree with target [`new_target`] of `t`.
pub proof fn lemma_instr_call_rewritten(ins: InstrV, i: int, plan: Seq<PlanEntryV>, t: int)
    requires
        instr_has_call(ins, t),
    ensures
        instr_has_call(rewrite_instr_v(ins, i, plan), new_target(t, i, plan)),
    decreases ins,
{
    match ins {
        InstrV::Block(b) => lemma_body_call_rewritten(b, i, plan, t),
        InstrV::If(b) => lemma_body_call_rewritten(b, i, plan, t),
        InstrV::Loop(b) => lemma_body_call_rewritten(b, i, plan, t),
        InstrV::Call(u) => {},
        InstrV::Other => {},
    }
}

/// [`lemma_instr_call_rewritten`], over an instruction sequence.
pub proof fn lemma_body_call_rewritten(b: Seq<InstrV>, i: int, plan: Seq<PlanEntryV>, t: int)
    requires
        body_has_call(b, t),
    ensures
        body_has_call(rewrite_body_v(b, i, plan), new_target(t, i, plan)),
    decreases b,
{
    let k = choose|k: int| 0 <= k < b.len() && instr_has_call(#[trigger] b[k], t);
    lemma_instr_call_rewritten(b[k], i, plan, t);
    let rb = rewrite_body_v(b, i, plan);
    assert(rb[k] == rewrite_instr_v(b[k], i, plan));
    assert(instr_has_call(rb[k], new_target(t, i, plan)));
}

/// No call is invented: every call target in a rewritten tree is
/// [`new_target`] of a call that stood somewhere in the original tree.
pub proof fn lemma_instr_call_origin(ins: InstrV, i: int, plan: Seq<PlanEntryV>, t2: int)
    requires
        instr_has_call(rewrite_instr_v(ins, i, plan), t2),
    ensures
        exists|t: int| instr_has_call(ins, t) && t2 == new_target(t, i, plan),
    decreases ins,
{
    match ins {
        InstrV::Block(b) => {
            lemma_body_call_origin(b, i, plan, t2);
            let t = choose|t: int| body_has_call(b, t) && t2 == new_target(t, i, plan);
            assert(instr_has_call(ins, t) && t2 == new_target(t, i, plan));
        },
        InstrV::If(b) => {
            lemma_body_call_origin(b, i, plan, t2);
            let t = choose|t: int| body_has_call(b, t) && t2 == new_target(t, i, plan);
            assert(instr_has_call(ins, t) && t2 == new_target(t, i, plan));
        },
        InstrV::Loop(b) => {
            lemma_body_call_origin(b, i, plan, t2);
            let t = choose|t: int| body_has_call(b, t) && t2 == new_target(t, i, plan);
            assert(instr_has_call(ins, t) && t2 == new_target(t, i, plan));
        },
        InstrV::Call(u) => {
            assert(instr_has_call(ins, u) && t2 == new_target(u, i, plan));
        },
        InstrV::Other => {},
    }
}

/// [`lemma_instr_call_origin`], over an instruction sequence.
pub proof fn lemma_body_call_origin(b: Seq<InstrV>, i: int, plan: Seq<PlanEntryV>, t2: int)
    requires
        body_has_call(rewrite_body_v(b, i, plan), t2),
    ensures
        exists|t: int| body_has_call(b, t) && t2 == new_target(t, i, plan),
    decreases b,
{
    let rb = rewrite_body_v(b, i, plan);
    let k = choose|k: int| 0 <= k < rb.len() && instr_has_call(#[trigger] rb[k], t2);
    assert(rb[k] == rewrite_instr_v(b[k], i, plan));
    lemma_instr_call_origin(b[k], i, plan, t2);
    let t = choose|t: int| instr_has_call(b[k], t) && t2 == new_target(t, i, plan);
    assert(instr_has_call(b[k], t));
    assert(body_has_call(b, t) && t2 == new_target(t, i, plan));
}

/// Plan-order determinism at any depth: a call, however deeply nested and
/// with any siblings, whose target is converted by plan entry `p` — the first
/// entry for that index — reappears redirected to exactly `i + p`, the index
/// fixed by the order of the target-name list alone.
pub proof fn lemma_plan_target_call_any_depth(
    b: Seq<InstrV>,
    i: int,
    plan: Seq<PlanEntryV>,
    p: int,
)
    requires
        0 <= p < plan.len(),
        forall|k: int| 0 <= k < p ==> (#[trigger] plan[k]).original_index
            != plan[p].original_index,
        body_has_call(b, plan[p].original_index),
    ensures
        new_target(plan[p].original_index, i, plan) == i + p,
        body_has_call(rewrite_body_v(b, i, plan), i + p),
{
    let t = plan[p].original_index;
    lemma_plan_pos(plan, t);
    assert(in_plan(plan, t));
    let q = plan_pos(plan, t);
    assert(q == p);
    lemma_body_call_rewritten(b, i, plan, t);
}

/// A plan as the export locator builds it: every entry converts a locally
/// defined function, and carries that function's declared type reference.
pub open spec fn plan_located(plan: Seq<PlanEntryV>, i: int, funcs: Seq<int>) -> bool {
    forall|p: int| 0 <= p < plan.len() ==> i <= (#[trigger] plan[p]).original_index
        && plan[p].original_index - i < funcs.len()
        && plan[p].type_ref == funcs[plan[p].original_index - i]
}

/// Export consistency round-trip: after the pass, every export keeps its
/// name; a function export of an existing import keeps its index and still
/// names the same import entry; the export of a converted function is
/// redirected to its synthesized import, which carries the function's
/// original type reference; and any other function export of a local function
/// is shifted by the plan length and, since the function-definition table is
/// untouched, still resolves to the same local slot — the same signature and
/// body position — under the enlarged index space.
pub proof fn lemma_export_round_trip(m: ModuleV, plan: Seq<PlanEntryV>, host: Seq<char>, k: int)
    requires
        m.imports is Some,
        m.functions is Some,
        m.exports is Some,
        0 <= k < m.exports.unwrap().len(),
        plan_located(plan, m.imports.unwrap().len() as int, m.functions.unwrap()),
        m.exports.unwrap()[k].target matches ExportRefV::Function(f) ==> 0 <= f,
    ensures
        ({
            let i = m.imports.unwrap().len() as int;
            let n = plan.len() as int;
            let e = m.exports.unwrap()[k];
            let m2 = apply_plan_spec(m, plan, host);
            let e2 = m2.exports.unwrap()[k];
            &&& m2.exports.unwrap().len() == m.exports.unwrap().len()
            &&& e2.name == e.name
            &&& m2.functions == m.functions
            &&& match e.target {
                ExportRefV::Function(f) => {
                    &&& e2.target is Function
                    &&& (f < i ==> e2.target == ExportRefV::Function(f) && m2.imports.unwrap()[f]
                        == m.imports.unwrap()[f])
                    &&& (in_plan(plan, f) ==> {
                        let p = plan_pos(plan, f);
                        &&& e2.target == ExportRefV::Function(i + p)
                        &&& m2.imports.unwrap()[i + p] == synthesized_import(plan[p], host)
                        &&& plan[p].original_index == f
                        &&& plan[p].type_ref == m.functions.unwrap()[f - i]
                    })
                    &&& (f >= i && !in_plan(plan, f) ==> e2.target == ExportRefV::Function(f + n)
                        && (f + n) - (i + n) == f - i)
                },
                _ => e2.target == e.target,
            }
        }),
{
    let i = m.imports.unwrap().len() as int;
    let e = m.exports.unwrap()[k];
    if e.target is Function {
        let f = e.target->Function_0;
        lemma_plan_pos(plan, f);
    }
}

} // verus!

