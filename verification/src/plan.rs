//! The rewrite plan and the export locator.
//!
//! A plan entry records one exported function that is to be turned into an
//! import: its current function index, the type reference of its signature,
//! and the export name. The order of the plan fixes the order in which the
//! new imports are appended, and therefore each one's new function index.

use vstd::prelude::*;
use crate::module::{exports_view, funcs_view, Export, ExportRef, ExportRefV, ExportV, Module, ModuleV};

verus! {

/// Why the pass refused to run. All of these are raised before any part of
/// the module is changed.
#[derive(Clone, Copy, Debug, PartialEq, Eq, Structural)]
pub enum RewriteError {
    /// The module has no import section, so the count of existing imported
    /// functions cannot be read.
    MissingImportSection,
    /// The module has no export section, so no target name can be resolved.
    MissingExportSection,
    /// The module has no function-definition section, so no target's type
    /// signature can be read.
    MissingFunctionSection,
    /// No export carries the requested name.
    ExportNotFound,
    /// The export with the requested name references a table, memory or
    /// global, not a function.
    ExportNotAFunction,
    /// The export with the requested name references an already imported
    /// function, so there is no local definition to convert.
    TargetIsImport,
    /// The export with the requested name references a function index beyond
    /// the function-definition table.
    FunctionIndexOutOfRange,
}

/// One entry of the rewrite plan: the function currently at
/// `original_index` is to become an import with field name `name` and the
/// type signature referenced by `type_ref`.
#[derive(Debug, Clone, PartialEq, Eq)]
pub struct PlanEntry {
    pub original_index: u32,
    pub type_ref: u32,
    pub name: String,
}

/// The mathematical value of a [`PlanEntry`].
pub struct PlanEntryV {
    pub original_index: int,
    pub type_ref: int,
    pub name: Seq<char>,
}

impl View for PlanEntry {
    type V = PlanEntryV;

    open spec fn view(&self) -> PlanEntryV {
        PlanEntryV {
            original_index: self.original_index as int,
            type_ref: self.type_ref as int,
            name: self.name@,
        }
    }
}

/// The mathematical value of a sequence of plan entries.
pub open spec fn plan_view(plan: Seq<PlanEntry>) -> Seq<PlanEntryV> {
    plan.map_values(|e: PlanEntry| e@)
}

/// The mathematical value of a sequence of names.
pub open spec fn names_view(names: Seq<String>) -> Seq<Seq<char>> {
    names.map_values(|s: String| s@)
}

/// The position of the first element of `s` satisfying `p`, or `-1` if no
/// element does.
pub open spec fn first_match_pos<T>(s: Seq<T>, p: spec_fn(T) -> bool) -> int
    decreases s.len(),
{
    if s.len() == 0 {
        -1
    } else if p(s[0]) {
        0
    } else {
        let r = first_match_pos(s.drop_first(), p);
        if r == -1 {
            -1
        } else {
            r + 1
        }
    }
}

/// `first_match_pos` returns `-1` exactly when nothing matches; otherwise it
/// returns the position of a match that nothing precedes.
pub proof fn lemma_first_match_pos<T>(s: Seq<T>, p: spec_fn(T) -> bool)
    ensures
        -1 <= first_match_pos(s, p) < s.len(),
        first_match_pos(s, p) >= 0 ==> p(s[first_match_pos(s, p)]),
        first_match_pos(s, p) >= 0 ==> forall|k: int|
            0 <= k < first_match_pos(s, p) ==> !p(s[k]),
        first_match_pos(s, p) == -1 ==> forall|k: int| 0 <= k < s.len() ==> !p(s[k]),
    decreases s.len(),
{
    if s.len() != 0 && !p(s[0]) {
        lemma_first_match_pos(s.drop_first(), p);
        let r = first_match_pos(s.drop_first(), p);
        if r >= 0 {
            assert(s[r + 1] == s.drop_first()[r]);
            assert forall|k: int| 0 <= k < r + 1 implies !p(s[k]) by {
                if k > 0 {
                    assert(s[k] == s.drop_first()[k - 1]);
                }
            }
        } else {
            assert forall|k: int| 0 <= k < s.len() implies !p(s[k]) by {
                if k > 0 {
                    assert(s[k] == s.drop_first()[k - 1]);
                }
            }
        }
    }
}

/// The predicate that a plan entry converts the function at index `t`.
pub open spec fn entry_for(t: int) -> spec_fn(PlanEntryV) -> bool {
    |e: PlanEntryV| e.original_index == t
}

/// The position in the plan of the first entry converting the function at
/// index `t`, or `-1` if the plan does not convert it.
pub open spec fn plan_pos(plan: Seq<PlanEntryV>, t: int) -> int {
    first_match_pos(plan, entry_for(t))
}

/// Whether some plan entry converts the function at index `t`.
pub open spec fn in_plan(plan: Seq<PlanEntryV>, t: int) -> bool {
    exists|k: int| 0 <= k < plan.len() && plan[k].original_index == t
}

/// `plan_pos` finds the first entry for `t` exactly when `t` is in the plan.
pub proof fn lemma_plan_pos(plan: Seq<PlanEntryV>, t: int)
    ensures
        -1 <= plan_pos(plan, t) < plan.len(),
        plan_pos(plan, t) >= 0 <==> in_plan(plan, t),
        plan_pos(plan, t) >= 0 ==> plan[plan_pos(plan, t)].original_index == t,
        plan_pos(plan, t) >= 0 ==> forall|k: int|
            0 <= k < plan_pos(plan, t) ==> plan[k].original_index != t,
{
    lemma_first_match_pos(plan, entry_for(t));
    assert(forall|k: int| 0 <= k < plan.len() ==>
        (#[trigger] entry_for(t)(plan[k])) == (plan[k].original_index == t));
}

/// The predicate that an export carries the name `name`.
pub open spec fn export_named(name: Seq<char>) -> spec_fn(ExportV) -> bool {
    |e: ExportV| e.name == name
}

/// The position of the first export named `name`, or `-1` if there is none.
pub open spec fn export_pos(exports: Seq<ExportV>, name: Seq<char>) -> int {
    first_match_pos(exports, export_named(name))
}

/// `export_pos` finds the first export with the given name exactly when one
/// exists.
pub proof fn lemma_export_pos(exports: Seq<ExportV>, name: Seq<char>)
    ensures
        -1 <= export_pos(exports, name) < exports.len(),
        export_pos(exports, name) >= 0 <==> exists|k: int|
            0 <= k < exports.len() && exports[k].name == name,
        export_pos(exports, name) >= 0 ==> exports[export_pos(exports, name)].name == name,
        export_pos(exports, name) >= 0 ==> forall|k: int|
            0 <= k < export_pos(exports, name) ==> exports[k].name != name,
{
    lemma_first_match_pos(exports, export_named(name));
    assert(forall|k: int| 0 <= k < exports.len() ==>
        (#[trigger] export_named(name)(exports[k])) == (exports[k].name == name));
}

/// What locating a single target name yields: the plan entry for the first
/// export with that name, or the error that rules the name out. `i` is the
/// count of existing imported functions; `funcs` is the function-definition
/// table.
pub open spec fn locate_one(
    i: int,
    funcs: Seq<int>,
    exports: Seq<ExportV>,
    name: Seq<char>,
) -> Result<PlanEntryV, RewriteError> {
    let p = export_pos(exports, name);
    if p == -1 {
        Err(RewriteError::ExportNotFound)
    } else {
        match exports[p].target {
            ExportRefV::Function(f) => if f < i {
                Err(RewriteError::TargetIsImport)
            } else if f - i >= funcs.len() {
                Err(RewriteError::FunctionIndexOutOfRange)
            } else {
                Ok(PlanEntryV { original_index: f, type_ref: funcs[f - i], name })
            },
            _ => Err(RewriteError::ExportNotAFunction),
        }
    }
}

/// What locating a list of target names yields: the plan, one entry per name
/// in input order, or the first error.
pub open spec fn locate_targets(
    i: int,
    funcs: Seq<int>,
    exports: Seq<ExportV>,
    targets: Seq<Seq<char>>,
) -> Result<Seq<PlanEntryV>, RewriteError>
    decreases targets.len(),
{
    if targets.len() == 0 {
        Ok(Seq::empty())
    } else {
        match locate_one(i, funcs, exports, targets[0]) {
            Ok(e) => match locate_targets(i, funcs, exports, targets.drop_first()) {
                Ok(rest) => Ok(seq![e] + rest),
                Err(er) => Err(er),
            },
            Err(er) => Err(er),
        }
    }
}

/// What the export locator yields on a whole module: the sections it needs
/// must be present, and then every target name must resolve.
pub open spec fn locate_spec(
    m: ModuleV,
    targets: Seq<Seq<char>>,
) -> Result<Seq<PlanEntryV>, RewriteError> {
    if m.imports is None {
        Err(RewriteError::MissingImportSection)
    } else if m.exports is None {
        Err(RewriteError::MissingExportSection)
    } else if m.functions is None {
        Err(RewriteError::MissingFunctionSection)
    } else {
        locate_targets(
            m.imports.unwrap().len() as int,
            m.functions.unwrap(),
            m.exports.unwrap(),
            targets,
        )
    }
}

/// A plan located against a module is well formed: one entry per target, in
/// target order, each converting a distinct slot of the function-definition
/// table with its declared type.
pub proof fn lemma_locate_targets_ok(
    i: int,
    funcs: Seq<int>,
    exports: Seq<ExportV>,
    targets: Seq<Seq<char>>,
    plan: Seq<PlanEntryV>,
)
    requires
        locate_targets(i, funcs, exports, targets) == Ok::<Seq<PlanEntryV>, RewriteError>(plan),
    ensures
        plan.len() == targets.len(),
        forall|p: int| 0 <= p < plan.len() ==> (#[trigger] plan[p]).name == targets[p],
        forall|p: int| 0 <= p < plan.len() ==> i <= (#[trigger] plan[p]).original_index
            && plan[p].original_index - i < funcs.len()
            && plan[p].type_ref == funcs[plan[p].original_index - i],
    decreases targets.len(),
{
    if targets.len() != 0 {
        let e = locate_one(i, funcs, exports, targets[0]).unwrap();
        let rest = locate_targets(i, funcs, exports, targets.drop_first()).unwrap();
        lemma_locate_targets_ok(i, funcs, exports, targets.drop_first(), rest);
        assert(plan == seq![e] + rest);
        assert(plan[0] == e);
        assert(forall|p: int| 1 <= p < plan.len() ==> plan[p] == rest[p - 1]);
        assert(forall|p: int|
            1 <= p < plan.len() ==> targets.drop_first()[p - 1] == targets[p]);
    }
}

/// The plan prefixed by entries already located, or the error as it stands.
spec fn prepend_plan(
    pre: Seq<PlanEntryV>,
    r: Result<Seq<PlanEntryV>, RewriteError>,
) -> Result<Seq<PlanEntryV>, RewriteError> {
    match r {
        Ok(rest) => Ok(pre + rest),
        Err(e) => Err(e),
    }
}

/// The position of the first export named `name`, if any.
fn find_export(exports: &Vec<Export>, name: &String) -> (r: Option<usize>)
    ensures
        match r {
            Some(q) => q == export_pos(exports_view(exports@), name@),
            None => export_pos(exports_view(exports@), name@) == -1,
        },
{
    let ghost es = exports_view(exports@);
    proof {
        lemma_export_pos(es, name@);
        assert(es.len() == exports@.len());
    }
    let mut k: usize = 0;
    while k < exports.len()
        invariant
            k <= exports@.len(),
            es == exports_view(exports@),
            es.len() == exports@.len(),
            -1 <= export_pos(es, name@) < es.len(),
            export_pos(es, name@) >= 0 ==> es[export_pos(es, name@)].name == name@,
            export_pos(es, name@) == -1 ==> forall|j: int|
                0 <= j < es.len() ==> (#[trigger] es[j]).name != name@,
            forall|j: int| 0 <= j < k ==> (#[trigger] es[j]).name != name@,
        decreases exports@.len() - k,
    {
        if exports[k].name == *name {
            proof {
                assert(es[k as int] == exports@[k as int]@);
                lemma_export_pos(es, name@);
            }
            return Some(k);
        }
        proof {
            assert(es[k as int] == exports@[k as int]@);
        }
        k += 1;
    }
    None
}

/// The export locator for a single target name, against the already split-out
/// sections: `icount` existing imported functions, the function-definition
/// table, and the export table.
fn locate_target(
    icount: usize,
    functions: &Vec<u32>,
    exports: &Vec<Export>,
    name: &String,
) -> (r: Result<PlanEntry, RewriteError>)
    ensures
        match r {
            Ok(e) => locate_one(icount as int, funcs_view(functions@), exports_view(exports@), name@)
                == Ok::<PlanEntryV, RewriteError>(e@),
            Err(er) => locate_one(
                icount as int,
                funcs_view(functions@),
                exports_view(exports@),
                name@,
            ) == Err::<PlanEntryV, RewriteError>(er),
        },
{
    let ghost es = exports_view(exports@);
    let ghost fs = funcs_view(functions@);
    let p = match find_export(exports, name) {
        Some(p) => p,
        None => {
            return Err(RewriteError::ExportNotFound);
        },
    };
    proof {
        lemma_export_pos(es, name@);
        assert(es[p as int] == exports@[p as int]@);
    }
    let entry = &exports[p];
    match &entry.target {
        ExportRef::Function(f) => {
            let f = *f;
            if (f as usize) < icount {
                Err(RewriteError::TargetIsImport)
            } else {
                let local = f as usize - icount;
                if local >= functions.len() {
                    Err(RewriteError::FunctionIndexOutOfRange)
                } else {
                    proof {
                        assert(fs[local as int] == functions@[local as int] as int);
                    }
                    Ok(PlanEntry {
                        original_index: f,
                        type_ref: functions[local],
                        name: name.clone(),
                    })
                }
            }
        },
        _ => Err(RewriteError::ExportNotAFunction),
    }
}

/// The export locator: resolves each target name, in order, to the plan
/// entry describing its conversion to an import, or fails fast with the
/// error of the first name that does not resolve. The module is only read.
pub fn build_plan(m: &Module, targets: &Vec<String>) -> (r: Result<Vec<PlanEntry>, RewriteError>)
    ensures
        match r {
            Ok(plan) => locate_spec(m@, names_view(targets@)) == Ok::<
                Seq<PlanEntryV>,
                RewriteError,
            >(plan_view(plan@)) && plan@.len() == targets@.len(),
            Err(e) => locate_spec(m@, names_view(targets@)) == Err::<
                Seq<PlanEntryV>,
                RewriteError,
            >(e),
        },
{
    let imports = match &m.imports {
        Some(v) => v,
        None => {
            return Err(RewriteError::MissingImportSection);
        },
    };
    let exports = match &m.exports {
        Some(v) => v,
        None => {
            return Err(RewriteError::MissingExportSection);
        },
    };
    let functions = match &m.functions {
        Some(v) => v,
        None => {
            return Err(RewriteError::MissingFunctionSection);
        },
    };
    let icount = imports.len();
    let ghost i = icount as int;
    let ghost es = exports_view(exports@);
    let ghost fs = funcs_view(functions@);
    let ghost tv = names_view(targets@);
    proof {
        assert(tv.len() == targets@.len());
        assert(locate_spec(m@, tv) == locate_targets(i, fs, es, tv));
    }
    let mut out: Vec<PlanEntry> = Vec::new();
    proof {
        assert(tv.skip(0) =~= tv);
        assert(plan_view(out@) =~= Seq::<PlanEntryV>::empty());
        let r0 = locate_targets(i, fs, es, tv);
        if r0 is Ok {
            assert(Seq::<PlanEntryV>::empty() + r0.unwrap() =~= r0.unwrap());
        }
    }
    let mut k: usize = 0;
    while k < targets.len()
        invariant
            k <= targets@.len(),
            out@.len() == k,
            i == icount as int,
            es == exports_view(exports@),
            fs == funcs_view(functions@),
            tv == names_view(targets@),
            tv.len() == targets@.len(),
            locate_spec(m@, tv) == locate_targets(i, fs, es, tv),
            locate_targets(i, fs, es, tv) == prepend_plan(
                plan_view(out@),
                locate_targets(i, fs, es, tv.skip(k as int)),
            ),
        decreases targets@.len() - k,
    {
        let ghost pre = plan_view(out@);
        let ghost suffix = tv.skip(k as int);
        proof {
            assert(tv[k as int] == targets@[k as int]@);
            assert(suffix.len() == tv.len() - k);
            assert(suffix[0] == tv[k as int]);
            assert(suffix.drop_first() =~= tv.skip(k as int + 1));
        }
        let entry = match locate_target(icount, functions, exports, &targets[k]) {
            Ok(e) => e,
            Err(er) => {
                proof {
                    assert(locate_targets(i, fs, es, suffix) == Err::<
                        Seq<PlanEntryV>,
                        RewriteError,
                    >(er));
                }
                return Err(er);
            },
        };
        proof {
            let ev = entry@;
            let tail = locate_targets(i, fs, es, tv.skip(k as int + 1));
            assert(locate_targets(i, fs, es, suffix) == match tail {
                Ok(rest) => Ok::<Seq<PlanEntryV>, RewriteError>(seq![ev] + rest),
                Err(er) => Err::<Seq<PlanEntryV>, RewriteError>(er),
            });
            if tail is Ok {
                assert(pre + (seq![ev] + tail.unwrap()) =~= (pre + seq![ev]) + tail.unwrap());
            }
        }
        out.push(entry);
        proof {
            assert(plan_view(out@) =~= pre + seq![entry@]);
        }
        k += 1;
    }
    proof {
        assert(tv.skip(k as int) =~= Seq::<Seq<char>>::empty());
        assert(locate_targets(i, fs, es, tv.skip(k as int)) == Ok::<
            Seq<PlanEntryV>,
            RewriteError,
        >(Seq::empty()));
        assert(plan_view(out@) + Seq::empty() =~= plan_view(out@));
    }
    Ok(out)
}

} // verus!
