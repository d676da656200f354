use wasm_ext::module::{Export, ExportRef, FuncImport, Instr, Module};
use wasm_ext::plan::{build_plan, PlanEntry, RewriteError};
use wasm_ext::rewire::{new_call_index, patch_exports, patched_export_index, rewrite, synthesize_imports, update_call_index};

fn imp(module_name: &str, field: &str, type_ref: u32) -> FuncImport {
    FuncImport { module_name: module_name.to_string(), field: field.to_string(), type_ref }
}

fn exp_fn(name: &str, index: u32) -> Export {
    Export { name: name.to_string(), target: ExportRef::Function(index) }
}

/// The module of the concrete scenario: 2 imports, 5 locals, an export named
/// "alpha" at function index 3 (local position 1) whose signature is type
/// reference 7.
fn scenario_module() -> Module {
    Module {
        imports: Some(vec![imp("sys", "log", 0), imp("sys", "abort", 1)]),
        functions: Some(vec![4, 7, 4, 5, 6]),
        exports: Some(vec![
            exp_fn("alpha", 3),
            exp_fn("main", 2),
            exp_fn("last", 6),
            exp_fn("log", 0),
            Export { name: "mem".to_string(), target: ExportRef::Memory(0) },
        ]),
        bodies: Some(vec![
            vec![Instr::Call(3), Instr::Call(0), Instr::Other],
            vec![Instr::Block(vec![Instr::Call(4), Instr::If(vec![Instr::Call(3)])])],
            vec![Instr::Call(2)],
            vec![Instr::Loop(vec![Instr::Call(6)])],
            vec![Instr::Call(1)],
        ]),
    }
}

fn alpha_targets() -> Vec<String> {
    vec!["alpha".to_string()]
}

#[test]
fn scenario_plan() {
    let m = scenario_module();
    let plan = build_plan(&m, &alpha_targets()).unwrap();
    assert_eq!(plan.len(), 1);
    assert_eq!(plan[0].original_index, 3);
    assert_eq!(plan[0].type_ref, 7);
    assert_eq!(plan[0].name, "alpha");
}

#[test]
fn scenario_import_table() {
    let m = scenario_module();
    let out = rewrite(m, &alpha_targets(), &"env".to_string()).unwrap();
    let imports = out.imports.unwrap();
    assert_eq!(imports.len(), 3);
    assert_eq!(imports[2], imp("env", "alpha", 7));
    // the existing imports are untouched, in order
    assert_eq!(imports[0], imp("sys", "log", 0));
    assert_eq!(imports[1], imp("sys", "abort", 1));
    // the function-definition table is untouched
    assert_eq!(out.functions.unwrap(), vec![4, 7, 4, 5, 6]);
}

#[test]
fn scenario_calls() {
    let m = scenario_module();
    let out = rewrite(m, &alpha_targets(), &"env".to_string()).unwrap();
    let bodies = out.bodies.unwrap();
    // calls to index 3 (the converted function) now target the new import 2;
    // calls to locals at or past the import boundary are shifted by 1; calls
    // to existing imports are untouched
    assert_eq!(bodies[0], vec![Instr::Call(2), Instr::Call(0), Instr::Other]);
    assert_eq!(
        bodies[1],
        vec![Instr::Block(vec![Instr::Call(5), Instr::If(vec![Instr::Call(2)])])]
    );
    assert_eq!(bodies[2], vec![Instr::Call(3)]);
    assert_eq!(bodies[3], vec![Instr::Loop(vec![Instr::Call(7)])]);
    assert_eq!(bodies[4], vec![Instr::Call(1)]);
}

#[test]
fn scenario_exports() {
    let m = scenario_module();
    let out = rewrite(m, &alpha_targets(), &"env".to_string()).unwrap();
    let exports = out.exports.unwrap();
    // every export keeps its name; the converted function's export is
    // redirected to its new import; other function exports at or past the
    // import boundary are shifted by the one appended import
    assert_eq!(exports[0], exp_fn("alpha", 2));
    assert_eq!(exports[1], exp_fn("main", 3));
    assert_eq!(exports[2], exp_fn("last", 7));
    assert_eq!(exports[3], exp_fn("log", 0));
    assert_eq!(
        exports[4],
        Export { name: "mem".to_string(), target: ExportRef::Memory(0) }
    );
}

#[test]
fn empty_plan_is_identity() {
    let m = scenario_module();
    let out = rewrite(m, &Vec::new(), &"env".to_string()).unwrap();
    assert_eq!(out, scenario_module());
}

#[test]
fn deeply_nested_call_rewritten_like_top_level() {
    let m = Module {
        imports: Some(vec![imp("sys", "log", 0), imp("sys", "abort", 1)]),
        functions: Some(vec![4, 7, 4, 5, 6]),
        exports: Some(vec![exp_fn("alpha", 3)]),
        bodies: Some(vec![vec![
            Instr::Call(3),
            Instr::Block(vec![Instr::If(vec![Instr::Loop(vec![Instr::Block(vec![
                Instr::Call(3),
                Instr::Call(4),
            ])])])]),
        ]]),
    };
    let out = rewrite(m, &alpha_targets(), &"env".to_string()).unwrap();
    let bodies = out.bodies.unwrap();
    assert_eq!(
        bodies[0],
        vec![
            Instr::Call(2),
            Instr::Block(vec![Instr::If(vec![Instr::Loop(vec![Instr::Block(vec![
                Instr::Call(2),
                Instr::Call(5),
            ])])])]),
        ]
    );
}

#[test]
fn plan_order_fixes_new_indices() {
    let mut m = scenario_module();
    m.exports.as_mut().unwrap().push(exp_fn("beta", 5));
    let targets = vec!["beta".to_string(), "alpha".to_string()];
    let out = rewrite(m, &targets, &"env".to_string()).unwrap();
    let imports = out.imports.unwrap();
    assert_eq!(imports.len(), 4);
    // plan order, not table order: "beta" first, at index 2; "alpha" at 3
    assert_eq!(imports[2], imp("env", "beta", 5));
    assert_eq!(imports[3], imp("env", "alpha", 7));
}

#[test]
fn same_inputs_same_output() {
    let mut m1 = scenario_module();
    m1.exports.as_mut().unwrap().push(exp_fn("beta", 5));
    let mut m2 = scenario_module();
    m2.exports.as_mut().unwrap().push(exp_fn("beta", 5));
    let targets = vec!["beta".to_string(), "alpha".to_string()];
    let out1 = rewrite(m1, &targets, &"env".to_string()).unwrap();
    let out2 = rewrite(m2, &targets, &"env".to_string()).unwrap();
    assert_eq!(out1, out2);
}

#[test]
fn rewritten_calls_stay_in_bounds() {
    let m = scenario_module();
    let out = rewrite(m, &alpha_targets(), &"env".to_string()).unwrap();
    let bound = 3 + 5;  // 3 imports, 5 locals after the pass
    fn check(instrs: &Vec<Instr>, bound: u32) {
        for ins in instrs {
            match ins {
                Instr::Block(b) | Instr::If(b) | Instr::Loop(b) => check(b, bound),
                Instr::Call(t) => assert!(*t < bound),
                Instr::Other => {},
            }
        }
    }
    for body in out.bodies.as_ref().unwrap() {
        check(body, bound);
    }
}

#[test]
fn export_not_found() {
    let m = scenario_module();
    let r = rewrite(m, &vec!["gamma".to_string()], &"env".to_string());
    assert_eq!(r.unwrap_err(), RewriteError::ExportNotFound);
}

#[test]
fn export_not_a_function() {
    let m = scenario_module();
    let r = rewrite(m, &vec!["mem".to_string()], &"env".to_string());
    assert_eq!(r.unwrap_err(), RewriteError::ExportNotAFunction);
}

#[test]
fn export_of_an_import_is_refused() {
    let m = scenario_module();
    let r = rewrite(m, &vec!["log".to_string()], &"env".to_string());
    assert_eq!(r.unwrap_err(), RewriteError::TargetIsImport);
}

#[test]
fn export_index_out_of_range() {
    let mut m = scenario_module();
    m.exports.as_mut().unwrap().push(exp_fn("ghost_fn", 9));
    let r = rewrite(m, &vec!["ghost_fn".to_string()], &"env".to_string());
    assert_eq!(r.unwrap_err(), RewriteError::FunctionIndexOutOfRange);
}

#[test]
fn missing_sections_are_refused() {
    let mut m = scenario_module();
    m.imports = None;
    let r = rewrite(m, &alpha_targets(), &"env".to_string());
    assert_eq!(r.unwrap_err(), RewriteError::MissingImportSection);

    let mut m = scenario_module();
    m.exports = None;
    let r = rewrite(m, &alpha_targets(), &"env".to_string());
    assert_eq!(r.unwrap_err(), RewriteError::MissingExportSection);

    let mut m = scenario_module();
    m.functions = None;
    let r = rewrite(m, &alpha_targets(), &"env".to_string());
    assert_eq!(r.unwrap_err(), RewriteError::MissingFunctionSection);
}

#[test]
fn missing_code_section_is_tolerated() {
    let mut m = scenario_module();
    m.bodies = None;
    let out = rewrite(m, &alpha_targets(), &"env".to_string()).unwrap();
    assert!(out.bodies.is_none());
    assert_eq!(out.imports.unwrap().len(), 3);
}

#[test]
fn failure_aborts_before_mutation() {
    let m = scenario_module();
    // a list whose second name is unknown fails as a whole
    let targets = vec!["alpha".to_string(), "gamma".to_string()];
    let r = rewrite(m, &targets, &"env".to_string());
    assert_eq!(r.unwrap_err(), RewriteError::ExportNotFound);
}

#[test]
fn duplicate_export_names_resolve_to_first() {
    let mut m = scenario_module();
    m.exports.as_mut().unwrap().push(exp_fn("alpha", 5));
    let plan = build_plan(&m, &alpha_targets()).unwrap();
    assert_eq!(plan[0].original_index, 3);
}

#[test]
fn classifier_concrete_values() {
    let inserts = vec![PlanEntry { original_index: 3, type_ref: 7, name: "alpha".to_string() }];
    assert_eq!(new_call_index(3, 2, &inserts), 2);
    assert_eq!(new_call_index(0, 2, &inserts), 0);
    assert_eq!(new_call_index(1, 2, &inserts), 1);
    assert_eq!(new_call_index(4, 2, &inserts), 5);
    assert_eq!(new_call_index(6, 2, &inserts), 7);
    // a call to local index exactly 2 — the first local function, not in the
    // plan — is shifted like any other local
    assert_eq!(new_call_index(2, 2, &inserts), 3);
}

#[test]
fn classifier_first_matching_entry_wins() {
    let inserts = vec![
        PlanEntry { original_index: 3, type_ref: 7, name: "a".to_string() },
        PlanEntry { original_index: 4, type_ref: 4, name: "b".to_string() },
        PlanEntry { original_index: 3, type_ref: 7, name: "a2".to_string() },
    ];
    assert_eq!(new_call_index(3, 2, &inserts), 2);
    assert_eq!(new_call_index(4, 2, &inserts), 3);
}

#[test]
fn update_call_index_rewrites_only_calls() {
    let body = vec![
        Instr::Other,
        Instr::Call(2),
        Instr::Block(vec![Instr::Call(1)]),
    ];
    let inserts = vec![PlanEntry { original_index: 2, type_ref: 0, name: "f".to_string() }];
    let out = update_call_index(&body, 1, &inserts);
    assert_eq!(
        out,
        vec![
            Instr::Other,
            Instr::Call(1),
            Instr::Block(vec![Instr::Call(2)]),
        ]
    );
}

#[test]
fn synthesize_appends_in_plan_order() {
    let m = scenario_module();
    let plan = vec![
        PlanEntry { original_index: 4, type_ref: 5, name: "x".to_string() },
        PlanEntry { original_index: 3, type_ref: 7, name: "y".to_string() },
    ];
    let out = synthesize_imports(m, &plan, &"host".to_string());
    let imports = out.imports.unwrap();
    assert_eq!(imports.len(), 4);
    assert_eq!(imports[2], imp("host", "x", 5));
    assert_eq!(imports[3], imp("host", "y", 7));
    // nothing else changed
    assert_eq!(out.functions, scenario_module().functions);
    assert_eq!(out.exports, scenario_module().exports);
    assert_eq!(out.bodies, scenario_module().bodies);
}

#[test]
fn patch_exports_redirects_targets_and_shifts_locals() {
    let exports = vec![
        exp_fn("a", 0),
        exp_fn("b", 2),
        exp_fn("c", 6),
        Export { name: "t".to_string(), target: ExportRef::Table(2) },
        Export { name: "g".to_string(), target: ExportRef::Global(3) },
    ];
    let inserts = vec![
        PlanEntry { original_index: 6, type_ref: 0, name: "c".to_string() },
        PlanEntry { original_index: 4, type_ref: 1, name: "d".to_string() },
    ];
    let out = patch_exports(exports, 2, &inserts);
    // an import export is untouched; a converted function's export is
    // redirected to its new import; any other local is shifted by 2
    assert_eq!(out[0], exp_fn("a", 0));
    assert_eq!(out[1], exp_fn("b", 4));
    assert_eq!(out[2], exp_fn("c", 2));
    assert_eq!(out[3], Export { name: "t".to_string(), target: ExportRef::Table(2) });
    assert_eq!(out[4], Export { name: "g".to_string(), target: ExportRef::Global(3) });
}

#[test]
fn export_round_trip_resolves_to_same_function() {
    let m = scenario_module();
    let out = rewrite(m, &alpha_targets(), &"env".to_string()).unwrap();
    let m0 = scenario_module();
    let (i, n) = (2u32, 1u32);
    let old_exports = m0.exports.unwrap();
    let new_exports = out.exports.as_ref().unwrap();
    assert_eq!(old_exports.len(), new_exports.len());
    for (old, new) in old_exports.iter().zip(new_exports.iter()) {
        assert_eq!(old.name, new.name);
        if let ExportRef::Function(f) = old.target {
            if f < i {
                // still the same import entry
                assert_eq!(new.target, ExportRef::Function(f));
                assert_eq!(
                    out.imports.as_ref().unwrap()[f as usize],
                    m0.imports.as_ref().unwrap()[f as usize]
                );
            } else if old.name == "alpha" {
                // the converted function's export is redirected to the
                // synthesized import, which keeps its name and signature
                assert_eq!(new.target, ExportRef::Function(2));
                let import = &out.imports.as_ref().unwrap()[2];
                assert_eq!(import.field, "alpha");
                assert_eq!(import.type_ref, m0.functions.as_ref().unwrap()[(f - i) as usize]);
            } else {
                // the same local slot, hence the same signature
                if let ExportRef::Function(f2) = new.target {
                    assert_eq!(f2, f + n);
                    assert_eq!(
                        out.functions.as_ref().unwrap()[(f2 - i - n) as usize],
                        m0.functions.as_ref().unwrap()[(f - i) as usize]
                    );
                } else {
                    panic!("function export became a non-function export");
                }
            }
        }
    }
}

#[test]
fn patched_export_index_concrete_values() {
    let inserts = vec![PlanEntry { original_index: 6, type_ref: 0, name: "c".to_string() }];
    assert_eq!(patched_export_index(0, 2, &inserts), 0);
    assert_eq!(patched_export_index(1, 2, &inserts), 1);
    assert_eq!(patched_export_index(2, 2, &inserts), 3);
    assert_eq!(patched_export_index(6, 2, &inserts), 2);
    assert_eq!(patched_export_index(5, 2, &inserts), 6);
}
