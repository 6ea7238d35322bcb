use wasmonkey::errors::WError;
use wasmonkey::functions_ids::{disable_function_id, replace_function_id, shift_function_ids};
use wasmonkey::module::{
    ElementSegment, ExportEntry, External, FuncBody, FunctionName, ImportEntry, Instruction,
    Internal, Local, Module,
};
use wasmonkey::patcher::{patch_module, prepend_import, refs_fit, resolve_builtins};

fn body(code: Vec<Instruction>) -> FuncBody {
    FuncBody { locals: vec![Local { count: 1, value_type: 0x7f }], code }
}

fn export(name: &str, f: u32) -> ExportEntry {
    ExportEntry { field: name.to_string(), internal: Internal::Function(f) }
}

/// Three local functions: 0 and 1 exported as "a" and "b", 2 calls both.
fn sample() -> Module {
    Module {
        has_type_section: true,
        has_import_section: false,
        imports: vec![],
        has_function_section: true,
        functions: vec![0, 1, 0],
        has_export_section: true,
        exports: vec![export("a", 0), export("b", 1), ExportEntry {
            field: "mem".to_string(),
            internal: Internal::Memory(0),
        }],
        has_element_section: true,
        elements: vec![ElementSegment { members: vec![0, 2] }],
        has_code_section: true,
        code: vec![
            body(vec![Instruction::Other(7), Instruction::End]),
            body(vec![Instruction::End]),
            body(vec![
                Instruction::Call(0),
                Instruction::Call(1),
                Instruction::Call(2),
                Instruction::End,
            ]),
        ],
        has_name_section: true,
        function_names: vec![
            FunctionName { index: 0, name: "a".to_string() },
            FunctionName { index: 1, name: "b".to_string() },
            FunctionName { index: 2, name: "c".to_string() },
        ],
    }
}

fn calls(m: &Module) -> Vec<u32> {
    let mut r = vec![];
    for b in &m.code {
        for i in &b.code {
            if let Instruction::Call(f) = i {
                r.push(*f);
            }
        }
    }
    r
}

fn function_count(m: &Module) -> u32 {
    let imported = m.imports.iter().filter(|e| matches!(e.external, External::Function(_))).count();
    (imported + m.code.len()) as u32
}

fn names(v: &[&str]) -> Vec<String> {
    v.iter().map(|s| s.to_string()).collect()
}

#[test]
fn end_to_end_single_builtin() {
    let mut m = sample();
    m.exports = vec![export("foo", 0)];
    m.code[2].code = vec![Instruction::Call(0), Instruction::Call(2), Instruction::End];
    let (p, map) = patch_module(m, &names(&["foo"])).unwrap();
    assert!(p.has_import_section);
    assert_eq!(p.imports.len(), 1);
    assert_eq!(p.imports[0].field, "builtin_foo");
    assert_eq!(p.imports[0].module, "env");
    assert_eq!(p.imports[0].external, External::Function(0));
    assert_eq!(map.entries, vec![("foo".to_string(), "builtin_foo".to_string())]);
    assert_eq!(calls(&p), vec![0, 3]);
    assert_eq!(p.function_names[0].index, 0);
    assert_eq!(p.function_names[0].name, "builtin_foo");
    assert_eq!(p.function_names[1].index, 1);
    assert_eq!(p.function_names[1].name, "a");
    assert_eq!(p.exports[0].internal, Internal::Function(1));
    assert_eq!(p.elements[0].members, vec![1, 3]);
}

#[test]
fn later_builtins_take_lower_indices() {
    let (p, map) = patch_module(sample(), &names(&["a", "b"])).unwrap();
    assert_eq!(p.imports.len(), 2);
    assert_eq!(p.imports[0].field, "builtin_b");
    assert_eq!(p.imports[1].field, "builtin_a");
    assert_eq!(p.imports[0].external, External::Function(1));
    assert_eq!(p.imports[1].external, External::Function(0));
    assert_eq!(calls(&p), vec![1, 0, 4]);
    assert_eq!(map.entries.len(), 2);
    assert_eq!(map.entries[0], ("a".to_string(), "builtin_a".to_string()));
    assert_eq!(map.entries[1], ("b".to_string(), "builtin_b".to_string()));
    assert_eq!(p.exports[0].internal, Internal::Function(2));
    assert_eq!(p.exports[1].internal, Internal::Function(3));
    assert_eq!(p.exports[2].internal, Internal::Memory(0));
}

#[test]
fn import_name_has_prefix() {
    let mut m = sample();
    m.exports = vec![export("foo", 1)];
    let (p, map) = patch_module(m, &names(&["foo"])).unwrap();
    assert_eq!(p.imports[0].field, "builtin_foo");
    assert_eq!(map.oriented(false), vec![("builtin_foo".to_string(), "foo".to_string())]);
    assert_eq!(map.oriented(true), vec![("foo".to_string(), "builtin_foo".to_string())]);
}

#[test]
fn unknown_names_give_no_entry() {
    let (p, map) = patch_module(sample(), &names(&["zzz", "a", "mem", "a"])).unwrap();
    assert_eq!(map.entries, vec![("a".to_string(), "builtin_a".to_string())]);
    assert_eq!(p.imports.len(), 1);
}

#[test]
fn no_names_leaves_module() {
    let (p, map) = patch_module(sample(), &names(&[])).unwrap();
    assert!(map.entries.is_empty());
    assert!(!p.has_import_section);
    assert_eq!(calls(&p), vec![0, 1, 2]);
}

#[test]
fn references_stay_in_range() {
    let (p, _) = patch_module(sample(), &names(&["b", "a"])).unwrap();
    let n = function_count(&p);
    assert_eq!(n, 5);
    assert!(calls(&p).iter().all(|f| *f < n));
    for e in &p.exports {
        if let Internal::Function(f) = e.internal {
            assert!(f < n);
        }
    }
    for s in &p.elements {
        assert!(s.members.iter().all(|f| *f < n));
    }
    assert!(p.function_names.iter().all(|e| e.index < n));
}

#[test]
fn existing_imports_follow_new_ones() {
    let mut m = sample();
    m.has_import_section = true;
    m.imports = vec![ImportEntry {
        module: "env".to_string(),
        field: "host".to_string(),
        external: External::Function(0),
    }];
    let (p, _) = patch_module(m, &names(&["a"])).unwrap();
    assert_eq!(p.imports.len(), 2);
    assert_eq!(p.imports[0].field, "builtin_a");
    assert_eq!(p.imports[1].field, "host");
}

#[test]
fn missing_type_section_is_an_error() {
    let mut m = sample();
    m.has_type_section = false;
    assert!(matches!(patch_module(m, &names(&["a"])), Err(WError::InternalError(_))));
    let mut m = sample();
    let entry = ImportEntry { module: "env".to_string(), field: "x".to_string(), external: External::Function(0) };
    m.has_type_section = false;
    assert!(prepend_import(&mut m, entry).is_err());
    assert!(m.imports.is_empty());
}

#[test]
fn missing_name_section_is_an_error() {
    let mut m = sample();
    m.has_name_section = false;
    assert!(matches!(patch_module(m, &names(&["a"])), Err(WError::InternalError(_))));
}

#[test]
fn missing_function_type_is_an_error() {
    let mut m = sample();
    m.functions = vec![0];
    assert!(matches!(resolve_builtins(&m, &names(&["b"])), Err(WError::InternalError(_))));
}

#[test]
fn resolve_keeps_candidate_order() {
    let b = resolve_builtins(&sample(), &names(&["b", "x", "a"])).unwrap();
    assert_eq!(b.len(), 2);
    assert_eq!(b[0].name, "b");
    assert_eq!(b[0].original_function_id, 1);
    assert_eq!(b[0].function_type_id, 1);
    assert_eq!(b[1].name, "a");
    assert_eq!(b[1].original_function_id, 0);
    assert_eq!(b[1].function_type_id, 0);
}

#[test]
fn shift_moves_every_reference() {
    let mut m = sample();
    shift_function_ids(&mut m, 3).unwrap();
    assert_eq!(calls(&m), vec![3, 4, 5]);
    assert_eq!(m.exports[0].internal, Internal::Function(3));
    assert_eq!(m.exports[2].internal, Internal::Memory(0));
    assert_eq!(m.elements[0].members, vec![3, 5]);
    assert_eq!(m.function_names[0].index, 0);
    assert_eq!(m.code[0].code, vec![Instruction::Other(7), Instruction::End]);
}

#[test]
fn shift_without_code_section_fails() {
    let mut m = sample();
    m.has_code_section = false;
    assert!(matches!(shift_function_ids(&mut m, 1), Err(WError::InternalError(_))));
    assert_eq!(calls(&m), vec![0, 1, 2]);
}

#[test]
fn replace_touches_calls_only() {
    let mut m = sample();
    replace_function_id(&mut m, 1, 9).unwrap();
    assert_eq!(calls(&m), vec![0, 9, 2]);
    assert_eq!(m.exports[1].internal, Internal::Function(1));
    assert_eq!(m.elements[0].members, vec![0, 2]);
}

#[test]
fn disable_replaces_one_slot() {
    let mut m = sample();
    disable_function_id(&mut m, 2).unwrap();
    assert_eq!(m.code.len(), 3);
    assert_eq!(m.code[2].code, vec![Instruction::Unreachable, Instruction::End]);
    assert!(m.code[2].locals.is_empty());
    assert_eq!(m.code[0].code, vec![Instruction::Other(7), Instruction::End]);
    assert_eq!(m.code[1].code, vec![Instruction::End]);
    assert_eq!(m.code[0].locals.len(), 1);
    assert_eq!(m.exports[0].internal, Internal::Function(0));
    disable_function_id(&mut m, 2).unwrap();
    assert_eq!(m.code[2].code, vec![Instruction::Unreachable, Instruction::End]);
    assert_eq!(m.code[1].code, vec![Instruction::End]);
}

#[test]
fn disable_counts_from_first_body() {
    let mut m = sample();
    m.imports = vec![ImportEntry { module: "env".to_string(), field: "x".to_string(), external: External::Function(0) }];
    m.has_import_section = true;
    assert!(disable_function_id(&mut m, 3).is_err());
    assert_eq!(m.code[2].code.len(), 4);
    disable_function_id(&mut m, 1).unwrap();
    assert_eq!(m.code[1].code, vec![Instruction::Unreachable, Instruction::End]);
    assert_eq!(m.code[0].code, vec![Instruction::Other(7), Instruction::End]);
    disable_function_id(&mut m, 0).unwrap();
    assert_eq!(m.code[0].code, vec![Instruction::Unreachable, Instruction::End]);
    assert_eq!(m.imports.len(), 1);
}

#[test]
fn disable_without_code_section_fails() {
    let mut m = sample();
    m.has_code_section = false;
    assert!(matches!(disable_function_id(&mut m, 0), Err(WError::InternalError(_))));
    assert_eq!(m.code[0].code, vec![Instruction::Other(7), Instruction::End]);
}

#[test]
fn shift_ignores_debug_names() {
    let mut m = sample();
    m.function_names[0].index = u32::MAX;
    shift_function_ids(&mut m, 10).unwrap();
    assert_eq!(m.function_names[0].index, u32::MAX);
    assert_eq!(calls(&m), vec![10, 11, 12]);
}

#[test]
fn calls_to_shared_function_go_to_first_import() {
    let mut m = sample();
    m.exports = vec![export("a", 0), export("alias", 0)];
    let (p, map) = patch_module(m, &names(&["a", "alias"])).unwrap();
    assert_eq!(map.entries.len(), 2);
    assert_eq!(p.imports[0].field, "builtin_alias");
    assert_eq!(p.imports[1].field, "builtin_a");
    assert_eq!(calls(&p), vec![1, 3, 4]);
    assert_eq!(p.exports[0].internal, Internal::Function(2));
    assert_eq!(p.exports[1].internal, Internal::Function(2));
}

#[test]
fn overflowing_reference_is_an_error() {
    let mut m = sample();
    m.elements[0].members = vec![u32::MAX - 1];
    assert!(matches!(patch_module(m, &names(&["a"])), Err(WError::InternalError(_))));
    let mut m = sample();
    m.elements[0].members = vec![u32::MAX - 2];
    assert!(patch_module(m, &names(&["a"])).is_ok());
}

#[test]
fn reference_bound_check() {
    let m = sample();
    assert!(refs_fit(&m, 3));
    assert!(!refs_fit(&m, 2));
}
