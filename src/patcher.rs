use crate::errors::WError;
use crate::functions_ids::{
    replace_function_id, replace_instruction, replaced, shift_function_ids,
    shift_instruction, shift_internal, shifted,
};
use crate::module::{
    code_refs_below, function_count, function_imports_in, names_below, index_consistent, is_function_import, refs_below,
    ExportEntry, External, FunctionName, ImportEntry, Instruction, Internal, Module,
};
use vstd::prelude::*;

verus! {

/// A function of the module chosen to become an import.
#[derive(Debug)]
pub struct Builtin {
    pub name: String,
    pub original_function_id: u32,
    pub function_type_id: u32,
}

/// Pairs of original name and import name, one per substituted function, in
/// the order they were substituted.
#[derive(Debug)]
pub struct PatchedBuiltinsMap {
    pub entries: Vec<(String, String)>,
}

impl PatchedBuiltinsMap {
    /// The pairs keyed by original name when `original_names` holds, else
    /// keyed by import name.
    pub fn oriented(&self, original_names: bool) -> (r: Vec<(String, String)>)
        ensures
            r@.len() == self.entries@.len(),
            forall|j: int|
                0 <= j < r@.len() ==> if original_names {
                    (#[trigger] r@[j]).0@ == self.entries@[j].0@ && r@[j].1@ == self.entries@[j].1@
                } else {
                    r@[j].0@ == self.entries@[j].1@ && r@[j].1@ == self.entries@[j].0@
                },
    {
        let mut r: Vec<(String, String)> = Vec::new();
        let mut i: usize = 0;
        while i < self.entries.len()
            invariant
                i <= self.entries@.len(),
                r@.len() == i,
                forall|j: int|
                    0 <= j < i ==> if original_names {
                        (#[trigger] r@[j]).0@ == self.entries@[j].0@ && r@[j].1@ == self.entries@[j].1@
                    } else {
                        r@[j].0@ == self.entries@[j].1@ && r@[j].1@ == self.entries@[j].0@
                    },
            decreases self.entries@.len() - i,
        {
            let (a, b) = &self.entries[i];
            if original_names {
                r.push((a.clone(), b.clone()));
            } else {
                r.push((b.clone(), a.clone()));
            }
            i += 1;
        }
        r
    }
}

pub open spec fn builtin_prefix() -> Seq<char> {
    seq!['b', 'u', 'i', 'l', 't', 'i', 'n', '_']
}

/// Name of the import that stands for the function `name`.
pub open spec fn import_name(name: Seq<char>) -> Seq<char> {
    builtin_prefix() + name
}

/// Function index of the first function export named `name`.
pub open spec fn first_function_export(exports: Seq<ExportEntry>, name: Seq<char>) -> Option<u32>
    decreases exports.len(),
{
    if exports.len() == 0 {
        None
    } else {
        match first_function_export(exports.drop_last(), name) {
            Some(f) => Some(f),
            None => match exports.last().internal {
                Internal::Function(f) => if exports.last().field@ == name {
                    Some(f)
                } else {
                    None
                },
                _ => None,
            },
        }
    }
}

pub open spec fn names_in(p: Seq<(Seq<char>, u32)>, n: Seq<char>) -> bool {
    exists|k: int| 0 <= k < p.len() && (#[trigger] p[k]).0 == n
}

/// The candidates that the module exports as functions, each once, in
/// candidate order, with the function index of the first matching export.
pub open spec fn resolved(exports: Seq<ExportEntry>, names: Seq<String>) -> Seq<(Seq<char>, u32)>
    decreases names.len(),
{
    if names.len() == 0 {
        Seq::empty()
    } else {
        let p = resolved(exports, names.drop_last());
        let n = names.last()@;
        match first_function_export(exports, n) {
            Some(f) => if names_in(p, n) {
                p
            } else {
                p.push((n, f))
            },
            None => p,
        }
    }
}

pub open spec fn builtins_view(b: Seq<Builtin>) -> Seq<(Seq<char>, u32)> {
    b.map_values(|x: Builtin| (x.name@, x.original_function_id))
}

/// Each builtin names a local function slot, and carries that slot's type.
pub open spec fn types_resolved(module: &Module, b: Seq<Builtin>) -> bool {
    forall|k: int|
        0 <= k < b.len() ==> (module.has_function_section && (#[trigger] b[k]).original_function_id
            < module.functions@.len() && b[k].function_type_id
            == module.functions@[b[k].original_function_id as int])
}

fn find_function_export(exports: &Vec<ExportEntry>, name: &String) -> (r: Option<u32>)
    ensures
        r == first_function_export(exports@, name@),
{
    let mut i: usize = 0;
    while i < exports.len()
        invariant
            i <= exports@.len(),
            first_function_export(exports@.subrange(0, i as int), name@) is None,
        decreases exports@.len() - i,
    {
        proof {
            assert(exports@.subrange(0, i + 1).drop_last() =~= exports@.subrange(0, i as int));
        }
        if let Internal::Function(f) = exports[i].internal {
            if exports[i].field == *name {
                proof {
                    lemma_first_export_stable(exports@, name@, i as int + 1);
                }
                return Some(f);
            }
        }
        i += 1;
    }
    proof {
        assert(exports@.subrange(0, i as int) =~= exports@);
    }
    None
}

proof fn lemma_resolved_prefix(e: Seq<ExportEntry>, names: Seq<String>, n: int)
    requires
        0 <= n <= names.len(),
    ensures
        resolved(e, names.subrange(0, n)).len() <= resolved(e, names).len(),
        forall|k: int|
            0 <= k < resolved(e, names.subrange(0, n)).len() ==> #[trigger] resolved(
                e,
                names.subrange(0, n),
            )[k] == resolved(e, names)[k],
    decreases names.len() - n,
{
    if n < names.len() {
        assert(names.subrange(0, n + 1).drop_last() =~= names.subrange(0, n));
        lemma_resolved_prefix(e, names, n + 1);
        let a = resolved(e, names.subrange(0, n));
        let b = resolved(e, names.subrange(0, n + 1));
        assert(b.len() >= a.len());
        assert forall|k: int| 0 <= k < a.len() implies #[trigger] a[k] == resolved(e, names)[k] by {
            assert(b[k] == a[k]);
        }
    } else {
        assert(names.subrange(0, n) =~= names);
    }
}

proof fn lemma_first_export_stable(e: Seq<ExportEntry>, name: Seq<char>, n: int)
    requires
        0 <= n <= e.len(),
        first_function_export(e.subrange(0, n), name) is Some,
    ensures
        first_function_export(e, name) == first_function_export(e.subrange(0, n), name),
    decreases e.len() - n,
{
    if n < e.len() {
        assert(e.subrange(0, n + 1).drop_last() =~= e.subrange(0, n));
        lemma_first_export_stable(e, name, n + 1);
    } else {
        assert(e.subrange(0, n) =~= e);
    }
}

proof fn lemma_first_export_is_export(e: Seq<ExportEntry>, name: Seq<char>)
    requires
        first_function_export(e, name) is Some,
    ensures
        exists|k: int|
            0 <= k < e.len() && #[trigger] e[k].internal == Internal::Function(
                first_function_export(e, name).unwrap(),
            ),
    decreases e.len(),
{
    if first_function_export(e.drop_last(), name) is Some {
        lemma_first_export_is_export(e.drop_last(), name);
        let k = choose|k: int|
            0 <= k < e.drop_last().len() && #[trigger] e.drop_last()[k].internal
                == Internal::Function(first_function_export(e.drop_last(), name).unwrap());
        assert(e[k] == e.drop_last()[k]);
    } else {
        assert(e[e.len() - 1].internal == Internal::Function(first_function_export(e, name).unwrap()));
    }
}

/// Finds which candidate names the module exports as functions, and the
/// type of each. Fails when a matched index has no entry in the function
/// section.
pub fn resolve_builtins(module: &Module, names: &Vec<String>) -> (r: Result<Vec<Builtin>, WError>)
    ensures
        match r {
            Ok(b) => {
                &&& builtins_view(b@) == resolved(module.exports@, names@)
                &&& types_resolved(module, b@)
            },
            Err(e) => e is InternalError,
        },
        (forall|k: int|
            0 <= k < resolved(module.exports@, names@).len() ==> (module.has_function_section
                && (#[trigger] resolved(module.exports@, names@)[k]).1 < module.functions@.len()))
            ==> r is Ok,
{
    let mut out: Vec<Builtin> = Vec::new();
    let mut j: usize = 0;
    while j < names.len()
        invariant
            j <= names@.len(),
            builtins_view(out@) == resolved(module.exports@, names@.subrange(0, j as int)),
            types_resolved(module, out@),
        decreases names@.len() - j,
    {
        proof {
            assert(names@.subrange(0, j + 1).drop_last() =~= names@.subrange(0, j as int));
        }
        let name = &names[j];
        let mut seen = false;
        let mut k: usize = 0;
        while k < out.len()
            invariant
                k <= out@.len(),
                j < names@.len(),
                *name == names@[j as int],
                builtins_view(out@) == resolved(module.exports@, names@.subrange(0, j as int)),
                types_resolved(module, out@),
                seen == exists|kk: int| 0 <= kk < k && (#[trigger] builtins_view(out@)[kk]).0 == name@,
            decreases out@.len() - k,
        {
            if out[k].name == *name {
                seen = true;
            }
            proof {
                assert(builtins_view(out@)[k as int].0 == out@[k as int].name@);
            }
            k += 1;
        }
        if !seen {
            if let Some(f) = find_function_export(&module.exports, name) {
                if !module.has_function_section || f as usize >= module.functions.len() {
                    proof {
                        let p = builtins_view(out@);
                        lemma_resolved_prefix(module.exports@, names@, j + 1);
                        assert(names@.subrange(0, j + 1).last() == names@[j as int]);
                        assert(resolved(module.exports@, names@.subrange(0, j + 1)) == p.push((name@, f)));
                        assert(resolved(module.exports@, names@.subrange(0, j + 1))[p.len() as int] == (name@, f));
                        assert(resolved(module.exports@, names@)[p.len() as int] == (name@, f));
                        assert(!(module.has_function_section && resolved(module.exports@, names@)[p.len() as int].1 < module.functions@.len()));
                    }
                    return Err(WError::InternalError("Function without a type"));
                }
                let t = module.functions[f as usize];
                let ghost before = builtins_view(out@);
                let ghost old_out = out@;
                out.push(Builtin { name: name.clone(), original_function_id: f, function_type_id: t });
                proof {
                    assert(forall|kk: int| 0 <= kk < out@.len() - 1 ==> out@[kk] == old_out[kk]);
                    assert(builtins_view(out@) =~= before.push((name@, f)));
                }
            }
        }
        j += 1;
    }
    proof {
        assert(names@.subrange(0, j as int) =~= names@);
    }
    Ok(out)
}

fn make_import_name(name: &String) -> (r: String)
    ensures
        r@ == import_name(name@),
{
    let mut s = String::from_str("builtin_");
    proof {
        reveal_strlit("builtin_");
        assert("builtin_"@ =~= builtin_prefix());
    }
    s.append(name.as_str());
    s
}

/// Every field but the debug names is the same.
pub open spec fn same_but_names(a: &Module, b: &Module) -> bool {
    &&& a.has_type_section == b.has_type_section
    &&& a.has_import_section == b.has_import_section
    &&& a.imports@ == b.imports@
    &&& a.has_function_section == b.has_function_section
    &&& a.functions@ == b.functions@
    &&& a.has_export_section == b.has_export_section
    &&& a.exports@ == b.exports@
    &&& a.has_element_section == b.has_element_section
    &&& a.elements@ == b.elements@
    &&& a.has_code_section == b.has_code_section
    &&& a.code@ == b.code@
    &&& a.has_name_section == b.has_name_section
}

/// Names function 0 `name` and moves every other debug name up one index.
/// Fails, changing nothing, when the module has no name section.
pub fn prepend_function_name(module: &mut Module, name: String) -> (r: Result<(), WError>)
    requires
        forall|i: int|
            0 <= i < old(module).function_names@.len() ==> #[trigger] old(module).function_names@[i].index
                < u32::MAX,
    ensures
        r is Ok <==> old(module).has_name_section,
        r is Err ==> *final(module) == *old(module),
        r matches Err(e) ==> e is InternalError,
        r is Ok ==> {
            &&& same_but_names(old(module), final(module))
            &&& final(module).function_names@.len() == old(module).function_names@.len() + 1
            &&& final(module).function_names@[0].index == 0
            &&& final(module).function_names@[0].name@ == name@
            &&& forall|i: int|
                0 <= i < old(module).function_names@.len() ==> {
                    &&& #[trigger] final(module).function_names@[i + 1].index
                        == old(module).function_names@[i].index + 1
                    &&& final(module).function_names@[i + 1].name@
                        == old(module).function_names@[i].name@
                }
        },
{
    if !module.has_name_section {
        return Err(WError::InternalError("Names section not present"));
    }
    let mut names: Vec<FunctionName> = Vec::new();
    names.push(FunctionName { index: 0, name });
    let mut i: usize = 0;
    while i < module.function_names.len()
        invariant
            i <= module.function_names@.len(),
            names@.len() == i + 1,
            names@[0].index == 0,
            names@[0].name@ == name@,
            forall|k: int|
                0 <= k < module.function_names@.len() ==> #[trigger] module.function_names@[k].index
                    < u32::MAX,
            forall|k: int|
                0 <= k < i ==> {
                    &&& #[trigger] names@[k + 1].index == module.function_names@[k].index + 1
                    &&& names@[k + 1].name@ == module.function_names@[k].name@
                },
        decreases module.function_names@.len() - i,
    {
        let entry = &module.function_names[i];
        names.push(FunctionName { index: entry.index + 1, name: entry.name.clone() });
        i += 1;
    }
    module.function_names = names;
    Ok(())
}

/// Every field but the imports is the same.
pub open spec fn same_but_imports(a: &Module, b: &Module) -> bool {
    &&& a.has_type_section == b.has_type_section
    &&& a.has_function_section == b.has_function_section
    &&& a.functions@ == b.functions@
    &&& a.has_export_section == b.has_export_section
    &&& a.exports@ == b.exports@
    &&& a.has_element_section == b.has_element_section
    &&& a.elements@ == b.elements@
    &&& a.has_code_section == b.has_code_section
    &&& a.code@ == b.code@
    &&& a.has_name_section == b.has_name_section
    &&& a.function_names@ == b.function_names@
}

/// Puts `entry` first among the imports, marking the import section present
/// when it was not. The model keeps no section order: whoever writes the
/// module back places a new import section right after the type section.
/// Fails, changing nothing, when the import section must be created and there
/// is no type section.
pub fn prepend_import(module: &mut Module, entry: ImportEntry) -> (r: Result<(), WError>)
    ensures
        r is Ok <==> old(module).has_import_section || old(module).has_type_section,
        r is Err ==> *final(module) == *old(module),
        r matches Err(e) ==> e is InternalError,
        r is Ok ==> {
            &&& same_but_imports(old(module), final(module))
            &&& final(module).has_import_section
            &&& final(module).imports@ == seq![entry].add(old(module).imports@)
        },
{
    if !module.has_import_section {
        if !module.has_type_section {
            return Err(WError::InternalError("Type section not found"));
        }
        module.has_import_section = true;
    }
    let ghost before = module.imports@;
    module.imports.insert(0, entry);
    proof {
        assert(module.imports@ =~= seq![entry].add(before));
    }
    Ok(())
}

proof fn lemma_prepend_function_import(e: ImportEntry, s: Seq<ImportEntry>, n: int)
    requires
        is_function_import(e),
        0 <= n <= s.len(),
    ensures
        function_imports_in(seq![e].add(s), n + 1) == function_imports_in(s, n) + 1,
    decreases n,
{
    if n > 0 {
        lemma_prepend_function_import(e, s, n - 1);
        assert((seq![e].add(s))[n] == s[n - 1]);
    } else {
        assert((seq![e].add(s))[0] == e);
        assert(function_imports_in(seq![e].add(s), 0) == 0);
    }
}

/// Whether every function reference is below `bound`.
pub fn refs_fit(module: &Module, bound: u32) -> (r: bool)
    ensures
        r == refs_below(module, bound as int),
{
    let mut i: usize = 0;
    while i < module.code.len()
        invariant
            i <= module.code@.len(),
            forall|k: int, j: int|
                0 <= k < i && 0 <= j < module.code@[k].code@.len()
                    ==> (#[trigger] module.code@[k].code@[j] matches Instruction::Call(f) ==> f < bound),
        decreases module.code@.len() - i,
    {
        let mut j: usize = 0;
        while j < module.code[i].code.len()
            invariant
                i < module.code@.len(),
                j <= module.code@[i as int].code@.len(),
                forall|k: int, jj: int|
                    0 <= k < i && 0 <= jj < module.code@[k].code@.len()
                        ==> (#[trigger] module.code@[k].code@[jj] matches Instruction::Call(f) ==> f < bound),
                forall|jj: int|
                    0 <= jj < j ==> (#[trigger] module.code@[i as int].code@[jj] matches Instruction::Call(f)
                        ==> f < bound),
            decreases module.code@[i as int].code@.len() - j,
        {
            if let Instruction::Call(f) = module.code[i].code[j] {
                if f >= bound {
                    assert(!(module.code@[i as int].code@[j as int] matches Instruction::Call(f) ==> f < bound));
                    return false;
                }
            }
            j += 1;
        }
        i += 1;
    }
    let mut i: usize = 0;
    while i < module.exports.len()
        invariant
            i <= module.exports@.len(),
            forall|k: int|
                0 <= k < i ==> (#[trigger] module.exports@[k].internal matches Internal::Function(f)
                    ==> f < bound),
        decreases module.exports@.len() - i,
    {
        if let Internal::Function(f) = module.exports[i].internal {
            if f >= bound {
                assert(!(module.exports@[i as int].internal matches Internal::Function(f) ==> f < bound));
                return false;
            }
        }
        i += 1;
    }
    let mut i: usize = 0;
    while i < module.elements.len()
        invariant
            i <= module.elements@.len(),
            forall|k: int, j: int|
                0 <= k < i && 0 <= j < module.elements@[k].members@.len()
                    ==> #[trigger] module.elements@[k].members@[j] < bound,
        decreases module.elements@.len() - i,
    {
        let mut j: usize = 0;
        while j < module.elements[i].members.len()
            invariant
                i < module.elements@.len(),
                j <= module.elements@[i as int].members@.len(),
                forall|k: int, jj: int|
                    0 <= k < i && 0 <= jj < module.elements@[k].members@.len()
                        ==> #[trigger] module.elements@[k].members@[jj] < bound,
                forall|jj: int|
                    0 <= jj < j ==> #[trigger] module.elements@[i as int].members@[jj] < bound,
            decreases module.elements@[i as int].members@.len() - j,
        {
            if module.elements[i].members[j] >= bound {
                assert(module.elements@[i as int].members@[j as int] >= bound);
                return false;
            }
            j += 1;
        }
        i += 1;
    }
    let mut i: usize = 0;
    while i < module.function_names.len()
        invariant
            i <= module.function_names@.len(),
            forall|k: int| 0 <= k < i ==> #[trigger] module.function_names@[k].index < bound,
        decreases module.function_names@.len() - i,
    {
        if module.function_names[i].index >= bound {
            assert(module.function_names@[i as int].index >= bound);
            return false;
        }
        i += 1;
    }
    true
}

proof fn lemma_resolved_are_exports(exports: Seq<ExportEntry>, names: Seq<String>)
    ensures
        forall|k: int|
            0 <= k < resolved(exports, names).len() ==> first_function_export(
                exports,
                (#[trigger] resolved(exports, names)[k]).0,
            ) == Some(resolved(exports, names)[k].1),
    decreases names.len(),
{
    if names.len() > 0 {
        lemma_resolved_are_exports(exports, names.drop_last());
    }
}

proof fn lemma_shift_refs(a: &Module, b: &Module, shift: u32, x: int)
    requires
        shifted(a, b, shift),
        refs_below(a, x),
    ensures
        code_refs_below(b, x + shift),
        names_below(b, x),
{
    assert forall|i: int, j: int|
        0 <= i < b.code@.len() && 0 <= j < b.code@[i].code@.len() implies (#[trigger] b.code@[i].code@[j] matches Instruction::Call(f) ==> f < x + shift) by {
        assert(a.code@[i].locals@ == b.code@[i].locals@);
        assert(b.code@[i].code@[j] == shift_instruction(a.code@[i].code@[j], shift));
    }
    assert forall|i: int| 0 <= i < b.exports@.len() implies (#[trigger] b.exports@[i].internal matches Internal::Function(f) ==> f < x + shift) by {
        assert(b.exports@[i].internal == shift_internal(a.exports@[i].internal, shift));
    }
    assert forall|i: int, j: int|
        0 <= i < b.elements@.len() && 0 <= j < b.elements@[i].members@.len() implies #[trigger] b.elements@[i].members@[j] < x + shift by {
        assert(b.elements@[i].members@[j] == a.elements@[i].members@[j] + shift);
    }
}

proof fn lemma_names_refs(a: &Module, b: &Module, x: int)
    requires
        x >= 0,
        code_refs_below(a, x + 1),
        names_below(a, x),
        same_but_names(a, b),
        b.function_names@.len() == a.function_names@.len() + 1,
        b.function_names@[0].index == 0,
        forall|i: int|
            0 <= i < a.function_names@.len() ==> #[trigger] b.function_names@[i + 1].index
                == a.function_names@[i].index + 1,
    ensures
        refs_below(b, x + 1),
{
    assert forall|i: int| 0 <= i < b.function_names@.len() implies #[trigger] b.function_names@[i].index < x + 1 by {
        if i > 0 {
            assert(b.function_names@[(i - 1) + 1].index == a.function_names@[i - 1].index + 1);
            assert(a.function_names@[i - 1].index < x);
        }
    }
}

proof fn lemma_replace_refs(a: &Module, b: &Module, before: u32, after: u32, y: int)
    requires
        replaced(a, b, before, after),
        refs_below(a, y),
        after < y,
    ensures
        refs_below(b, y),
{
    assert forall|i: int, j: int|
        0 <= i < b.code@.len() && 0 <= j < b.code@[i].code@.len() implies (#[trigger] b.code@[i].code@[j] matches Instruction::Call(f) ==> f < y) by {
        assert(a.code@[i].locals@ == b.code@[i].locals@);
        assert(b.code@[i].code@[j] == replace_instruction(a.code@[i].code@[j], before, after));
    }
    assert forall|i: int, j: int|
        0 <= i < b.elements@.len() && 0 <= j < b.elements@[i].members@.len() implies #[trigger] b.elements@[i].members@[j] < y by {
        assert(b.elements@[i].members@[j] == a.elements@[i].members@[j]);
    }
}

/// After substituting the `k` builtins `b`, `imports[j]` is the import of
/// `b[k - 1 - j]`, and the imports that were there before follow.
pub open spec fn imports_for(
    imports: Seq<ImportEntry>,
    b: Seq<(Seq<char>, u32)>,
    functions: Seq<u32>,
    before: Seq<ImportEntry>,
) -> bool {
    &&& imports.len() == b.len() + before.len()
    &&& forall|j: int|
        0 <= j < b.len() ==> {
            &&& (#[trigger] imports[j]).field@ == import_name(b[b.len() - 1 - j].0)
            &&& imports[j].external == External::Function(functions[b[b.len() - 1 - j].1 as int])
        }
    &&& forall|j: int| 0 <= j < before.len() ==> #[trigger] imports[b.len() + j] == before[j]
}

/// The module has what patching the builtins `b` needs: a function-section
/// entry for each, room below `u32::MAX` for every reference, and, when there
/// is a builtin, a code section, a name section, and an import or type section.
pub open spec fn succeeds(m: &Module, b: Seq<(Seq<char>, u32)>) -> bool {
    &&& b.len() <= u32::MAX
    &&& refs_below(m, u32::MAX - b.len())
    &&& (b.len() > 0 ==> m.has_function_section)
    &&& (b.len() > 0 ==> m.has_code_section && m.has_name_section && (m.has_import_section
        || m.has_type_section))
    &&& forall|k: int| 0 <= k < b.len() ==> (#[trigger] b[k]).1 < m.functions@.len()
}

/// Position of the first builtin of `b` whose function index was `g`.
pub open spec fn first_builtin(b: Seq<(Seq<char>, u32)>, g: u32) -> Option<int>
    decreases b.len(),
{
    if b.len() == 0 {
        None
    } else {
        match first_builtin(b.drop_last(), g) {
            Some(j) => Some(j),
            None => if b.last().1 == g {
                Some(b.len() - 1)
            } else {
                None
            },
        }
    }
}

/// An instruction once the builtins `b` are substituted: a call to the
/// function of builtin `j` calls import `b.len() - 1 - j`, any other call
/// target moves up by `b.len()`.
pub open spec fn patched_instruction(b: Seq<(Seq<char>, u32)>, x: Instruction) -> Instruction {
    match x {
        Instruction::Call(g) => match first_builtin(b, g) {
            Some(j) => Instruction::Call((b.len() - 1 - j) as u32),
            None => Instruction::Call((g + b.len()) as u32),
        },
        _ => x,
    }
}

/// The code, exports and element segments of `m` are those of `a` once the
/// builtins `b` are substituted.
pub open spec fn rewritten(a: &Module, m: &Module, b: Seq<(Seq<char>, u32)>) -> bool {
    &&& m.code@.len() == a.code@.len()
    &&& forall|i: int|
        0 <= i < a.code@.len() ==> ((#[trigger] m.code@[i]).locals@ == a.code@[i].locals@
            && m.code@[i].code@.len() == a.code@[i].code@.len())
    &&& forall|i: int, j: int|
        0 <= i < a.code@.len() && 0 <= j < a.code@[i].code@.len() ==> (
        #[trigger] m.code@[i].code@[j] == patched_instruction(b, a.code@[i].code@[j]))
    &&& m.exports@.len() == a.exports@.len()
    &&& forall|i: int|
        0 <= i < a.exports@.len() ==> ((#[trigger] m.exports@[i]).field@ == a.exports@[i].field@
            && m.exports@[i].internal == shift_internal(a.exports@[i].internal, b.len() as u32))
    &&& m.elements@.len() == a.elements@.len()
    &&& forall|i: int|
        0 <= i < a.elements@.len() ==> ((#[trigger] m.elements@[i]).members@.len()
            == a.elements@[i].members@.len())
    &&& forall|i: int, j: int|
        0 <= i < a.elements@.len() && 0 <= j < a.elements@[i].members@.len() ==> (
        #[trigger] m.elements@[i].members@[j] == a.elements@[i].members@[j] + b.len())
}

proof fn lemma_first_builtin_below(b: Seq<(Seq<char>, u32)>, g: u32)
    ensures
        first_builtin(b, g) matches Some(j) ==> 0 <= j < b.len(),
    decreases b.len(),
{
    if b.len() > 0 {
        lemma_first_builtin_below(b.drop_last(), g);
    }
}

proof fn lemma_patched_step(b: Seq<(Seq<char>, u32)>, s: int, x: Instruction)
    requires
        0 <= s < b.len() <= u32::MAX,
        b[s].1 < u32::MAX - b.len(),
        x matches Instruction::Call(g) ==> g < u32::MAX - b.len(),
    ensures
        patched_instruction(b.subrange(0, s + 1), x) == replace_instruction(
            shift_instruction(patched_instruction(b.subrange(0, s), x), 1),
            (b[s].1 + s + 1) as u32,
            0,
        ),
{
    let p = b.subrange(0, s);
    let q = b.subrange(0, s + 1);
    assert(q.drop_last() =~= p);
    assert(q.last() == b[s]);
    if let Instruction::Call(g) = x {
        lemma_first_builtin_below(p, g);
    }
}

proof fn lemma_rewritten_step(
    m0: &Module,
    mp: &Module,
    m1: &Module,
    m2: &Module,
    m3: &Module,
    m4: &Module,
    b: Seq<(Seq<char>, u32)>,
    s: int,
)
    requires
        0 <= s < b.len() <= u32::MAX,
        b[s].1 < u32::MAX - b.len(),
        refs_below(m0, u32::MAX - b.len()),
        rewritten(m0, mp, b.subrange(0, s)),
        same_but_imports(mp, m1),
        shifted(m1, m2, 1),
        same_but_names(m2, m3),
        replaced(m3, m4, (b[s].1 + s + 1) as u32, 0),
    ensures
        rewritten(m0, m4, b.subrange(0, s + 1)),
{
    let p = b.subrange(0, s);
    let q = b.subrange(0, s + 1);
    let before = (b[s].1 + s + 1) as u32;
    assert forall|i: int| 0 <= i < m0.code@.len() implies ((#[trigger] m4.code@[i]).locals@
        == m0.code@[i].locals@ && m4.code@[i].code@.len() == m0.code@[i].code@.len()) by {
        assert(mp.code@[i].locals@ == m0.code@[i].locals@);
        assert(m1.code@[i] == mp.code@[i]);
        assert(m1.code@[i].locals@ == m2.code@[i].locals@);
        assert(m3.code@[i] == m2.code@[i]);
        assert(m3.code@[i].locals@ == m4.code@[i].locals@);
    }
    assert forall|i: int, j: int|
        0 <= i < m0.code@.len() && 0 <= j < m0.code@[i].code@.len() implies (
        #[trigger] m4.code@[i].code@[j] == patched_instruction(q, m0.code@[i].code@[j])) by {
        assert(mp.code@[i].locals@ == m0.code@[i].locals@);
        assert(m1.code@[i] == mp.code@[i]);
        assert(m1.code@[i].locals@ == m2.code@[i].locals@);
        assert(m3.code@[i] == m2.code@[i]);
        assert(m3.code@[i].locals@ == m4.code@[i].locals@);
        let x = m0.code@[i].code@[j];
        assert(mp.code@[i].code@[j] == patched_instruction(p, x));
        assert(m2.code@[i].code@[j] == shift_instruction(m1.code@[i].code@[j], 1));
        assert(m4.code@[i].code@[j] == replace_instruction(m3.code@[i].code@[j], before, 0));
        lemma_patched_step(b, s, x);
    }
    assert forall|i: int| 0 <= i < m0.exports@.len() implies ((#[trigger] m4.exports@[i]).field@
        == m0.exports@[i].field@ && m4.exports@[i].internal == shift_internal(
        m0.exports@[i].internal,
        q.len() as u32,
    )) by {
        assert(mp.exports@[i].field@ == m0.exports@[i].field@);
        assert(m1.exports@[i] == mp.exports@[i]);
        assert(m2.exports@[i].field@ == m1.exports@[i].field@);
        assert(m2.exports@[i].internal == shift_internal(m1.exports@[i].internal, 1));
        assert(m4.exports@[i] == m2.exports@[i]);
    }
    assert forall|i: int| 0 <= i < m0.elements@.len() implies ((#[trigger] m4.elements@[i]).members@.len()
        == m0.elements@[i].members@.len()) by {
        assert(mp.elements@[i].members@.len() == m0.elements@[i].members@.len());
        assert(m1.elements@[i] == mp.elements@[i]);
        assert(m2.elements@[i].members@.len() == m1.elements@[i].members@.len());
        assert(m3.elements@[i] == m2.elements@[i]);
    }
    assert forall|i: int, j: int|
        0 <= i < m0.elements@.len() && 0 <= j < m0.elements@[i].members@.len() implies (
        #[trigger] m4.elements@[i].members@[j] == m0.elements@[i].members@[j] + q.len()) by {
        assert(mp.elements@[i].members@.len() == m0.elements@[i].members@.len());
        assert(mp.elements@[i].members@[j] == m0.elements@[i].members@[j] + p.len());
        assert(m1.elements@[i] == mp.elements@[i]);
        assert(m2.elements@[i].members@[j] == m1.elements@[i].members@[j] + 1);
        assert(m3.elements@[i] == m2.elements@[i]);
        assert(m4.elements@[i].members@[j] == m3.elements@[i].members@[j]);
    }
}

/// The map pairs each builtin's name with its import name, in order.
pub open spec fn map_for(entries: Seq<(String, String)>, b: Seq<(Seq<char>, u32)>) -> bool {
    &&& entries.len() == b.len()
    &&& forall|j: int|
        0 <= j < b.len() ==> {
            &&& (#[trigger] entries[j]).0@ == b[j].0
            &&& entries[j].1@ == import_name(b[j].0)
        }
}

/// Turns each exported function named in `names` into an import named
/// `builtin_<name>`: the import is put first in the function index space,
/// every function reference is moved up one, and the calls to the function
/// now call the import. Builtins are processed in the order of `names`, so
/// the last one ends at index 0.
pub fn patch_module(module: Module, names: &Vec<String>) -> (r: Result<(Module, PatchedBuiltinsMap), WError>)
    ensures
        match r {
            Ok((m, map)) => {
                &&& map_for(map.entries@, resolved(module.exports@, names@))
                &&& imports_for(
                    m.imports@,
                    resolved(module.exports@, names@),
                    module.functions@,
                    module.imports@,
                )
                &&& rewritten(&module, &m, resolved(module.exports@, names@))
                &&& index_consistent(&module) ==> index_consistent(&m)
            },
            Err(e) => e is InternalError,
        },
        succeeds(&module, resolved(module.exports@, names@)) ==> r is Ok,
{
    let ghost m0 = module;
    let mut wm = module;
    proof {
        let rb = resolved(m0.exports@, names@);
        if succeeds(&m0, rb) {
            assert forall|k: int| 0 <= k < rb.len() implies (m0.has_function_section && (
            #[trigger] rb[k]).1 < m0.functions@.len()) by {
                assert(succeeds(&m0, rb));
            }
        }
    }
    let builtins = match resolve_builtins(&wm, names) {
        Ok(b) => b,
        Err(e) => return Err(e),
    };
    let count = builtins.len();
    if count > u32::MAX as usize || !refs_fit(&wm, u32::MAX - count as u32) {
        return Err(WError::InternalError("Function index overflow"));
    }
    proof {
        lemma_resolved_are_exports(m0.exports@, names@);
        assert forall|k: int| 0 <= k < count implies (#[trigger] builtins@[k]).original_function_id
            < u32::MAX - count by {
            assert(builtins_view(builtins@)[k] == (builtins@[k].name@, builtins@[k].original_function_id));
            lemma_first_export_is_export(m0.exports@, builtins@[k].name@);
        }
        assert(builtins_view(builtins@).subrange(0, 0) =~= Seq::<(Seq<char>, u32)>::empty());
        assert(m0.imports@ == wm.imports@);
        assert forall|i: int, j: int|
            0 <= i < m0.code@.len() && 0 <= j < m0.code@[i].code@.len() implies (
            #[trigger] wm.code@[i].code@[j] == patched_instruction(
                builtins_view(builtins@).subrange(0, 0),
                m0.code@[i].code@[j],
            )) by {}
        assert forall|i: int| 0 <= i < m0.exports@.len() implies ((#[trigger] wm.exports@[i]).field@
            == m0.exports@[i].field@ && wm.exports@[i].internal == shift_internal(
            m0.exports@[i].internal,
            0,
        )) by {}
    }
    let mut entries: Vec<(String, String)> = Vec::new();
    let mut i: usize = 0;
    while i < count
        invariant
            count == builtins@.len(),
            count <= u32::MAX,
            i <= count,
            types_resolved(&m0, builtins@),
            builtins_view(builtins@) == resolved(m0.exports@, names@),
            refs_below(&wm, u32::MAX - count + i),
            forall|k: int| 0 <= k < count ==> (#[trigger] builtins@[k]).original_function_id
                < u32::MAX - count,
            imports_for(
                wm.imports@,
                builtins_view(builtins@).subrange(0, i as int),
                m0.functions@,
                m0.imports@,
            ),
            map_for(entries@, builtins_view(builtins@).subrange(0, i as int)),
            index_consistent(&m0) ==> index_consistent(&wm),
            wm.has_type_section == m0.has_type_section,
            wm.has_name_section == m0.has_name_section,
            wm.has_code_section == m0.has_code_section,
            m0.has_import_section ==> wm.has_import_section,
            count > 0 && succeeds(&m0, builtins_view(builtins@)) ==> m0.has_code_section
                && m0.has_name_section && (m0.has_import_section || m0.has_type_section),
            m0 == module,
            refs_below(&m0, u32::MAX - count),
            rewritten(&m0, &wm, builtins_view(builtins@).subrange(0, i as int)),
        decreases count - i,
    {
        let b = &builtins[i];
        let field = make_import_name(&b.name);
        let entry = ImportEntry {
            module: String::from_str("env"),
            field: field.clone(),
            external: External::Function(b.function_type_id),
        };
        let ghost m_prev = wm;
        let ghost x = u32::MAX - count + i;
        match prepend_import(&mut wm, entry) {
            Ok(()) => {},
            Err(e) => return Err(e),
        }
        let ghost m1 = wm;
        proof {
            lemma_prepend_function_import(entry, m_prev.imports@, m_prev.imports@.len() as int);
            assert(function_count(&m1) == function_count(&m_prev) + 1 as int);
        }
        match shift_function_ids(&mut wm, 1) {
            Ok(()) => {},
            Err(e) => return Err(e),
        }
        let ghost m2 = wm;
        proof {
            lemma_shift_refs(&m1, &m2, 1, x);
            if index_consistent(&m0) {
                lemma_shift_refs(&m1, &m2, 1, function_count(&m_prev) as int);
            }
        }
        match prepend_function_name(&mut wm, field.clone()) {
            Ok(()) => {},
            Err(e) => return Err(e),
        }
        let ghost m3 = wm;
        proof {
            lemma_names_refs(&m2, &m3, x);
            if index_consistent(&m0) {
                lemma_names_refs(&m2, &m3, function_count(&m_prev) as int);
            }
        }
        let before = b.original_function_id + i as u32 + 1;
        match replace_function_id(&mut wm, before, 0) {
            Ok(()) => {},
            Err(e) => return Err(e),
        }
        proof {
            lemma_replace_refs(&m3, &wm, before, 0, x + 1);
            assert(builtins_view(builtins@)[i as int] == (b.name@, b.original_function_id));
            lemma_rewritten_step(
                &m0,
                &m_prev,
                &m1,
                &m2,
                &m3,
                &wm,
                builtins_view(builtins@),
                i as int,
            );
            if index_consistent(&m0) {
                lemma_replace_refs(&m3, &wm, before, 0, (function_count(&m_prev) + 1) as int);
                assert(function_count(&wm) == function_count(&m_prev) + 1 as int);
            }
            let bv = builtins_view(builtins@);
            assert(bv.subrange(0, i + 1) =~= bv.subrange(0, i as int).push(bv[i as int]));
            assert(bv[i as int] == (b.name@, b.original_function_id));
            assert(wm.imports@ == m1.imports@);
            let p = bv.subrange(0, i as int);
            let q = bv.subrange(0, i + 1);
            assert forall|j: int| 0 <= j < q.len() implies {
                &&& (#[trigger] wm.imports@[j]).field@ == import_name(q[q.len() - 1 - j].0)
                &&& wm.imports@[j].external == External::Function(m0.functions@[q[q.len() - 1 - j].1 as int])
            } by {
                if j > 0 {
                    assert(wm.imports@[j] == m_prev.imports@[j - 1]);
                    assert(q[q.len() - 1 - j] == p[p.len() - 1 - (j - 1)]);
                } else {
                    assert(wm.imports@[0] == entry);
                    assert(builtins@[i as int] == *b);
                }
            }
            assert forall|j: int| 0 <= j < m0.imports@.len() implies #[trigger] wm.imports@[q.len() + j] == m0.imports@[j] by {
                assert(wm.imports@[q.len() + j] == m_prev.imports@[p.len() + j]);
            }
        }
        entries.push((b.name.clone(), field));
        i += 1;
    }
    proof {
        assert(builtins_view(builtins@).subrange(0, count as int) =~= builtins_view(builtins@));
    }
    Ok((wm, PatchedBuiltinsMap { entries }))
}

} // verus!
