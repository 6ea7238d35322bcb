use crate::errors::WError;
use crate::module::{
    code_refs_below, ElementSegment, ExportEntry, FuncBody, Instruction, Internal, Local, Module,
};
use vstd::prelude::*;

verus! {

pub open spec fn shift_instruction(i: Instruction, shift: u32) -> Instruction {
    match i {
        Instruction::Call(f) => Instruction::Call((f + shift) as u32),
        _ => i,
    }
}

pub open spec fn replace_instruction(i: Instruction, before: u32, after: u32) -> Instruction {
    match i {
        Instruction::Call(f) => if f == before {
            Instruction::Call(after)
        } else {
            i
        },
        _ => i,
    }
}

pub open spec fn shift_internal(e: Internal, shift: u32) -> Internal {
    match e {
        Internal::Function(f) => Internal::Function((f + shift) as u32),
        _ => e,
    }
}

/// The parts of the module that hold no function reference are the same.
pub open spec fn same_except_refs(a: &Module, b: &Module) -> bool {
    &&& a.has_type_section == b.has_type_section
    &&& a.has_import_section == b.has_import_section
    &&& a.imports@ == b.imports@
    &&& a.has_function_section == b.has_function_section
    &&& a.functions@ == b.functions@
    &&& a.has_export_section == b.has_export_section
    &&& a.has_element_section == b.has_element_section
    &&& a.has_code_section == b.has_code_section
    &&& a.has_name_section == b.has_name_section
    &&& a.function_names@ == b.function_names@
    &&& a.exports@.len() == b.exports@.len()
    &&& forall|i: int| 0 <= i < a.exports@.len() ==> #[trigger] a.exports@[i].field@ == b.exports@[i].field@
    &&& a.elements@.len() == b.elements@.len()
    &&& forall|i: int|
        0 <= i < a.elements@.len() ==> #[trigger] a.elements@[i].members@.len()
            == b.elements@[i].members@.len()
    &&& a.code@.len() == b.code@.len()
    &&& forall|i: int|
        0 <= i < a.code@.len() ==> {
            &&& #[trigger] a.code@[i].locals@ == b.code@[i].locals@
            &&& a.code@[i].code@.len() == b.code@[i].code@.len()
        }
}

/// `b` is `a` with every call target, function export and element member
/// increased by `shift`.
pub open spec fn shifted(a: &Module, b: &Module, shift: u32) -> bool {
    &&& same_except_refs(a, b)
    &&& forall|i: int, j: int|
        0 <= i < a.code@.len() && 0 <= j < a.code@[i].code@.len() ==> #[trigger] b.code@[i].code@[j]
            == shift_instruction(a.code@[i].code@[j], shift)
    &&& forall|i: int|
        0 <= i < a.exports@.len() ==> #[trigger] b.exports@[i].internal == shift_internal(
            a.exports@[i].internal,
            shift,
        )
    &&& forall|i: int, j: int|
        0 <= i < a.elements@.len() && 0 <= j < a.elements@[i].members@.len()
            ==> #[trigger] b.elements@[i].members@[j] == a.elements@[i].members@[j] + shift
}

/// `b` is `a` with every call to `before` turned into a call to `after`.
pub open spec fn replaced(a: &Module, b: &Module, before: u32, after: u32) -> bool {
    &&& same_except_refs(a, b)
    &&& b.exports@ == a.exports@
    &&& forall|i: int, j: int|
        0 <= i < a.elements@.len() && 0 <= j < a.elements@[i].members@.len()
            ==> #[trigger] b.elements@[i].members@[j] == a.elements@[i].members@[j]
    &&& forall|i: int, j: int|
        0 <= i < a.code@.len() && 0 <= j < a.code@[i].code@.len() ==> #[trigger] b.code@[i].code@[j]
            == replace_instruction(a.code@[i].code@[j], before, after)
}

pub fn copy_locals(v: &Vec<Local>) -> (r: Vec<Local>)
    ensures
        r@ == v@,
{
    let mut r: Vec<Local> = Vec::new();
    let mut i: usize = 0;
    while i < v.len()
        invariant
            i <= v.len(),
            r@ == v@.subrange(0, i as int),
        decreases v.len() - i,
    {
        r.push(v[i]);
        i += 1;
        assert(r@ =~= v@.subrange(0, i as int));
    }
    assert(r@ =~= v@);
    r
}

fn shift_function_ids_in_code_section(bodies: &Vec<FuncBody>, shift: u32) -> (r: Vec<FuncBody>)
    requires
        forall|i: int, j: int|
            0 <= i < bodies@.len() && 0 <= j < bodies@[i].code@.len()
                ==> (#[trigger] bodies@[i].code@[j] matches Instruction::Call(f) ==> f + shift
                <= u32::MAX),
    ensures
        r@.len() == bodies@.len(),
        forall|i: int|
            0 <= i < bodies@.len() ==> {
                &&& #[trigger] r@[i].locals@ == bodies@[i].locals@
                &&& r@[i].code@.len() == bodies@[i].code@.len()
            },
        forall|i: int, j: int|
            0 <= i < bodies@.len() && 0 <= j < bodies@[i].code@.len() ==> #[trigger] r@[i].code@[j]
                == shift_instruction(bodies@[i].code@[j], shift),
{
    let mut r: Vec<FuncBody> = Vec::new();
    let mut i: usize = 0;
    while i < bodies.len()
        invariant
            i <= bodies@.len(),
            r@.len() == i,
            forall|k: int, j: int|
                0 <= k < bodies@.len() && 0 <= j < bodies@[k].code@.len()
                    ==> (#[trigger] bodies@[k].code@[j] matches Instruction::Call(f) ==> f + shift
                    <= u32::MAX),
            forall|k: int|
                0 <= k < i ==> {
                    &&& #[trigger] r@[k].locals@ == bodies@[k].locals@
                    &&& r@[k].code@.len() == bodies@[k].code@.len()
                },
            forall|k: int, j: int|
                0 <= k < i && 0 <= j < bodies@[k].code@.len() ==> #[trigger] r@[k].code@[j]
                    == shift_instruction(bodies@[k].code@[j], shift),
        decreases bodies@.len() - i,
    {
        let body = &bodies[i];
        let mut code: Vec<Instruction> = Vec::new();
        let mut j: usize = 0;
        while j < body.code.len()
            invariant
                i < bodies@.len(),
                *body == bodies@[i as int],
                j <= body.code@.len(),
                code@.len() == j,
                forall|jj: int|
                    0 <= jj < body.code@.len() ==> (#[trigger] body.code@[jj] matches Instruction::Call(
                        f,
                    ) ==> f + shift <= u32::MAX),
                forall|jj: int|
                    0 <= jj < j ==> #[trigger] code@[jj] == shift_instruction(body.code@[jj], shift),
            decreases body.code@.len() - j,
        {
            let ins = body.code[j];
            let out = match ins {
                Instruction::Call(f) => Instruction::Call(f + shift),
                _ => ins,
            };
            code.push(out);
            j += 1;
        }
        r.push(FuncBody { locals: copy_locals(&body.locals), code });
        i += 1;
    }
    r
}

fn shift_function_ids_in_exports_section(exports: &Vec<ExportEntry>, shift: u32) -> (r: Vec<
    ExportEntry,
>)
    requires
        forall|i: int|
            0 <= i < exports@.len() ==> (#[trigger] exports@[i].internal matches Internal::Function(
                f,
            ) ==> f + shift <= u32::MAX),
    ensures
        r@.len() == exports@.len(),
        forall|i: int|
            0 <= i < exports@.len() ==> {
                &&& #[trigger] r@[i].field@ == exports@[i].field@
                &&& r@[i].internal == shift_internal(exports@[i].internal, shift)
            },
{
    let mut r: Vec<ExportEntry> = Vec::new();
    let mut i: usize = 0;
    while i < exports.len()
        invariant
            i <= exports@.len(),
            r@.len() == i,
            forall|k: int|
                0 <= k < exports@.len() ==> (#[trigger] exports@[k].internal matches Internal::Function(
                    f,
                ) ==> f + shift <= u32::MAX),
            forall|k: int|
                0 <= k < i ==> {
                    &&& #[trigger] r@[k].field@ == exports@[k].field@
                    &&& r@[k].internal == shift_internal(exports@[k].internal, shift)
                },
        decreases exports@.len() - i,
    {
        let internal = match exports[i].internal {
            Internal::Function(f) => Internal::Function(f + shift),
            other => other,
        };
        r.push(ExportEntry { field: exports[i].field.clone(), internal });
        i += 1;
    }
    r
}

fn shift_function_ids_in_elements_section(segments: &Vec<ElementSegment>, shift: u32) -> (r: Vec<
    ElementSegment,
>)
    requires
        forall|i: int, j: int|
            0 <= i < segments@.len() && 0 <= j < segments@[i].members@.len()
                ==> #[trigger] segments@[i].members@[j] + shift <= u32::MAX,
    ensures
        r@.len() == segments@.len(),
        forall|i: int|
            0 <= i < segments@.len() ==> #[trigger] r@[i].members@.len()
                == segments@[i].members@.len(),
        forall|i: int, j: int|
            0 <= i < segments@.len() && 0 <= j < segments@[i].members@.len()
                ==> #[trigger] r@[i].members@[j] == segments@[i].members@[j] + shift,
{
    let mut r: Vec<ElementSegment> = Vec::new();
    let mut i: usize = 0;
    while i < segments.len()
        invariant
            i <= segments@.len(),
            r@.len() == i,
            forall|k: int, j: int|
                0 <= k < segments@.len() && 0 <= j < segments@[k].members@.len()
                    ==> #[trigger] segments@[k].members@[j] + shift <= u32::MAX,
            forall|k: int|
                0 <= k < i ==> #[trigger] r@[k].members@.len() == segments@[k].members@.len(),
            forall|k: int, j: int|
                0 <= k < i && 0 <= j < segments@[k].members@.len() ==> #[trigger] r@[k].members@[j]
                    == segments@[k].members@[j] + shift,
        decreases segments@.len() - i,
    {
        let seg = &segments[i];
        let mut members: Vec<u32> = Vec::new();
        let mut j: usize = 0;
        while j < seg.members.len()
            invariant
                i < segments@.len(),
                *seg == segments@[i as int],
                j <= seg.members@.len(),
                members@.len() == j,
                forall|jj: int|
                    0 <= jj < seg.members@.len() ==> #[trigger] seg.members@[jj] + shift <= u32::MAX,
                forall|jj: int| 0 <= jj < j ==> #[trigger] members@[jj] == seg.members@[jj] + shift,
            decreases seg.members@.len() - j,
        {
            members.push(seg.members[j] + shift);
            j += 1;
        }
        r.push(ElementSegment { members });
        i += 1;
    }
    r
}

/// Adds `shift` to every call target, every function export and every
/// element-segment member. Fails, changing nothing, when there is no code
/// section.
pub fn shift_function_ids(module: &mut Module, shift: u32) -> (r: Result<(), WError>)
    requires
        code_refs_below(old(module), u32::MAX - shift + 1),
    ensures
        r is Ok <==> old(module).has_code_section,
        r is Ok ==> shifted(old(module), final(module), shift),
        r is Err ==> *final(module) == *old(module),
        r matches Err(e) ==> e is InternalError,
{
    if !module.has_code_section {
        return Err(WError::InternalError("No code section"));
    }
    module.code = shift_function_ids_in_code_section(&module.code, shift);
    module.exports = shift_function_ids_in_exports_section(&module.exports, shift);
    module.elements = shift_function_ids_in_elements_section(&module.elements, shift);
    assert(same_except_refs(old(module), module));
    assert forall|i: int| 0 <= i < old(module).exports@.len() implies #[trigger] module.exports@[i].internal
        == shift_internal(old(module).exports@[i].internal, shift) by {
        assert(module.exports@[i].field@ == old(module).exports@[i].field@);
    }
    assert(forall|i: int, j: int|
        0 <= i < old(module).code@.len() && 0 <= j < old(module).code@[i].code@.len() ==> #[trigger] module.code@[i].code@[j]
            == shift_instruction(old(module).code@[i].code@[j], shift));
    Ok(())
}

/// Turns every call to `before` into a call to `after`. Exports and element
/// segments are left as they are. Fails, changing nothing, when there is no
/// code section.
pub fn replace_function_id(module: &mut Module, before: u32, after: u32) -> (r: Result<(), WError>)
    ensures
        r is Ok <==> old(module).has_code_section,
        r is Ok ==> replaced(old(module), final(module), before, after),
        r is Err ==> *final(module) == *old(module),
        r matches Err(e) ==> e is InternalError,
{
    if !module.has_code_section {
        return Err(WError::InternalError("No code section"));
    }
    let mut i: usize = 0;
    while i < module.code.len()
        invariant
            i <= module.code@.len(),
            same_except_refs(old(module), module),
            module.exports@ == old(module).exports@,
            module.elements@ == old(module).elements@,
            forall|k: int, j: int|
                0 <= k < i && 0 <= j < old(module).code@[k].code@.len() ==> #[trigger] module.code@[k].code@[j]
                    == replace_instruction(old(module).code@[k].code@[j], before, after),
            forall|k: int| i <= k < module.code@.len() ==> #[trigger] module.code@[k] == old(module).code@[k],
        decreases module.code@.len() - i,
    {
        let mut code: Vec<Instruction> = Vec::new();
        let mut j: usize = 0;
        while j < module.code[i].code.len()
            invariant
                i < module.code@.len(),
                module.code@[i as int] == old(module).code@[i as int],
                j <= module.code@[i as int].code@.len(),
                code@.len() == j,
                forall|jj: int|
                    0 <= jj < j ==> #[trigger] code@[jj] == replace_instruction(
                        module.code@[i as int].code@[jj],
                        before,
                        after,
                    ),
            decreases module.code@[i as int].code@.len() - j,
        {
            let ins = module.code[i].code[j];
            let out = match ins {
                Instruction::Call(f) if f == before => Instruction::Call(after),
                _ => ins,
            };
            code.push(out);
            j += 1;
        }
        let locals = copy_locals(&module.code[i].locals);
        module.code.set(i, FuncBody { locals, code });
        i += 1;
    }
    proof {
        assert(module.elements@ =~= old(module).elements@);
    }
    Ok(())
}

/// Replaces the body of a function with a trap (`unreachable`, `end`) and no
/// locals, keeping every slot. `function_id` counts from the first local
/// function body. Fails, changing nothing, when there is no code section or
/// the body does not exist.
pub fn disable_function_id(module: &mut Module, function_id: u32) -> (r: Result<(), WError>)
    ensures
        r is Ok <==> old(module).has_code_section && function_id < old(module).code@.len(),
        r is Err ==> *final(module) == *old(module),
        r matches Err(e) ==> e is InternalError,
        r is Ok ==> {
            let slot = function_id as int;
            &&& final(module).code@.len() == old(module).code@.len()
            &&& final(module).code@[slot].locals@.len() == 0
            &&& final(module).code@[slot].code@ == seq![Instruction::Unreachable, Instruction::End]
            &&& forall|k: int|
                0 <= k < old(module).code@.len() && k != slot ==> #[trigger] final(module).code@[k]
                    == old(module).code@[k]
            &&& final(module).has_type_section == old(module).has_type_section
            &&& final(module).has_import_section == old(module).has_import_section
            &&& final(module).imports@ == old(module).imports@
            &&& final(module).has_function_section == old(module).has_function_section
            &&& final(module).functions@ == old(module).functions@
            &&& final(module).has_export_section == old(module).has_export_section
            &&& final(module).exports@ == old(module).exports@
            &&& final(module).has_element_section == old(module).has_element_section
            &&& final(module).elements@ == old(module).elements@
            &&& final(module).has_code_section == old(module).has_code_section
            &&& final(module).has_name_section == old(module).has_name_section
            &&& final(module).function_names@ == old(module).function_names@
        },
{
    if !module.has_code_section {
        return Err(WError::InternalError("No code section"));
    }
    let id = function_id as usize;
    if id >= module.code.len() {
        return Err(WError::InternalError("No such function body"));
    }
    let code = vec![Instruction::Unreachable, Instruction::End];
    module.code.set(id, FuncBody { locals: Vec::new(), code });
    Ok(())
}

} // verus!
