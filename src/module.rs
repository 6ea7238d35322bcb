use vstd::prelude::*;

verus! {

/// An instruction of a function body. Only calls carry a function index; the
/// other instructions are kept as handles that the caller resolves.
#[derive(Debug, Clone, Copy, PartialEq, Eq, Structural)]
pub enum Instruction {
    Call(u32),
    Unreachable,
    End,
    Other(u32),
}

/// A run of local variables of one value type.
#[derive(Debug, Clone, Copy, PartialEq, Eq, Structural)]
pub struct Local {
    pub count: u32,
    pub value_type: u8,
}

#[derive(Debug)]
pub struct FuncBody {
    pub locals: Vec<Local>,
    pub code: Vec<Instruction>,
}

/// What an export refers to.
#[derive(Debug, Clone, Copy, PartialEq, Eq, Structural)]
pub enum Internal {
    Function(u32),
    Table(u32),
    Memory(u32),
    Global(u32),
}

#[derive(Debug)]
pub struct ExportEntry {
    pub field: String,
    pub internal: Internal,
}

/// What an import provides: a function of a given type, or something else
/// kept as a handle.
#[derive(Debug, Clone, Copy, PartialEq, Eq, Structural)]
pub enum External {
    Function(u32),
    Other(u32),
}

#[derive(Debug)]
pub struct ImportEntry {
    pub module: String,
    pub field: String,
    pub external: External,
}

#[derive(Debug)]
pub struct ElementSegment {
    pub members: Vec<u32>,
}

#[derive(Debug)]
pub struct FunctionName {
    pub index: u32,
    pub name: String,
}

/// The parts of a module that hold or depend on function indices. Each
/// `has_*` flag says whether the section is present; an absent section has an
/// empty vector.
#[derive(Debug)]
pub struct Module {
    pub has_type_section: bool,
    pub has_import_section: bool,
    pub imports: Vec<ImportEntry>,
    pub has_function_section: bool,
    pub functions: Vec<u32>,
    pub has_export_section: bool,
    pub exports: Vec<ExportEntry>,
    pub has_element_section: bool,
    pub elements: Vec<ElementSegment>,
    pub has_code_section: bool,
    pub code: Vec<FuncBody>,
    pub has_name_section: bool,
    pub function_names: Vec<FunctionName>,
}

pub open spec fn is_function_import(e: ImportEntry) -> bool {
    e.external is Function
}

/// Number of imported functions among the first `n` imports.
pub open spec fn function_imports_in(imports: Seq<ImportEntry>, n: int) -> nat
    decreases n,
{
    if n <= 0 {
        0
    } else {
        function_imports_in(imports, n - 1) + if is_function_import(imports[n - 1]) {
            1nat
        } else {
            0nat
        }
    }
}

/// Size of the function index space: imported functions, then local bodies.
pub open spec fn function_count(m: &Module) -> nat {
    function_imports_in(m.imports@, m.imports@.len() as int) + m.code@.len()
}

/// Every call target, function export and element member is below `bound`.
pub open spec fn code_refs_below(m: &Module, bound: int) -> bool {
    &&& forall|i: int, j: int|
        0 <= i < m.code@.len() && 0 <= j < m.code@[i].code@.len()
            ==> (#[trigger] m.code@[i].code@[j] matches Instruction::Call(f) ==> f < bound)
    &&& forall|i: int|
        0 <= i < m.exports@.len() ==> (#[trigger] m.exports@[i].internal matches Internal::Function(
            f,
        ) ==> f < bound)
    &&& forall|i: int, j: int|
        0 <= i < m.elements@.len() && 0 <= j < m.elements@[i].members@.len()
            ==> #[trigger] m.elements@[i].members@[j] < bound
}

/// Every debug name is for a function index below `bound`.
pub open spec fn names_below(m: &Module, bound: int) -> bool {
    forall|i: int| 0 <= i < m.function_names@.len() ==> #[trigger] m.function_names@[i].index < bound
}

/// Every function reference (call targets, function exports, element members
/// and debug names) is below `bound`.
pub open spec fn refs_below(m: &Module, bound: int) -> bool {
    code_refs_below(m, bound) && names_below(m, bound)
}

/// The module's function references all address its function index space.
pub open spec fn index_consistent(m: &Module) -> bool {
    refs_below(m, function_count(m) as int)
}

} // verus!
