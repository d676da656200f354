//! The in-memory model of a compiled WebAssembly module, reduced to what the
//! rewiring pass reads and writes: the function imports, the type reference of
//! each locally defined function, the export table, and the instruction tree
//! of each function body.
//!
//! The function index space is a single flat numbering: indices `[0, I)`
//! denote the `I` imported functions in import-table order, and indices
//! `[I, I + L)` denote the `L` locally defined functions in function-table
//! order.

use vstd::prelude::*;

verus! {

/// One function import: the host module that provides it, the field name it
/// is bound to, and a reference into the module's type table.
#[derive(Debug, Clone, PartialEq, Eq)]
pub struct FuncImport {
    pub module_name: String,
    pub field: String,
    pub type_ref: u32,
}

/// The mathematical value of a [`FuncImport`].
#[verifier::ext_equal]
pub struct ImportV {
    pub module_name: Seq<char>,
    pub field: Seq<char>,
    pub type_ref: int,
}

impl View for FuncImport {
    type V = ImportV;

    open spec fn view(&self) -> ImportV {
        ImportV { module_name: self.module_name@, field: self.field@, type_ref: self.type_ref as int }
    }
}

/// The internal entity an export entry refers to. Only `Function` entries
/// take part in the rewiring pass; the operand of a `Function` entry is an
/// index into the flat function index space.
#[derive(Debug, Clone, PartialEq, Eq)]
pub enum ExportRef {
    Function(u32),
    Table(u32),
    Memory(u32),
    Global(u32),
}

/// The mathematical value of an [`ExportRef`].
#[verifier::ext_equal]
pub enum ExportRefV {
    Function(int),
    Table(int),
    Memory(int),
    Global(int),
}

impl View for ExportRef {
    type V = ExportRefV;

    open spec fn view(&self) -> ExportRefV {
        match *self {
            ExportRef::Function(x) => ExportRefV::Function(x as int),
            ExportRef::Table(x) => ExportRefV::Table(x as int),
            ExportRef::Memory(x) => ExportRefV::Memory(x as int),
            ExportRef::Global(x) => ExportRefV::Global(x as int),
        }
    }
}

/// One export entry: an external name bound to an internal entity.
#[derive(Debug, Clone, PartialEq, Eq)]
pub struct Export {
    pub name: String,
    pub target: ExportRef,
}

/// The mathematical value of an [`Export`].
#[verifier::ext_equal]
pub struct ExportV {
    pub name: Seq<char>,
    pub target: ExportRefV,
}

impl View for Export {
    type V = ExportV;

    open spec fn view(&self) -> ExportV {
        ExportV { name: self.name@, target: self.target@ }
    }
}

/// One instruction of a function body, reduced to what the pass
/// distinguishes: the three block-structured instructions own a nested
/// instruction sequence, a direct call carries its target function index, and
/// every other instruction is opaque to the pass.
#[derive(Debug, PartialEq, Eq)]
pub enum Instr {
    Block(Vec<Instr>),
    If(Vec<Instr>),
    Loop(Vec<Instr>),
    Call(u32),
    Other,
}

/// The mathematical value of an [`Instr`]: the same tree over `Seq` and `int`.
#[verifier::ext_equal]
pub enum InstrV {
    Block(Seq<InstrV>),
    If(Seq<InstrV>),
    Loop(Seq<InstrV>),
    Call(int),
    Other,
}

/// The mathematical value of an instruction tree.
pub open spec fn instr_view(ins: Instr) -> InstrV
    decreases ins,
{
    match ins {
        Instr::Block(b) => InstrV::Block(body_view(b@)),
        Instr::If(b) => InstrV::If(body_view(b@)),
        Instr::Loop(b) => InstrV::Loop(body_view(b@)),
        Instr::Call(t) => InstrV::Call(t as int),
        Instr::Other => InstrV::Other,
    }
}

/// The mathematical value of an instruction sequence, element by element.
pub open spec fn body_view(b: Seq<Instr>) -> Seq<InstrV>
    decreases b,
{
    Seq::new(b.len(), |k: int| if 0 <= k < b.len() { instr_view(b[k]) } else { InstrV::Other })
}

impl View for Instr {
    type V = InstrV;

    open spec fn view(&self) -> InstrV {
        instr_view(*self)
    }
}

/// The full module, reduced to the sections the pass touches. A section a
/// binary module omits is `None`; the pass fails fast when a section it
/// needs is missing.
#[derive(Debug, PartialEq, Eq)]
pub struct Module {
    /// The function imports, in import-table order.
    pub imports: Option<Vec<FuncImport>>,
    /// The type reference of each locally defined function, in
    /// function-table order.
    pub functions: Option<Vec<u32>>,
    /// The export table, in order.
    pub exports: Option<Vec<Export>>,
    /// The instruction tree of each locally defined function, in
    /// function-table order.
    pub bodies: Option<Vec<Vec<Instr>>>,
}

/// The mathematical value of a [`Module`].
#[verifier::ext_equal]
pub struct ModuleV {
    pub imports: Option<Seq<ImportV>>,
    pub functions: Option<Seq<int>>,
    pub exports: Option<Seq<ExportV>>,
    pub bodies: Option<Seq<Seq<InstrV>>>,
}

/// The mathematical value of an import table.
pub open spec fn imports_view(v: Seq<FuncImport>) -> Seq<ImportV> {
    v.map_values(|x: FuncImport| x@)
}

/// The mathematical value of a function-definition table.
pub open spec fn funcs_view(v: Seq<u32>) -> Seq<int> {
    v.map_values(|t: u32| t as int)
}

/// The mathematical value of an export table.
pub open spec fn exports_view(v: Seq<Export>) -> Seq<ExportV> {
    v.map_values(|e: Export| e@)
}

/// The mathematical value of a code section.
pub open spec fn bodies_view(v: Seq<Vec<Instr>>) -> Seq<Seq<InstrV>> {
    v.map_values(|b: Vec<Instr>| body_view(b@))
}

impl View for Module {
    type V = ModuleV;

    open spec fn view(&self) -> ModuleV {
        ModuleV {
            imports: match self.imports {
                Some(v) => Some(imports_view(v@)),
                None => None,
            },
            functions: match self.functions {
                Some(v) => Some(funcs_view(v@)),
                None => None,
            },
            exports: match self.exports {
                Some(v) => Some(exports_view(v@)),
                None => None,
            },
            bodies: match self.bodies {
                Some(v) => Some(bodies_view(v@)),
                None => None,
            },
        }
    }
}

} // verus!
