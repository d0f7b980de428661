//! The parts of a WebAssembly module that hook generation looks at.
use vstd::prelude::*;

use crate::mnemonic::{is_name_of, names};

verus! {

/// A value type.
#[derive(Clone, Copy, Debug, PartialEq, Eq, Structural)]
pub enum ValType {
    I32,
    I64,
    F32,
    F64,
}

impl ValType {
    /// The letter that stands for the type in mangled names: `i` or `f`, in
    /// upper case for the 64-bit types.
    pub open spec fn char_spec(self) -> char {
        match self {
            ValType::I32 => 'i',
            ValType::I64 => 'I',
            ValType::F32 => 'f',
            ValType::F64 => 'F',
        }
    }

    /// Returns the letter that stands for the type in mangled names.
    pub fn to_char(self) -> (c: char)
        ensures
            c == self.char_spec(),
    {
        match self {
            ValType::I32 => 'i',
            ValType::I64 => 'I',
            ValType::F32 => 'f',
            ValType::F64 => 'F',
        }
    }
}

/// The types that a value of one type takes on its way to JavaScript: an `i64`
/// travels as two `i32` halves, every other value as it is.
pub open spec fn lowered(ty: ValType) -> Seq<ValType> {
    if ty == ValType::I64 {
        seq![ValType::I32, ValType::I32]
    } else {
        seq![ty]
    }
}

/// Appends the types that a value of type `ty` takes on its way to JavaScript.
pub fn push_lowered(tys: &mut Vec<ValType>, ty: ValType)
    ensures
        final(tys)@ == old(tys)@ + lowered(ty),
{
    if ty == ValType::I64 {
        tys.push(ValType::I32);
        tys.push(ValType::I32);
    } else {
        tys.push(ty);
    }
    assert(tys@ =~= old(tys)@ + lowered(ty));
}

/// The type of a function or of an operation: what it takes and what it gives.
#[derive(Debug, PartialEq, Eq)]
pub struct FunctionType {
    pub inputs: Vec<ValType>,
    pub results: Vec<ValType>,
}

/// Mathematical counterpart of [`FunctionType`].
#[verifier::ext_equal]
pub struct FunctionTypeView {
    pub inputs: Seq<ValType>,
    pub results: Seq<ValType>,
}

impl View for FunctionType {
    type V = FunctionTypeView;

    open spec fn view(&self) -> FunctionTypeView {
        FunctionTypeView { inputs: self.inputs@, results: self.results@ }
    }
}

/// A function that a module imports.
#[derive(Debug, PartialEq, Eq)]
pub struct Function {
    pub type_: FunctionType,
    pub import_module: String,
    pub import_name: String,
}

/// Mathematical counterpart of [`Function`].
#[verifier::ext_equal]
pub struct FunctionView {
    pub type_: FunctionTypeView,
    pub import_module: Seq<char>,
    pub import_name: Seq<char>,
}

impl View for Function {
    type V = FunctionView;

    open spec fn view(&self) -> FunctionView {
        FunctionView {
            type_: self.type_@,
            import_module: self.import_module@,
            import_name: self.import_name@,
        }
    }
}

/// A module, as far as hooks depend on it.
#[derive(Clone, Copy, Debug, PartialEq, Eq, Structural)]
pub struct Module {
    /// The number of functions, imported ones too.
    pub function_count: usize,
}

/// What an instruction does. Where the types that it works on are fixed by the
/// instruction alone, they stand beside the kind; immediates that no hook
/// depends on are left out.
#[derive(Debug, PartialEq, Eq)]
pub enum InstrKind {
    Unreachable,
    Nop,
    Block,
    Loop,
    If,
    Else,
    End,
    Br,
    BrIf,
    BrTable,
    Return,
    /// A direct call of the function with this index.
    Call(usize),
    CallIndirect,
    Drop,
    Select,
    Local,
    Global,
    Load(FunctionType),
    Store(FunctionType),
    MemorySize,
    MemoryGrow,
    Const(ValType),
    Unary(FunctionType),
    Binary(FunctionType),
}

/// An instruction: its name in the text format, such as `br_if` or
/// `i32.load8_s`, and what it does.
#[derive(Debug, PartialEq, Eq)]
pub struct Instr {
    pub name: String,
    pub kind: InstrKind,
}

impl Instr {
    /// Whether this is a direct call of the function with the given index.
    pub open spec fn calls(self, idx: int) -> bool {
        &&& self.name@ == "call"@
        &&& self.kind matches InstrKind::Call(callee)
        &&& callee == idx
    }

    /// Makes a direct call of the function with the given index.
    pub fn call(idx: usize) -> (instr: Instr)
        ensures
            instr.calls(idx as int),
    {
        Instr { name: String::from_str("call"), kind: InstrKind::Call(idx) }
    }

    /// Whether the name is one of an instruction that does this. An instruction under
    /// another name has no hook here, which [`Instr::has_hook`] tells.
    pub open spec fn well_named(self) -> bool {
        names(self.name@, self.kind)
    }

    /// Whether the instruction has a hook for these types of its operands or
    /// results. The types are given where the kind alone does not fix them; block
    /// instructions have hooks of their own and none here.
    pub open spec fn accepts(self, polymorphic_tys: Seq<ValType>) -> bool {
        &&& self.well_named()
        &&& match self.kind {
            InstrKind::Block | InstrKind::Loop | InstrKind::Else | InstrKind::End => false,
            InstrKind::Drop | InstrKind::Local | InstrKind::Global => polymorphic_tys.len() == 1,
            InstrKind::Select => polymorphic_tys.len() == 2 && polymorphic_tys[0]
                == polymorphic_tys[1],
            _ => true,
        }
    }

    /// Tells whether the instruction has a hook for these types.
    pub fn has_hook(&self, polymorphic_tys: &[ValType]) -> (accepted: bool)
        ensures
            accepted == self.accepts(polymorphic_tys@),
    {
        if !is_name_of(self.name.as_str(), &self.kind) {
            return false;
        }
        match &self.kind {
            InstrKind::Block | InstrKind::Loop | InstrKind::Else | InstrKind::End => false,
            InstrKind::Drop | InstrKind::Local | InstrKind::Global => polymorphic_tys.len() == 1,
            InstrKind::Select => polymorphic_tys.len() == 2 && polymorphic_tys[0]
                == polymorphic_tys[1],
            _ => true,
        }
    }
}

/// A block that is open at some point of a function body.
#[derive(Clone, Copy, Debug, PartialEq, Eq, Structural)]
pub enum BlockStackElement {
    Function,
    Block,
    Loop,
    If,
    Else,
}

} // verus!
