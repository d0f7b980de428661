//! Names of instructions in the text format, and what they tell of an instruction.
//!
//! A numeric or memory instruction is named by a value type, a dot and a mnemonic,
//! as in `i64.load8_s` or `f32.add`. Every other instruction has one name, or one
//! of a few.
use vstd::prelude::*;

use crate::text::undotted;
use crate::wasm::{InstrKind, ValType};

verus! {

/// The value type that is spelled out at a position of a name.
pub open spec fn type_at(name: Seq<char>, i: int) -> Option<ValType> {
    if i < 0 || i + 3 > name.len() {
        None
    } else if name[i] == 'i' && name[i + 1] == '3' && name[i + 2] == '2' {
        Some(ValType::I32)
    } else if name[i] == 'i' && name[i + 1] == '6' && name[i + 2] == '4' {
        Some(ValType::I64)
    } else if name[i] == 'f' && name[i + 1] == '3' && name[i + 2] == '2' {
        Some(ValType::F32)
    } else if name[i] == 'f' && name[i + 1] == '6' && name[i + 2] == '4' {
        Some(ValType::F64)
    } else {
        None
    }
}

/// The first value type that is spelled out at or behind a position of a name.
pub open spec fn type_from(name: Seq<char>, i: int) -> Option<ValType>
    decreases name.len() - i,
{
    if i + 3 > name.len() {
        None
    } else if type_at(name, i) is Some {
        type_at(name, i)
    } else {
        type_from(name, i + 1)
    }
}

/// Whether a text begins with a word.
pub open spec fn begins(text: Seq<char>, word: Seq<char>) -> bool {
    text.len() >= word.len() && text.take(word.len() as int) == word
}

/// What a mnemonic stands for.
#[derive(Clone, Copy, Debug, PartialEq, Eq, Structural)]
pub enum Class {
    Const,
    Load,
    Store,
    /// Two operands of one type, and a truth value.
    Comparison,
    /// Two operands and a result of one type.
    Arithmetic,
    /// One operand, and a truth value.
    Test,
    /// One operand; its type is part of the mnemonic where it is another one than
    /// that of the result.
    Conversion,
}

/// Whether a mnemonic compares two values.
pub open spec fn compares(m: Seq<char>) -> bool {
    ||| m == "eq"@
    ||| m == "ne"@
    ||| m == "lt"@
    ||| m == "lt_s"@
    ||| m == "lt_u"@
    ||| m == "gt"@
    ||| m == "gt_s"@
    ||| m == "gt_u"@
    ||| m == "le"@
    ||| m == "le_s"@
    ||| m == "le_u"@
    ||| m == "ge"@
    ||| m == "ge_s"@
    ||| m == "ge_u"@
}

/// Whether a mnemonic combines two values.
pub open spec fn combines(m: Seq<char>) -> bool {
    ||| m == "add"@
    ||| m == "sub"@
    ||| m == "mul"@
    ||| m == "div"@
    ||| m == "div_s"@
    ||| m == "div_u"@
    ||| m == "rem_s"@
    ||| m == "rem_u"@
    ||| m == "and"@
    ||| m == "or"@
    ||| m == "xor"@
    ||| m == "shl"@
    ||| m == "shr_s"@
    ||| m == "shr_u"@
    ||| m == "rotl"@
    ||| m == "rotr"@
    ||| m == "min"@
    ||| m == "max"@
    ||| m == "copysign"@
}

/// What a mnemonic stands for.
pub open spec fn class(m: Seq<char>) -> Class {
    if m == "const"@ {
        Class::Const
    } else if begins(m, "load"@) {
        Class::Load
    } else if begins(m, "store"@) {
        Class::Store
    } else if compares(m) {
        Class::Comparison
    } else if combines(m) {
        Class::Arithmetic
    } else if m == "eqz"@ {
        Class::Test
    } else {
        Class::Conversion
    }
}

/// Whether a text ends in an underscore and letters of value types, as the name of
/// a hook variant does.
pub open spec fn ends_in_types(text: Seq<char>) -> bool {
    exists|k: int|
        0 <= k < text.len() - 1 && #[trigger] text[k] == '_' && (forall|j: int|
            k < j < text.len() ==> is_letter(#[trigger] text[j]))
}

/// Whether a character is the letter of a value type.
pub open spec fn is_letter(c: char) -> bool {
    c == 'i' || c == 'I' || c == 'f' || c == 'F'
}

/// Whether a name is made of a value type, a dot and a mnemonic.
pub open spec fn typed(name: Seq<char>) -> bool {
    &&& name.len() > 4
    &&& type_at(name, 0) is Some
    &&& forall|i: int| 0 <= i < name.len() ==> (#[trigger] name[i] == '.' <==> i == 3)
    &&& !ends_in_types(undotted(name))
}

/// The type of the operand of an instruction that converts a value.
pub open spec fn operand_type(name: Seq<char>) -> ValType {
    match type_from(name, 4) {
        Some(ty) => ty,
        None => type_at(name, 0)->0,
    }
}

/// Whether a name is one of an instruction that does this, with these types.
pub open spec fn names(name: Seq<char>, kind: InstrKind) -> bool {
    let ty = type_at(name, 0)->0;
    let mnemonic = class(name.skip(4));
    match kind {
        InstrKind::Unreachable => name == "unreachable"@,
        InstrKind::Nop => name == "nop"@,
        InstrKind::Block => name == "block"@,
        InstrKind::Loop => name == "loop"@,
        InstrKind::If => name == "if"@,
        InstrKind::Else => name == "else"@,
        InstrKind::End => name == "end"@,
        InstrKind::Br => name == "br"@,
        InstrKind::BrIf => name == "br_if"@,
        InstrKind::BrTable => name == "br_table"@,
        InstrKind::Return => name == "return"@,
        InstrKind::Call(_) => name == "call"@,
        InstrKind::CallIndirect => name == "call_indirect"@,
        InstrKind::Drop => name == "drop"@,
        InstrKind::Select => name == "select"@,
        InstrKind::Local => name == "local.get"@ || name == "local.set"@ || name == "local.tee"@,
        InstrKind::Global => name == "global.get"@ || name == "global.set"@,
        InstrKind::MemorySize => name == "memory.size"@,
        InstrKind::MemoryGrow => name == "memory.grow"@,
        InstrKind::Const(value) => typed(name) && mnemonic == Class::Const && value == ty,
        InstrKind::Load(op) => {
            &&& typed(name)
            &&& mnemonic == Class::Load
            &&& op.results@.len() > 0
            &&& op.results@[0] == ty
        },
        InstrKind::Store(op) => {
            &&& typed(name)
            &&& mnemonic == Class::Store
            &&& op.inputs@.len() > 1
            &&& op.inputs@[1] == ty
        },
        InstrKind::Unary(op) => {
            &&& typed(name)
            &&& {
                ||| mnemonic == Class::Test && op.inputs@ == seq![ty] && op.results@
                    == seq![ValType::I32]
                ||| mnemonic == Class::Conversion && op.inputs@ == seq![operand_type(name)]
                    && op.results@ == seq![ty]
            }
        },
        InstrKind::Binary(op) => {
            &&& typed(name)
            &&& op.inputs@ == seq![ty, ty]
            &&& {
                ||| mnemonic == Class::Comparison && op.results@ == seq![ValType::I32]
                ||| mnemonic == Class::Arithmetic && op.results@ == seq![ty]
            }
        },
    }
}

/// Takes a text apart.
fn characters(text: &str) -> (chars: Vec<char>)
    ensures
        chars@ == text@,
{
    let mut chars: Vec<char> = Vec::new();
    for c in iter: text.chars()
        invariant
            iter.seq() == text@,
            chars@ == text@.take(iter.index() as int),
    {
        chars.push(c);
        assert(text@.take(iter.index() + 1) =~= text@.take(iter.index() as int).push(c));
    }
    assert(text@.take(text@.len() as int) =~= text@);
    chars
}

/// Tells whether a word stands at a position of a text.
fn has_word(text: &Vec<char>, from: usize, word: &str) -> (found: bool)
    requires
        from <= text.len(),
    ensures
        found == begins(text@.skip(from as int), word@),
{
    let chars = characters(word);
    if text.len() - from < chars.len() {
        return false;
    }
    let ghost tail = text@.skip(from as int);
    let mut i: usize = 0;
    while i < chars.len()
        invariant
            i <= chars.len() <= text.len() - from,
            from <= text.len(),
            tail == text@.skip(from as int),
            chars@ == word@,
            forall|k: int| 0 <= k < i ==> tail[k] == #[trigger] chars@[k],
        decreases chars.len() - i,
    {
        if text[from + i] != chars[i] {
            assert(tail.take(chars@.len() as int)[i as int] != chars@[i as int]);
            return false;
        }
        i += 1;
    }
    assert(tail.take(chars@.len() as int) =~= chars@);
    true
}

/// Tells whether a text, from a position on, is a word.
fn is_word(text: &Vec<char>, from: usize, word: &str) -> (found: bool)
    requires
        from <= text.len(),
    ensures
        found == (text@.skip(from as int) == word@),
{
    let ghost tail = text@.skip(from as int);
    let same_len = text.len() - from == characters(word).len();
    assert(tail.take(tail.len() as int) =~= tail);
    same_len && has_word(text, from, word)
}

/// Finds the value type that is spelled out at a position of a name.
fn find_type_at(name: &Vec<char>, i: usize) -> (ty: Option<ValType>)
    ensures
        ty == type_at(name@, i as int),
{
    if name.len() < 3 || i > name.len() - 3 {
        return None;
    }
    let (a, b, c) = (name[i], name[i + 1], name[i + 2]);
    if a == 'i' && b == '3' && c == '2' {
        Some(ValType::I32)
    } else if a == 'i' && b == '6' && c == '4' {
        Some(ValType::I64)
    } else if a == 'f' && b == '3' && c == '2' {
        Some(ValType::F32)
    } else if a == 'f' && b == '6' && c == '4' {
        Some(ValType::F64)
    } else {
        None
    }
}

/// Finds the type of the operand of an instruction that converts a value.
fn find_operand_type(name: &Vec<char>, ty: ValType) -> (operand: ValType)
    requires
        name.len() > 4,
        type_at(name@, 0) == Some(ty),
    ensures
        operand == operand_type(name@),
{
    let mut i: usize = 4;
    while name.len() - i >= 3
        invariant
            4 <= i <= name.len(),
            type_from(name@, i as int) == type_from(name@, 4),
        decreases name.len() - i,
    {
        if let Some(found) = find_type_at(name, i) {
            return found;
        }
        i += 1;
    }
    ty
}

/// Finds what the mnemonic of a name stands for.
fn find_class(name: &Vec<char>) -> (mnemonic: Class)
    requires
        name.len() > 4,
    ensures
        mnemonic == class(name@.skip(4)),
{
    if is_word(name, 4, "const") {
        Class::Const
    } else if has_word(name, 4, "load") {
        Class::Load
    } else if has_word(name, 4, "store") {
        Class::Store
    } else if is_word(name, 4, "eq") || is_word(name, 4, "ne") || is_word(name, 4, "lt")
        || is_word(name, 4, "lt_s") || is_word(name, 4, "lt_u") || is_word(name, 4, "gt")
        || is_word(name, 4, "gt_s") || is_word(name, 4, "gt_u") || is_word(name, 4, "le")
        || is_word(name, 4, "le_s") || is_word(name, 4, "le_u") || is_word(name, 4, "ge")
        || is_word(name, 4, "ge_s") || is_word(name, 4, "ge_u") {
        Class::Comparison
    } else if is_word(name, 4, "add") || is_word(name, 4, "sub") || is_word(name, 4, "mul")
        || is_word(name, 4, "div") || is_word(name, 4, "div_s") || is_word(name, 4, "div_u")
        || is_word(name, 4, "rem_s") || is_word(name, 4, "rem_u") || is_word(name, 4, "and")
        || is_word(name, 4, "or") || is_word(name, 4, "xor") || is_word(name, 4, "shl")
        || is_word(name, 4, "shr_s") || is_word(name, 4, "shr_u") || is_word(name, 4, "rotl")
        || is_word(name, 4, "rotr") || is_word(name, 4, "min") || is_word(name, 4, "max")
        || is_word(name, 4, "copysign") {
        Class::Arithmetic
    } else if is_word(name, 4, "eqz") {
        Class::Test
    } else {
        Class::Conversion
    }
}

/// Tells whether a name, once it has no dots, ends in an underscore and letters of
/// value types.
fn has_types_at_end(name: &Vec<char>) -> (found: bool)
    ensures
        found == ends_in_types(undotted(name@)),
{
    let ghost text = undotted(name@);
    let mut i: usize = name.len();
    while i > 0 && (name[i - 1] == 'i' || name[i - 1] == 'I' || name[i - 1] == 'f' || name[i - 1]
        == 'F')
        invariant
            i <= name.len(),
            text == undotted(name@),
            forall|j: int| i <= j < text.len() ==> is_letter(#[trigger] text[j]),
        decreases i,
    {
        i -= 1;
    }
    if 0 < i && i < name.len() && (name[i - 1] == '_' || name[i - 1] == '.') {
        assert(text[i - 1] == '_');
        true
    } else {
        proof {
            if ends_in_types(text) {
                let k = choose|k: int|
                    0 <= k < text.len() - 1 && #[trigger] text[k] == '_' && (forall|j: int|
                        k < j < text.len() ==> is_letter(#[trigger] text[j]));
                assert(k < i);
                assert(text[i - 1] == '_' || is_letter(text[i - 1]));
            }
        }
        false
    }
}

/// Tells whether a name is made of a value type, a dot and a mnemonic.
fn is_typed(name: &Vec<char>) -> (found: bool)
    ensures
        found == typed(name@),
{
    if name.len() <= 4 || find_type_at(name, 0).is_none() || has_types_at_end(name) {
        return false;
    }
    let mut i: usize = 0;
    while i < name.len()
        invariant
            i <= name.len(),
            forall|k: int| 0 <= k < i ==> (#[trigger] name@[k] == '.' <==> k == 3),
        decreases name.len() - i,
    {
        if (name[i] == '.') != (i == 3) {
            return false;
        }
        i += 1;
    }
    true
}

/// Tells whether types are one certain type.
fn is_one(tys: &Vec<ValType>, ty: ValType) -> (same: bool)
    ensures
        same == (tys@ == seq![ty]),
{
    let same = tys.len() == 1 && tys[0] == ty;
    assert(same ==> tys@ =~= seq![ty]);
    same
}

/// Tells whether types are two of one certain type.
fn is_two(tys: &Vec<ValType>, ty: ValType) -> (same: bool)
    ensures
        same == (tys@ == seq![ty, ty]),
{
    let same = tys.len() == 2 && tys[0] == ty && tys[1] == ty;
    assert(same ==> tys@ =~= seq![ty, ty]);
    same
}

/// Tells whether a typed name is one of a numeric or memory instruction that does
/// this, with these types.
fn is_typed_name_of(text: &Vec<char>, kind: &InstrKind) -> (fits: bool)
    requires
        kind is Const || kind is Load || kind is Store || kind is Unary || kind is Binary,
    ensures
        fits == names(text@, *kind),
{
    if !is_typed(text) {
        return false;
    }
    let ty = match find_type_at(text, 0) {
        Some(ty) => ty,
        None => {
            return false;
        },
    };
    let mnemonic = find_class(text);
    match kind {
        InstrKind::Const(value) => mnemonic == Class::Const && *value == ty,
        InstrKind::Load(op) => mnemonic == Class::Load && op.results.len() > 0 && op.results[0]
            == ty,
        InstrKind::Store(op) => mnemonic == Class::Store && op.inputs.len() > 1 && op.inputs[1]
            == ty,
        InstrKind::Unary(op) => (mnemonic == Class::Test && is_one(&op.inputs, ty) && is_one(
            &op.results,
            ValType::I32,
        )) || (mnemonic == Class::Conversion && is_one(&op.inputs, find_operand_type(text, ty))
            && is_one(&op.results, ty)),
        InstrKind::Binary(op) => is_two(&op.inputs, ty) && ((mnemonic == Class::Comparison
            && is_one(&op.results, ValType::I32)) || (mnemonic == Class::Arithmetic && is_one(
            &op.results,
            ty,
        ))),
        _ => false,
    }
}

/// Tells whether a name is one of an instruction that does this, with these types.
pub fn is_name_of(name: &str, kind: &InstrKind) -> (fits: bool)
    ensures
        fits == names(name@, *kind),
{
    let text = characters(name);
    assert(text@.skip(0) =~= name@);
    match kind {
        InstrKind::Unreachable => is_word(&text, 0, "unreachable"),
        InstrKind::Nop => is_word(&text, 0, "nop"),
        InstrKind::Block => is_word(&text, 0, "block"),
        InstrKind::Loop => is_word(&text, 0, "loop"),
        InstrKind::If => is_word(&text, 0, "if"),
        InstrKind::Else => is_word(&text, 0, "else"),
        InstrKind::End => is_word(&text, 0, "end"),
        InstrKind::Br => is_word(&text, 0, "br"),
        InstrKind::BrIf => is_word(&text, 0, "br_if"),
        InstrKind::BrTable => is_word(&text, 0, "br_table"),
        InstrKind::Return => is_word(&text, 0, "return"),
        InstrKind::Call(_) => is_word(&text, 0, "call"),
        InstrKind::CallIndirect => is_word(&text, 0, "call_indirect"),
        InstrKind::Drop => is_word(&text, 0, "drop"),
        InstrKind::Select => is_word(&text, 0, "select"),
        InstrKind::Local => is_word(&text, 0, "local.get") || is_word(&text, 0, "local.set")
            || is_word(&text, 0, "local.tee"),
        InstrKind::Global => is_word(&text, 0, "global.get") || is_word(&text, 0, "global.set"),
        InstrKind::MemorySize => is_word(&text, 0, "memory.size"),
        InstrKind::MemoryGrow => is_word(&text, 0, "memory.grow"),
        InstrKind::Const(_)
        | InstrKind::Load(_)
        | InstrKind::Store(_)
        | InstrKind::Unary(_)
        | InstrKind::Binary(_) => is_typed_name_of(&text, kind),
    }
}

} // verus!
