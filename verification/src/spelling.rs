//! How the names of instructions are spelled, and which instructions have hooks.
use vstd::prelude::*;

use crate::mnemonic::{
    begins, combines, compares, ends_in_types, is_letter, names, operand_type, type_at,
    type_from, typed,
};
use crate::text::undotted;
use crate::wasm::{Instr, InstrKind, ValType};

verus! {

/// A value type as it is spelled out in names.
pub open spec fn spelled(ty: ValType) -> Seq<char> {
    match ty {
        ValType::I32 => "i32"@,
        ValType::I64 => "i64"@,
        ValType::F32 => "f32"@,
        ValType::F64 => "f64"@,
    }
}

/// A value type, a dot and a mnemonic.
pub open spec fn dotted(ty: ValType, mnemonic: Seq<char>) -> Seq<char> {
    spelled(ty) + "."@ + mnemonic
}

/// Whether a mnemonic has no dot, and no underscore behind which there are only letters
/// of value types, also if one more stood in front of it.
pub open spec fn plain(mnemonic: Seq<char>) -> bool {
    &&& mnemonic.len() > 0
    &&& forall|i: int| 0 <= i < mnemonic.len() ==> #[trigger] mnemonic[i] != '.'
    &&& forall|k: int|
        0 <= k < mnemonic.len() && (k == 0 || mnemonic[k - 1] == '_') ==> !#[trigger] all_letters(
            mnemonic,
            k,
        )
}

/// Whether there are only letters of value types from a position on.
pub open spec fn all_letters(mnemonic: Seq<char>, from: int) -> bool {
    forall|j: int| from <= j < mnemonic.len() ==> letter_of_type(#[trigger] mnemonic[j])
}

/// Whether a character stands for a value type in the names of hooks.
pub open spec fn letter_of_type(c: char) -> bool {
    c == 'i' || c == 'I' || c == 'f' || c == 'F'
}

/// The mnemonics of two operands and a truth value.
pub open spec fn comparisons() -> Seq<Seq<char>> {
    seq![
        "eq"@,
        "ne"@,
        "lt"@,
        "lt_s"@,
        "lt_u"@,
        "gt"@,
        "gt_s"@,
        "gt_u"@,
        "le"@,
        "le_s"@,
        "le_u"@,
        "ge"@,
        "ge_s"@,
        "ge_u"@,
    ]
}

/// The mnemonics of two operands and a result of the same type.
pub open spec fn arithmetic() -> Seq<Seq<char>> {
    seq![
        "add"@,
        "sub"@,
        "mul"@,
        "div"@,
        "div_s"@,
        "div_u"@,
        "rem_s"@,
        "rem_u"@,
        "and"@,
        "or"@,
        "xor"@,
        "shl"@,
        "shr_s"@,
        "shr_u"@,
        "rotl"@,
        "rotr"@,
        "min"@,
        "max"@,
        "copysign"@,
    ]
}

/// Whether a word stands at the beginning of a mnemonic.
pub open spec fn headed(mnemonic: Seq<char>, word: Seq<char>) -> bool {
    exists|rest: Seq<char>| mnemonic == #[trigger] (word + rest)
}

/// Whether a value type is spelled out at a position of a mnemonic.
pub open spec fn shows(mnemonic: Seq<char>, i: int, ty: ValType) -> bool {
    0 <= i && i + 3 <= mnemonic.len() && mnemonic.subrange(i, i + 3) == spelled(ty)
}

/// Whether a value is converted from a type: the first one that the mnemonic shows, or
/// the type of the result if it shows none.
pub open spec fn converts_from(ty: ValType, mnemonic: Seq<char>, operand: ValType) -> bool {
    ||| exists|i: int|
        #[trigger] shows(mnemonic, i, operand) && (forall|k: int, other: ValType|
            k < i ==> !#[trigger] shows(mnemonic, k, other))
    ||| operand == ty && (forall|k: int, other: ValType| !#[trigger] shows(mnemonic, k, other))
}

/// The types are spelled out by three characters.
proof fn lemma_spelled(ty: ValType)
    ensures
        spelled(ty).len() == 3,
        spelled(ty)[0] == if ty == ValType::I32 || ty == ValType::I64 {
            'i'
        } else {
            'f'
        },
        ty == ValType::I32 || ty == ValType::F32 ==> spelled(ty)[1] == '3' && spelled(ty)[2] == '2',
        ty == ValType::I64 || ty == ValType::F64 ==> spelled(ty)[1] == '6' && spelled(ty)[2] == '4',
{
    reveal_strlit("i32");
    reveal_strlit("i64");
    reveal_strlit("f32");
    reveal_strlit("f64");
}

/// What is shown at a position is what is found there.
proof fn lemma_shows(text: Seq<char>, i: int, ty: ValType)
    ensures
        shows(text, i, ty) <==> type_at(text, i) == Some(ty),
{
    lemma_spelled(ty);
    if 0 <= i && i + 3 <= text.len() {
        let part = text.subrange(i, i + 3);
        assert(part[0] == text[i] && part[1] == text[i + 1] && part[2] == text[i + 2]);
        if type_at(text, i) == Some(ty) {
            assert(part =~= spelled(ty));
        }
    }
}

/// The parts of a name that is made of a type, a dot and a mnemonic.
proof fn lemma_dotted(ty: ValType, m: Seq<char>)
    ensures
        dotted(ty, m).len() == 4 + m.len(),
        dotted(ty, m).skip(4) == m,
        dotted(ty, m)[3] == '.',
        forall|i: int| 0 <= i < m.len() ==> #[trigger] dotted(ty, m)[i + 4] == m[i],
        type_at(dotted(ty, m), 0) == Some(ty),
{
    reveal_strlit(".");
    lemma_spelled(ty);
    let name = dotted(ty, m);
    assert(name.skip(4) =~= m);
    assert(name.subrange(0, 3) =~= spelled(ty));
    lemma_shows(name, 0, ty);
}

/// A name is typed exactly if its mnemonic is plain.
proof fn lemma_typed_is_plain(ty: ValType, m: Seq<char>)
    ensures
        typed(dotted(ty, m)) <==> plain(m),
{
    let name = dotted(ty, m);
    let text = undotted(name);
    lemma_dotted(ty, m);
    lemma_spelled(ty);
    assert(text.len() == name.len());
    assert forall|i: int| 0 <= i < 3 implies #[trigger] name[i] == spelled(ty)[i] by {}
    if plain(m) {
        if ends_in_types(text) {
            let k = choose|k: int|
                0 <= k < text.len() - 1 && #[trigger] text[k] == '_' && (forall|j: int|
                    k < j < text.len() ==> is_letter(#[trigger] text[j]));
            assert(name[k] == '_' || name[k] == '.');
            assert(k >= 3);
            let from = k - 3;
            if from > 0 {
                assert(m[from - 1] == name[from - 1 + 4]);
            }
            assert forall|j: int| from <= j < m.len() implies letter_of_type(#[trigger] m[j]) by {
                assert(name[j + 4] == m[j]);
                assert(is_letter(text[j + 4]));
            }
            assert(all_letters(m, from));
        }
        assert forall|i: int| 0 <= i < name.len() implies (#[trigger] name[i] == '.' <==> i == 3) by {
            if i > 3 {
                assert(name[i - 4 + 4] == m[i - 4]);
            }
        }
    }
    if typed(name) {
        assert forall|i: int| 0 <= i < m.len() implies #[trigger] m[i] != '.' by {
            assert(name[i + 4] == m[i]);
        }
        assert forall|k: int| 0 <= k < m.len() && (k == 0 || m[k - 1] == '_') implies !#[trigger] all_letters(
            m,
            k,
        ) by {
            if all_letters(m, k) {
                assert forall|j: int| k + 3 < j < text.len() implies is_letter(
                    #[trigger] text[j],
                ) by {
                    assert(name[j - 4 + 4] == m[j - 4]);
                    assert(letter_of_type(m[j - 4]));
                }
                if k > 0 {
                    assert(name[k - 1 + 4] == m[k - 1]);
                }
                assert(text[k + 3] == '_');
                assert(ends_in_types(text));
            }
        }
    }
}

/// What the two lists hold.
proof fn lemma_lists(m: Seq<char>)
    ensures
        comparisons().contains(m) <==> compares(m),
        arithmetic().contains(m) <==> combines(m),
{
    let a = comparisons();
    let b = arithmetic();
    assert(a[0] == "eq"@);
    assert(a[1] == "ne"@);
    assert(a[2] == "lt"@);
    assert(a[3] == "lt_s"@);
    assert(a[4] == "lt_u"@);
    assert(a[5] == "gt"@);
    assert(a[6] == "gt_s"@);
    assert(a[7] == "gt_u"@);
    assert(a[8] == "le"@);
    assert(a[9] == "le_s"@);
    assert(a[10] == "le_u"@);
    assert(a[11] == "ge"@);
    assert(a[12] == "ge_s"@);
    assert(a[13] == "ge_u"@);
    assert(b[0] == "add"@);
    assert(b[1] == "sub"@);
    assert(b[2] == "mul"@);
    assert(b[3] == "div"@);
    assert(b[4] == "div_s"@);
    assert(b[5] == "div_u"@);
    assert(b[6] == "rem_s"@);
    assert(b[7] == "rem_u"@);
    assert(b[8] == "and"@);
    assert(b[9] == "or"@);
    assert(b[10] == "xor"@);
    assert(b[11] == "shl"@);
    assert(b[12] == "shr_s"@);
    assert(b[13] == "shr_u"@);
    assert(b[14] == "rotl"@);
    assert(b[15] == "rotr"@);
    assert(b[16] == "min"@);
    assert(b[17] == "max"@);
    assert(b[18] == "copysign"@);
}

/// A word at the beginning.
proof fn lemma_headed(m: Seq<char>, word: Seq<char>)
    ensures
        headed(m, word) <==> begins(m, word),
{
    if headed(m, word) {
        let rest = choose|rest: Seq<char>| m == #[trigger] (word + rest);
        assert(m.take(word.len() as int) =~= word);
    }
    if begins(m, word) {
        assert(m =~= word + m.skip(word.len() as int));
    }
}

/// No mnemonic is of two classes.
proof fn lemma_classes_apart(m: Seq<char>)
    ensures
        m == "const"@ ==> !begins(m, "load"@) && !begins(m, "store"@) && !compares(m) && !combines(
            m,
        ) && m != "eqz"@,
        begins(m, "load"@) ==> !begins(m, "store"@) && !compares(m) && !combines(m) && m != "eqz"@,
        begins(m, "store"@) ==> !compares(m) && !combines(m) && m != "eqz"@,
        compares(m) ==> !combines(m) && m != "eqz"@,
        combines(m) ==> m != "eqz"@,
{
    reveal_strlit("const");
    reveal_strlit("load");
    reveal_strlit("store");
    reveal_strlit("eqz");
    reveal_strlit("eq");
    reveal_strlit("ne");
    reveal_strlit("lt");
    reveal_strlit("lt_s");
    reveal_strlit("lt_u");
    reveal_strlit("gt");
    reveal_strlit("gt_s");
    reveal_strlit("gt_u");
    reveal_strlit("le");
    reveal_strlit("le_s");
    reveal_strlit("le_u");
    reveal_strlit("ge");
    reveal_strlit("ge_s");
    reveal_strlit("ge_u");
    reveal_strlit("add");
    reveal_strlit("sub");
    reveal_strlit("mul");
    reveal_strlit("div");
    reveal_strlit("div_s");
    reveal_strlit("div_u");
    reveal_strlit("rem_s");
    reveal_strlit("rem_u");
    reveal_strlit("and");
    reveal_strlit("or");
    reveal_strlit("xor");
    reveal_strlit("shl");
    reveal_strlit("shr_s");
    reveal_strlit("shr_u");
    reveal_strlit("rotl");
    reveal_strlit("rotr");
    reveal_strlit("min");
    reveal_strlit("max");
    reveal_strlit("copysign");
    let c = m[0];
    assert(compares(m) ==> (c == 'e' && m.len() == 2) || c == 'n' || c == 'l' || c == 'g');
    assert(combines(m) ==> c == 'a' || c == 's' || c == 'm' || c == 'd' || c == 'r' || c == 'o' || c
        == 'x' || (c == 'c' && m.len() == 8));
    if begins(m, "load"@) {
        assert(m.take(4)[0] == m[0] && m.take(4)[1] == m[1]);
    }
    if begins(m, "store"@) {
        assert(m.take(5)[0] == m[0] && m.take(5)[1] == m[1]);
    }
}

/// The type of the operand of a conversion.
proof fn lemma_operand(ty: ValType, m: Seq<char>, operand: ValType)
    ensures
        converts_from(ty, m, operand) <==> operand_type(dotted(ty, m)) == operand,
{
    let name = dotted(ty, m);
    lemma_dotted(ty, m);
    lemma_found(name, m, 0);
    match type_from(name, 4) {
        Some(found) => {
            let i = choose|i: int|
                0 <= i && #[trigger] shows(m, i, found) && (forall|k: int, other: ValType|
                    0 <= k < i ==> !#[trigger] shows(m, k, other));
            assert forall|k: int, other: ValType| k < i implies !#[trigger] shows(m, k, other) by {}
            if converts_from(ty, m, operand) {
                let h = choose|h: int|
                    #[trigger] shows(m, h, operand) && (forall|k: int, other: ValType|
                        k < h ==> !#[trigger] shows(m, k, other));
                assert(shows(m, h, operand));
                assert(h == i);
                lemma_shows(m, i, operand);
                lemma_shows(m, i, found);
            }
        },
        None => {},
    }
}

/// The search for a type behind a position of a name finds the first one shown.
proof fn lemma_found(name: Seq<char>, m: Seq<char>, from: int)
    requires
        name.len() == 4 + m.len(),
        name.skip(4) == m,
        0 <= from,
    ensures
        match type_from(name, 4 + from) {
            Some(found) => exists|i: int|
                from <= i && #[trigger] shows(m, i, found) && (forall|k: int, other: ValType|
                    from <= k < i ==> !#[trigger] shows(m, k, other)),
            None => forall|k: int, other: ValType| from <= k ==> !#[trigger] shows(m, k, other),
        },
    decreases m.len() - from,
{
    if from + 3 <= m.len() {
        assert(name[4 + from] == m[from] && name[5 + from] == m[from + 1] && name[6 + from]
            == m[from + 2]);
        assert(type_at(name, 4 + from) == type_at(m, from));
        assert forall|other: ValType| #[trigger] shows(m, from, other) <==> type_at(m, from)
            == Some(other) by {
            lemma_shows(m, from, other);
        }
        if type_at(m, from) is Some {
            assert(shows(m, from, type_at(m, from)->0));
        } else {
            lemma_found(name, m, from + 1);
            match type_from(name, 4 + from + 1) {
                Some(found) => {
                    let i = choose|i: int|
                        from + 1 <= i && #[trigger] shows(m, i, found) && (forall|
                            k: int,
                            other: ValType,
                        |
                            from + 1 <= k < i ==> !#[trigger] shows(m, k, other));
                    assert(shows(m, i, found));
                },
                None => {},
            }
        }
    }
}

/// A name that is made of a type, a dot and a mnemonic is one of an instruction exactly
/// if the mnemonic is plain, and tells what the instruction does with which types:
/// a constant is one of the type; a load gives the type, and a store takes it behind
/// the address; a comparison takes two values of the type and gives a truth value, and
/// arithmetic gives the type; a test for zero takes the type and gives a truth value;
/// and every other mnemonic converts to the type.
pub proof fn dotted_names_tell_kind_and_types(ty: ValType, mnemonic: Seq<char>, kind: InstrKind)
    requires
        kind is Const || kind is Load || kind is Store || kind is Unary || kind is Binary,
    ensures
        names(dotted(ty, mnemonic), kind) <==> plain(mnemonic) && match kind {
            InstrKind::Const(value) => mnemonic == "const"@ && value == ty,
            InstrKind::Load(op) => headed(mnemonic, "load"@) && op.results@.len() > 0
                && op.results@[0] == ty,
            InstrKind::Store(op) => headed(mnemonic, "store"@) && op.inputs@.len() > 1
                && op.inputs@[1] == ty,
            InstrKind::Unary(op) => {
                &&& op.inputs@.len() == 1
                &&& op.results@.len() == 1
                &&& mnemonic == "eqz"@ ==> op.inputs@[0] == ty && op.results@[0] == ValType::I32
                &&& mnemonic != "eqz"@ ==> {
                    &&& mnemonic != "const"@
                    &&& !headed(mnemonic, "load"@)
                    &&& !headed(mnemonic, "store"@)
                    &&& !comparisons().contains(mnemonic)
                    &&& !arithmetic().contains(mnemonic)
                    &&& converts_from(ty, mnemonic, op.inputs@[0])
                    &&& op.results@[0] == ty
                }
            },
            InstrKind::Binary(op) => {
                &&& op.inputs@.len() == 2
                &&& op.inputs@[0] == ty
                &&& op.inputs@[1] == ty
                &&& op.results@.len() == 1
                &&& {
                    ||| comparisons().contains(mnemonic) && op.results@[0] == ValType::I32
                    ||| arithmetic().contains(mnemonic) && op.results@[0] == ty
                }
            },
            _ => false,
        },
{
    let name = dotted(ty, mnemonic);
    lemma_dotted(ty, mnemonic);
    lemma_typed_is_plain(ty, mnemonic);
    lemma_lists(mnemonic);
    lemma_headed(mnemonic, "load"@);
    lemma_headed(mnemonic, "store"@);
    lemma_classes_apart(mnemonic);
    match kind {
        InstrKind::Unary(op) => {
            lemma_operand(ty, mnemonic, op.inputs@[0]);
            if op.inputs@.len() == 1 && op.results@.len() == 1 {
                assert(op.inputs@ =~= seq![op.inputs@[0]]);
                assert(op.results@ =~= seq![op.results@[0]]);
            }
        },
        InstrKind::Binary(op) => {
            if op.inputs@.len() == 2 && op.results@.len() == 1 {
                assert(op.inputs@ =~= seq![op.inputs@[0], op.inputs@[1]]);
                assert(op.results@ =~= seq![op.results@[0]]);
            }
        },
        _ => {},
    }
}

/// Constants, memory accesses and operations are named by a type, a dot and a mnemonic
/// only.
pub proof fn names_with_types_are_dotted(name: Seq<char>, kind: InstrKind)
    requires
        names(name, kind),
        kind is Const || kind is Load || kind is Store || kind is Unary || kind is Binary,
    ensures
        exists|ty: ValType, mnemonic: Seq<char>| name == #[trigger] dotted(ty, mnemonic),
{
    reveal_strlit(".");
    let ty = type_at(name, 0)->0;
    lemma_spelled(ty);
    lemma_shows(name, 0, ty);
    let m = name.skip(4);
    assert(name[3] == '.');
    assert forall|i: int| 0 <= i < 3 implies #[trigger] name[i] == spelled(ty)[i] by {
        assert(name.subrange(0, 3)[i] == name[i]);
    }
    assert(name =~= dotted(ty, m));
}

/// The names of an instruction that shows no type.
pub open spec fn words(kind: InstrKind) -> Seq<Seq<char>> {
    match kind {
        InstrKind::Unreachable => seq!["unreachable"@],
        InstrKind::Nop => seq!["nop"@],
        InstrKind::Block => seq!["block"@],
        InstrKind::Loop => seq!["loop"@],
        InstrKind::If => seq!["if"@],
        InstrKind::Else => seq!["else"@],
        InstrKind::End => seq!["end"@],
        InstrKind::Br => seq!["br"@],
        InstrKind::BrIf => seq!["br_if"@],
        InstrKind::BrTable => seq!["br_table"@],
        InstrKind::Return => seq!["return"@],
        InstrKind::Call(_) => seq!["call"@],
        InstrKind::CallIndirect => seq!["call_indirect"@],
        InstrKind::Drop => seq!["drop"@],
        InstrKind::Select => seq!["select"@],
        InstrKind::Local => seq!["local.get"@, "local.set"@, "local.tee"@],
        InstrKind::Global => seq!["global.get"@, "global.set"@],
        InstrKind::MemorySize => seq!["memory.size"@],
        InstrKind::MemoryGrow => seq!["memory.grow"@],
        _ => Seq::empty(),
    }
}

/// Every other instruction is named by one of a few words, and by nothing else.
pub proof fn other_names_are_words(name: Seq<char>, kind: InstrKind)
    requires
        !(kind is Const || kind is Load || kind is Store || kind is Unary || kind is Binary),
    ensures
        names(name, kind) <==> words(kind).contains(name),
{
    let few = words(kind);
    match kind {
        InstrKind::Local => {
            assert(few[0] == "local.get"@ && few[1] == "local.set"@ && few[2] == "local.tee"@);
        },
        InstrKind::Global => {
            assert(few[0] == "global.get"@ && few[1] == "global.set"@);
        },
        _ => {
            assert(few.len() == 1);
            assert(names(name, kind) <==> name == few[0]);
        },
    }
}

/// An instruction has a hook for types exactly if its name is one of what it does, and
/// there is one type for a variable or a dropped value, and twice the same type for
/// `select`. Blocks and their ends have none, and all others have one for any types.
pub proof fn instructions_have_hooks(instr: Instr, tys: Seq<ValType>)
    ensures
        instr.accepts(tys) <==> {
            &&& names(instr.name@, instr.kind)
            &&& !(instr.kind is Block || instr.kind is Loop)
            &&& !(instr.kind is Else || instr.kind is End)
            &&& instr.kind is Drop || instr.kind is Local || instr.kind is Global ==> tys.len()
                == 1
            &&& instr.kind is Select ==> exists|ty: ValType| tys == seq![ty, ty]
        },
{
    if instr.kind is Select {
        if tys.len() == 2 && tys[0] == tys[1] {
            assert(tys =~= seq![tys[0], tys[0]]);
        }
    }
}

} // verus!
