//! What the hook of each instruction and event reports to the user.
//!
//! Each law says, for all instructions of a kind and all types, which values arrive,
//! which high-level hook is called, and what it is told of the values.
use vstd::prelude::*;

use crate::delivery::{
    array, comma, counted, delivers, described, each_handed_on, expressions_rebuild_values,
    handed_on, lemma_counted, lemma_described, lemma_made, mangling_spells_name_and_types,
    named_after,
};
use crate::generate::{arg, bracketed, hook_for, numbered, parts_for, Request};
use crate::hook::{ArgView, HookView};
use crate::wasm::{BlockStackElement, Instr, InstrKind, ValType};

verus! {

/// The hook of an instruction.
pub open spec fn of(instr: Instr, tys: Seq<ValType>) -> HookView {
    hook_for(Request::Instr(instr, tys))
}

/// The hook of an instruction is named after it, and after the types that are given.
pub proof fn hooks_are_named_after_instructions(instr: Instr, tys: Seq<ValType>)
    requires
        instr.accepts(tys),
    ensures
        named_after(of(instr, tys).wasm.import_name, instr.name@, tys),
{
    mangling_spells_name_and_types(instr.name@, tys);
}

/// What hands one value on.
proof fn lemma_handed_on(name: Seq<char>, ty: ValType)
    ensures
        arg(name, ty).lowlevel_long_expr() == handed_on(name, ty),
{
    expressions_rebuild_values(arg(name, ty));
}

/// Descriptions can be put one behind the other.
proof fn lemma_described_append(
    a: Seq<ArgView>,
    names_a: Seq<Seq<char>>,
    tys_a: Seq<ValType>,
    b: Seq<ArgView>,
    names_b: Seq<Seq<char>>,
    tys_b: Seq<ValType>,
)
    requires
        described(a, names_a, tys_a),
        described(b, names_b, tys_b),
    ensures
        described(a + b, names_a + names_b, tys_a + tys_b),
{
    assert forall|i: int| 0 <= i < a.len() + b.len() implies #[trigger] (a + b)[i] == arg(
        (names_a + names_b)[i],
        (tys_a + tys_b)[i],
    ) by {
        if i < a.len() {
            assert((a + b)[i] == a[i]);
        } else {
            assert((a + b)[i] == b[i - a.len()]);
        }
    }
}

/// `nop` and `unreachable` report nothing but where they are, each to the hook of its
/// own name.
pub proof fn nop_and_unreachable_report_the_location(instr: Instr, tys: Seq<ValType>)
    requires
        instr.accepts(tys),
        instr.kind is Nop || instr.kind is Unreachable,
    ensures
        delivers(
            of(instr, tys),
            Seq::<Seq<char>>::empty(),
            Seq::<ValType>::empty(),
            of(instr, tys).wasm.import_name,
            ""@,
        ),
{
    lemma_made(
        parts_for(Request::Instr(instr, tys)),
        Seq::<Seq<char>>::empty(),
        Seq::<ValType>::empty(),
    );
}

/// `if` reports whether its condition is one.
pub proof fn if_reports_its_condition(instr: Instr, tys: Seq<ValType>)
    requires
        instr.accepts(tys),
        instr.kind is If,
    ensures
        delivers(
            of(instr, tys),
            seq!["condition"@],
            seq![ValType::I32],
            "if_"@,
            "condition === 1"@,
        ),
{
    lemma_made(
        parts_for(Request::Instr(instr, tys)),
        seq!["condition"@],
        seq![ValType::I32],
    );
}

/// `br` reports its target: the label, and the location in the same function.
pub proof fn br_reports_its_target(instr: Instr, tys: Seq<ValType>)
    requires
        instr.accepts(tys),
        instr.kind is Br,
    ensures
        delivers(
            of(instr, tys),
            seq!["targetLabel"@, "targetInstr"@],
            seq![ValType::I32, ValType::I32],
            of(instr, tys).wasm.import_name,
            "{label: targetLabel, location: {func, instr: targetInstr}}"@,
        ),
{
    lemma_made(
        parts_for(Request::Instr(instr, tys)),
        seq!["targetLabel"@, "targetInstr"@],
        seq![ValType::I32, ValType::I32],
    );
}

/// `br_if` reports its target as `br` does, and then whether its condition is one.
pub proof fn br_if_reports_target_and_condition(instr: Instr, tys: Seq<ValType>)
    requires
        instr.accepts(tys),
        instr.kind is BrIf,
    ensures
        delivers(
            of(instr, tys),
            seq!["condition"@, "targetLabel"@, "targetInstr"@],
            seq![ValType::I32, ValType::I32, ValType::I32],
            of(instr, tys).wasm.import_name,
            "{label: targetLabel, location: {func, instr: targetInstr}}, condition === 1"@,
        ),
{
    lemma_made(
        parts_for(Request::Instr(instr, tys)),
        seq!["condition"@, "targetLabel"@, "targetInstr"@],
        seq![ValType::I32, ValType::I32, ValType::I32],
    );
}

/// `br_table` reports its targets, the default one and the index, and then has the
/// blocks ended that the jump leaves.
pub proof fn br_table_reports_table_and_index(instr: Instr, tys: Seq<ValType>)
    requires
        instr.accepts(tys),
        instr.kind is BrTable,
    ensures
        delivers(
            of(instr, tys),
            seq!["tableIdx"@, "brTablesInfoIdx"@],
            seq![ValType::I32, ValType::I32],
            of(instr, tys).wasm.import_name,
            "Wasabi.module.info.brTables[brTablesInfoIdx].table, Wasabi.module.info.brTables[brTablesInfoIdx].default, tableIdx); Wasabi.endBrTableBlocks(brTablesInfoIdx, tableIdx, func"@,
        ),
{
    lemma_made(
        parts_for(Request::Instr(instr, tys)),
        seq!["tableIdx"@, "brTablesInfoIdx"@],
        seq![ValType::I32, ValType::I32],
    );
}

/// `memory.size` reports the number of pages.
pub proof fn memory_size_reports_the_pages(instr: Instr, tys: Seq<ValType>)
    requires
        instr.accepts(tys),
        instr.kind is MemorySize,
    ensures
        delivers(
            of(instr, tys),
            seq!["currentSizePages"@],
            seq![ValType::I32],
            of(instr, tys).wasm.import_name,
            "currentSizePages"@,
        ),
{
    lemma_made(
        parts_for(Request::Instr(instr, tys)),
        seq!["currentSizePages"@],
        seq![ValType::I32],
    );
}

/// `memory.grow` reports by how many pages, and how many there were.
pub proof fn memory_grow_reports_both_sizes(instr: Instr, tys: Seq<ValType>)
    requires
        instr.accepts(tys),
        instr.kind is MemoryGrow,
    ensures
        delivers(
            of(instr, tys),
            seq!["deltaPages"@, "previousSizePages"@],
            seq![ValType::I32, ValType::I32],
            of(instr, tys).wasm.import_name,
            "deltaPages, previousSizePages"@,
        ),
{
    lemma_made(
        parts_for(Request::Instr(instr, tys)),
        seq!["deltaPages"@, "previousSizePages"@],
        seq![ValType::I32, ValType::I32],
    );
}

/// A load, of whatever type, reports to `load`: its name, where it reads, and the value.
pub proof fn loads_report_place_and_value(instr: Instr, tys: Seq<ValType>, ty: ValType)
    requires
        instr.accepts(tys),
        instr.kind matches InstrKind::Load(op) && op.results@[0] == ty,
    ensures
        delivers(
            of(instr, tys),
            seq!["offset"@, "align"@, "addr"@, "value"@],
            seq![ValType::I32, ValType::I32, ValType::I32, ty],
            "load"@,
            "\""@ + instr.name@ + "\", {addr, offset, align}, "@ + handed_on("value"@, ty),
        ),
{
    let names = seq!["offset"@, "align"@, "addr"@, "value"@];
    let types = seq![ValType::I32, ValType::I32, ValType::I32, ty];
    lemma_made(parts_for(Request::Instr(instr, tys)), names, types);
    lemma_handed_on("value"@, ty);
}

/// A store, of whatever type, reports to `store`: its name, where it writes, and the value.
pub proof fn stores_report_place_and_value(instr: Instr, tys: Seq<ValType>, ty: ValType)
    requires
        instr.accepts(tys),
        instr.kind matches InstrKind::Store(op) && op.inputs@[1] == ty,
    ensures
        delivers(
            of(instr, tys),
            seq!["offset"@, "align"@, "addr"@, "value"@],
            seq![ValType::I32, ValType::I32, ValType::I32, ty],
            "store"@,
            "\""@ + instr.name@ + "\", {addr, offset, align}, "@ + handed_on("value"@, ty),
        ),
{
    let names = seq!["offset"@, "align"@, "addr"@, "value"@];
    let types = seq![ValType::I32, ValType::I32, ValType::I32, ty];
    lemma_made(parts_for(Request::Instr(instr, tys)), names, types);
    lemma_handed_on("value"@, ty);
}

/// A constant, of whatever type, reports its name and its value.
pub proof fn constants_report_their_value(instr: Instr, tys: Seq<ValType>, ty: ValType)
    requires
        instr.accepts(tys),
        instr.kind == InstrKind::Const(ty),
    ensures
        delivers(
            of(instr, tys),
            seq!["value"@],
            seq![ty],
            "const_"@,
            "\""@ + instr.name@ + "\", "@ + handed_on("value"@, ty),
        ),
{
    lemma_made(parts_for(Request::Instr(instr, tys)), seq!["value"@], seq![ty]);
    lemma_handed_on("value"@, ty);
}

/// A unary operation, of whatever types, reports its name and then every value that it
/// receives, in the order in which they arrive: the operands, and then the results.
pub proof fn unary_operations_report_operands_and_results(
    instr: Instr,
    tys: Seq<ValType>,
    inputs: Seq<ValType>,
    results: Seq<ValType>,
    operands: Seq<Seq<char>>,
    outcomes: Seq<Seq<char>>,
)
    requires
        instr.accepts(tys),
        instr.kind matches InstrKind::Unary(op) && op.inputs@ == inputs && op.results@ == results,
        counted(operands, "input"@, inputs.len()),
        counted(outcomes, "result"@, results.len()),
    ensures
        delivers(
            of(instr, tys),
            operands + outcomes,
            inputs + results,
            "unary"@,
            "\""@ + instr.name@ + "\", "@ + comma(
                each_handed_on(operands + outcomes, inputs + results),
            ),
        ),
{
    let p = parts_for(Request::Instr(instr, tys));
    lemma_counted(operands, "input"@, inputs);
    lemma_counted(outcomes, "result"@, results);
    lemma_described_append(
        numbered("input"@, inputs),
        operands,
        inputs,
        numbered("result"@, results),
        outcomes,
        results,
    );
    lemma_made(p, operands + outcomes, inputs + results);
    lemma_described(p.args, operands + outcomes, inputs + results);
}

/// A binary operation, of whatever types, reports its name and then every value that it
/// receives, in the order in which they arrive: the operands, and then the results.
pub proof fn binary_operations_report_operands_and_results(
    instr: Instr,
    tys: Seq<ValType>,
    inputs: Seq<ValType>,
    results: Seq<ValType>,
    operands: Seq<Seq<char>>,
    outcomes: Seq<Seq<char>>,
)
    requires
        instr.accepts(tys),
        instr.kind matches InstrKind::Binary(op) && op.inputs@ == inputs && op.results@ == results,
        counted(operands, "input"@, inputs.len()),
        counted(outcomes, "result"@, results.len()),
    ensures
        delivers(
            of(instr, tys),
            operands + outcomes,
            inputs + results,
            "binary"@,
            "\""@ + instr.name@ + "\", "@ + comma(
                each_handed_on(operands + outcomes, inputs + results),
            ),
        ),
{
    let p = parts_for(Request::Instr(instr, tys));
    lemma_counted(operands, "input"@, inputs);
    lemma_counted(outcomes, "result"@, results);
    lemma_described_append(
        numbered("input"@, inputs),
        operands,
        inputs,
        numbered("result"@, results),
        outcomes,
        results,
    );
    lemma_made(p, operands + outcomes, inputs + results);
    lemma_described(p.args, operands + outcomes, inputs + results);
}

/// `drop` reports the value, of whatever type.
pub proof fn drop_reports_its_value(instr: Instr, tys: Seq<ValType>)
    requires
        instr.accepts(tys),
        instr.kind is Drop,
    ensures
        delivers(of(instr, tys), seq!["value"@], tys, "drop"@, handed_on("value"@, tys[0])),
{
    lemma_made(parts_for(Request::Instr(instr, tys)), seq!["value"@], tys);
    lemma_handed_on("value"@, tys[0]);
}

/// `select`, for operands of whatever type, reports whether its condition is one, and
/// then both operands in the order in which they arrive.
pub proof fn select_reports_condition_and_operands(
    instr: Instr,
    tys: Seq<ValType>,
    operands: Seq<Seq<char>>,
)
    requires
        instr.accepts(tys),
        instr.kind is Select,
        counted(operands, "input"@, tys.len()),
    ensures
        delivers(
            of(instr, tys),
            seq!["condition"@] + operands,
            seq![ValType::I32] + tys,
            "select"@,
            "condition === 1, "@ + comma(each_handed_on(operands, tys)),
        ),
{
    lemma_counted(operands, "input"@, tys);
    lemma_described_append(
        seq![arg("condition"@, ValType::I32)],
        seq!["condition"@],
        seq![ValType::I32],
        numbered("input"@, tys),
        operands,
        tys,
    );
    lemma_made(
        parts_for(Request::Instr(instr, tys)),
        seq!["condition"@] + operands,
        seq![ValType::I32] + tys,
    );
    lemma_described(numbered("input"@, tys), operands, tys);
}

/// An access to a local or global variable, of whatever type, reports its name, the
/// index of the variable and the value.
pub proof fn variables_report_index_and_value(instr: Instr, tys: Seq<ValType>)
    requires
        instr.accepts(tys),
        instr.kind is Local || instr.kind is Global,
    ensures
        delivers(
            of(instr, tys),
            seq!["index"@, "value"@],
            seq![ValType::I32, tys[0]],
            if instr.kind is Local {
                "local"@
            } else {
                "global"@
            },
            "\""@ + instr.name@ + "\", "@ + comma(
                each_handed_on(seq!["index"@, "value"@], seq![ValType::I32, tys[0]]),
            ),
        ),
{
    let p = parts_for(Request::Instr(instr, tys));
    lemma_made(p, seq!["index"@, "value"@], seq![ValType::I32, tys[0]]);
    lemma_described(p.args, seq!["index"@, "value"@], seq![ValType::I32, tys[0]]);
}

/// `return` reports an array of all results, one element for each, in order.
pub proof fn return_reports_every_result(
    instr: Instr,
    tys: Seq<ValType>,
    results: Seq<Seq<char>>,
)
    requires
        instr.accepts(tys),
        instr.kind is Return,
        counted(results, "result"@, tys.len()),
    ensures
        delivers(of(instr, tys), results, tys, "return_"@, array(each_handed_on(results, tys))),
{
    lemma_counted(results, "result"@, tys);
    lemma_made(parts_for(Request::Instr(instr, tys)), results, tys);
    lemma_described(numbered("result"@, tys), results, tys);
}

/// The arguments of a call hook, and what hands the passed ones on.
proof fn lemma_call(first: Seq<char>, tys: Seq<ValType>, passed: Seq<Seq<char>>)
    requires
        counted(passed, "arg"@, tys.len()),
    ensures
        described(
            seq![arg(first, ValType::I32)] + numbered("arg"@, tys),
            seq![first] + passed,
            seq![ValType::I32] + tys,
        ),
        bracketed(numbered("arg"@, tys)) == array(each_handed_on(passed, tys)),
{
    lemma_counted(passed, "arg"@, tys);
    lemma_described(numbered("arg"@, tys), passed, tys);
    lemma_described_append(
        seq![arg(first, ValType::I32)],
        seq![first],
        seq![ValType::I32],
        numbered("arg"@, tys),
        passed,
        tys,
    );
}

/// A direct call reports the callee, and then an array of all arguments that are
/// passed, one element for each, in order.
pub proof fn call_reports_callee_and_every_argument(
    instr: Instr,
    tys: Seq<ValType>,
    passed: Seq<Seq<char>>,
)
    requires
        instr.accepts(tys),
        instr.kind is Call,
        counted(passed, "arg"@, tys.len()),
    ensures
        delivers(
            of(instr, tys),
            seq!["targetFunc"@] + passed,
            seq![ValType::I32] + tys,
            "call_pre"@,
            "targetFunc, "@ + array(each_handed_on(passed, tys)),
        ),
{
    lemma_call("targetFunc"@, tys, passed);
    lemma_made(
        parts_for(Request::Instr(instr, tys)),
        seq!["targetFunc"@] + passed,
        seq![ValType::I32] + tys,
    );
}

/// An indirect call reports the callee that the table resolves to, an array of all
/// arguments as a direct call does, and then the index into the table.
pub proof fn call_indirect_reports_table_index_and_every_argument(
    instr: Instr,
    tys: Seq<ValType>,
    passed: Seq<Seq<char>>,
)
    requires
        instr.accepts(tys),
        instr.kind is CallIndirect,
        counted(passed, "arg"@, tys.len()),
    ensures
        delivers(
            of(instr, tys),
            seq!["tableIndex"@] + passed,
            seq![ValType::I32] + tys,
            "call_pre"@,
            "Wasabi.resolveTableIdx(tableIndex), "@ + array(each_handed_on(passed, tys))
                + ", tableIndex"@,
        ),
{
    lemma_call("tableIndex"@, tys, passed);
    lemma_made(
        parts_for(Request::Instr(instr, tys)),
        seq!["tableIndex"@] + passed,
        seq![ValType::I32] + tys,
    );
}

/// The return of a call reports an array of all results, one element for each, in
/// order, from a hook that is named after the types.
pub proof fn call_post_reports_every_result(tys: Seq<ValType>, results: Seq<Seq<char>>)
    requires
        counted(results, "result"@, tys.len()),
    ensures
        delivers(
            hook_for(Request::CallPost(tys)),
            results,
            tys,
            "call_post"@,
            array(each_handed_on(results, tys)),
        ),
        named_after(hook_for(Request::CallPost(tys)).wasm.import_name, "call_post"@, tys),
{
    lemma_counted(results, "result"@, tys);
    lemma_made(parts_for(Request::CallPost(tys)), results, tys);
    lemma_described(numbered("result"@, tys), results, tys);
    mangling_spells_name_and_types("call_post"@, tys);
}

/// The start of the program reports nothing but the location.
pub proof fn start_reports_the_location()
    ensures
        delivers(
            hook_for(Request::Start),
            Seq::<Seq<char>>::empty(),
            Seq::<ValType>::empty(),
            "start"@,
            ""@,
        ),
        hook_for(Request::Start).wasm.import_name == "start"@,
{
    lemma_made(
        parts_for(Request::Start),
        Seq::<Seq<char>>::empty(),
        Seq::<ValType>::empty(),
    );
}

/// Whether a request is for the entry of a block of some sort.
pub open spec fn enters(request: Request, block: BlockStackElement) -> bool {
    match block {
        BlockStackElement::Function => request is BeginFunction,
        BlockStackElement::Block => request is BeginBlock,
        BlockStackElement::Loop => request is BeginLoop,
        BlockStackElement::If => request is BeginIf,
        BlockStackElement::Else => request is BeginElse,
    }
}

/// What a sort of block is called.
pub open spec fn sort(block: BlockStackElement) -> Seq<char> {
    match block {
        BlockStackElement::Function => "function"@,
        BlockStackElement::Block => "block"@,
        BlockStackElement::Loop => "loop"@,
        BlockStackElement::If => "if"@,
        BlockStackElement::Else => "else"@,
    }
}

/// The entry and the end of a block report to `begin` and `end`, from hooks that are
/// named after the sort of the block, and tell this sort first. An `else` tells further
/// where its `if` is. The end tells where the block began: a function begins before its
/// first instruction, and an `else` tells where itself and its `if` are.
pub proof fn blocks_report_their_sort(begin: Request, block: BlockStackElement)
    requires
        enters(begin, block),
    ensures
        hook_for(begin).wasm.import_name == "begin_"@ + sort(block),
        hook_for(Request::End(block)).wasm.import_name == "end_"@ + sort(block),
        ({
            let begins_at = if block == BlockStackElement::Else {
                seq!["ifInstr"@]
            } else {
                Seq::empty()
            };
            let ends_at = match block {
                BlockStackElement::Function => Seq::empty(),
                BlockStackElement::Else => seq!["elseInstr"@, "ifInstr"@],
                _ => seq!["beginInstr"@],
            };
            let where_ended = match block {
                BlockStackElement::Function => ", {func, instr: -1}"@,
                BlockStackElement::Else => ", {func, instr: elseInstr}, {func, instr: ifInstr}"@,
                _ => ", {func, instr: beginInstr}"@,
            };
            let where_begun = if block == BlockStackElement::Else {
                ", {func, instr: ifInstr}"@
            } else {
                ""@
            };
            &&& delivers(
                hook_for(begin),
                begins_at,
                Seq::new(begins_at.len(), |i: int| ValType::I32),
                "begin"@,
                "\""@ + sort(block) + "\""@ + where_begun,
            )
            &&& delivers(
                hook_for(Request::End(block)),
                ends_at,
                Seq::new(ends_at.len(), |i: int| ValType::I32),
                "end"@,
                "\""@ + sort(block) + "\""@ + where_ended,
            )
        }),
{
    let begins_at = if block == BlockStackElement::Else {
        seq!["ifInstr"@]
    } else {
        Seq::empty()
    };
    let ends_at = match block {
        BlockStackElement::Function => Seq::empty(),
        BlockStackElement::Else => seq!["elseInstr"@, "ifInstr"@],
        _ => seq!["beginInstr"@],
    };
    lemma_made(
        parts_for(begin),
        begins_at,
        Seq::new(begins_at.len(), |i: int| ValType::I32),
    );
    lemma_made(
        parts_for(Request::End(block)),
        ends_at,
        Seq::new(ends_at.len(), |i: int| ValType::I32),
    );
    lemma_block_texts(block);
}

/// The texts of the hooks of blocks, piece by piece.
proof fn lemma_block_texts(block: BlockStackElement)
    ensures
        match block {
            BlockStackElement::Function => {
                &&& "begin_function"@ == "begin_"@ + "function"@
                &&& "end_function"@ == "end_"@ + "function"@
                &&& "\"function\""@ == "\""@ + "function"@ + "\""@ + ""@
                &&& "\"function\", {func, instr: -1}"@ == "\""@ + "function"@ + "\""@ + ", {func, instr: -1}"@
            },
            BlockStackElement::Block => {
                &&& "begin_block"@ == "begin_"@ + "block"@
                &&& "end_block"@ == "end_"@ + "block"@
                &&& "\"block\""@ == "\""@ + "block"@ + "\""@ + ""@
                &&& "\"block\", {func, instr: beginInstr}"@ == "\""@ + "block"@ + "\""@ + ", {func, instr: beginInstr}"@
            },
            BlockStackElement::Loop => {
                &&& "begin_loop"@ == "begin_"@ + "loop"@
                &&& "end_loop"@ == "end_"@ + "loop"@
                &&& "\"loop\""@ == "\""@ + "loop"@ + "\""@ + ""@
                &&& "\"loop\", {func, instr: beginInstr}"@ == "\""@ + "loop"@ + "\""@ + ", {func, instr: beginInstr}"@
            },
            BlockStackElement::If => {
                &&& "begin_if"@ == "begin_"@ + "if"@
                &&& "end_if"@ == "end_"@ + "if"@
                &&& "\"if\""@ == "\""@ + "if"@ + "\""@ + ""@
                &&& "\"if\", {func, instr: beginInstr}"@ == "\""@ + "if"@ + "\""@ + ", {func, instr: beginInstr}"@
            },
            BlockStackElement::Else => {
                &&& "begin_else"@ == "begin_"@ + "else"@
                &&& "end_else"@ == "end_"@ + "else"@
                &&& "\"else\", {func, instr: ifInstr}"@ == "\""@ + "else"@ + "\""@ + ", {func, instr: ifInstr}"@
                &&& "\"else\", {func, instr: elseInstr}, {func, instr: ifInstr}"@ == "\""@ + "else"@ + "\""@ + ", {func, instr: elseInstr}, {func, instr: ifInstr}"@
            },
        },
{
    reveal_strlit("begin_");
    reveal_strlit("end_");
    reveal_strlit("\"");
    reveal_strlit("");
    match block {
        BlockStackElement::Function => {
            reveal_strlit("begin_function");
            reveal_strlit("end_function");
            reveal_strlit("function");
            reveal_strlit("\"function\"");
            reveal_strlit("\"function\", {func, instr: -1}");
            reveal_strlit(", {func, instr: -1}");
            assert("begin_function"@ =~= "begin_"@ + "function"@);
            assert("end_function"@ =~= "end_"@ + "function"@);
            assert("\"function\""@ =~= "\""@ + "function"@ + "\""@ + ""@);
            assert("\"function\", {func, instr: -1}"@ =~= "\""@ + "function"@ + "\""@ + ", {func, instr: -1}"@);
        },
        BlockStackElement::Block => {
            reveal_strlit("begin_block");
            reveal_strlit("end_block");
            reveal_strlit("block");
            reveal_strlit("\"block\"");
            reveal_strlit("\"block\", {func, instr: beginInstr}");
            reveal_strlit(", {func, instr: beginInstr}");
            assert("begin_block"@ =~= "begin_"@ + "block"@);
            assert("end_block"@ =~= "end_"@ + "block"@);
            assert("\"block\""@ =~= "\""@ + "block"@ + "\""@ + ""@);
            assert("\"block\", {func, instr: beginInstr}"@ =~= "\""@ + "block"@ + "\""@ + ", {func, instr: beginInstr}"@);
        },
        BlockStackElement::Loop => {
            reveal_strlit("begin_loop");
            reveal_strlit("end_loop");
            reveal_strlit("loop");
            reveal_strlit("\"loop\"");
            reveal_strlit("\"loop\", {func, instr: beginInstr}");
            reveal_strlit(", {func, instr: beginInstr}");
            assert("begin_loop"@ =~= "begin_"@ + "loop"@);
            assert("end_loop"@ =~= "end_"@ + "loop"@);
            assert("\"loop\""@ =~= "\""@ + "loop"@ + "\""@ + ""@);
            assert("\"loop\", {func, instr: beginInstr}"@ =~= "\""@ + "loop"@ + "\""@ + ", {func, instr: beginInstr}"@);
        },
        BlockStackElement::If => {
            reveal_strlit("begin_if");
            reveal_strlit("end_if");
            reveal_strlit("if");
            reveal_strlit("\"if\"");
            reveal_strlit("\"if\", {func, instr: beginInstr}");
            reveal_strlit(", {func, instr: beginInstr}");
            assert("begin_if"@ =~= "begin_"@ + "if"@);
            assert("end_if"@ =~= "end_"@ + "if"@);
            assert("\"if\""@ =~= "\""@ + "if"@ + "\""@ + ""@);
            assert("\"if\", {func, instr: beginInstr}"@ =~= "\""@ + "if"@ + "\""@ + ", {func, instr: beginInstr}"@);
        },
        BlockStackElement::Else => {
            reveal_strlit("begin_else");
            reveal_strlit("end_else");
            reveal_strlit("else");
            reveal_strlit("\"else\", {func, instr: ifInstr}");
            reveal_strlit("\"else\", {func, instr: elseInstr}, {func, instr: ifInstr}");
            reveal_strlit(", {func, instr: elseInstr}, {func, instr: ifInstr}");
            reveal_strlit(", {func, instr: ifInstr}");
            assert("begin_else"@ =~= "begin_"@ + "else"@);
            assert("end_else"@ =~= "end_"@ + "else"@);
            assert("\"else\", {func, instr: ifInstr}"@ =~= "\""@ + "else"@ + "\""@ + ", {func, instr: ifInstr}"@);
            assert("\"else\", {func, instr: elseInstr}, {func, instr: ifInstr}"@ =~= "\""@ + "else"@ + "\""@ + ", {func, instr: elseInstr}, {func, instr: ifInstr}"@);
        },
    }
}

} // verus!
