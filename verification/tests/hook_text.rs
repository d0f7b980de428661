//! The text and the import of each hook.
use hook_map::hook::mangle_polymorphic_name;
use hook_map::ValType::{F32, F64, I32, I64};
use hook_map::{Arg, BlockStackElement, FunctionType, Hook, Instr, InstrKind, ValType};

fn instr(name: &str, kind: InstrKind) -> Instr {
    Instr { name: name.to_string(), kind }
}

fn ty(inputs: Vec<ValType>, results: Vec<ValType>) -> FunctionType {
    FunctionType { inputs, results }
}

fn check(hook: Hook, name: &str, inputs: Vec<ValType>, js: &str) {
    assert_eq!(hook.lowlevel_name(), name);
    assert_eq!(hook.wasm.import_name, name);
    assert_eq!(hook.wasm.import_module, "__wasabi_hooks");
    assert_eq!(hook.wasm.type_.inputs, inputs);
    assert_eq!(hook.wasm.type_.results, vec![]);
    assert_eq!(hook.js, js);
    assert_eq!(hook.idx, 0);
}

#[test]
fn names_are_mangled_with_the_letters_of_the_types() {
    assert_eq!(mangle_polymorphic_name("call", &[I32, F64]), "call_iF");
    assert_eq!(mangle_polymorphic_name("call", &[]), "call");
    assert_eq!(mangle_polymorphic_name("call", &[I64, F32]), "call_If");
    assert_eq!(mangle_polymorphic_name("local.get", &[I64]), "local_get_I");
    assert_eq!(mangle_polymorphic_name("a.b.c", &[]), "a_b_c");
    assert_eq!(mangle_polymorphic_name("", &[F32]), "_f");
}

#[test]
fn arguments_are_lowered() {
    let long = Arg::new("value", I64);
    assert_eq!(long.to_lowlevel_param_name(), "value_low, value_high");
    assert_eq!(long.to_lowlevel_long_expr(), "new Long(value_low, value_high)");
    let plain = Arg::new("value", F32);
    assert_eq!(plain.to_lowlevel_param_name(), "value");
    assert_eq!(plain.to_lowlevel_long_expr(), "value");
}

#[test]
fn new_hooks_wrap_the_high_level_call() {
    let hook = Hook::new("low", vec![Arg::new("a", I32), Arg::new("b", I64)], "high", "a, x");
    check(
        hook,
        "low",
        vec![I32, I32, I32, I32, I32],
        "\"low\": function (func, instr, a, b_low, b_high) {\n    Wasabi.analysis.high({func, instr}, a, x);\n},",
    );
}

#[test]
fn hooks_without_arguments() {
    check(
        Hook::instr(&instr("nop", InstrKind::Nop), &[]),
        "nop",
        vec![I32, I32],
        "\"nop\": function (func, instr, ) {\n    Wasabi.analysis.nop({func, instr}, );\n},",
    );
    check(
        Hook::instr(&instr("unreachable", InstrKind::Unreachable), &[]),
        "unreachable",
        vec![I32, I32],
        "\"unreachable\": function (func, instr, ) {\n    Wasabi.analysis.unreachable({func, instr}, );\n},",
    );
    check(
        Hook::start(),
        "start",
        vec![I32, I32],
        "\"start\": function (func, instr, ) {\n    Wasabi.analysis.start({func, instr}, );\n},",
    );
}

#[test]
fn hooks_of_branches() {
    check(
        Hook::instr(&instr("if", InstrKind::If), &[]),
        "if",
        vec![I32, I32, I32],
        "\"if\": function (func, instr, condition) {\n    Wasabi.analysis.if_({func, instr}, condition === 1);\n},",
    );
    check(
        Hook::instr(&instr("br", InstrKind::Br), &[]),
        "br",
        vec![I32, I32, I32, I32],
        "\"br\": function (func, instr, targetLabel, targetInstr) {\n    Wasabi.analysis.br({func, instr}, {label: targetLabel, location: {func, instr: targetInstr}});\n},",
    );
    check(
        Hook::instr(&instr("br_if", InstrKind::BrIf), &[]),
        "br_if",
        vec![I32, I32, I32, I32, I32],
        "\"br_if\": function (func, instr, condition, targetLabel, targetInstr) {\n    Wasabi.analysis.br_if({func, instr}, {label: targetLabel, location: {func, instr: targetInstr}}, condition === 1);\n},",
    );
    check(
        Hook::instr(&instr("br_table", InstrKind::BrTable), &[]),
        "br_table",
        vec![I32, I32, I32, I32],
        "\"br_table\": function (func, instr, tableIdx, brTablesInfoIdx) {\n    Wasabi.analysis.br_table({func, instr}, Wasabi.module.info.brTables[brTablesInfoIdx].table, Wasabi.module.info.brTables[brTablesInfoIdx].default, tableIdx); Wasabi.endBrTableBlocks(brTablesInfoIdx, tableIdx, func);\n},",
    );
}

#[test]
fn hooks_of_memory_instructions() {
    check(
        Hook::instr(&instr("memory.size", InstrKind::MemorySize), &[]),
        "memory_size",
        vec![I32, I32, I32],
        "\"memory_size\": function (func, instr, currentSizePages) {\n    Wasabi.analysis.memory_size({func, instr}, currentSizePages);\n},",
    );
    check(
        Hook::instr(&instr("memory.grow", InstrKind::MemoryGrow), &[]),
        "memory_grow",
        vec![I32, I32, I32, I32],
        "\"memory_grow\": function (func, instr, deltaPages, previousSizePages) {\n    Wasabi.analysis.memory_grow({func, instr}, deltaPages, previousSizePages);\n},",
    );
    check(
        Hook::instr(&instr("i64.load8_s", InstrKind::Load(ty(vec![I32], vec![I64]))), &[]),
        "i64_load8_s",
        vec![I32, I32, I32, I32, I32, I32, I32],
        "\"i64_load8_s\": function (func, instr, offset, align, addr, value_low, value_high) {\n    Wasabi.analysis.load({func, instr}, \"i64.load8_s\", {addr, offset, align}, new Long(value_low, value_high));\n},",
    );
    check(
        Hook::instr(&instr("f32.store", InstrKind::Store(ty(vec![I32, F32], vec![]))), &[]),
        "f32_store",
        vec![I32, I32, I32, I32, I32, F32],
        "\"f32_store\": function (func, instr, offset, align, addr, value) {\n    Wasabi.analysis.store({func, instr}, \"f32.store\", {addr, offset, align}, value);\n},",
    );
}

#[test]
fn hooks_of_numeric_instructions() {
    check(
        Hook::instr(&instr("i64.const", InstrKind::Const(I64)), &[]),
        "i64_const",
        vec![I32, I32, I32, I32],
        "\"i64_const\": function (func, instr, value_low, value_high) {\n    Wasabi.analysis.const_({func, instr}, \"i64.const\", new Long(value_low, value_high));\n},",
    );
    check(
        Hook::instr(&instr("i64.eqz", InstrKind::Unary(ty(vec![I64], vec![I32]))), &[]),
        "i64_eqz",
        vec![I32, I32, I32, I32, I32],
        "\"i64_eqz\": function (func, instr, input0_low, input0_high, result0) {\n    Wasabi.analysis.unary({func, instr}, \"i64.eqz\", new Long(input0_low, input0_high), result0);\n},",
    );
    check(
        Hook::instr(&instr("f64.add", InstrKind::Binary(ty(vec![F64, F64], vec![F64]))), &[]),
        "f64_add",
        vec![I32, I32, F64, F64, F64],
        "\"f64_add\": function (func, instr, input0, input1, result0) {\n    Wasabi.analysis.binary({func, instr}, \"f64.add\", input0, input1, result0);\n},",
    );
}

#[test]
fn hooks_of_polymorphic_instructions() {
    check(
        Hook::instr(&instr("drop", InstrKind::Drop), &[I64]),
        "drop_I",
        vec![I32, I32, I32, I32],
        "\"drop_I\": function (func, instr, value_low, value_high) {\n    Wasabi.analysis.drop({func, instr}, new Long(value_low, value_high));\n},",
    );
    check(
        Hook::instr(&instr("select", InstrKind::Select), &[F32, F32]),
        "select_ff",
        vec![I32, I32, I32, F32, F32],
        "\"select_ff\": function (func, instr, condition, input0, input1) {\n    Wasabi.analysis.select({func, instr}, condition === 1, input0, input1);\n},",
    );
    check(
        Hook::instr(&instr("local.tee", InstrKind::Local), &[F64]),
        "local_tee_F",
        vec![I32, I32, I32, F64],
        "\"local_tee_F\": function (func, instr, index, value) {\n    Wasabi.analysis.local({func, instr}, \"local.tee\", index, value);\n},",
    );
    check(
        Hook::instr(&instr("global.get", InstrKind::Global), &[I64]),
        "global_get_I",
        vec![I32, I32, I32, I32, I32],
        "\"global_get_I\": function (func, instr, index, value_low, value_high) {\n    Wasabi.analysis.global({func, instr}, \"global.get\", index, new Long(value_low, value_high));\n},",
    );
    check(
        Hook::instr(&instr("return", InstrKind::Return), &[]),
        "return",
        vec![I32, I32],
        "\"return\": function (func, instr, ) {\n    Wasabi.analysis.return_({func, instr}, []);\n},",
    );
    check(
        Hook::instr(&instr("return", InstrKind::Return), &[I32, I64]),
        "return_iI",
        vec![I32, I32, I32, I32, I32],
        "\"return_iI\": function (func, instr, result0, result1_low, result1_high) {\n    Wasabi.analysis.return_({func, instr}, [result0, new Long(result1_low, result1_high)]);\n},",
    );
}

#[test]
fn hooks_of_calls() {
    check(
        Hook::instr(&instr("call", InstrKind::Call(3)), &[I32, F64]),
        "call_iF",
        vec![I32, I32, I32, I32, F64],
        "\"call_iF\": function (func, instr, targetFunc, arg0, arg1) {\n    Wasabi.analysis.call_pre({func, instr}, targetFunc, [arg0, arg1]);\n},",
    );
    check(
        Hook::instr(&instr("call", InstrKind::Call(3)), &[]),
        "call",
        vec![I32, I32, I32],
        "\"call\": function (func, instr, targetFunc) {\n    Wasabi.analysis.call_pre({func, instr}, targetFunc, []);\n},",
    );
    check(
        Hook::instr(&instr("call_indirect", InstrKind::CallIndirect), &[I64]),
        "call_indirect_I",
        vec![I32, I32, I32, I32, I32],
        "\"call_indirect_I\": function (func, instr, tableIndex, arg0_low, arg0_high) {\n    Wasabi.analysis.call_pre({func, instr}, Wasabi.resolveTableIdx(tableIndex), [new Long(arg0_low, arg0_high)], tableIndex);\n},",
    );
    check(
        Hook::call_post(&[F32]),
        "call_post_f",
        vec![I32, I32, F32],
        "\"call_post_f\": function (func, instr, result0) {\n    Wasabi.analysis.call_post({func, instr}, [result0]);\n},",
    );
    check(
        Hook::call_post(&[]),
        "call_post",
        vec![I32, I32],
        "\"call_post\": function (func, instr, ) {\n    Wasabi.analysis.call_post({func, instr}, []);\n},",
    );
}

#[test]
fn numbers_have_all_their_digits() {
    let tys = vec![F32; 101];
    let js = Hook::call_post(&tys).js;
    assert!(js.contains("result9, result10, result11"));
    assert!(js.contains("result99, result100)"));
}

#[test]
fn hooks_of_block_entries() {
    for (hook, block) in [
        (Hook::begin_function(), "function"),
        (Hook::begin_block(), "block"),
        (Hook::begin_loop(), "loop"),
        (Hook::begin_if(), "if"),
    ] {
        check(
            hook,
            &format!("begin_{}", block),
            vec![I32, I32],
            &format!(
                "\"begin_{}\": function (func, instr, ) {{\n    Wasabi.analysis.begin({{func, instr}}, \"{}\");\n}},",
                block, block
            ),
        );
    }
    check(
        Hook::begin_else(),
        "begin_else",
        vec![I32, I32, I32],
        "\"begin_else\": function (func, instr, ifInstr) {\n    Wasabi.analysis.begin({func, instr}, \"else\", {func, instr: ifInstr});\n},",
    );
}

#[test]
fn hooks_of_block_ends() {
    check(
        Hook::end(&BlockStackElement::Function),
        "end_function",
        vec![I32, I32],
        "\"end_function\": function (func, instr, ) {\n    Wasabi.analysis.end({func, instr}, \"function\", {func, instr: -1});\n},",
    );
    for (element, block) in [
        (BlockStackElement::Block, "block"),
        (BlockStackElement::Loop, "loop"),
        (BlockStackElement::If, "if"),
    ] {
        check(
            Hook::end(&element),
            &format!("end_{}", block),
            vec![I32, I32, I32],
            &format!(
                "\"end_{}\": function (func, instr, beginInstr) {{\n    Wasabi.analysis.end({{func, instr}}, \"{}\", {{func, instr: beginInstr}});\n}},",
                block, block
            ),
        );
    }
    check(
        Hook::end(&BlockStackElement::Else),
        "end_else",
        vec![I32, I32, I32, I32],
        "\"end_else\": function (func, instr, elseInstr, ifInstr) {\n    Wasabi.analysis.end({func, instr}, \"else\", {func, instr: elseInstr}, {func, instr: ifInstr});\n},",
    );
}

#[test]
fn instructions_without_a_hook_are_told() {
    for kind in [InstrKind::Block, InstrKind::Loop, InstrKind::Else, InstrKind::End] {
        let name = match kind {
            InstrKind::Block => "block",
            InstrKind::Loop => "loop",
            InstrKind::Else => "else",
            _ => "end",
        };
        assert!(!instr(name, kind).has_hook(&[]));
    }
    assert!(instr("if", InstrKind::If).has_hook(&[]));
    assert!(!instr("drop", InstrKind::Drop).has_hook(&[]));
    assert!(instr("drop", InstrKind::Drop).has_hook(&[I32]));
    assert!(!instr("select", InstrKind::Select).has_hook(&[I32]));
    assert!(!instr("select", InstrKind::Select).has_hook(&[I32, F32]));
    assert!(instr("select", InstrKind::Select).has_hook(&[F32, F32]));
    assert!(!instr("local.get", InstrKind::Local).has_hook(&[I32, I32]));
    assert!(!instr("global.set", InstrKind::Global).has_hook(&[]));
    assert!(!instr("i32.load", InstrKind::Load(ty(vec![I32], vec![]))).has_hook(&[]));
    assert!(!instr("i32.store", InstrKind::Store(ty(vec![I32], vec![]))).has_hook(&[]));
}

#[test]
fn names_fit_what_instructions_do() {
    let fits = |name: &str, kind: InstrKind| instr(name, kind).has_hook(&[]);
    assert!(fits("nop", InstrKind::Nop));
    assert!(!fits("nop", InstrKind::Unreachable));
    assert!(!fits("noop", InstrKind::Nop));
    assert!(fits("call_indirect", InstrKind::CallIndirect));
    assert!(fits("memory.size", InstrKind::MemorySize));
    assert!(!fits("memory.size", InstrKind::MemoryGrow));
    assert!(fits("i64.const", InstrKind::Const(I64)));
    assert!(!fits("i64.const", InstrKind::Const(I32)));
    assert!(fits("i64.load32_u", InstrKind::Load(ty(vec![I32], vec![I64]))));
    assert!(!fits("i64.load32_u", InstrKind::Store(ty(vec![I32, I64], vec![]))));
    assert!(fits("f64.store", InstrKind::Store(ty(vec![I32, F64], vec![]))));
    assert!(!fits("f64.store", InstrKind::Store(ty(vec![I32, F32], vec![]))));
    assert!(fits("i64.eqz", InstrKind::Unary(ty(vec![I64], vec![I32]))));
    assert!(fits("f32.nearest", InstrKind::Unary(ty(vec![F32], vec![F32]))));
    assert!(fits("i32.wrap_i64", InstrKind::Unary(ty(vec![I64], vec![I32]))));
    assert!(fits("i64.extend_i32_s", InstrKind::Unary(ty(vec![I32], vec![I64]))));
    assert!(fits("i64.extend32_s", InstrKind::Unary(ty(vec![I64], vec![I64]))));
    assert!(fits("f32.demote_f64", InstrKind::Unary(ty(vec![F64], vec![F32]))));
    assert!(fits("i32.reinterpret_f32", InstrKind::Unary(ty(vec![F32], vec![I32]))));
    assert!(!fits("i32.wrap_i64", InstrKind::Unary(ty(vec![I32], vec![I32]))));
    assert!(fits("i64.lt_u", InstrKind::Binary(ty(vec![I64, I64], vec![I32]))));
    assert!(fits("f64.copysign", InstrKind::Binary(ty(vec![F64, F64], vec![F64]))));
    assert!(!fits("i64.lt_u", InstrKind::Binary(ty(vec![I64, I64], vec![I64]))));
    assert!(!fits("i64.add", InstrKind::Unary(ty(vec![I64], vec![I64]))));
    assert!(!fits("i64add", InstrKind::Binary(ty(vec![I64, I64], vec![I64]))));
    assert!(!fits("i64.a.b", InstrKind::Unary(ty(vec![I64], vec![I64]))));
    assert!(!fits("i64.a_if", InstrKind::Unary(ty(vec![I64], vec![I64]))));
    assert!(!fits("", InstrKind::Const(I64)));
    assert!(instr("local.tee", InstrKind::Local).has_hook(&[I32]));
    assert!(!instr("local.grow", InstrKind::Local).has_hook(&[I32]));
    assert!(instr("global.set", InstrKind::Global).has_hook(&[I32]));
}

#[test]
fn monomorphic_hooks_ignore_types() {
    let plain = Hook::instr(&instr("if", InstrKind::If), &[]);
    let other = Hook::instr(&instr("if", InstrKind::If), &[F64]);
    assert_eq!(plain.lowlevel_name(), "if");
    assert_eq!(other.lowlevel_name(), "if_F");
    assert_eq!(plain.wasm.type_, other.wasm.type_);
}
