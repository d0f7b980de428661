//! Asking for hooks, through the shared map and through the table alone.
use hook_map::ValType::{F32, F64, I32, I64};
use hook_map::{BlockStackElement, Hook, HookMap, HookTable, Instr, InstrKind, Module};

fn map_for(function_count: usize) -> HookMap {
    HookMap::new(&Module { function_count })
}

fn call_instr() -> Instr {
    Instr { name: "call".to_string(), kind: InstrKind::Call(0) }
}

fn can_be_shared<T: Send + Sync>(_: &T) {}

#[test]
fn indices_start_behind_the_functions_of_the_module() {
    let map = map_for(7);
    assert_eq!(map.start(), Instr::call(7));
    assert_eq!(map.begin_function(), Instr::call(8));
    assert_eq!(Instr::call(7).kind, InstrKind::Call(7));
    assert_eq!(Instr::call(7).name, "call");
}

#[test]
fn an_unused_map_has_no_hooks() {
    assert!(map_for(3).finish().is_empty());
}

#[test]
fn a_hook_is_generated_once() {
    let map = map_for(10);
    let first = map.instr(&call_instr(), &[I32]);
    let other = map.instr(&call_instr(), &[F64]);
    let again = map.instr(&call_instr(), &[I32]);
    assert_eq!(first, Instr::call(10));
    assert_eq!(other, Instr::call(11));
    assert_eq!(again, first);
    assert_eq!(map.finish().len(), 2);
}

#[test]
fn finish_returns_the_hooks_in_the_order_of_insertion() {
    let map = map_for(2);
    map.end(&BlockStackElement::Loop);
    map.begin_loop();
    map.call_post(&[I64]);
    map.begin_loop();
    map.begin_if();
    map.begin_else();
    map.begin_block();
    let hooks = map.finish();
    let names: Vec<String> = hooks.iter().map(|hook| hook.lowlevel_name()).collect();
    assert_eq!(
        names,
        vec!["end_loop", "begin_loop", "call_post_I", "begin_if", "begin_else", "begin_block"]
    );
    let indices: Vec<usize> = hooks.iter().map(|hook| hook.idx).collect();
    assert_eq!(indices, vec![2, 3, 4, 5, 6, 7]);
    assert_eq!(hooks[1].js, Hook::begin_loop().js);
    assert_eq!(hooks[2].wasm, Hook::call_post(&[I64]).wasm);
}

#[test]
fn calls_reach_the_finished_hooks() {
    let map = map_for(100);
    let calls = vec![map.start(), map.begin_block(), map.end(&BlockStackElement::Block), map.start()];
    let names = ["start", "begin_block", "end_block", "start"];
    let hooks = map.finish();
    for (call, name) in calls.iter().zip(names) {
        match call.kind {
            InstrKind::Call(idx) => {
                assert_eq!(hooks[idx - 100].idx, idx);
                assert_eq!(hooks[idx - 100].lowlevel_name(), name);
            }
            _ => panic!("not a call"),
        }
    }
}

#[test]
fn the_first_hook_under_a_name_stays() {
    let br = Instr { name: "br".to_string(), kind: InstrKind::Br };
    let br_if = Instr { name: "br_if".to_string(), kind: InstrKind::BrIf };
    let map = map_for(0);
    assert_eq!(map.instr(&br, &[I32, F32]), Instr::call(0));
    assert_eq!(map.instr(&br_if, &[]), Instr::call(0));
    let hooks = map.finish();
    assert_eq!(hooks.len(), 1);
    assert_eq!(hooks[0].lowlevel_name(), "br_if");
    assert_eq!(hooks[0].js, Hook::instr(&br, &[I32, F32]).js);
}

#[test]
fn the_map_can_be_shared() {
    let map = map_for(0);
    can_be_shared(&map);
}

#[test]
fn the_table_looks_up_what_was_entered() {
    let mut table = HookTable::new(5);
    assert_eq!(table.lookup("start"), None);
    assert_eq!(table.get_or_insert(Hook::start()), Instr::call(5));
    assert_eq!(table.get_or_insert(Hook::begin_if()), Instr::call(6));
    assert_eq!(table.lookup("start"), Some(5));
    assert_eq!(table.lookup("begin_if"), Some(6));
    assert_eq!(table.get_or_insert(Hook::start()), Instr::call(5));
    assert_eq!(table.lookup("begin_else"), None);
    let hooks = table.into_hooks();
    assert_eq!(hooks.len(), 2);
    assert_eq!(hooks[0].idx, 5);
    assert_eq!(hooks[0].lowlevel_name(), "start");
    assert_eq!(hooks[1].idx, 6);
    assert_eq!(hooks[1].lowlevel_name(), "begin_if");
}

#[test]
fn events_have_their_own_names() {
    let map = map_for(0);
    let elements = [
        BlockStackElement::Function,
        BlockStackElement::Block,
        BlockStackElement::Loop,
        BlockStackElement::If,
        BlockStackElement::Else,
    ];
    for element in elements {
        map.end(&element);
    }
    map.start();
    map.call_post(&[]);
    map.begin_function();
    map.begin_block();
    map.begin_loop();
    map.begin_if();
    map.begin_else();
    assert_eq!(map.finish().len(), 12);
}

#[test]
fn parameters_have_their_own_names() {
    let hook = Hook::instr(
        &Instr { name: "call".to_string(), kind: InstrKind::Call(1) },
        &[I64, I32, I64],
    );
    let begin = hook.js.find('(').unwrap() + 1;
    let end = hook.js.find(')').unwrap();
    let names: Vec<&str> = hook.js[begin..end].split(", ").collect();
    assert_eq!(
        names,
        vec!["func", "instr", "targetFunc", "arg0_low", "arg0_high", "arg1", "arg2_low", "arg2_high"]
    );
    assert_eq!(names.len(), hook.wasm.type_.inputs.len());
}

#[test]
fn the_table_takes_any_hook_and_keeps_the_first() {
    let mut table = HookTable::new(0);
    assert_eq!(table.get_or_insert(Hook::new("a", vec![], "x", "1")), Instr::call(0));
    assert_eq!(table.get_or_insert(Hook::new("b", vec![], "x", "")), Instr::call(1));
    assert_eq!(table.get_or_insert(Hook::new("a", vec![], "y", "2")), Instr::call(0));
    let hooks = table.into_hooks();
    assert_eq!(hooks.len(), 2);
    assert_eq!(hooks[0].lowlevel_name(), "a");
    assert_eq!(
        hooks[0].js,
        "\"a\": function (func, instr, ) {\n    Wasabi.analysis.x({func, instr}, 1);\n},"
    );
    assert_eq!(hooks[1].lowlevel_name(), "b");
}

#[test]
fn the_shared_map_gives_what_a_sequential_run_gives() {
    let map = map_for(4);
    let mut table = HookTable::new(4);
    assert_eq!(map.begin_if(), table.get_or_insert(Hook::begin_if()));
    assert_eq!(map.start(), table.get_or_insert(Hook::start()));
    assert_eq!(map.call_post(&[I32]), table.get_or_insert(Hook::call_post(&[I32])));
    assert_eq!(map.start(), table.get_or_insert(Hook::start()));
    assert_eq!(map.call_post(&[]), table.get_or_insert(Hook::call_post(&[])));
    assert_eq!(map.finish(), table.into_hooks());
}
