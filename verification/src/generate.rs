//! The hooks of the library: which hook belongs to which instruction or event.
use vstd::pervasive::unreached;
use vstd::prelude::*;

use crate::hook::{
    join_long_exprs, long_expr_list, mangle_polymorphic_name, mangled, new_hook, views, Arg,
    ArgView, Hook, HookView,
};
use crate::text::{decimal, to_decimal};
use crate::wasm::{BlockStackElement, Instr, InstrKind, ValType};

verus! {

/// What a hook can be asked for.
pub enum Request {
    /// An instruction, with the types that its kind does not fix.
    Instr(Instr, Seq<ValType>),
    /// The start of the program.
    Start,
    /// The return of a call that gives results of these types.
    CallPost(Seq<ValType>),
    BeginFunction,
    BeginBlock,
    BeginLoop,
    BeginIf,
    BeginElse,
    /// The end of a block.
    End(BlockStackElement),
}

/// What a hook is made of.
pub struct HookParts {
    pub lowlevel_name: Seq<char>,
    pub args: Seq<ArgView>,
    pub highlevel_name: Seq<char>,
    pub js_args: Seq<char>,
}

/// The parts of a hook.
pub open spec fn parts(
    lowlevel_name: Seq<char>,
    args: Seq<ArgView>,
    highlevel_name: Seq<char>,
    js_args: Seq<char>,
) -> HookParts {
    HookParts { lowlevel_name, args, highlevel_name, js_args }
}

/// One argument.
pub open spec fn arg(name: Seq<char>, ty: ValType) -> ArgView {
    ArgView { name, ty }
}

/// One argument for each type, named by a prefix and a running number.
pub open spec fn numbered(prefix: Seq<char>, tys: Seq<ValType>) -> Seq<ArgView> {
    Seq::new(tys.len(), |i: int| arg(prefix + decimal(i as nat), tys[i]))
}

/// A name as a JavaScript string, in front of further arguments.
pub open spec fn quoted_before(name: Seq<char>, rest: Seq<char>) -> Seq<char> {
    "\""@ + name + "\", "@ + rest
}

/// The arguments as they are forwarded to the high-level hook, in an array.
pub open spec fn bracketed(args: Seq<ArgView>) -> Seq<char> {
    "["@ + long_expr_list(args) + "]"@
}

/// A memory access: where it goes, and the value of the given type.
pub open spec fn access_args(ty: ValType) -> Seq<ArgView> {
    seq![
        arg("offset"@, ValType::I32),
        arg("align"@, ValType::I32),
        arg("addr"@, ValType::I32),
        arg("value"@, ty),
    ]
}

/// The forwarded arguments of a memory access by the named instruction.
pub open spec fn access_js_args(instr_name: Seq<char>, ty: ValType) -> Seq<char> {
    "\""@ + instr_name + "\", {addr, offset, align}, "@ + arg("value"@, ty).lowlevel_long_expr()
}

/// The operands of an operation and then its results.
pub open spec fn operation_args(inputs: Seq<ValType>, results: Seq<ValType>) -> Seq<ArgView> {
    numbered("input"@, inputs) + numbered("result"@, results)
}

/// A variable by its index, and its value.
pub open spec fn variable_args(ty: ValType) -> Seq<ArgView> {
    seq![arg("index"@, ValType::I32), arg("value"@, ty)]
}

/// The parts of the hook of an instruction, named after the instruction and the types that its
/// kind does not fix.
pub open spec fn instr_parts(plain: Seq<char>, kind: InstrKind, tys: Seq<ValType>) -> HookParts {
    let word = ValType::I32;
    let name = mangled(plain, tys);
    match kind {
        InstrKind::Nop | InstrKind::Unreachable => parts(name, Seq::empty(), name, ""@),
        InstrKind::If => parts(
            name,
            seq![arg("condition"@, word)],
            "if_"@,
            "condition === 1"@,
        ),
        InstrKind::Br => parts(
            name,
            seq![arg("targetLabel"@, word), arg("targetInstr"@, word)],
            name,
            "{label: targetLabel, location: {func, instr: targetInstr}}"@,
        ),
        InstrKind::BrIf => parts(
            name,
            seq![arg("condition"@, word), arg("targetLabel"@, word), arg("targetInstr"@, word)],
            name,
            "{label: targetLabel, location: {func, instr: targetInstr}}, condition === 1"@,
        ),
        // The fragment closes the call of the hook and opens the one that ends the
        // blocks that the jump leaves.
        InstrKind::BrTable => parts(
            name,
            seq![arg("tableIdx"@, word), arg("brTablesInfoIdx"@, word)],
            name,
            "Wasabi.module.info.brTables[brTablesInfoIdx].table, Wasabi.module.info.brTables[brTablesInfoIdx].default, tableIdx); Wasabi.endBrTableBlocks(brTablesInfoIdx, tableIdx, func"@,
        ),
        InstrKind::MemorySize => parts(
            name,
            seq![arg("currentSizePages"@, word)],
            name,
            "currentSizePages"@,
        ),
        InstrKind::MemoryGrow => parts(
            name,
            seq![arg("deltaPages"@, word), arg("previousSizePages"@, word)],
            name,
            "deltaPages, previousSizePages"@,
        ),
        InstrKind::Load(op) => parts(
            name,
            access_args(op.results@[0]),
            "load"@,
            access_js_args(plain, op.results@[0]),
        ),
        InstrKind::Store(op) => parts(
            name,
            access_args(op.inputs@[1]),
            "store"@,
            access_js_args(plain, op.inputs@[1]),
        ),
        InstrKind::Const(ty) => parts(
            name,
            seq![arg("value"@, ty)],
            "const_"@,
            quoted_before(plain, arg("value"@, ty).lowlevel_long_expr()),
        ),
        InstrKind::Unary(op) => parts(
            name,
            operation_args(op.inputs@, op.results@),
            "unary"@,
            quoted_before(plain, long_expr_list(operation_args(op.inputs@, op.results@))),
        ),
        InstrKind::Binary(op) => parts(
            name,
            operation_args(op.inputs@, op.results@),
            "binary"@,
            quoted_before(plain, long_expr_list(operation_args(op.inputs@, op.results@))),
        ),
        InstrKind::Drop => parts(
            name,
            seq![arg("value"@, tys[0])],
            "drop"@,
            arg("value"@, tys[0]).lowlevel_long_expr(),
        ),
        InstrKind::Select => parts(
            name,
            seq![arg("condition"@, word)] + numbered("input"@, tys),
            "select"@,
            "condition === 1, "@ + long_expr_list(numbered("input"@, tys)),
        ),
        InstrKind::Local => parts(
            name,
            variable_args(tys[0]),
            "local"@,
            quoted_before(plain, long_expr_list(variable_args(tys[0]))),
        ),
        InstrKind::Global => parts(
            name,
            variable_args(tys[0]),
            "global"@,
            quoted_before(plain, long_expr_list(variable_args(tys[0]))),
        ),
        InstrKind::Return => parts(
            name,
            numbered("result"@, tys),
            "return_"@,
            bracketed(numbered("result"@, tys)),
        ),
        // One argument less than for an indirect call: the table index stays
        // undefined.
        InstrKind::Call(_) => parts(
            name,
            seq![arg("targetFunc"@, word)] + numbered("arg"@, tys),
            "call_pre"@,
            "targetFunc, "@ + bracketed(numbered("arg"@, tys)),
        ),
        InstrKind::CallIndirect => parts(
            name,
            seq![arg("tableIndex"@, word)] + numbered("arg"@, tys),
            "call_pre"@,
            "Wasabi.resolveTableIdx(tableIndex), "@ + bracketed(numbered("arg"@, tys))
                + ", tableIndex"@,
        ),
        InstrKind::Block | InstrKind::Loop | InstrKind::Else | InstrKind::End => arbitrary(),
    }
}

/// The parts of the hook of the end of a block, with the location where the block began.
pub open spec fn end_parts(block: BlockStackElement) -> HookParts {
    let begin_instr = seq![arg("beginInstr"@, ValType::I32)];
    match block {
        BlockStackElement::Function => parts(
            "end_function"@,
            Seq::empty(),
            "end"@,
            "\"function\", {func, instr: -1}"@,
        ),
        BlockStackElement::Block => parts(
            "end_block"@,
            begin_instr,
            "end"@,
            "\"block\", {func, instr: beginInstr}"@,
        ),
        BlockStackElement::Loop => parts(
            "end_loop"@,
            begin_instr,
            "end"@,
            "\"loop\", {func, instr: beginInstr}"@,
        ),
        BlockStackElement::If => parts(
            "end_if"@,
            begin_instr,
            "end"@,
            "\"if\", {func, instr: beginInstr}"@,
        ),
        BlockStackElement::Else => parts(
            "end_else"@,
            seq![arg("elseInstr"@, ValType::I32), arg("ifInstr"@, ValType::I32)],
            "end"@,
            "\"else\", {func, instr: elseInstr}, {func, instr: ifInstr}"@,
        ),
    }
}

/// What the hook that answers a request is made of.
pub open spec fn parts_for(request: Request) -> HookParts {
    match request {
        Request::Instr(instr, tys) => instr_parts(instr.name@, instr.kind, tys),
        Request::Start => parts("start"@, Seq::empty(), "start"@, ""@),
        Request::CallPost(tys) => parts(
            mangled("call_post"@, tys),
            numbered("result"@, tys),
            "call_post"@,
            bracketed(numbered("result"@, tys)),
        ),
        Request::BeginFunction => parts(
            "begin_function"@,
            Seq::empty(),
            "begin"@,
            "\"function\""@,
        ),
        Request::BeginBlock => parts("begin_block"@, Seq::empty(), "begin"@, "\"block\""@),
        Request::BeginLoop => parts("begin_loop"@, Seq::empty(), "begin"@, "\"loop\""@),
        Request::BeginIf => parts("begin_if"@, Seq::empty(), "begin"@, "\"if\""@),
        Request::BeginElse => parts(
            "begin_else"@,
            seq![arg("ifInstr"@, ValType::I32)],
            "begin"@,
            "\"else\", {func, instr: ifInstr}"@,
        ),
        Request::End(block) => end_parts(block),
    }
}

/// The hook that is made of these parts, without a place in a table yet.
pub open spec fn made_of(parts: HookParts) -> HookView {
    new_hook(parts.lowlevel_name, parts.args, parts.highlevel_name, parts.js_args)
}

/// The hook that answers a request.
pub open spec fn hook_for(request: Request) -> HookView {
    made_of(parts_for(request))
}

/// Whether a request has an answer.
pub open spec fn answerable(request: Request) -> bool {
    match request {
        Request::Instr(instr, tys) => instr.accepts(tys),
        _ => true,
    }
}

/// Whether a hook is the answer to some request.
pub open spec fn generated(hook: HookView) -> bool {
    exists|request: Request|
        answerable(request) && #[trigger] hook_for(request) == hook.at(0)
}

/// Whether a hook is one of the two that are both named `br_if`: that of `br_if`
/// itself, and that of `br` if it is asked for with two types, although it has none.
pub open spec fn named_br_if(hook: HookView) -> bool {
    ||| hook == made_of(instr_parts("br_if"@, InstrKind::BrIf, Seq::empty()))
    ||| hook == made_of(instr_parts("br"@, InstrKind::Br, seq![ValType::I32, ValType::F32]))
}

/// Whether a hook that is in use is the one that was asked for. They are the same,
/// wherever they stand, with one exception: under the name `br_if` it is the one that
/// was asked for first.
pub open spec fn stands_for(used: HookView, asked: HookView) -> bool {
    ||| used.at(0) == asked.at(0)
    ||| named_br_if(used.at(0)) && named_br_if(asked.at(0))
}

/// A hook that answers a request is generated, and has no place in a table yet.
pub proof fn lemma_generated(request: Request)
    requires
        answerable(request),
    ensures
        generated(hook_for(request)),
        hook_for(request).idx == 0,
{
    assert(hook_for(request).at(0) == hook_for(request));
}

/// Makes one argument for each type.
fn numbered_args(prefix: &str, tys: &[ValType]) -> (args: Vec<Arg>)
    ensures
        views(args@) == numbered(prefix@, tys@),
{
    let mut args: Vec<Arg> = Vec::new();
    let mut i: usize = 0;
    while i < tys.len()
        invariant
            i <= tys.len(),
            args@.len() == i,
            forall|k: int| 0 <= k < i ==> (#[trigger] args@[k])@ == numbered(prefix@, tys@)[k],
        decreases tys.len() - i,
    {
        let mut name = prefix.to_owned();
        name.append(to_decimal(i).as_str());
        args.push(Arg { name, ty: tys[i] });
        i += 1;
    }
    assert(views(args@) =~= numbered(prefix@, tys@));
    args
}

/// Makes the operands of an operation and then its results.
fn operation_arg_vec(inputs: &[ValType], results: &[ValType]) -> (args: Vec<Arg>)
    ensures
        views(args@) == operation_args(inputs@, results@),
{
    let mut args = numbered_args("input", inputs);
    let mut outs = numbered_args("result", results);
    let ghost ins = args@;
    let ghost outs_view = outs@;
    args.append(&mut outs);
    assert(views(args@) =~= views(ins) + views(outs_view));
    args
}

/// Puts an argument in front of others.
fn prepend(first: Arg, mut rest: Vec<Arg>) -> (args: Vec<Arg>)
    ensures
        views(args@) == seq![first@] + views(rest@),
{
    let mut args: Vec<Arg> = vec![first];
    let ghost others = rest@;
    args.append(&mut rest);
    assert(views(args@) =~= seq![first@] + views(others));
    args
}

/// Makes the arguments of a memory access.
fn access_arg_vec(ty: ValType) -> (args: Vec<Arg>)
    ensures
        views(args@) == access_args(ty),
{
    let args: Vec<Arg> = vec![
        Arg::new("offset", ValType::I32),
        Arg::new("align", ValType::I32),
        Arg::new("addr", ValType::I32),
        Arg::new("value", ty),
    ];
    assert(views(args@) =~= access_args(ty));
    args
}

/// Makes the arguments of an access to a variable.
fn variable_arg_vec(ty: ValType) -> (args: Vec<Arg>)
    ensures
        views(args@) == variable_args(ty),
{
    let args: Vec<Arg> = vec![Arg::new("index", ValType::I32), Arg::new("value", ty)];
    assert(views(args@) =~= variable_args(ty));
    args
}

/// Writes the forwarded arguments of a memory access.
fn access_js(instr_name: &str, ty: ValType) -> (js_args: String)
    ensures
        js_args@ == access_js_args(instr_name@, ty),
{
    let mut js_args = String::from_str("\"");
    js_args.append(instr_name);
    js_args.append("\", {addr, offset, align}, ");
    js_args.append(Arg::new("value", ty).to_lowlevel_long_expr().as_str());
    js_args
}

/// Writes a name as a JavaScript string in front of further arguments.
fn quote_before(name: &str, rest: &str) -> (js_args: String)
    ensures
        js_args@ == quoted_before(name@, rest@),
{
    let mut js_args = String::from_str("\"");
    js_args.append(name);
    js_args.append("\", ");
    js_args.append(rest);
    js_args
}

/// Writes arguments in their forwarded form in an array.
fn bracket(args: &Vec<Arg>) -> (js_args: String)
    ensures
        js_args@ == bracketed(views(args@)),
{
    let mut js_args = String::from_str("[");
    js_args.append(join_long_exprs(args).as_str());
    js_args.append("]");
    js_args
}

/// Makes arguments that are all of type `i32`.
fn i32_args(names: &[&str]) -> (args: Vec<Arg>)
    ensures
        args@.len() == names@.len(),
        forall|k: int| 0 <= k < names@.len() ==> (#[trigger] args@[k])@ == arg(names@[k]@, ValType::I32),
{
    let mut args: Vec<Arg> = Vec::new();
    let mut i: usize = 0;
    while i < names.len()
        invariant
            i <= names.len(),
            args@.len() == i,
            forall|k: int| 0 <= k < i ==> (#[trigger] args@[k])@ == arg(names@[k]@, ValType::I32),
        decreases names.len() - i,
    {
        args.push(Arg::new(names[i], ValType::I32));
        i += 1;
    }
    args
}

impl Hook {
    /// Makes the hook of an instruction. Monomorphic instructions fix the types of
    /// the arguments by themselves; for the others the types come from
    /// `polymorphic_tys`, and each list of types has a hook of its own.
    pub fn instr(instr: &Instr, polymorphic_tys: &[ValType]) -> (hook: Hook)
        requires
            instr.accepts(polymorphic_tys@),
        ensures
            hook@ == hook_for(Request::Instr(*instr, polymorphic_tys@)),
    {
        let plain = instr.name.as_str();
        let mangled_name = mangle_polymorphic_name(plain, polymorphic_tys);
        let name = mangled_name.as_str();
        match &instr.kind {
            InstrKind::Nop | InstrKind::Unreachable => {
                let args: Vec<Arg> = Vec::new();
                assert(views(args@) =~= Seq::empty());
                Hook::new(name, args, name, "")
            },
            InstrKind::If => {
                let args = i32_args(&["condition"]);
                assert(views(args@) =~= seq![arg("condition"@, ValType::I32)]);
                Hook::new(name, args, "if_", "condition === 1")
            },
            InstrKind::Br => {
                let args = i32_args(&["targetLabel", "targetInstr"]);
                assert(views(args@) =~= seq![
                    arg("targetLabel"@, ValType::I32),
                    arg("targetInstr"@, ValType::I32),
                ]);
                Hook::new(
                    name,
                    args,
                    name,
                    "{label: targetLabel, location: {func, instr: targetInstr}}",
                )
            },
            InstrKind::BrIf => {
                let args = i32_args(&["condition", "targetLabel", "targetInstr"]);
                assert(views(args@) =~= seq![
                    arg("condition"@, ValType::I32),
                    arg("targetLabel"@, ValType::I32),
                    arg("targetInstr"@, ValType::I32),
                ]);
                Hook::new(
                    name,
                    args,
                    name,
                    "{label: targetLabel, location: {func, instr: targetInstr}}, condition === 1",
                )
            },
            InstrKind::BrTable => {
                let args = i32_args(&["tableIdx", "brTablesInfoIdx"]);
                assert(views(args@) =~= seq![
                    arg("tableIdx"@, ValType::I32),
                    arg("brTablesInfoIdx"@, ValType::I32),
                ]);
                Hook::new(
                    name,
                    args,
                    name,
                    "Wasabi.module.info.brTables[brTablesInfoIdx].table, Wasabi.module.info.brTables[brTablesInfoIdx].default, tableIdx); Wasabi.endBrTableBlocks(brTablesInfoIdx, tableIdx, func",
                )
            },
            InstrKind::MemorySize => {
                let args = i32_args(&["currentSizePages"]);
                assert(views(args@) =~= seq![arg("currentSizePages"@, ValType::I32)]);
                Hook::new(name, args, name, "currentSizePages")
            },
            InstrKind::MemoryGrow => {
                let args = i32_args(&["deltaPages", "previousSizePages"]);
                assert(views(args@) =~= seq![
                    arg("deltaPages"@, ValType::I32),
                    arg("previousSizePages"@, ValType::I32),
                ]);
                Hook::new(name, args, name, "deltaPages, previousSizePages")
            },
            InstrKind::Load(op) => {
                let ty = op.results[0];
                let js_args = access_js(plain, ty);
                Hook::new(name, access_arg_vec(ty), "load", js_args.as_str())
            },
            InstrKind::Store(op) => {
                let ty = op.inputs[1];
                let js_args = access_js(plain, ty);
                Hook::new(name, access_arg_vec(ty), "store", js_args.as_str())
            },
            InstrKind::Const(ty) => {
                let value = Arg::new("value", *ty);
                let js_args = quote_before(plain, value.to_lowlevel_long_expr().as_str());
                let args: Vec<Arg> = vec![value];
                assert(views(args@) =~= seq![arg("value"@, *ty)]);
                Hook::new(name, args, "const_", js_args.as_str())
            },
            InstrKind::Unary(op) => {
                let args = operation_arg_vec(op.inputs.as_slice(), op.results.as_slice());
                let js_args = quote_before(plain, join_long_exprs(&args).as_str());
                Hook::new(name, args, "unary", js_args.as_str())
            },
            InstrKind::Binary(op) => {
                let args = operation_arg_vec(op.inputs.as_slice(), op.results.as_slice());
                let js_args = quote_before(plain, join_long_exprs(&args).as_str());
                Hook::new(name, args, "binary", js_args.as_str())
            },
            InstrKind::Drop => {
                let value = Arg::new("value", polymorphic_tys[0]);
                let js_args = value.to_lowlevel_long_expr();
                let args: Vec<Arg> = vec![value];
                assert(views(args@) =~= seq![arg("value"@, polymorphic_tys@[0])]);
                Hook::new(name, args, "drop", js_args.as_str())
            },
            InstrKind::Select => {
                let inputs = numbered_args("input", polymorphic_tys);
                let mut js_args = String::from_str("condition === 1, ");
                js_args.append(join_long_exprs(&inputs).as_str());
                let args = prepend(Arg::new("condition", ValType::I32), inputs);
                Hook::new(name, args, "select", js_args.as_str())
            },
            InstrKind::Local => {
                let args = variable_arg_vec(polymorphic_tys[0]);
                let js_args = quote_before(plain, join_long_exprs(&args).as_str());
                Hook::new(name, args, "local", js_args.as_str())
            },
            InstrKind::Global => {
                let args = variable_arg_vec(polymorphic_tys[0]);
                let js_args = quote_before(plain, join_long_exprs(&args).as_str());
                Hook::new(name, args, "global", js_args.as_str())
            },
            InstrKind::Return => {
                let args = numbered_args("result", polymorphic_tys);
                let js_args = bracket(&args);
                Hook::new(name, args, "return_", js_args.as_str())
            },
            InstrKind::Call(_) => {
                let passed = numbered_args("arg", polymorphic_tys);
                let mut js_args = String::from_str("targetFunc, ");
                js_args.append(bracket(&passed).as_str());
                let args = prepend(Arg::new("targetFunc", ValType::I32), passed);
                Hook::new(name, args, "call_pre", js_args.as_str())
            },
            InstrKind::CallIndirect => {
                let passed = numbered_args("arg", polymorphic_tys);
                let mut js_args = String::from_str("Wasabi.resolveTableIdx(tableIndex), ");
                js_args.append(bracket(&passed).as_str());
                js_args.append(", tableIndex");
                let args = prepend(Arg::new("tableIndex", ValType::I32), passed);
                Hook::new(name, args, "call_pre", js_args.as_str())
            },
            InstrKind::Block | InstrKind::Loop | InstrKind::Else | InstrKind::End => unreached(),
        }
    }

    /// Makes the hook of the start of the program.
    pub fn start() -> (hook: Hook)
        ensures
            hook@ == hook_for(Request::Start),
    {
        let args: Vec<Arg> = Vec::new();
        assert(views(args@) =~= Seq::empty());
        Hook::new("start", args, "start", "")
    }

    /// Makes the hook of the return of a call that gives results of these types.
    pub fn call_post(result_tys: &[ValType]) -> (hook: Hook)
        ensures
            hook@ == hook_for(Request::CallPost(result_tys@)),
    {
        let name = mangle_polymorphic_name("call_post", result_tys);
        let args = numbered_args("result", result_tys);
        let js_args = bracket(&args);
        Hook::new(name.as_str(), args, "call_post", js_args.as_str())
    }

    /// Makes the hook of the entry of a function.
    pub fn begin_function() -> (hook: Hook)
        ensures
            hook@ == hook_for(Request::BeginFunction),
    {
        let args: Vec<Arg> = Vec::new();
        assert(views(args@) =~= Seq::empty());
        Hook::new("begin_function", args, "begin", "\"function\"")
    }

    /// Makes the hook of the entry of a block.
    pub fn begin_block() -> (hook: Hook)
        ensures
            hook@ == hook_for(Request::BeginBlock),
    {
        let args: Vec<Arg> = Vec::new();
        assert(views(args@) =~= Seq::empty());
        Hook::new("begin_block", args, "begin", "\"block\"")
    }

    /// Makes the hook of the entry of a loop, and of each further round.
    pub fn begin_loop() -> (hook: Hook)
        ensures
            hook@ == hook_for(Request::BeginLoop),
    {
        let args: Vec<Arg> = Vec::new();
        assert(views(args@) =~= Seq::empty());
        Hook::new("begin_loop", args, "begin", "\"loop\"")
    }

    /// Makes the hook of the entry of the first branch of an `if`.
    pub fn begin_if() -> (hook: Hook)
        ensures
            hook@ == hook_for(Request::BeginIf),
    {
        let args: Vec<Arg> = Vec::new();
        assert(views(args@) =~= Seq::empty());
        Hook::new("begin_if", args, "begin", "\"if\"")
    }

    /// Makes the hook of the entry of the second branch of an `if`.
    pub fn begin_else() -> (hook: Hook)
        ensures
            hook@ == hook_for(Request::BeginElse),
    {
        let args = i32_args(&["ifInstr"]);
        assert(views(args@) =~= seq![arg("ifInstr"@, ValType::I32)]);
        Hook::new("begin_else", args, "begin", "\"else\", {func, instr: ifInstr}")
    }

    /// Makes the hook of the end of a block.
    pub fn end(block: &BlockStackElement) -> (hook: Hook)
        ensures
            hook@ == hook_for(Request::End(*block)),
    {
        match *block {
            BlockStackElement::Function => {
                let args: Vec<Arg> = Vec::new();
                assert(views(args@) =~= Seq::empty());
                Hook::new("end_function", args, "end", "\"function\", {func, instr: -1}")
            },
            BlockStackElement::Block => {
                let args = i32_args(&["beginInstr"]);
                assert(views(args@) =~= seq![arg("beginInstr"@, ValType::I32)]);
                Hook::new("end_block", args, "end", "\"block\", {func, instr: beginInstr}")
            },
            BlockStackElement::Loop => {
                let args = i32_args(&["beginInstr"]);
                assert(views(args@) =~= seq![arg("beginInstr"@, ValType::I32)]);
                Hook::new("end_loop", args, "end", "\"loop\", {func, instr: beginInstr}")
            },
            BlockStackElement::If => {
                let args = i32_args(&["beginInstr"]);
                assert(views(args@) =~= seq![arg("beginInstr"@, ValType::I32)]);
                Hook::new("end_if", args, "end", "\"if\", {func, instr: beginInstr}")
            },
            BlockStackElement::Else => {
                let args = i32_args(&["elseInstr", "ifInstr"]);
                assert(views(args@) =~= seq![
                    arg("elseInstr"@, ValType::I32),
                    arg("ifInstr"@, ValType::I32),
                ]);
                Hook::new(
                    "end_else",
                    args,
                    "end",
                    "\"else\", {func, instr: elseInstr}, {func, instr: ifInstr}",
                )
            },
        }
    }
}

} // verus!
