//! Why the low-level name of a hook tells which hook it is.
use vstd::prelude::*;

use crate::generate::{
    answerable, generated, hook_for, named_br_if, parts_for, stands_for, Request,
};
use crate::hook::{letters, mangled, HookView};
use crate::mnemonic::{ends_in_types, is_letter};
use crate::text::undotted;
use crate::wasm::{Instr, InstrKind, ValType};

verus! {

/// Different types have different letters.
proof fn lemma_letters_injective(a: Seq<ValType>, b: Seq<ValType>)
    requires
        letters(a) == letters(b),
    ensures
        a == b,
{
    assert(letters(a).len() == a.len());
    assert(letters(b).len() == b.len());
    assert forall|i: int| 0 <= i < a.len() implies a[i] == b[i] by {
        assert(letters(a)[i] == a[i].char_spec());
        assert(letters(b)[i] == b[i].char_spec());
    }
    assert(a =~= b);
}

/// A polymorphic instruction has a variant of its hook for each list of types: the
/// mangled names of one name tell the lists of types apart.
pub proof fn mangling_tells_types_apart(name: Seq<char>, a: Seq<ValType>, b: Seq<ValType>)
    requires
        mangled(name, a) == mangled(name, b),
    ensures
        a == b,
{
    let stem = undotted(name).push('_');
    if a.len() == 0 || b.len() == 0 {
        assert(mangled(name, a).len() == mangled(name, b).len());
        assert(a =~= b);
    } else {
        let n = stem.len() as int;
        assert(mangled(name, a).skip(n) =~= letters(a));
        assert(mangled(name, b).skip(n) =~= letters(b));
        lemma_letters_injective(a, b);
    }
}

/// Whether an instruction of some kind is named by a type and a mnemonic.
spec fn is_typed_kind(kind: InstrKind) -> bool {
    kind is Const || kind is Load || kind is Store || kind is Unary || kind is Binary
}

/// What tells the names of the kinds apart that have a hook.
spec fn shaped(stem: Seq<char>, kind: InstrKind) -> bool {
    match kind {
        InstrKind::Unreachable => stem.len() == 11 && stem[0] == 'u' && stem[1] == 'n',
        InstrKind::Nop => stem.len() == 3 && stem[0] == 'n' && stem[1] == 'o',
        InstrKind::If => stem.len() == 2 && stem[0] == 'i' && stem[1] == 'f',
        InstrKind::Br => stem.len() == 2 && stem[0] == 'b' && stem[1] == 'r',
        InstrKind::BrIf => stem.len() == 5 && stem[0] == 'b' && stem[1] == 'r',
        InstrKind::BrTable => stem.len() == 8 && stem[0] == 'b' && stem[1] == 'r',
        InstrKind::Return => stem.len() == 6 && stem[0] == 'r' && stem[1] == 'e',
        InstrKind::Call(_) => stem.len() == 4 && stem[0] == 'c' && stem[1] == 'a',
        InstrKind::CallIndirect => stem.len() == 13 && stem[0] == 'c' && stem[1] == 'a',
        InstrKind::Drop => stem.len() == 4 && stem[0] == 'd' && stem[1] == 'r',
        InstrKind::Select => stem.len() == 6 && stem[0] == 's' && stem[1] == 'e',
        InstrKind::MemorySize => stem.len() == 11 && stem[0] == 'm' && stem[1] == 'e' && stem[7] == 's',
        InstrKind::MemoryGrow => stem.len() == 11 && stem[0] == 'm' && stem[1] == 'e' && stem[7] == 'g',
        InstrKind::Local => stem.len() == 9 && stem[0] == 'l',
        InstrKind::Global => stem.len() == 10 && stem[0] == 'g',
        InstrKind::Block | InstrKind::Loop | InstrKind::Else | InstrKind::End => false,
        _ => stem.len() > 4 && (stem[1] == '3' || stem[1] == '6') && (stem[0] == 'i' || stem[0]
            == 'f'),
    }
}

/// The names of all kinds that have a hook are shaped by the kind, and only that of
/// `br_if` looks like that of a hook variant.
proof fn lemma_shaped(instr: Instr, tys: Seq<ValType>)
    requires
        instr.accepts(tys),
    ensures
        shaped(undotted(instr.name@), instr.kind),
        !(instr.kind is BrIf) ==> !ends_in_types(undotted(instr.name@)),
{
    let stem = undotted(instr.name@);
    assert(stem.len() == instr.name@.len());
    match instr.kind {
        InstrKind::Unreachable => {
            reveal_strlit("unreachable");
        },
        InstrKind::Nop => {
            reveal_strlit("nop");
        },
        InstrKind::If => {
            reveal_strlit("if");
        },
        InstrKind::Br => {
            reveal_strlit("br");
        },
        InstrKind::BrIf => {
            reveal_strlit("br_if");
        },
        InstrKind::BrTable => {
            reveal_strlit("br_table");
        },
        InstrKind::Return => {
            reveal_strlit("return");
        },
        InstrKind::Call(_) => {
            reveal_strlit("call");
        },
        InstrKind::CallIndirect => {
            reveal_strlit("call_indirect");
        },
        InstrKind::Drop => {
            reveal_strlit("drop");
        },
        InstrKind::Select => {
            reveal_strlit("select");
        },
        InstrKind::MemorySize => {
            reveal_strlit("memory.size");
        },
        InstrKind::MemoryGrow => {
            reveal_strlit("memory.grow");
        },
        InstrKind::Local => {
            reveal_strlit("local.get");
            reveal_strlit("local.set");
            reveal_strlit("local.tee");
        },
        InstrKind::Global => {
            reveal_strlit("global.get");
            reveal_strlit("global.set");
        },
        _ => {},
    }
    if !is_typed_kind(instr.kind) && !(instr.kind is BrIf) && ends_in_types(stem) {
        let k = choose|k: int|
            0 <= k < stem.len() - 1 && #[trigger] stem[k] == '_' && (forall|j: int|
                k < j < stem.len() ==> is_letter(#[trigger] stem[j]));
        assert(is_letter(stem[stem.len() - 1]));
        assert(instr.kind is If && k == 0);
    }
}

/// A name and a list of types can be read off a mangled name, as long as a name
/// without types does not look as if it had some.
proof fn lemma_mangling_splits(a: Seq<char>, tys_a: Seq<ValType>, b: Seq<char>, tys_b: Seq<ValType>)
    requires
        mangled(a, tys_a) == mangled(b, tys_b),
        tys_a.len() == 0 ==> !ends_in_types(undotted(a)),
        tys_b.len() == 0 ==> !ends_in_types(undotted(b)),
    ensures
        undotted(a) == undotted(b),
        tys_a == tys_b,
{
    let text = mangled(a, tys_a);
    let n = undotted(a).len() as int;
    let m = undotted(b).len() as int;
    if tys_a.len() > 0 {
        lemma_mangled_tail(a, tys_a);
    }
    if tys_b.len() > 0 {
        lemma_mangled_tail(b, tys_b);
    }
    if tys_a.len() == 0 && tys_b.len() == 0 {
        assert(tys_a =~= tys_b);
    } else if tys_a.len() == 0 {
        assert(text[m] == '_');
        assert(ends_in_types(text));
    } else if tys_b.len() == 0 {
        assert(text[n] == '_');
        assert(ends_in_types(text));
    } else {
        assert(text[n] == '_' && text[m] == '_');
        assert(n == m);
        assert(text.take(n) =~= undotted(a));
        assert(text.take(n) =~= undotted(b));
        assert(text.skip(n + 1) =~= letters(tys_a));
        assert(text.skip(n + 1) =~= letters(tys_b));
        lemma_letters_injective(tys_a, tys_b);
    }
}

/// Behind the name a mangled name with types has an underscore and letters.
proof fn lemma_mangled_tail(name: Seq<char>, tys: Seq<ValType>)
    requires
        tys.len() > 0,
    ensures
        ({
            let text = mangled(name, tys);
            let n = undotted(name).len() as int;
            &&& text.len() == n + 1 + tys.len()
            &&& text[n] == '_'
            &&& forall|j: int| n < j < text.len() ==> is_letter(#[trigger] text[j])
        }),
{
    let text = mangled(name, tys);
    let n = undotted(name).len() as int;
    assert forall|j: int| n < j < text.len() implies is_letter(#[trigger] text[j]) by {
        assert(text[j] == letters(tys)[j - n - 1]);
        assert(text[j] == tys[j - n - 1].char_spec());
    }
}

/// An instruction whose hook is named `br_if` is one of two.
proof fn lemma_br_if(instr: Instr, tys: Seq<ValType>)
    requires
        instr.accepts(tys),
        mangled(instr.name@, tys) == "br_if"@,
    ensures
        named_br_if(hook_for(Request::Instr(instr, tys))),
{
    let stem = undotted(instr.name@);
    reveal_strlit("br_if");
    lemma_shaped(instr, tys);
    if tys.len() == 0 {
        assert(stem.len() == 5 && stem[0] == 'b');
        assert(tys =~= Seq::empty());
    } else {
        lemma_mangled_tail(instr.name@, tys);
        let text = mangled(instr.name@, tys);
        assert(text[stem.len() as int] == '_');
        assert(stem.len() == 2);
        assert(text[0] == stem[0]);
        assert(text[3] == letters(tys)[0] && text[4] == letters(tys)[1]);
        assert(text[3] == tys[0].char_spec() && text[4] == tys[1].char_spec());
        assert(tys =~= seq![ValType::I32, ValType::F32]);
    }
}

/// Names whose only dot is behind a value type are the same if they are without it.
proof fn lemma_undotted_injective(a: Seq<char>, b: Seq<char>)
    requires
        undotted(a) == undotted(b),
        forall|i: int| 0 <= i < a.len() ==> (#[trigger] a[i] == '.' <==> i == 3),
        forall|i: int| 0 <= i < b.len() ==> (#[trigger] b[i] == '.' <==> i == 3),
    ensures
        a == b,
{
    assert(undotted(a).len() == a.len());
    assert(undotted(b).len() == b.len());
    assert forall|i: int| 0 <= i < a.len() implies a[i] == b[i] by {
        assert(undotted(a)[i] == undotted(b)[i]);
        if i != 3 {
            assert(undotted(a)[i] == a[i]);
            assert(undotted(b)[i] == b[i]);
        } else {
            assert(a[i] == '.' && b[i] == '.');
        }
    }
    assert(a =~= b);
}

/// Instructions with one name do the same.
proof fn lemma_same_stem(a: Instr, b: Instr, tys: Seq<ValType>)
    requires
        a.accepts(tys),
        b.accepts(tys),
        undotted(a.name@) == undotted(b.name@),
    ensures
        parts_for(Request::Instr(a, tys)) == parts_for(Request::Instr(b, tys)),
{
    lemma_shaped(a, tys);
    lemma_shaped(b, tys);
    if is_typed_kind(a.kind) {
        assert(is_typed_kind(b.kind));
        lemma_undotted_injective(a.name@, b.name@);
    } else if a.kind is Local {
        reveal_strlit("local.get");
        reveal_strlit("local.set");
        reveal_strlit("local.tee");
        assert(undotted(a.name@)[6] == a.name@[6] && undotted(b.name@)[6] == b.name@[6]);
        assert(a.name@ == b.name@);
    } else if a.kind is Global {
        reveal_strlit("global.get");
        reveal_strlit("global.set");
        assert(undotted(a.name@)[7] == a.name@[7] && undotted(b.name@)[7] == b.name@[7]);
        assert(a.name@ == b.name@);
    }
}

/// The hooks of two instructions with one name are the same, but for `br_if`.
proof fn lemma_instr_names(a: Instr, tys_a: Seq<ValType>, b: Instr, tys_b: Seq<ValType>)
    requires
        a.accepts(tys_a),
        b.accepts(tys_b),
        mangled(a.name@, tys_a) == mangled(b.name@, tys_b),
    ensures
        stands_for(hook_for(Request::Instr(a, tys_a)), hook_for(Request::Instr(b, tys_b))),
{
    let hook_a = hook_for(Request::Instr(a, tys_a));
    let hook_b = hook_for(Request::Instr(b, tys_b));
    assert(hook_a.at(0) == hook_a && hook_b.at(0) == hook_b);
    lemma_shaped(a, tys_a);
    lemma_shaped(b, tys_b);
    if mangled(a.name@, tys_a) == "br_if"@ {
        lemma_br_if(a, tys_a);
        lemma_br_if(b, tys_b);
    } else {
        assert(undotted("br_if"@) =~= "br_if"@) by {
            reveal_strlit("br_if");
        }
        lemma_mangling_splits(a.name@, tys_a, b.name@, tys_b);
        lemma_same_stem(a, b, tys_a);
    }
}

/// How the names of the hooks of events begin and end, and how long they are.
proof fn lemma_event_names()
    ensures
        "start"@.len() == 5 && "start"@[0] == 's' && "start"@.last() == 't',
        "begin_function"@.len() == 14 && "begin_function"@[0] == 'b' && "begin_function"@.last() == 'n',
        "begin_block"@.len() == 11 && "begin_block"@[0] == 'b' && "begin_block"@.last() == 'k',
        "begin_loop"@.len() == 10 && "begin_loop"@[0] == 'b' && "begin_loop"@.last() == 'p',
        "begin_if"@.len() == 8 && "begin_if"@[0] == 'b' && "begin_if"@.last() == 'f',
        "begin_else"@.len() == 10 && "begin_else"@[0] == 'b' && "begin_else"@.last() == 'e',
        "end_function"@.len() == 12 && "end_function"@[0] == 'e' && "end_function"@.last() == 'n',
        "end_block"@.len() == 9 && "end_block"@[0] == 'e' && "end_block"@.last() == 'k',
        "end_loop"@.len() == 8 && "end_loop"@[0] == 'e' && "end_loop"@.last() == 'p',
        "end_if"@.len() == 6 && "end_if"@[0] == 'e' && "end_if"@.last() == 'f',
        "end_else"@.len() == 8 && "end_else"@[0] == 'e' && "end_else"@.last() == 'e',
{
    reveal_strlit("start");
    reveal_strlit("begin_function");
    reveal_strlit("begin_block");
    reveal_strlit("begin_loop");
    reveal_strlit("begin_if");
    reveal_strlit("begin_else");
    reveal_strlit("end_function");
    reveal_strlit("end_block");
    reveal_strlit("end_loop");
    reveal_strlit("end_if");
    reveal_strlit("end_else");
}

/// The hooks of events, those that no instruction stands for, are told apart by
/// their low-level names: events with one name have one hook.
pub proof fn event_names_fix_the_hook(a: Request, b: Request)
    requires
        !(a is Instr),
        !(b is Instr),
        hook_for(a).lowlevel_name() == hook_for(b).lowlevel_name(),
    ensures
        a == b,
{
    lemma_event_names();
    lemma_call_post_name(a);
    lemma_call_post_name(b);
    if a is CallPost && b is CallPost {
        mangling_tells_types_apart("call_post"@, a->CallPost_0, b->CallPost_0);
    }
}

/// The name of the hook of the return of a call begins like no other event's.
proof fn lemma_call_post_name(request: Request)
    ensures
        request is CallPost ==> hook_for(request).lowlevel_name().len() > 0 && hook_for(
            request,
        ).lowlevel_name()[0] == 'c',
{
    if let Request::CallPost(tys) = request {
        reveal_strlit("call_post");
        assert("call_post"@[0] == 'c');
        assert(mangled("call_post"@, tys)[0] == undotted("call_post"@)[0]);
    }
}

/// No instruction has a hook with the name of an event's.
proof fn lemma_event_is_no_instr(instr: Instr, tys: Seq<ValType>, event: Request)
    requires
        instr.accepts(tys),
        !(event is Instr),
    ensures
        mangled(instr.name@, tys) != hook_for(event).lowlevel_name(),
{
    let stem = undotted(instr.name@);
    let text = mangled(instr.name@, tys);
    lemma_shaped(instr, tys);
    assert(text[0] == stem[0] && text[1] == stem[1]);
    if text == hook_for(event).lowlevel_name() {
        if let Request::CallPost(results) = event {
            reveal_strlit("call_post");
            let name = undotted("call_post"@);
            assert("call_post"@[0] == 'c' && "call_post"@[5] == 'p');
            assert(name[0] == 'c' && name[5] == 'p' && name.len() == 9);
            assert(text[0] == name[0] && text[5] == name[5]);
            if instr.kind is Call {
                lemma_mangled_tail(instr.name@, tys);
                assert(is_letter(text[5]));
            } else {
                assert(instr.kind is CallIndirect);
                reveal_strlit("call_indirect");
                assert(text[5] == stem[5] && stem[5] == 'i');
            }
        } else {
            lemma_event_names();
            lemma_second_characters();
        }
    }
}

/// The second characters of the names of events that share the first with a name of
/// an instruction.
proof fn lemma_second_characters()
    ensures
        "start"@[1] == 't',
        "begin_function"@[1] == 'e',
        "begin_block"@[1] == 'e',
        "begin_loop"@[1] == 'e',
        "begin_if"@[1] == 'e',
        "begin_else"@[1] == 'e',
{
    reveal_strlit("start");
    reveal_strlit("begin_function");
    reveal_strlit("begin_block");
    reveal_strlit("begin_loop");
    reveal_strlit("begin_if");
    reveal_strlit("begin_else");
}

/// The low-level name of a hook tells which hook it is: whoever asks for a hook of
/// that name asks for the same. The one name of which this does not hold is `br_if`,
/// since `br`, asked for with the two types whose letters are `if`, gets it too.
pub proof fn names_tell_hooks_apart(a: HookView, b: HookView)
    requires
        generated(a),
        generated(b),
        a.lowlevel_name() == b.lowlevel_name(),
    ensures
        stands_for(a, b),
        a.lowlevel_name() != "br_if"@ ==> a.at(0) == b.at(0),
{
    let for_a = choose|request: Request|
        answerable(request) && #[trigger] hook_for(request) == a.at(0);
    let for_b = choose|request: Request|
        answerable(request) && #[trigger] hook_for(request) == b.at(0);
    assert(a.at(0).at(0) == a.at(0) && b.at(0).at(0) == b.at(0));
    match (for_a, for_b) {
        (Request::Instr(instr_a, tys_a), Request::Instr(instr_b, tys_b)) => {
            lemma_instr_names(instr_a, tys_a, instr_b, tys_b);
            if named_br_if(a.at(0)) {
                lemma_named_br_if(a.at(0));
            }
        },
        (Request::Instr(instr, tys), _) => {
            lemma_event_is_no_instr(instr, tys, for_b);
        },
        (_, Request::Instr(instr, tys)) => {
            lemma_event_is_no_instr(instr, tys, for_a);
        },
        _ => {
            event_names_fix_the_hook(for_a, for_b);
        },
    }
}

/// The hooks that are both named `br_if` are.
proof fn lemma_named_br_if(hook: HookView)
    requires
        named_br_if(hook),
    ensures
        hook.lowlevel_name() == "br_if"@,
{
    let tys = seq![ValType::I32, ValType::F32];
    reveal_strlit("br_if");
    reveal_strlit("br");
    assert(mangled("br_if"@, Seq::empty()) =~= "br_if"@);
    assert(letters(tys) =~= seq!['i', 'f']);
    assert(mangled("br"@, tys) =~= "br_if"@);
}

} // verus!
