//! What a hook delivers: which values the low-level JavaScript function receives from
//! WebAssembly, and what the high-level hook of the user is called with.
//!
//! The laws here speak of the text and the import of a hook alone. Values are given by
//! their names and types; what becomes of them is spelled out below, value by value.
use vstd::prelude::*;

use crate::generate::{arg, made_of, numbered, HookParts};
use crate::hook::{
    long_expr_list, lowered_types, lowlevel_names, mangled, new_hook, param_list, ArgView,
    HookView,
};
use crate::laws::parameters_fit_the_import;
use crate::text::{decimal, digit, join, undotted};
use crate::wasm::{lowered, ValType};

verus! {

/// Texts with a comma and a space between each two neighbours.
pub open spec fn comma(items: Seq<Seq<char>>) -> Seq<char>
    decreases items.len(),
{
    if items.len() == 0 {
        Seq::empty()
    } else if items.len() == 1 {
        items[0]
    } else {
        items[0] + ", "@ + comma(items.skip(1))
    }
}

/// The parameters in which values arrive: an `i64` arrives in two, its low half first,
/// every other value in one.
pub open spec fn received(names: Seq<Seq<char>>, tys: Seq<ValType>) -> Seq<Seq<char>>
    decreases tys.len(),
{
    if tys.len() == 0 {
        Seq::empty()
    } else if tys.last() == ValType::I64 {
        received(names, tys.drop_last()).push(names[tys.len() - 1] + "_low"@).push(
            names[tys.len() - 1] + "_high"@,
        )
    } else {
        received(names, tys.drop_last()).push(names[tys.len() - 1])
    }
}

/// The types in which values arrive.
pub open spec fn wire_types(tys: Seq<ValType>) -> Seq<ValType>
    decreases tys.len(),
{
    if tys.len() == 0 {
        Seq::empty()
    } else if tys.last() == ValType::I64 {
        wire_types(tys.drop_last()).push(ValType::I32).push(ValType::I32)
    } else {
        wire_types(tys.drop_last()).push(tys.last())
    }
}

/// The expression that hands a value on: an `i64` is made whole again from the two
/// parameters in which it arrived.
pub open spec fn handed_on(name: Seq<char>, ty: ValType) -> Seq<char> {
    if ty == ValType::I64 {
        "new Long("@ + name + "_low, "@ + name + "_high)"@
    } else {
        name
    }
}

/// The expressions that hand values on, one for each value, in the same order.
pub open spec fn each_handed_on(names: Seq<Seq<char>>, tys: Seq<ValType>) -> Seq<Seq<char>> {
    Seq::new(tys.len(), |i: int| handed_on(names[i], tys[i]))
}

/// A JavaScript array.
pub open spec fn array(items: Seq<Seq<char>>) -> Seq<char> {
    "["@ + comma(items) + "]"@
}

/// The number that a text of decimal digits stands for.
pub open spec fn value_of(text: Seq<char>) -> int
    decreases text.len(),
{
    if text.len() == 0 {
        0
    } else {
        10 * value_of(text.drop_last()) + (text.last() as int - '0' as int)
    }
}

/// Whether a text is a number in decimal, without leading zeros.
pub open spec fn is_numeral(text: Seq<char>, n: nat) -> bool {
    &&& text.len() > 0
    &&& forall|i: int| 0 <= i < text.len() ==> '0' <= #[trigger] text[i] <= '9'
    &&& text.len() > 1 ==> text[0] != '0'
    &&& value_of(text) == n
}

/// Whether names are a prefix and a running number from zero on.
pub open spec fn counted(names: Seq<Seq<char>>, prefix: Seq<char>, n: nat) -> bool {
    &&& names.len() == n
    &&& forall|i: int|
        0 <= i < n ==> {
            &&& (#[trigger] names[i]).len() > prefix.len()
            &&& names[i].take(prefix.len() as int) == prefix
            &&& is_numeral(names[i].skip(prefix.len() as int), i as nat)
        }
}

/// Whether a text is a name, with an underscore for each dot, and behind it, if there
/// are types, an underscore and one letter for each: `i` or `f`, in upper case for the
/// types of 64 bits.
pub open spec fn named_after(text: Seq<char>, name: Seq<char>, tys: Seq<ValType>) -> bool {
    let n = name.len() as int;
    &&& text.len() == n + if tys.len() == 0 {
        0
    } else {
        1 + tys.len()
    }
    &&& forall|i: int|
        0 <= i < n ==> #[trigger] text[i] == if name[i] == '.' {
            '_'
        } else {
            name[i]
        }
    &&& tys.len() > 0 ==> text[n] == '_'
    &&& forall|i: int|
        0 <= i < tys.len() ==> match #[trigger] tys[i] {
            ValType::I32 => text[n + 1 + i] == 'i',
            ValType::I64 => text[n + 1 + i] == 'I',
            ValType::F32 => text[n + 1 + i] == 'f',
            ValType::F64 => text[n + 1 + i] == 'F',
        }
}

/// Whether a hook receives values, behind the location, and calls a high-level hook
/// with the location and what it delivers. It is imported from the module of the hooks
/// under the name that its JavaScript has, and returns nothing.
pub open spec fn delivers(
    hook: HookView,
    names: Seq<Seq<char>>,
    tys: Seq<ValType>,
    highlevel: Seq<char>,
    delivered: Seq<char>,
) -> bool {
    &&& hook.js == "\""@ + hook.wasm.import_name + "\": function (func, instr, "@ + comma(
        received(names, tys),
    ) + ") {\n    Wasabi.analysis."@ + highlevel + "({func, instr}, "@ + delivered + ");\n},"@
    &&& hook.wasm.import_module == "__wasabi_hooks"@
    &&& hook.wasm.type_.inputs == seq![ValType::I32, ValType::I32] + wire_types(tys)
    &&& hook.wasm.type_.results == Seq::<ValType>::empty()
    &&& hook.idx == 0
}

/// Whether arguments have these names and types.
pub open spec fn described(args: Seq<ArgView>, names: Seq<Seq<char>>, tys: Seq<ValType>) -> bool {
    &&& args.len() == tys.len()
    &&& names.len() == tys.len()
    &&& forall|i: int| 0 <= i < tys.len() ==> #[trigger] args[i] == arg(names[i], tys[i])
}

/// Another text behind others.
proof fn lemma_comma_push(items: Seq<Seq<char>>, last: Seq<char>)
    ensures
        comma(items.push(last)) == if items.len() == 0 {
            last
        } else {
            comma(items) + ", "@ + last
        },
    decreases items.len(),
{
    if items.len() == 1 {
        assert(items.push(last).skip(1) =~= seq![last]);
        assert(comma(seq![last]) == last);
    } else if items.len() > 1 {
        assert(items.push(last).skip(1) =~= items.skip(1).push(last));
        lemma_comma_push(items.skip(1), last);
        assert(comma(items.push(last)) =~= comma(items) + ", "@ + last);
    }
}

/// Joined texts, read from the front: nothing is there for no text, one text is itself,
/// and a text in front of others is followed by the separator and the joined others.
pub proof fn joining_from_the_front(parts: Seq<Seq<char>>, separator: Seq<char>)
    ensures
        parts.len() == 0 ==> join(parts, separator) == Seq::<char>::empty(),
        parts.len() == 1 ==> join(parts, separator) == parts[0],
        parts.len() > 1 ==> join(parts, separator) == parts[0] + separator + join(
            parts.skip(1),
            separator,
        ),
    decreases parts.len(),
{
    if parts.len() == 1 {
        assert(join(parts.drop_last(), separator) =~= Seq::empty());
        assert(join(parts, separator) =~= parts[0]);
    } else if parts.len() > 1 {
        let front = parts.drop_last();
        let back = parts.skip(1);
        assert(back.drop_last() =~= front.skip(1));
        joining_from_the_front(front, separator);
        joining_from_the_front(back, separator);
        if parts.len() == 2 {
            assert(join(back, separator) == parts[1]);
            assert(join(parts, separator) =~= parts[0] + separator + parts[1]);
        } else {
            assert(join(back, separator) == join(front.skip(1), separator) + separator
                + parts.last());
            assert(join(parts, separator) =~= parts[0] + separator + join(back, separator));
        }
    }
}

/// What is joined by a comma and a space is a comma list.
proof fn lemma_join_is_comma(parts: Seq<Seq<char>>)
    ensures
        join(parts, ", "@) == comma(parts),
    decreases parts.len(),
{
    joining_from_the_front(parts, ", "@);
    if parts.len() > 1 {
        lemma_join_is_comma(parts.skip(1));
    }
}

/// The parameters, types and expressions of arguments are those of their values.
pub proof fn lemma_described(args: Seq<ArgView>, names: Seq<Seq<char>>, tys: Seq<ValType>)
    requires
        described(args, names, tys),
    ensures
        lowlevel_names(args) == received(names, tys),
        lowered_types(args) == wire_types(tys),
        param_list(args) == comma(received(names, tys)),
        long_expr_list(args) == comma(each_handed_on(names, tys)),
{
    lemma_described_parameters(args, names, tys);
    parameters_fit_the_import(args);
    lemma_join_is_comma(lowlevel_names(args));
    let exprs = args.map_values(|a: ArgView| a.lowlevel_long_expr());
    assert forall|i: int| 0 <= i < args.len() implies #[trigger] exprs[i] == each_handed_on(
        names,
        tys,
    )[i] by {
        assert(args[i] == arg(names[i], tys[i]));
        expressions_rebuild_values(args[i]);
    }
    assert(exprs =~= each_handed_on(names, tys));
    lemma_join_is_comma(exprs);
}

proof fn lemma_described_parameters(
    args: Seq<ArgView>,
    names: Seq<Seq<char>>,
    tys: Seq<ValType>,
)
    requires
        args.len() == tys.len(),
        names.len() >= tys.len(),
        forall|i: int| 0 <= i < tys.len() ==> #[trigger] args[i] == arg(names[i], tys[i]),
    ensures
        lowlevel_names(args) == received(names, tys),
        lowered_types(args) == wire_types(tys),
    decreases tys.len(),
{
    if tys.len() > 0 {
        lemma_described_parameters(args.drop_last(), names, tys.drop_last());
        assert(args.last() == arg(names[tys.len() - 1], tys.last()));
        assert(lowlevel_names(args) =~= received(names, tys));
        assert(lowered_types(args) =~= wire_types(tys));
    }
}

/// An argument is one parameter and hands itself on, but for an `i64`: its parameters
/// are its halves, and what is handed on is built of exactly these parameters.
pub proof fn expressions_rebuild_values(a: ArgView)
    ensures
        a.lowlevel_param_name() == comma(received(seq![a.name], seq![a.ty])),
        a.lowlevel_long_expr() == handed_on(a.name, a.ty),
        a.ty == ValType::I64 ==> a.lowlevel_long_expr() == "new Long("@ + comma(
            received(seq![a.name], seq![a.ty]),
        ) + ")"@,
        lowered(a.ty) == wire_types(seq![a.ty]),
{
    let none = seq![a.ty].drop_last();
    assert(received(seq![a.name], none) =~= Seq::empty());
    assert(wire_types(none) =~= Seq::empty());
    assert(lowered(a.ty) =~= wire_types(seq![a.ty]));
    if a.ty == ValType::I64 {
        let low = a.name + "_low"@;
        let high = a.name + "_high"@;
        reveal_strlit("_low, ");
        reveal_strlit("_low");
        reveal_strlit(", ");
        reveal_strlit("_high)");
        reveal_strlit("_high");
        reveal_strlit(")");
        assert("_low, "@ =~= "_low"@ + ", "@);
        assert("_high)"@ =~= "_high"@ + ")"@);
        assert(received(seq![a.name], seq![a.ty]) =~= seq![low, high]);
        lemma_comma_push(seq![low], high);
        assert(seq![low].push(high) =~= seq![low, high]);
        assert(comma(seq![low]) == low);
        assert(a.lowlevel_param_name() =~= low + ", "@ + high);
        assert(a.lowlevel_long_expr() =~= handed_on(a.name, a.ty));
    } else {
        assert(received(seq![a.name], seq![a.ty]) =~= seq![a.name]);
        assert(comma(seq![a.name]) == a.name);
    }
}

/// A hook delivers what it is made for, of all values that it receives.
pub proof fn new_hooks_deliver(
    lowlevel_name: Seq<char>,
    args: Seq<ArgView>,
    highlevel_name: Seq<char>,
    js_args: Seq<char>,
)
    ensures
        delivers(
            new_hook(lowlevel_name, args, highlevel_name, js_args),
            args.map_values(|a: ArgView| a.name),
            args.map_values(|a: ArgView| a.ty),
            highlevel_name,
            js_args,
        ),
        new_hook(lowlevel_name, args, highlevel_name, js_args).wasm.import_name == lowlevel_name,
{
    lemma_described(
        args,
        args.map_values(|a: ArgView| a.name),
        args.map_values(|a: ArgView| a.ty),
    );
}

/// Parts whose arguments are known deliver.
pub proof fn lemma_made(p: HookParts, names: Seq<Seq<char>>, tys: Seq<ValType>)
    requires
        described(p.args, names, tys),
    ensures
        delivers(made_of(p), names, tys, p.highlevel_name, p.js_args),
        made_of(p).wasm.import_name == p.lowlevel_name,
{
    new_hooks_deliver(p.lowlevel_name, p.args, p.highlevel_name, p.js_args);
    assert(p.args.map_values(|a: ArgView| a.name) =~= names);
    assert(p.args.map_values(|a: ArgView| a.ty) =~= tys);
}

/// A number in decimal reads back as the number, and has no leading zeros.
pub proof fn numbers_read_back(n: nat)
    ensures
        is_numeral(decimal(n), n),
    decreases n,
{
    let d = n % 10;
    assert(digit(d) as int == '0' as int + d);
    if n < 10 {
        assert(decimal(n).drop_last() =~= Seq::empty());
        assert(value_of(decimal(n).drop_last()) == 0);
    } else {
        numbers_read_back(n / 10);
        let text = decimal(n);
        assert(text.drop_last() =~= decimal(n / 10));
        assert(text[0] == decimal(n / 10)[0]);
        if n / 10 < 10 {
            assert(decimal(n / 10)[0] == digit(n / 10));
        } else {
            numbers_read_back(n / 10 / 10);
            assert(decimal(n / 10).len() > 1);
        }
        assert(text[0] != '0');
        assert(text.last() == digit(d));
        assert(value_of(text) == 10 * (n / 10) + d);
        assert forall|i: int| 0 <= i < text.len() implies '0' <= #[trigger] text[i] <= '9' by {
            if i < text.len() - 1 {
                assert(text[i] == decimal(n / 10)[i]);
            }
        }
    }
}

/// A number has one decimal numeral.
proof fn lemma_numeral_unique(text: Seq<char>, n: nat)
    requires
        is_numeral(text, n),
    ensures
        text == decimal(n),
    decreases text.len(),
{
    let front = text.drop_last();
    let d = text.last() as int - '0' as int;
    assert('0' <= text[text.len() - 1] <= '9');
    assert(0 <= d < 10);
    if text.len() == 1 {
        assert(value_of(front) == 0);
        assert(digit(n) as int == '0' as int + n);
        assert(text =~= decimal(n));
    } else {
        assert forall|i: int| 0 <= i < front.len() implies '0' <= #[trigger] front[i] <= '9' by {
            assert(front[i] == text[i]);
        }
        assert(front[0] == text[0]);
        lemma_value_positive(front);
        lemma_numeral_unique(front, value_of(front) as nat);
        assert(n == 10 * value_of(front) + d);
        assert(n / 10 == value_of(front) && n % 10 == d);
        assert(digit(n % 10) as int == '0' as int + d);
        assert(digit(n % 10) == text.last());
        assert(text =~= front.push(text.last()));
        assert(text =~= decimal(n));
    }
}

/// Digits that do not begin with a zero stand for a positive number.
proof fn lemma_value_positive(text: Seq<char>)
    requires
        text.len() > 0,
        forall|i: int| 0 <= i < text.len() ==> '0' <= #[trigger] text[i] <= '9',
        text[0] != '0',
    ensures
        value_of(text) > 0,
    decreases text.len(),
{
    let front = text.drop_last();
    assert('0' <= text[text.len() - 1] <= '9');
    if text.len() == 1 {
        assert(value_of(front) == 0);
    } else {
        assert forall|i: int| 0 <= i < front.len() implies '0' <= #[trigger] front[i] <= '9' by {
            assert(front[i] == text[i]);
        }
        assert(front[0] == text[0]);
        lemma_value_positive(front);
    }
}

/// Counted names are those of numbered arguments.
pub proof fn lemma_counted(names: Seq<Seq<char>>, prefix: Seq<char>, tys: Seq<ValType>)
    requires
        counted(names, prefix, tys.len()),
    ensures
        described(numbered(prefix, tys), names, tys),
{
    let args = numbered(prefix, tys);
    assert forall|i: int| 0 <= i < tys.len() implies #[trigger] args[i] == arg(names[i], tys[i]) by {
        let text = names[i].skip(prefix.len() as int);
        lemma_numeral_unique(text, i as nat);
        assert(names[i] =~= prefix + text);
    }
}

/// Numbered arguments are named by the prefix and a running number, and each has the
/// type of its place.
pub proof fn numbered_arguments_are_counted(prefix: Seq<char>, tys: Seq<ValType>)
    ensures
        counted(numbered(prefix, tys).map_values(|a: ArgView| a.name), prefix, tys.len()),
        numbered(prefix, tys).map_values(|a: ArgView| a.ty) == tys,
{
    let names = numbered(prefix, tys).map_values(|a: ArgView| a.name);
    assert forall|i: int| 0 <= i < tys.len() implies {
        &&& (#[trigger] names[i]).len() > prefix.len()
        &&& names[i].take(prefix.len() as int) == prefix
        &&& is_numeral(names[i].skip(prefix.len() as int), i as nat)
    } by {
        numbers_read_back(i as nat);
        assert(names[i] == prefix + decimal(i as nat));
        assert(names[i].take(prefix.len() as int) =~= prefix);
        assert(names[i].skip(prefix.len() as int) =~= decimal(i as nat));
    }
    assert(numbered(prefix, tys).map_values(|a: ArgView| a.ty) =~= tys);
}

/// The mangled name is the name and the letters of the types.
pub proof fn mangling_spells_name_and_types(name: Seq<char>, tys: Seq<ValType>)
    ensures
        named_after(mangled(name, tys), name, tys),
        named_after(undotted(name), name, Seq::empty()),
{
    let text = mangled(name, tys);
    let n = name.len() as int;
    assert(undotted(name).len() == n);
    assert forall|i: int| 0 <= i < n implies #[trigger] text[i] == if name[i] == '.' {
        '_'
    } else {
        name[i]
    } by {
        assert(text[i] == undotted(name)[i]);
    }
    assert forall|i: int| 0 <= i < tys.len() implies match #[trigger] tys[i] {
        ValType::I32 => text[n + 1 + i] == 'i',
        ValType::I64 => text[n + 1 + i] == 'I',
        ValType::F32 => text[n + 1 + i] == 'f',
        ValType::F64 => text[n + 1 + i] == 'F',
    } by {
        assert(text[n + 1 + i] == tys[i].char_spec());
    }
}

/// The letter of a type is the one that stands for it in mangled names.
pub proof fn letters_stand_for_types(ty: ValType)
    ensures
        named_after(seq!['_', ty.char_spec()], Seq::empty(), seq![ty]),
{
}

} // verus!
