//! Why the parameters of a low-level JavaScript function do not clash.
use vstd::prelude::*;

use crate::generate::{answerable, arg, numbered, operation_args, parts_for, Request};
use crate::hook::{lowlevel_names, ArgView};
use crate::text::{decimal, lemma_decimal_injective, lemma_decimal_last};
use crate::wasm::{InstrKind, ValType};

verus! {

/// The names of all parameters of the low-level JavaScript function of a request.
pub open spec fn parameter_names(request: Request) -> Seq<Seq<char>> {
    seq!["func"@, "instr"@] + lowlevel_names(parts_for(request).args)
}

/// Whether a name ends in a character that neither half of an `i64` ends in.
spec fn whole(name: Seq<char>) -> bool {
    name.len() > 0 && name.last() != 'w' && name.last() != 'h'
}

/// Whether the arguments have whole names, no two of them the same.
spec fn tidy(args: Seq<ArgView>) -> bool {
    &&& forall|i: int| 0 <= i < args.len() ==> whole((#[trigger] args[i]).name)
    &&& forall|i: int, k: int|
        0 <= i < k < args.len() ==> (#[trigger] args[i]).name != (#[trigger] args[k]).name
}

/// Tidy arguments in front of tidy arguments with other names are tidy.
proof fn lemma_tidy_append(a: Seq<ArgView>, b: Seq<ArgView>)
    requires
        tidy(a),
        tidy(b),
        forall|i: int, k: int|
            0 <= i < a.len() && 0 <= k < b.len() ==> (#[trigger] a[i]).name != (
            #[trigger] b[k]).name,
    ensures
        tidy(a + b),
{
    let all = a + b;
    assert forall|i: int| 0 <= i < all.len() implies whole((#[trigger] all[i]).name) by {
        if i < a.len() {
            assert(all[i] == a[i]);
        } else {
            assert(all[i] == b[i - a.len()]);
        }
    }
    assert forall|i: int, k: int| 0 <= i < k < all.len() implies (#[trigger] all[i]).name != (
    #[trigger] all[k]).name by {
        if k < a.len() {
            assert(all[i] == a[i] && all[k] == a[k]);
        } else if i < a.len() {
            assert(all[i] == a[i] && all[k] == b[k - a.len()]);
        } else {
            assert(all[i] == b[i - a.len()] && all[k] == b[k - a.len()]);
        }
    }
}

/// A numbered name starts as its prefix does and ends in a digit.
proof fn lemma_numbered_name(prefix: Seq<char>, tys: Seq<ValType>, i: int)
    requires
        prefix.len() > 0,
        0 <= i < tys.len(),
    ensures
        numbered(prefix, tys)[i].name == prefix + decimal(i as nat),
        numbered(prefix, tys)[i].name[0] == prefix[0],
        whole(numbered(prefix, tys)[i].name),
        '0' <= numbered(prefix, tys)[i].name.last() <= '9',
{
    lemma_decimal_last(i as nat);
    let name = numbered(prefix, tys)[i].name;
    assert(name.last() == decimal(i as nat).last());
}

/// Numbered arguments are tidy.
proof fn lemma_numbered_tidy(prefix: Seq<char>, tys: Seq<ValType>)
    requires
        prefix.len() > 0,
    ensures
        tidy(numbered(prefix, tys)),
{
    let args = numbered(prefix, tys);
    assert forall|i: int| 0 <= i < args.len() implies whole((#[trigger] args[i]).name) by {
        lemma_numbered_name(prefix, tys, i);
    }
    assert forall|i: int, k: int| 0 <= i < k < args.len() implies (#[trigger] args[i]).name != (
    #[trigger] args[k]).name by {
        lemma_numbered_name(prefix, tys, i);
        lemma_numbered_name(prefix, tys, k);
        if args[i].name == args[k].name {
            let n = prefix.len() as int;
            assert(args[i].name.skip(n) =~= decimal(i as nat));
            assert(args[k].name.skip(n) =~= decimal(k as nat));
            lemma_decimal_injective(i as nat, k as nat);
        }
    }
}

/// Parameters of different arguments have different names.
proof fn lemma_names_of_two(a: ArgView, b: ArgView)
    requires
        whole(a.name),
        whole(b.name),
        a.name != b.name,
    ensures
        forall|i: int, k: int|
            0 <= i < a.lowlevel_names().len() && 0 <= k < b.lowlevel_names().len() ==> (
            #[trigger] a.lowlevel_names()[i]) != (#[trigger] b.lowlevel_names()[k]),
{
    lemma_halves(a.name);
    lemma_halves(b.name);
    reveal_strlit("_low");
    reveal_strlit("_high");
    if a.name + "_low"@ == b.name + "_low"@ {
        assert((a.name + "_low"@).take(a.name.len() as int) =~= a.name);
        assert((b.name + "_low"@).take(b.name.len() as int) =~= b.name);
    }
    if a.name + "_high"@ == b.name + "_high"@ {
        assert((a.name + "_high"@).take(a.name.len() as int) =~= a.name);
        assert((b.name + "_high"@).take(b.name.len() as int) =~= b.name);
    }
}

/// The halves of an `i64` end in their own characters.
proof fn lemma_halves(name: Seq<char>)
    ensures
        (name + "_low"@).last() == 'w',
        (name + "_high"@).last() == 'h',
{
    reveal_strlit("_low");
    reveal_strlit("_high");
    assert("_low"@[3] == 'w');
    assert("_high"@[4] == 'h');
    assert((name + "_low"@).last() == "_low"@[3]);
    assert((name + "_high"@).last() == "_high"@[4]);
}

/// Every parameter belongs to an argument.
proof fn lemma_name_has_arg(args: Seq<ArgView>, i: int) -> (origin: (int, int))
    requires
        0 <= i < lowlevel_names(args).len(),
    ensures
        0 <= origin.0 < args.len(),
        0 <= origin.1 < args[origin.0].lowlevel_names().len(),
        lowlevel_names(args)[i] == args[origin.0].lowlevel_names()[origin.1],
    decreases args.len(),
{
    let rest = args.drop_last();
    let n = lowlevel_names(rest).len() as int;
    if i < n {
        let origin = lemma_name_has_arg(rest, i);
        assert(args[origin.0] == rest[origin.0]);
        origin
    } else {
        (args.len() - 1, i - n)
    }
}

/// Tidy arguments give parameters with different names.
proof fn lemma_tidy_names(args: Seq<ArgView>)
    requires
        tidy(args),
    ensures
        lowlevel_names(args).no_duplicates(),
    decreases args.len(),
{
    if args.len() > 0 {
        let rest = args.drop_last();
        let last = args.last();
        let names = lowlevel_names(args);
        let n = lowlevel_names(rest).len() as int;
        assert forall|i: int| 0 <= i < rest.len() implies #[trigger] rest[i] == args[i] by {}
        lemma_tidy_names(rest);
        lemma_halves(last.name);
        assert forall|i: int, k: int| 0 <= i < k < names.len() implies names[i] != names[k] by {
            if k < n {
                assert(names[i] == lowlevel_names(rest)[i] && names[k] == lowlevel_names(rest)[k]);
            } else if i < n {
                let origin = lemma_name_has_arg(rest, i);
                assert(rest[origin.0] == args[origin.0]);
                lemma_names_of_two(rest[origin.0], last);
                assert(names[i] == rest[origin.0].lowlevel_names()[origin.1]);
                assert(names[k] == last.lowlevel_names()[k - n]);
            } else {
                assert(names[i] == last.lowlevel_names()[i - n]);
                assert(names[k] == last.lowlevel_names()[k - n]);
            }
        }
    }
}

/// The location, and then the arguments.
spec fn located(args: Seq<ArgView>) -> Seq<ArgView> {
    seq![arg("func"@, ValType::I32), arg("instr"@, ValType::I32)] + args
}

/// The location takes one parameter for each of its parts.
proof fn lemma_located_names(args: Seq<ArgView>)
    ensures
        lowlevel_names(located(args)) == seq!["func"@, "instr"@] + lowlevel_names(args),
    decreases args.len(),
{
    let all = located(args);
    if args.len() == 0 {
        let one = all.drop_last();
        assert(lowlevel_names(one.drop_last()) =~= Seq::empty());
        assert(one.last() == arg("func"@, ValType::I32));
        assert(all.last() == arg("instr"@, ValType::I32));
        assert(lowlevel_names(one) =~= seq!["func"@]);
        assert(lowlevel_names(all) =~= seq!["func"@, "instr"@]);
    } else {
        assert(all.drop_last() =~= located(args.drop_last()));
        lemma_located_names(args.drop_last());
    }
    assert(lowlevel_names(all) =~= seq!["func"@, "instr"@] + lowlevel_names(args));
}

/// How the fixed parameter names begin and end, and how long they are.
proof fn lemma_words()
    ensures
        "func"@.len() == 4 && "func"@[0] == 'f' && "func"@.last() == 'c',
        "instr"@.len() == 5 && "instr"@[0] == 'i' && "instr"@.last() == 'r',
        "condition"@.len() == 9 && "condition"@[0] == 'c' && "condition"@.last() == 'n',
        "targetLabel"@.len() == 11 && "targetLabel"@[0] == 't' && "targetLabel"@.last() == 'l',
        "targetInstr"@.len() == 11 && "targetInstr"@[0] == 't' && "targetInstr"@.last() == 'r',
        "tableIdx"@.len() == 8 && "tableIdx"@[0] == 't' && "tableIdx"@.last() == 'x',
        "brTablesInfoIdx"@.len() == 15 && "brTablesInfoIdx"@[0] == 'b' && "brTablesInfoIdx"@.last() == 'x',
        "currentSizePages"@.len() == 16 && "currentSizePages"@[0] == 'c' && "currentSizePages"@.last() == 's',
        "deltaPages"@.len() == 10 && "deltaPages"@[0] == 'd' && "deltaPages"@.last() == 's',
        "previousSizePages"@.len() == 17 && "previousSizePages"@[0] == 'p' && "previousSizePages"@.last() == 's',
        "offset"@.len() == 6 && "offset"@[0] == 'o' && "offset"@.last() == 't',
        "align"@.len() == 5 && "align"@[0] == 'a' && "align"@.last() == 'n',
        "addr"@.len() == 4 && "addr"@[0] == 'a' && "addr"@.last() == 'r',
        "value"@.len() == 5 && "value"@[0] == 'v' && "value"@.last() == 'e',
        "index"@.len() == 5 && "index"@[0] == 'i' && "index"@.last() == 'x',
        "targetFunc"@.len() == 10 && "targetFunc"@[0] == 't' && "targetFunc"@.last() == 'c',
        "tableIndex"@.len() == 10 && "tableIndex"@[0] == 't' && "tableIndex"@.last() == 'x',
        "beginInstr"@.len() == 10 && "beginInstr"@[0] == 'b' && "beginInstr"@.last() == 'r',
        "ifInstr"@.len() == 7 && "ifInstr"@[0] == 'i' && "ifInstr"@.last() == 'r',
        "elseInstr"@.len() == 9 && "elseInstr"@[0] == 'e' && "elseInstr"@.last() == 'r',
{
    reveal_strlit("func");
    reveal_strlit("instr");
    reveal_strlit("condition");
    reveal_strlit("targetLabel");
    reveal_strlit("targetInstr");
    reveal_strlit("tableIdx");
    reveal_strlit("brTablesInfoIdx");
    reveal_strlit("currentSizePages");
    reveal_strlit("deltaPages");
    reveal_strlit("previousSizePages");
    reveal_strlit("offset");
    reveal_strlit("align");
    reveal_strlit("addr");
    reveal_strlit("value");
    reveal_strlit("index");
    reveal_strlit("targetFunc");
    reveal_strlit("tableIndex");
    reveal_strlit("beginInstr");
    reveal_strlit("ifInstr");
    reveal_strlit("elseInstr");
}

/// A numbered name is neither part of the location nor one of the arguments that
/// stand before numbered ones.
proof fn lemma_numbered_behind(first: Seq<ArgView>, prefix: Seq<char>, tys: Seq<ValType>)
    requires
        tidy(first),
        forall|i: int|
            0 <= i < first.len() ==> !('0' <= (#[trigger] first[i]).name.last() <= '9'),
        prefix.len() > 0,
    ensures
        tidy(first + numbered(prefix, tys)),
{
    lemma_numbered_tidy(prefix, tys);
    assert forall|i: int, k: int| 0 <= i < first.len() && 0 <= k < tys.len() implies (
    #[trigger] first[i]).name != (#[trigger] numbered(prefix, tys)[k]).name by {
        lemma_numbered_name(prefix, tys, k);
    }
    lemma_tidy_append(first, numbered(prefix, tys));
}

/// The arguments of the hook of an operation are tidy behind the location.
proof fn lemma_operation_tidy(inputs: Seq<ValType>, results: Seq<ValType>)
    ensures
        tidy(located(operation_args(inputs, results))),
{
    lemma_words();
    reveal_strlit("input");
    reveal_strlit("result");
    let front = located(numbered("input"@, inputs));
    assert(located(Seq::empty()) =~= seq![arg("func"@, ValType::I32), arg("instr"@, ValType::I32)]);
    lemma_numbered_behind(located(Seq::empty()), "input"@, inputs);
    assert(located(Seq::empty()) + numbered("input"@, inputs) =~= front);
    lemma_numbered_tidy("result"@, results);
    assert forall|i: int, k: int| 0 <= i < front.len() && 0 <= k < results.len() implies (
    #[trigger] front[i]).name != (#[trigger] numbered("result"@, results)[k]).name by {
        lemma_numbered_name("result"@, results, k);
        if i >= 2 {
            lemma_numbered_name("input"@, inputs, i - 2);
            assert(front[i] == numbered("input"@, inputs)[i - 2]);
        }
    }
    lemma_tidy_append(front, numbered("result"@, results));
    assert(front + numbered("result"@, results) =~= located(operation_args(inputs, results)));
}

/// The arguments of a hook with numbered arguments behind one word are tidy behind
/// the location.
proof fn lemma_word_and_numbered_tidy(word: Seq<char>, prefix: Seq<char>, tys: Seq<ValType>)
    requires
        whole(word),
        word.len() > 5,
        !('0' <= word.last() <= '9'),
        prefix.len() > 0,
    ensures
        tidy(located(seq![arg(word, ValType::I32)] + numbered(prefix, tys))),
{
    lemma_words();
    let front = located(seq![arg(word, ValType::I32)]);
    lemma_numbered_behind(front, prefix, tys);
    assert(front + numbered(prefix, tys) =~= located(
        seq![arg(word, ValType::I32)] + numbered(prefix, tys),
    ));
}

/// The arguments of the hook of every request are tidy behind the location.
proof fn lemma_request_tidy(request: Request)
    requires
        answerable(request),
    ensures
        tidy(located(parts_for(request).args)),
{
    lemma_words();
    reveal_strlit("result");
    reveal_strlit("arg");
    reveal_strlit("input");
    match request {
        Request::Instr(instr, tys) => match instr.kind {
            InstrKind::Unary(op) | InstrKind::Binary(op) => {
                lemma_operation_tidy(op.inputs@, op.results@);
            },
            InstrKind::Select => {
                lemma_word_and_numbered_tidy("condition"@, "input"@, tys);
            },
            InstrKind::Call(_) => {
                lemma_word_and_numbered_tidy("targetFunc"@, "arg"@, tys);
            },
            InstrKind::CallIndirect => {
                lemma_word_and_numbered_tidy("tableIndex"@, "arg"@, tys);
            },
            InstrKind::Return => {
                lemma_numbered_behind(located(Seq::empty()), "result"@, tys);
                assert(located(Seq::empty()) + numbered("result"@, tys) =~= located(
                    numbered("result"@, tys),
                ));
            },
            _ => {},
        },
        Request::CallPost(tys) => {
            lemma_numbered_behind(located(Seq::empty()), "result"@, tys);
            assert(located(Seq::empty()) + numbered("result"@, tys) =~= located(
                numbered("result"@, tys),
            ));
        },
        _ => {},
    }
}

/// No two parameters of a low-level JavaScript function have the same name.
pub proof fn parameters_have_their_own_names(request: Request)
    requires
        answerable(request),
    ensures
        parameter_names(request).no_duplicates(),
{
    lemma_request_tidy(request);
    lemma_tidy_names(located(parts_for(request).args));
    lemma_located_names(parts_for(request).args);
}

} // verus!
