//! What holds of the library as a whole.
use vstd::prelude::*;

use crate::generate::{generated, hook_for, parts_for, stands_for, Request};
use crate::hook::{
    letters, lowered_types, lowlevel_names, mangled, param_list, ArgView, HookView,
};
use crate::map::HookMap;
use crate::table::{
    lemma_has, lemma_position, lemma_position_stays, lemma_with_generated, lemma_with_new,
    TableView,
};
use crate::text::{join, undotted};
use crate::wasm::{lowered, Instr, InstrKind, ValType};

verus! {

/// A mangled name holds no dot.
pub proof fn mangled_names_have_no_dot(name: Seq<char>, tys: Seq<ValType>)
    ensures
        !mangled(name, tys).contains('.'),
{
    let text = mangled(name, tys);
    let n = undotted(name).len() as int;
    assert forall|i: int| 0 <= i < text.len() implies text[i] != '.' by {
        if i < n {
            assert(text[i] == undotted(name)[i]);
        } else if i > n {
            assert(text[i] == letters(tys)[i - n - 1]);
            assert(text[i] == tys[i - n - 1].char_spec());
        }
    }
}

/// A hook is generated once: asking again under the same low-level name, even for
/// another hook, leaves the table as it is and gives the same function index.
pub proof fn hooks_are_reused(table: TableView, first: HookView, again: HookView)
    requires
        first.lowlevel_name() == again.lowlevel_name(),
    ensures
        table.with(first).with(again) == table.with(first),
        table.with(first).index_for(again.lowlevel_name()) == table.index_for(
            first.lowlevel_name(),
        ),
{
    if !table.has(first.lowlevel_name()) {
        lemma_with_new(table, first);
    }
}

/// Asking for a hook moves no hook that is there, whatever its name.
pub proof fn hooks_keep_their_index(table: TableView, hook: HookView, lowlevel_name: Seq<char>)
    requires
        table.has(lowlevel_name),
    ensures
        table.grows_to(table.with(hook)),
        table.with(hook).index_for(lowlevel_name) == table.index_for(lowlevel_name),
        table.with(hook).get(lowlevel_name) == table.get(lowlevel_name),
{
    assert(table.hooks.is_prefix_of(table.with(hook).hooks));
    lemma_position_stays(table, table.with(hook), lowlevel_name);
}

/// Different low-level names have different function indices, before and after they
/// are entered one after the other.
pub proof fn names_have_their_own_index(table: TableView, a: HookView, b: HookView)
    requires
        a.lowlevel_name() != b.lowlevel_name(),
    ensures
        table.with(a).index_for(a.lowlevel_name()) != table.with(a).index_for(b.lowlevel_name()),
{
    let after = table.with(a);
    let i = after.position(a.lowlevel_name());
    if !table.has(a.lowlevel_name()) {
        lemma_with_new(table, a);
    }
    assert(after.has_at(a.lowlevel_name(), i));
    if after.has(b.lowlevel_name()) {
        assert(after.has_at(b.lowlevel_name(), after.position(b.lowlevel_name())));
    }
}

/// Asking for any hook keeps the indices of a table consecutive and its names
/// distinct; asking for the hook of a request keeps every hook the answer to one.
pub proof fn asking_keeps_tables_valid(table: TableView, hook: HookView)
    requires
        table.ordered(),
        table.original_function_count + table.hooks.len() <= usize::MAX,
    ensures
        table.with(hook).ordered(),
        table.valid() && generated(hook) ==> table.with(hook).valid(),
{
    let name = hook.lowlevel_name();
    if !table.has(name) {
        let after = table.with(hook);
        let n = table.hooks.len() as int;
        assert(after.hooks[n].lowlevel_name() == name);
        assert forall|i: int| 0 <= i < n implies (#[trigger] after.hooks[i]) == table.hooks[i]
            && after.hooks[i].lowlevel_name() != name by {
            if table.hooks[i].lowlevel_name() == name {
                lemma_has(table, i);
            }
        }
    }
    if table.valid() && generated(hook) {
        lemma_with_generated(table, hook);
    }
}

/// In every table the order of insertion is the order of the function indices.
pub proof fn insertion_order_is_index_order(table: TableView, i: int, k: int)
    requires
        table.ordered(),
        0 <= i < table.hooks.len(),
        0 <= k < table.hooks.len(),
    ensures
        table.hooks[i].idx < table.hooks[k].idx <==> i < k,
{
}

/// After any series of requests for hooks, starting from an empty table, the table
/// holds for each low-level name that occurred the hook of the first request with
/// it, in the order of these first requests, and nothing else.
pub proof fn table_holds_first_requests(original_function_count: usize, asked: Seq<HookView>)
    requires
        original_function_count + asked.len() <= usize::MAX,
    ensures
        ({
            let empty = TableView { original_function_count, hooks: Seq::empty() };
            let requests = TableView { original_function_count, hooks: asked };
            let table = empty.with_all(asked);
            &&& table.original_function_count == original_function_count
            &&& table.hooks.len() <= asked.len()
            &&& forall|j: int|
                0 <= j < asked.len() ==> table.has((#[trigger] asked[j]).lowlevel_name())
            &&& forall|i: int|
                0 <= i < table.hooks.len() ==> {
                    let name = (#[trigger] table.hooks[i]).lowlevel_name();
                    &&& requests.has(name)
                    &&& table.hooks[i] == requests.get(name).at(
                        (original_function_count + i) as usize,
                    )
                }
            &&& forall|i: int, k: int|
                0 <= i < k < table.hooks.len() ==> requests.position(
                    (#[trigger] table.hooks[i]).lowlevel_name(),
                ) < requests.position((#[trigger] table.hooks[k]).lowlevel_name())
        }),
    decreases asked.len(),
{
    let empty = TableView { original_function_count, hooks: Seq::empty() };
    let requests = TableView { original_function_count, hooks: asked };
    let table = empty.with_all(asked);
    if asked.len() > 0 {
        let earlier = TableView { original_function_count, hooks: asked.drop_last() };
        let before = empty.with_all(asked.drop_last());
        let hook = asked.last();
        let name = hook.lowlevel_name();
        let last = asked.len() - 1;
        table_holds_first_requests(original_function_count, asked.drop_last());
        assert(asked.drop_last().is_prefix_of(asked));
        assert(before.hooks.is_prefix_of(table.hooks));
        // What came first among the earlier requests still does.
        assert forall|i: int| 0 <= i < before.hooks.len() implies {
            let entry = (#[trigger] before.hooks[i]).lowlevel_name();
            &&& requests.has(entry)
            &&& requests.position(entry) == earlier.position(entry)
            &&& requests.position(entry) < last
            &&& requests.get(entry) == earlier.get(entry)
        } by {
            let entry = before.hooks[i].lowlevel_name();
            lemma_position_stays(earlier, requests, entry);
            assert(earlier.has_at(entry, earlier.position(entry)));
        }
        if before.has(name) {
            assert forall|j: int| 0 <= j < asked.len() implies table.has(
                (#[trigger] asked[j]).lowlevel_name(),
            ) by {
                if j < last {
                    assert(asked[j] == asked.drop_last()[j]);
                }
            }
        } else {
            lemma_with_new(before, hook);
            assert forall|j: int| 0 <= j < last implies (#[trigger] asked[j]).lowlevel_name()
                != name by {
                assert(asked[j] == asked.drop_last()[j]);
            }
            assert(requests.has_at(name, last));
            lemma_position(requests, name, last);
            assert forall|j: int| 0 <= j < asked.len() implies table.has(
                (#[trigger] asked[j]).lowlevel_name(),
            ) by {
                if j < last {
                    assert(asked[j] == asked.drop_last()[j]);
                    lemma_position_stays(before, table, asked[j].lowlevel_name());
                }
            }
            assert forall|i: int| 0 <= i < table.hooks.len() implies {
                let entry = (#[trigger] table.hooks[i]).lowlevel_name();
                &&& requests.has(entry)
                &&& table.hooks[i] == requests.get(entry).at((original_function_count + i) as usize)
            } by {
                if i < before.hooks.len() {
                    assert(table.hooks[i] == before.hooks[i]);
                }
            }
            assert forall|i: int, k: int| 0 <= i < k < table.hooks.len() implies requests.position(
                (#[trigger] table.hooks[i]).lowlevel_name(),
            ) < requests.position((#[trigger] table.hooks[k]).lowlevel_name()) by {
                assert(table.hooks[i] == before.hooks[i]);
                if k < before.hooks.len() {
                    assert(table.hooks[k] == before.hooks[k]);
                }
            }
        }
    }
}

/// All requests for one low-level name, by whichever thread, are answered with the
/// same call, and requests for different names with different ones.
pub proof fn same_name_same_call(
    map: HookMap,
    a: Request,
    b: Request,
    call_a: Instr,
    call_b: Instr,
    idx_a: int,
    idx_b: int,
)
    requires
        map.answers(a, call_a),
        map.answers(b, call_b),
        call_a.calls(idx_a),
        call_b.calls(idx_b),
    ensures
        idx_a == idx_b <==> hook_for(a).lowlevel_name() == hook_for(b).lowlevel_name(),
{
    let table = map.outcome();
    let name_a = hook_for(a).lowlevel_name();
    let name_b = hook_for(b).lowlevel_name();
    assert(table.has_at(name_a, table.position(name_a)));
    assert(table.has_at(name_b, table.position(name_b)));
}

/// Every call that was handed out calls one of the hooks that `finish` returns: the
/// requested one, or the one that stands for it, which is in the returned list at the
/// called index, counted from behind the functions of the module.
pub proof fn calls_reach_finished_hooks(map: HookMap, request: Request, call: Instr, idx: int)
    requires
        map.answers(request, call),
        call.calls(idx),
    ensures
        ({
            let i = idx - map.outcome().original_function_count;
            &&& 0 <= i < map.outcome().hooks.len()
            &&& map.outcome().hooks[i].idx == idx
            &&& map.outcome().hooks[i].lowlevel_name() == hook_for(request).lowlevel_name()
            &&& stands_for(map.outcome().hooks[i], hook_for(request))
        }),
{
    let name = hook_for(request).lowlevel_name();
    assert(map.outcome().has_at(name, map.outcome().position(name)));
}

/// Low-level JavaScript functions fit their imports: behind the location the
/// parameter list names one parameter for each input of the import, and no input is
/// an `i64`, which JavaScript could not take.
pub proof fn parameters_fit_the_import(args: Seq<ArgView>)
    ensures
        param_list(args) == join(lowlevel_names(args), ", "@),
        lowlevel_names(args).len() == lowered_types(args).len(),
        !lowered_types(args).contains(ValType::I64),
    decreases args.len(),
{
    let param_names = args.map_values(|arg: ArgView| arg.lowlevel_param_name());
    if args.len() > 0 {
        let rest = args.drop_last();
        let arg = args.last();
        let rest_names = rest.map_values(|arg: ArgView| arg.lowlevel_param_name());
        parameters_fit_the_import(rest);
        lemma_names_are_many(rest);
        assert(param_names.drop_last() =~= rest_names);
        assert(param_names.last() == arg.lowlevel_param_name());
        let names = lowlevel_names(args);
        if arg.ty == ValType::I64 {
            let halves = lowlevel_names(rest).push(arg.name + "_low"@);
            reveal_strlit("_low, ");
            reveal_strlit("_low");
            reveal_strlit(", ");
            assert("_low, "@ =~= "_low"@ + ", "@);
            assert(names.drop_last() =~= halves);
            assert(halves.drop_last() =~= lowlevel_names(rest));
            let gap = if rest.len() == 0 {
                Seq::empty()
            } else {
                ", "@
            };
            assert(join(halves, ", "@) == param_list(rest) + gap + (arg.name + "_low"@));
            assert(join(names, ", "@) == join(halves, ", "@) + ", "@ + (arg.name + "_high"@));
            assert(param_list(args) == param_list(rest) + gap + arg.lowlevel_param_name());
            assert(arg.lowlevel_param_name() =~= (arg.name + "_low"@) + ", "@ + (arg.name
                + "_high"@));
            assert(param_list(args) =~= join(names, ", "@));
        } else {
            assert(names.drop_last() =~= lowlevel_names(rest));
        }
        assert forall|i: int| 0 <= i < lowered_types(args).len() implies lowered_types(args)[i]
            != ValType::I64 by {
            if i < lowered_types(rest).len() {
                assert(lowered_types(args)[i] == lowered_types(rest)[i]);
            } else {
                assert(lowered_types(args)[i] == lowered(arg.ty)[i - lowered_types(rest).len()]);
            }
        }
    }
}

/// There are parameters where there are arguments.
proof fn lemma_names_are_many(args: Seq<ArgView>)
    ensures
        lowlevel_names(args).len() >= args.len(),
        args.len() == 0 ==> lowlevel_names(args).len() == 0,
    decreases args.len(),
{
    if args.len() > 0 {
        lemma_names_are_many(args.drop_last());
    }
}

/// The import of every hook is one of the hooks module, takes the location in front
/// of the lowered arguments, and returns nothing.
pub proof fn imports_take_the_location_first(request: Request)
    ensures
        hook_for(request).wasm.import_module == "__wasabi_hooks"@,
        hook_for(request).wasm.type_.inputs == seq![ValType::I32, ValType::I32] + lowered_types(
            parts_for(request).args,
        ),
        hook_for(request).wasm.type_.results == Seq::<ValType>::empty(),
{
}

/// A monomorphic instruction fixes the types by itself: the arguments of its hook,
/// and what is forwarded of them, are the same whatever types are given. Without
/// types the hook is named as the instruction.
pub proof fn monomorphic_hooks_ignore_types(instr: Instr, a: Seq<ValType>, b: Seq<ValType>)
    requires
        instr.accepts(a),
        instr.accepts(b),
        !is_polymorphic(instr.kind),
    ensures
        parts_for(Request::Instr(instr, a)).args == parts_for(Request::Instr(instr, b)).args,
        parts_for(Request::Instr(instr, a)).js_args == parts_for(Request::Instr(instr, b)).js_args,
        a.len() == 0 ==> parts_for(Request::Instr(instr, a)).lowlevel_name == undotted(
            instr.name@,
        ),
{
}

/// Whether an instruction of some kind works on types that it does not fix.
pub open spec fn is_polymorphic(kind: InstrKind) -> bool {
    ||| kind is Drop
    ||| kind is Select
    ||| kind is Local
    ||| kind is Global
    ||| kind is Return
    ||| kind is Call
    ||| kind is CallIndirect
}

} // verus!
