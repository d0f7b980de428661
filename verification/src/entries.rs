//! What a table of hooks holds, entry by entry.
//!
//! The laws here speak of the fields of tables, hooks and instructions alone.
use vstd::prelude::*;

use crate::generate::{answerable, generated, hook_for, named_br_if, stands_for, Request};
use crate::hook::{views, Arg, Hook, HookView};
use crate::map::HookMap;
use crate::table::{hook_views, lemma_has, TableView};
use crate::text::texts;
use crate::wasm::{Function, Instr};

verus! {

/// A view shows every field as it is, and the views of a list are those of its
/// elements, in order.
pub proof fn views_show_every_field(
    args: Seq<Arg>,
    function: Function,
    hooks: Seq<Hook>,
    strings: Seq<String>,
)
    ensures
        views(args).len() == args.len(),
        forall|i: int|
            0 <= i < args.len() ==> (#[trigger] views(args)[i]).name == args[i].name@ && views(
                args,
            )[i].ty == args[i].ty,
        function@.type_.inputs == function.type_.inputs@,
        function@.type_.results == function.type_.results@,
        function@.import_module == function.import_module@,
        function@.import_name == function.import_name@,
        hook_views(hooks).len() == hooks.len(),
        forall|i: int|
            0 <= i < hooks.len() ==> {
                &&& (#[trigger] hook_views(hooks)[i]).idx == hooks[i].idx
                &&& hook_views(hooks)[i].wasm == hooks[i].wasm@
                &&& hook_views(hooks)[i].js == hooks[i].js@
            },
        texts(strings).len() == strings.len(),
        forall|i: int| 0 <= i < strings.len() ==> #[trigger] texts(strings)[i] == strings[i]@,
{
}

/// A hook at another index is the same hook: it has this index, and its import and its
/// JavaScript stay. It is known by the name of its import.
pub proof fn moving_keeps_import_and_text(hook: HookView, idx: usize)
    ensures
        hook.at(idx).idx == idx,
        hook.at(idx).wasm == hook.wasm,
        hook.at(idx).js == hook.js,
        hook.lowlevel_name() == hook.wasm.import_name,
{
}

/// A direct call of a function is the instruction `call` with the index of the
/// function, and no two indices have the same.
pub proof fn calls_name_one_function(call: Instr, idx: int)
    ensures
        call.calls(idx) <==> call.name@ == "call"@ && call.kind is Call && call.kind->Call_0
            == idx,
{
}

/// A table has a name exactly if one of its hooks is imported under it. Then the index
/// for the name is that of the first such hook, and otherwise the one behind all.
pub proof fn names_are_found_first(table: TableView, name: Seq<char>)
    ensures
        table.has(name) <==> exists|i: int|
            0 <= i < table.hooks.len() && (#[trigger] table.hooks[i]).wasm.import_name == name,
        table.has(name) ==> {
            let i = table.index_for(name) - table.original_function_count;
            &&& 0 <= i < table.hooks.len()
            &&& table.hooks[i].wasm.import_name == name
            &&& table.get(name) == table.hooks[i]
            &&& table.position(name) == i
            &&& forall|k: int|
                0 <= k < i ==> (#[trigger] table.hooks[k]).wasm.import_name != name
        },
        !table.has(name) ==> table.index_for(name) == table.original_function_count
            + table.hooks.len(),
{
    if table.has(name) {
        let i = table.position(name);
        assert(table.has_at(name, i));
        assert(table.hooks[i].wasm.import_name == name);
        assert forall|k: int| 0 <= k < i implies (#[trigger] table.hooks[k]).wasm.import_name
            != name by {
            assert(table.hooks[k].lowlevel_name() != name);
        }
    }
    if exists|i: int|
        0 <= i < table.hooks.len() && (#[trigger] table.hooks[i]).wasm.import_name == name {
        let i = choose|i: int|
            0 <= i < table.hooks.len() && (#[trigger] table.hooks[i]).wasm.import_name == name;
        lemma_has(table, i);
    }
}

/// Asking leaves the hooks that are there where they are. If one of them is imported
/// under the name that is asked for, nothing else happens; otherwise one hook comes
/// behind them, with the import and the JavaScript of the one that was asked for, and
/// the first index that is free.
pub proof fn asking_enters_new_names_behind(table: TableView, hook: HookView)
    requires
        table.original_function_count + table.hooks.len() <= usize::MAX,
    ensures
        ({
            let after = table.with(hook);
            let n = table.hooks.len() as int;
            let known = exists|i: int|
                0 <= i < n && (#[trigger] table.hooks[i]).wasm.import_name
                    == hook.wasm.import_name;
            &&& after.original_function_count == table.original_function_count
            &&& forall|i: int|
                0 <= i < n ==> {
                    &&& (#[trigger] after.hooks[i]).idx == table.hooks[i].idx
                    &&& after.hooks[i].wasm == table.hooks[i].wasm
                    &&& after.hooks[i].js == table.hooks[i].js
                }
            &&& known ==> after.hooks.len() == n
            &&& !known ==> {
                &&& after.hooks.len() == n + 1
                &&& after.hooks[n].idx == table.original_function_count + n
                &&& after.hooks[n].wasm == hook.wasm
                &&& after.hooks[n].js == hook.js
            }
        }),
{
    names_are_found_first(table, hook.wasm.import_name);
}

/// Asking for one hook after the other is asking for the first ones and then for the
/// last; asking for none changes nothing.
pub proof fn asking_goes_one_by_one(table: TableView, hooks: Seq<HookView>, last: HookView)
    ensures
        table.with_all(Seq::empty()) == table,
        table.with_all(hooks.push(last)) == table.with_all(hooks).with(last),
{
    assert(hooks.push(last).drop_last() =~= hooks);
}

/// The order of a table: the index of each hook is that of its place, behind the
/// functions of the module, and no two hooks are imported under one name.
pub proof fn order_is_by_index_and_name(table: TableView)
    ensures
        table.ordered() <==> {
            &&& forall|i: int|
                0 <= i < table.hooks.len() ==> (#[trigger] table.hooks[i]).idx
                    == table.original_function_count + i
            &&& forall|i: int, k: int|
                0 <= i < table.hooks.len() && 0 <= k < table.hooks.len() && (
                #[trigger] table.hooks[i]).wasm.import_name == (
                #[trigger] table.hooks[k]).wasm.import_name ==> i == k
        },
        table.valid() ==> table.ordered(),
{
    if table.ordered() {
        assert forall|i: int, k: int|
            0 <= i < table.hooks.len() && 0 <= k < table.hooks.len() && (
            #[trigger] table.hooks[i]).wasm.import_name == (
            #[trigger] table.hooks[k]).wasm.import_name implies i == k by {
            if i < k {
                assert(table.hooks[i].lowlevel_name() != table.hooks[k].lowlevel_name());
            } else if k < i {
                assert(table.hooks[k].lowlevel_name() != table.hooks[i].lowlevel_name());
            }
        }
    }
}

/// A table grows to another exactly if all its hooks stand there at the same places,
/// behind the same number of functions.
pub proof fn growing_keeps_hooks_in_place(table: TableView, later: TableView)
    ensures
        table.grows_to(later) <==> {
            &&& table.original_function_count == later.original_function_count
            &&& table.hooks.len() <= later.hooks.len()
            &&& forall|i: int|
                0 <= i < table.hooks.len() ==> #[trigger] table.hooks[i] == later.hooks[i]
        },
{
    if table.grows_to(later) {
        assert forall|i: int| 0 <= i < table.hooks.len() implies #[trigger] table.hooks[i]
            == later.hooks[i] by {
            assert(later.hooks.take(table.hooks.len() as int)[i] == later.hooks[i]);
        }
    }
    if table.hooks.len() <= later.hooks.len() && (forall|i: int|
        0 <= i < table.hooks.len() ==> #[trigger] table.hooks[i] == later.hooks[i]) {
        assert(table.hooks =~= later.hooks.take(table.hooks.len() as int));
    }
}

/// In a table of requested hooks each hook has the import and the JavaScript of the
/// hook for some request that has an answer.
pub proof fn requested_hooks_answer_requests(table: TableView, i: int)
    requires
        table.valid(),
        0 <= i < table.hooks.len(),
    ensures
        exists|request: Request|
            {
                &&& answerable(request)
                &&& (#[trigger] hook_for(request)).wasm == table.hooks[i].wasm
                &&& hook_for(request).js == table.hooks[i].js
            },
{
    assert(generated(table.hooks[i]));
    let request = choose|request: Request|
        answerable(request) && #[trigger] hook_for(request) == table.hooks[i].at(0);
    assert(hook_for(request).wasm == table.hooks[i].wasm);
}

/// Every event can be asked for, and an instruction exactly if it has a hook for the
/// types.
pub proof fn events_can_always_be_asked_for(request: Request)
    ensures
        answerable(request) <==> (request matches Request::Instr(instr, tys) ==> instr.accepts(
            tys,
        )),
{
}

/// Every call that was handed out reaches, among the hooks that the map has in the
/// end, the one at the called index, and this hook has the import name that was asked
/// for. Unless this name is `br_if`, it has the import and the JavaScript of the hook
/// for the request.
pub proof fn calls_reach_the_requested_import_and_text(
    map: HookMap,
    request: Request,
    call: Instr,
)
    requires
        map.answers(request, call),
    ensures
        call.name@ == "call"@,
        call.kind is Call,
        ({
            let i = call.kind->Call_0 - map.outcome().original_function_count;
            let asked = hook_for(request);
            let used = map.outcome().hooks[i];
            &&& 0 <= i < map.outcome().hooks.len()
            &&& used.idx == call.kind->Call_0
            &&& used.wasm.import_name == asked.wasm.import_name
            &&& asked.wasm.import_name != "br_if"@ ==> used.wasm == asked.wasm && used.js
                == asked.js
        }),
{
    let table = map.outcome();
    let asked = hook_for(request);
    let name = asked.lowlevel_name();
    let used = table.get(name);
    assert(table.has_at(name, table.position(name)));
    assert(stands_for(used, asked));
    if used.at(0) != asked.at(0) {
        lemma_named_br_if_imports(asked.at(0));
    }
    assert(used.at(0).wasm == used.wasm && used.at(0).js == used.js);
    assert(asked.at(0).wasm == asked.wasm && asked.at(0).js == asked.js);
}

/// Both hooks that share a name are imported as `br_if`.
proof fn lemma_named_br_if_imports(hook: HookView)
    requires
        named_br_if(hook),
    ensures
        hook.wasm.import_name == "br_if"@,
{
    reveal_strlit("br_if");
    reveal_strlit("br");
    assert(hook.wasm.import_name =~= "br_if"@);
}

/// Which hook is used for another: one with the same import and JavaScript, wherever
/// it stands, and otherwise both are imported as `br_if`.
pub proof fn only_br_if_hooks_stand_in(used: HookView, asked: HookView)
    ensures
        used.wasm == asked.wasm && used.js == asked.js ==> stands_for(used, asked),
        stands_for(used, asked) ==> {
            ||| used.wasm == asked.wasm && used.js == asked.js
            ||| used.wasm.import_name == "br_if"@ && asked.wasm.import_name == "br_if"@
        },
{
    assert(used.at(0).wasm == used.wasm && used.at(0).js == used.js);
    assert(asked.at(0).wasm == asked.wasm && asked.at(0).js == asked.js);
    if named_br_if(used.at(0)) && named_br_if(asked.at(0)) {
        lemma_named_br_if_imports(used.at(0));
        lemma_named_br_if_imports(asked.at(0));
    }
}

} // verus!
