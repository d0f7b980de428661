//! Why requests that come at the same time are answered as if they came one after the
//! other.
use vstd::prelude::*;
use vstd::set_lib::{lemma_int_range, lemma_len_subset, set_int_range};

use crate::generate::{hook_for, Request};
use crate::hook::HookView;
use crate::map::HookMap;
use crate::table::{lemma_position, TableView};
use crate::wasm::Instr;

verus! {

/// The table with its first hooks only.
spec fn first_hooks(table: TableView, n: int) -> TableView {
    TableView { hooks: table.hooks.take(n), ..table }
}

/// The same table without hooks.
spec fn without_hooks(table: TableView) -> TableView {
    TableView { hooks: Seq::empty(), ..table }
}

/// Whether the hooks of a table were asked for first, each once, in their order.
spec fn enters(asked: Seq<HookView>, table: TableView) -> bool {
    &&& table.hooks.len() <= asked.len()
    &&& forall|i: int|
        0 <= i < table.hooks.len() ==> (#[trigger] asked[i]).at(0) == table.hooks[i].at(0)
}

/// In an ordered table each hook stands first under its name.
proof fn lemma_stands_first(table: TableView, i: int)
    requires
        table.ordered(),
        0 <= i < table.hooks.len(),
    ensures
        table.has(table.hooks[i].lowlevel_name()),
        table.position(table.hooks[i].lowlevel_name()) == i,
{
    assert(table.has_at(table.hooks[i].lowlevel_name(), i));
    lemma_position(table, table.hooks[i].lowlevel_name(), i);
}

/// A name that comes later in an ordered table is new among the hooks before.
proof fn lemma_new_before(table: TableView, n: int)
    requires
        table.ordered(),
        0 <= n < table.hooks.len(),
    ensures
        !first_hooks(table, n).has(table.hooks[n].lowlevel_name()),
{
    let name = table.hooks[n].lowlevel_name();
    let before = first_hooks(table, n);
    if before.has(name) {
        let i = before.position(name);
        assert(before.has_at(name, i));
        assert(before.hooks[i] == table.hooks[i]);
    }
}

/// Asking for the hooks of an ordered table one after the other builds the table.
proof fn lemma_building(table: TableView, asked: Seq<HookView>, n: int)
    requires
        table.ordered(),
        enters(asked, table),
        0 <= n <= table.hooks.len(),
    ensures
        without_hooks(table).with_all(asked.take(n)) == first_hooks(table, n),
    decreases n,
{
    if n == 0 {
        assert(table.hooks.take(0) =~= Seq::empty());
    } else {
        let k = n - 1;
        lemma_building(table, asked, k);
        lemma_new_before(table, k);
        assert(asked.take(n).drop_last() =~= asked.take(k));
        assert(asked.take(n).last() == asked[k]);
        assert(asked[k].at(0) == table.hooks[k].at(0));
        assert(asked[k].lowlevel_name() == asked[k].at(0).lowlevel_name());
        assert(table.hooks[k].lowlevel_name() == table.hooks[k].at(0).lowlevel_name());
        assert(table.hooks[k].idx == table.original_function_count + k);
        assert(asked[k].at(0).at(table.hooks[k].idx) == asked[k].at(table.hooks[k].idx));
        assert(table.hooks[k].at(0).at(table.hooks[k].idx) == table.hooks[k]);
        assert(first_hooks(table, k).with(asked[k]).hooks =~= table.hooks.take(n));
    }
}

/// Asking on for hooks whose names are there changes nothing.
proof fn lemma_built(table: TableView, asked: Seq<HookView>, n: int)
    requires
        table.ordered(),
        enters(asked, table),
        table.hooks.len() <= n <= asked.len(),
        forall|k: int|
            table.hooks.len() <= k < asked.len() ==> table.has(
                (#[trigger] asked[k]).lowlevel_name(),
            ),
    ensures
        without_hooks(table).with_all(asked.take(n)) == table,
    decreases n,
{
    if n == table.hooks.len() {
        lemma_building(table, asked, n);
        assert(table.hooks.take(n) =~= table.hooks);
    } else {
        lemma_built(table, asked, n - 1);
        assert(asked.take(n).drop_last() =~= asked.take(n - 1));
        assert(asked.take(n).last() == asked[n - 1]);
    }
}

/// The hooks that a map has in the end are those of a sequential run that asks for
/// them in the order of their indices, and every call that was handed out is the one
/// that this run gives for the request.
pub proof fn outcome_is_of_a_sequential_run(map: HookMap, request: Request, call: Instr)
    requires
        map.initial().hooks == Seq::<HookView>::empty(),
        map.initial().grows_to(map.outcome()),
        map.outcome().valid(),
        map.answers(request, call),
    ensures
        map.outcome() == map.initial().with_all(map.outcome().hooks),
        call.calls(map.outcome().index_for(hook_for(request).lowlevel_name())),
{
    let table = map.outcome();
    lemma_built(table, table.hooks, table.hooks.len() as int);
    assert(table.hooks.take(table.hooks.len() as int) =~= table.hooks);
    assert(without_hooks(table) == map.initial());
}

/// Whether an order of all requests explains what a map gave: asked for in this
/// order, one after the other, they give each request the call that it got, and
/// leave the hooks that the map has in the end.
pub open spec fn explains(
    order: Seq<int>,
    map: HookMap,
    requests: Seq<Request>,
    calls: Seq<Instr>,
) -> bool {
    let asked = order.map_values(|j: int| hook_for(requests[j]));
    &&& order.len() == requests.len()
    &&& order.no_duplicates()
    &&& forall|k: int| 0 <= k < order.len() ==> 0 <= #[trigger] order[k] < requests.len()
    &&& map.outcome() == map.initial().with_all(asked)
    &&& forall|k: int|
        0 <= k < order.len() ==> calls[#[trigger] order[k]].calls(
            map.initial().with_all(asked.take(k)).index_for(asked[k].lowlevel_name()),
        )
}

/// Numbers below a bound, none of them twice, are at most as many as the bound, and
/// can be followed by those that are missing.
proof fn lemma_completed(first: Seq<int>, n: nat) -> (order: Seq<int>)
    requires
        first.no_duplicates(),
        forall|k: int| 0 <= k < first.len() ==> 0 <= #[trigger] first[k] < n,
    ensures
        first.is_prefix_of(order),
        order.len() == n,
        order.no_duplicates(),
        forall|k: int| 0 <= k < order.len() ==> 0 <= #[trigger] order[k] < n,
    decreases n - first.len(),
{
    let all = set_int_range(0, n as int);
    lemma_int_range(0, n as int);
    first.unique_seq_to_set();
    assert(first.to_set().subset_of(all));
    lemma_len_subset(first.to_set(), all);
    if first.len() == n {
        first
    } else {
        if forall|j: int| 0 <= j < n ==> first.contains(j) {
            assert(all.subset_of(first.to_set()));
            lemma_len_subset(all, first.to_set());
        }
        let j = choose|j: int| 0 <= j < n && !first.contains(j);
        let longer = first.push(j);
        assert(longer.no_duplicates());
        let order = lemma_completed(longer, n);
        assert(first.is_prefix_of(order)) by {
            assert(first =~= order.take(first.len() as int));
        }
        order
    }
}

/// Whether a hook is that of one of the requests.
pub open spec fn asked_for(requests: Seq<Request>, hook: HookView) -> bool {
    exists|j: int| 0 <= j < requests.len() && hook_for(#[trigger] requests[j]) == hook.at(0)
}

/// The requests that enter the hooks of a table, in the order of the indices.
proof fn lemma_entering(table: TableView, requests: Seq<Request>) -> (first: Seq<int>)
    requires
        table.ordered(),
        forall|i: int|
            0 <= i < table.hooks.len() ==> asked_for(requests, #[trigger] table.hooks[i]),
    ensures
        first.len() == table.hooks.len(),
        first.no_duplicates(),
        forall|i: int|
            0 <= i < first.len() ==> 0 <= #[trigger] first[i] < requests.len() && hook_for(
                requests[first[i]],
            ) == table.hooks[i].at(0),
{
    let first = Seq::new(
        table.hooks.len(),
        |i: int|
            choose|j: int|
                0 <= j < requests.len() && hook_for(#[trigger] requests[j]) == table.hooks[i].at(0),
    );
    assert forall|i: int| 0 <= i < first.len() implies 0 <= #[trigger] first[i] < requests.len()
        && hook_for(requests[first[i]]) == table.hooks[i].at(0) by {
        assert(asked_for(requests, table.hooks[i]));
    }
    assert forall|i: int, k: int| 0 <= i < k < first.len() implies first[i] != first[k] by {
        assert(table.hooks[i].lowlevel_name() == table.hooks[i].at(0).lowlevel_name());
        assert(table.hooks[k].lowlevel_name() == table.hooks[k].at(0).lowlevel_name());
    }
    first
}

/// Requests on a shared map, by however many threads, have the results and leave the
/// hooks of some sequential order of them: given all requests and the calls that they
/// got, there is an order that explains them. That no request is left out means that
/// each hook of the outcome was asked for by one of them.
pub proof fn requests_have_a_sequential_order(
    map: HookMap,
    requests: Seq<Request>,
    calls: Seq<Instr>,
)
    requires
        map.initial().hooks == Seq::<HookView>::empty(),
        map.initial().grows_to(map.outcome()),
        map.outcome().valid(),
        calls.len() == requests.len(),
        forall|j: int|
            0 <= j < requests.len() ==> map.answers(#[trigger] requests[j], calls[j]),
        forall|i: int|
            0 <= i < map.outcome().hooks.len() ==> asked_for(
                requests,
                #[trigger] map.outcome().hooks[i],
            ),
    ensures
        exists|order: Seq<int>| #[trigger] explains(order, map, requests, calls),
{
    let table = map.outcome();
    let n = table.hooks.len() as int;
    assert(without_hooks(table) == map.initial());

    let first = lemma_entering(table, requests);
    let order = lemma_completed(first, requests.len());
    let asked = order.map_values(|j: int| hook_for(requests[j]));
    assert forall|i: int| 0 <= i < n implies (#[trigger] asked[i]).at(0) == table.hooks[i].at(0) by {
        assert(order[i] == first[i]);
        assert(asked[i] == table.hooks[i].at(0));
    }
    assert(n <= order.len());
    assert(enters(asked, table));
    assert forall|k: int| 0 <= k < asked.len() implies table.has(
        (#[trigger] asked[k]).lowlevel_name(),
    ) && calls[order[k]].calls(table.index_for(asked[k].lowlevel_name())) by {
        assert(map.answers(requests[order[k]], calls[order[k]]));
    }
    lemma_built(table, asked, asked.len() as int);
    assert(asked.take(asked.len() as int) =~= asked);
    assert forall|k: int| 0 <= k < order.len() implies calls[#[trigger] order[k]].calls(
        map.initial().with_all(asked.take(k)).index_for(asked[k].lowlevel_name()),
    ) by {
        assert(calls[order[k]].calls(table.index_for(asked[k].lowlevel_name())));
        if k < n {
            lemma_building(table, asked, k);
            lemma_new_before(table, k);
            lemma_stands_first(table, k);
            assert(asked[k].lowlevel_name() == asked[k].at(0).lowlevel_name());
            assert(table.hooks[k].lowlevel_name() == table.hooks[k].at(0).lowlevel_name());
        } else {
            lemma_built(table, asked, k);
        }
    }
    assert(explains(order, map, requests, calls));
}

} // verus!
