//! The table of the hooks that were asked for so far.
use vstd::hash_map::StringHashMap;
use vstd::prelude::*;

use crate::generate::{answerable, generated, hook_for, stands_for, Request};
use crate::hook::{Hook, HookView};
use crate::hook_names::names_tell_hooks_apart;
use crate::wasm::Instr;

verus! {

/// Mathematical counterpart of [`HookTable`].
#[verifier::ext_equal]
pub struct TableView {
    /// The number of functions in the module before any hook is added to it.
    pub original_function_count: usize,
    /// The hooks in the order in which they were entered.
    pub hooks: Seq<HookView>,
}

/// The views of a list of hooks.
pub open spec fn hook_views(hooks: Seq<Hook>) -> Seq<HookView> {
    hooks.map_values(|hook: Hook| hook@)
}

impl TableView {
    /// Whether the first hook with a low-level name stands at a position.
    pub open spec fn has_at(self, lowlevel_name: Seq<char>, i: int) -> bool {
        &&& 0 <= i < self.hooks.len()
        &&& self.hooks[i].lowlevel_name() == lowlevel_name
        &&& forall|k: int|
            0 <= k < i ==> (#[trigger] self.hooks[k]).lowlevel_name() != lowlevel_name
    }

    /// Whether there is a hook with a low-level name.
    pub open spec fn has(self, lowlevel_name: Seq<char>) -> bool {
        exists|i: int| #[trigger] self.has_at(lowlevel_name, i)
    }

    /// The position of the hook with a low-level name.
    pub open spec fn position(self, lowlevel_name: Seq<char>) -> int
        recommends
            self.has(lowlevel_name),
    {
        choose|i: int| #[trigger] self.has_at(lowlevel_name, i)
    }

    /// The hook with a low-level name.
    pub open spec fn get(self, lowlevel_name: Seq<char>) -> HookView
        recommends
            self.has(lowlevel_name),
    {
        self.hooks[self.position(lowlevel_name)]
    }

    /// The function index of the hook with a low-level name: where it stands, or for
    /// a new name where the next hook will stand.
    pub open spec fn index_for(self, lowlevel_name: Seq<char>) -> int {
        self.original_function_count + if self.has(lowlevel_name) {
            self.position(lowlevel_name)
        } else {
            self.hooks.len() as int
        }
    }

    /// The table after a hook was asked for: a hook with a new low-level name is
    /// entered at the end, with the next free function index; for a name that is
    /// there already the table stays as it is.
    pub open spec fn with(self, hook: HookView) -> TableView {
        if self.has(hook.lowlevel_name()) {
            self
        } else {
            TableView {
                hooks: self.hooks.push(
                    hook.at(self.index_for(hook.lowlevel_name()) as usize),
                ),
                ..self
            }
        }
    }

    /// The table after hooks were asked for one after the other.
    pub open spec fn with_all(self, hooks: Seq<HookView>) -> TableView
        decreases hooks.len(),
    {
        if hooks.len() == 0 {
            self
        } else {
            self.with_all(hooks.drop_last()).with(hooks.last())
        }
    }

    /// Whether another table is this one, perhaps with further hooks behind.
    pub open spec fn grows_to(self, later: TableView) -> bool {
        &&& self.original_function_count == later.original_function_count
        &&& self.hooks.is_prefix_of(later.hooks)
    }

    /// Whether the hooks have the function indices that follow those of the module,
    /// in the order in which they were entered.
    pub open spec fn consecutive(self) -> bool {
        forall|i: int|
            0 <= i < self.hooks.len() ==> (#[trigger] self.hooks[i]).idx
                == self.original_function_count + i
    }

    /// Whether no two hooks have the same low-level name.
    pub open spec fn distinct(self) -> bool {
        forall|i: int, k: int|
            0 <= i < k < self.hooks.len() ==> (#[trigger] self.hooks[i]).lowlevel_name() != (
            #[trigger] self.hooks[k]).lowlevel_name()
    }

    /// Whether every hook is the answer to some request.
    pub open spec fn all_generated(self) -> bool {
        forall|i: int| 0 <= i < self.hooks.len() ==> generated(#[trigger] self.hooks[i])
    }

    /// What holds of every table.
    pub open spec fn ordered(self) -> bool {
        &&& self.consecutive()
        &&& self.distinct()
    }

    /// What holds of every table of hooks that were asked for by requests.
    pub open spec fn valid(self) -> bool {
        &&& self.ordered()
        &&& self.all_generated()
    }

    /// Whether an instruction calls a hook: the table holds the hook, or the one that
    /// stands for it, at the function index that its place gives it, and the
    /// instruction calls this index.
    pub open spec fn serves(self, hook: HookView, call: Instr) -> bool {
        let name = hook.lowlevel_name();
        let idx = self.original_function_count + self.position(name);
        &&& self.has(name)
        &&& self.get(name).idx == idx
        &&& stands_for(self.get(name), hook)
        &&& call.calls(idx)
    }
}

/// The first position of a name is the only one of its kind.
pub proof fn lemma_position(table: TableView, lowlevel_name: Seq<char>, i: int)
    requires
        table.has_at(lowlevel_name, i),
    ensures
        table.has(lowlevel_name),
        table.position(lowlevel_name) == i,
{
    let first = table.position(lowlevel_name);
    assert(table.has_at(lowlevel_name, first));
    if first < i {
        assert(table.hooks[first].lowlevel_name() != lowlevel_name);
    } else if i < first {
        assert(table.hooks[i].lowlevel_name() != lowlevel_name);
    }
}

/// A table that has a hook with some name at any position has a first one.
pub proof fn lemma_has(table: TableView, i: int)
    requires
        0 <= i < table.hooks.len(),
    ensures
        table.has(table.hooks[i].lowlevel_name()),
    decreases i,
{
    let name = table.hooks[i].lowlevel_name();
    if exists|k: int| 0 <= k < i && (#[trigger] table.hooks[k]).lowlevel_name() == name {
        let k = choose|k: int| 0 <= k < i && (#[trigger] table.hooks[k]).lowlevel_name() == name;
        lemma_has(table, k);
    } else {
        assert(table.has_at(name, i));
    }
}

/// A hook with a new name stands at the end of the table once it was asked for.
pub proof fn lemma_with_new(table: TableView, hook: HookView)
    requires
        !table.has(hook.lowlevel_name()),
    ensures
        table.with(hook).has(hook.lowlevel_name()),
        table.with(hook).position(hook.lowlevel_name()) == table.hooks.len(),
{
    let name = hook.lowlevel_name();
    let longer = table.with(hook);
    assert forall|k: int| 0 <= k < table.hooks.len() implies (
    #[trigger] longer.hooks[k]).lowlevel_name() != name by {
        assert(longer.hooks[k] == table.hooks[k]);
        if table.hooks[k].lowlevel_name() == name {
            lemma_has(table, k);
        }
    }
    assert(longer.has_at(name, table.hooks.len() as int));
    lemma_position(longer, name, table.hooks.len() as int);
}

/// Once a hook was asked for, its call is served.
pub proof fn lemma_with_serves(table: TableView, hook: HookView, call: Instr)
    requires
        table.valid(),
        generated(hook),
        call.calls(table.index_for(hook.lowlevel_name())),
    ensures
        table.with(hook).serves(hook, call),
{
    let name = hook.lowlevel_name();
    if table.has(name) {
        assert(table.has_at(name, table.position(name)));
        names_tell_hooks_apart(table.get(name), hook);
    } else {
        lemma_with_new(table, hook);
        assert(table.with(hook).get(name).at(0) == hook.at(0));
    }
}

/// A generated hook stays generated wherever it is entered.
pub proof fn lemma_generated_at(hook: HookView, idx: usize)
    requires
        generated(hook),
    ensures
        generated(hook.at(idx)),
{
    let request = choose|request: Request|
        answerable(request) && #[trigger] hook_for(request) == hook.at(0);
    assert(hook_for(request) == hook.at(idx).at(0));
}

/// A table that only holds answers to requests goes on to.
pub proof fn lemma_with_generated(table: TableView, hook: HookView)
    requires
        table.all_generated(),
        generated(hook),
    ensures
        table.with(hook).all_generated(),
{
    lemma_generated_at(hook, table.index_for(hook.lowlevel_name()) as usize);
}

/// A name keeps its position while a table grows.
pub proof fn lemma_position_stays(table: TableView, later: TableView, lowlevel_name: Seq<char>)
    requires
        table.grows_to(later),
        table.has(lowlevel_name),
    ensures
        later.has(lowlevel_name),
        later.position(lowlevel_name) == table.position(lowlevel_name),
        later.get(lowlevel_name) == table.get(lowlevel_name),
{
    let i = table.position(lowlevel_name);
    assert(table.has_at(lowlevel_name, i));
    assert(forall|k: int| 0 <= k <= i ==> #[trigger] later.hooks[k] == table.hooks[k]);
    assert(later.has_at(lowlevel_name, i));
    lemma_position(later, lowlevel_name, i);
}

/// `Vec::capacity` of std: the number of hooks that the vector has room for. It is
/// no less than the number that it holds. A vector allocates at most `isize::MAX`
/// bytes, and a hook takes more than one byte, so it is at most `isize::MAX`.
#[verifier::external_body]
fn capacity(hooks: &Vec<Hook>) -> (slots: usize)
    ensures
        hooks@.len() <= slots <= isize::MAX,
{
    hooks.capacity()
}

/// The hooks that were asked for so far, each under its own low-level name.
pub struct HookTable {
    /// Where the function indices of the hooks start: behind the functions that are
    /// already present in the module.
    original_function_count: usize,
    /// The hooks in the order in which they were entered.
    hooks: Vec<Hook>,
    /// The position of each hook by its low-level name.
    positions: StringHashMap<usize>,
}

impl View for HookTable {
    type V = TableView;

    closed spec fn view(&self) -> TableView {
        TableView {
            original_function_count: self.original_function_count,
            hooks: hook_views(self.hooks@),
        }
    }
}

impl HookTable {
    #[verifier::type_invariant]
    spec fn well_formed(self) -> bool {
        &&& self.original_function_count <= isize::MAX
        &&& self@.ordered()
        &&& forall|i: int|
            0 <= i < self.hooks@.len() ==> self.positions@.contains_key(
                (#[trigger] self@.hooks[i]).lowlevel_name(),
            ) && self.positions@[self@.hooks[i].lowlevel_name()] == i
        &&& forall|name: Seq<char>| #[trigger]
            self.positions@.contains_key(name) ==> self.positions@[name] < self.hooks@.len()
                && self@.hooks[self.positions@[name] as int].lowlevel_name() == name
    }

    /// Makes an empty table for a module with this many functions.
    pub fn new(original_function_count: usize) -> (table: HookTable)
        requires
            original_function_count <= isize::MAX,
        ensures
            table@ == (TableView { original_function_count, hooks: Seq::empty() }),
    {
        let table = HookTable {
            original_function_count,
            hooks: Vec::new(),
            positions: StringHashMap::new(),
        };
        assert(table@.hooks =~= Seq::empty());
        table
    }

    /// Returns the function index of the hook with this low-level name, if there is
    /// one.
    pub fn lookup(&self, lowlevel_name: &str) -> (idx: Option<usize>)
        ensures
            self@.ordered(),
            match idx {
                Some(idx) => {
                    &&& self@.has(lowlevel_name@)
                    &&& idx == self@.original_function_count + self@.position(lowlevel_name@)
                },
                None => !self@.has(lowlevel_name@),
            },
    {
        proof {
            use_type_invariant(self);
        }
        match self.positions.get(lowlevel_name) {
            Some(position) => {
                proof {
                    let i = *position as int;
                    assert(self@.has_at(lowlevel_name@, i));
                    lemma_position(self@, lowlevel_name@, i);
                    assert(self@.hooks[i] == self.hooks@[i]@);
                }
                Some(self.hooks[*position].idx)
            },
            None => {
                proof {
                    assert forall|i: int| !self@.has_at(lowlevel_name@, i) by {
                        if 0 <= i < self.hooks@.len() {
                            assert(self@.hooks[i].lowlevel_name() != lowlevel_name@);
                        }
                    }
                }
                None
            },
        }
    }

    /// Enters a hook at the end of the table and returns its function index.
    fn insert(&mut self, hook: Hook) -> (idx: usize)
        requires
            !old(self)@.has(hook@.lowlevel_name()),
        ensures
            final(self)@ == old(self)@.with(hook@),
            idx == old(self)@.original_function_count + old(self)@.hooks.len(),
    {
        proof {
            use_type_invariant(&*self);
        }
        let ghost before = *self;
        let mut table = HookTable::new(self.original_function_count);
        std::mem::swap(self, &mut table);
        let HookTable { original_function_count, mut hooks, mut positions } = table;

        let position: usize = hooks.len();
        let _slots: usize = capacity(&hooks);
        let idx: usize = original_function_count + position;
        let name = hook.lowlevel_name();
        let mut entered = hook;
        entered.idx = idx;
        proof {
            assert forall|i: int| 0 <= i < position implies (
            #[trigger] before@.hooks[i]).lowlevel_name() != name@ by {
                if before@.hooks[i].lowlevel_name() == name@ {
                    lemma_has(before@, i);
                }
            }
            assert(entered@ == hook@.at(idx));
        }
        hooks.push(entered);
        positions.insert(name, position);
        proof {
            assert(hook_views(hooks@) =~= before@.hooks.push(entered@));
        }
        *self = HookTable { original_function_count, hooks, positions };
        idx
    }

    /// Returns a call of the hook with the low-level name of the given one. A hook
    /// with a new name is entered; one with a name that is there already is dropped,
    /// and the one in the table is used again.
    pub fn get_or_insert(&mut self, hook: Hook) -> (call: Instr)
        ensures
            final(self)@ == old(self)@.with(hook@),
            call.calls(old(self)@.index_for(hook@.lowlevel_name())),
    {
        let name = hook.lowlevel_name();
        match self.lookup(name.as_str()) {
            Some(idx) => Instr::call(idx),
            None => Instr::call(self.insert(hook)),
        }
    }

    /// Takes the hooks out of the table, in the order in which they were entered.
    pub fn into_hooks(self) -> (hooks: Vec<Hook>)
        ensures
            hook_views(hooks@) == self@.hooks,
            self@.ordered(),
    {
        proof {
            use_type_invariant(&self);
        }
        self.hooks
    }
}

/// A table in which every hook is the answer to some request.
pub struct RequestedHooks {
    table: HookTable,
}

impl View for RequestedHooks {
    type V = TableView;

    closed spec fn view(&self) -> TableView {
        self.table@
    }
}

impl RequestedHooks {
    #[verifier::type_invariant]
    spec fn well_formed(self) -> bool {
        self.table@.all_generated()
    }

    /// Makes an empty table for a module with this many functions.
    pub fn new(original_function_count: usize) -> (requested: RequestedHooks)
        requires
            original_function_count <= isize::MAX,
        ensures
            requested@ == (TableView { original_function_count, hooks: Seq::empty() }),
    {
        RequestedHooks { table: HookTable::new(original_function_count) }
    }

    /// Returns the function index of the hook with this low-level name, if there is
    /// one.
    pub fn lookup(&self, lowlevel_name: &str) -> (idx: Option<usize>)
        ensures
            self@.valid(),
            match idx {
                Some(idx) => {
                    &&& self@.has(lowlevel_name@)
                    &&& idx == self@.original_function_count + self@.position(lowlevel_name@)
                },
                None => !self@.has(lowlevel_name@),
            },
    {
        proof {
            use_type_invariant(self);
        }
        self.table.lookup(lowlevel_name)
    }

    /// Returns a call of the hook with the low-level name of the given one, as
    /// [`HookTable::get_or_insert`] does.
    pub fn get_or_insert(&mut self, hook: Hook) -> (call: Instr)
        requires
            generated(hook@),
        ensures
            final(self)@ == old(self)@.with(hook@),
            call.calls(old(self)@.index_for(hook@.lowlevel_name())),
    {
        proof {
            use_type_invariant(&*self);
        }
        let mut requested = RequestedHooks::new(0);
        std::mem::swap(self, &mut requested);
        let RequestedHooks { mut table } = requested;
        proof {
            lemma_with_generated(table@, hook@);
        }
        let call = table.get_or_insert(hook);
        *self = RequestedHooks { table };
        call
    }

    /// Takes the hooks out of the table, in the order in which they were entered.
    pub fn into_hooks(self) -> (hooks: Vec<Hook>)
        ensures
            hook_views(hooks@) == self@.hooks,
            self@.valid(),
    {
        proof {
            use_type_invariant(&self);
        }
        self.table.into_hooks()
    }
}

} // verus!
