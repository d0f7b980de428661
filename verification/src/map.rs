//! The map of hooks that all parts of an instrumentation share.
use parking_lot::RwLock;
use vstd::prelude::*;

use crate::generate::{generated, hook_for, lemma_generated, Request};
use crate::hook::Hook;
use crate::lock::{
    final_table, get_or_insert_upgraded, guarded_lock, held_table, initial_table, into_table,
    new_lock, table, upgradable_read, TableGuard,
};
use crate::table::{
    hook_views, lemma_position_stays, lemma_with_serves, RequestedHooks, TableView,
};
use crate::wasm::{BlockStackElement, Instr, Module, ValType};

verus! {

/// The hooks that were asked for. Many threads can ask at the same time; a hook is
/// generated on the first request for its low-level name, and used again on every
/// later one.
pub struct HookMap {
    /// Wrapped in a lock to support concurrent lookup, and insertion by one thread
    /// at a time, which is less common.
    map: RwLock<RequestedHooks>,
}

impl HookMap {
    /// The hooks that the map started with.
    pub closed spec fn initial(&self) -> TableView {
        initial_table(self.map)
    }

    /// The hooks that the map has in the end, when [`HookMap::finish`] takes them
    /// out.
    pub closed spec fn outcome(&self) -> TableView {
        final_table(self.map)
    }

    /// Whether an instruction calls the hook for a request.
    pub open spec fn answers(&self, request: Request, call: Instr) -> bool {
        self.outcome().serves(hook_for(request), call)
    }

    /// Makes a map without hooks for a module. The function indices of the hooks
    /// start behind those of its functions, of which memory holds `isize::MAX` at
    /// most.
    pub fn new(module: &Module) -> (map: HookMap)
        requires
            module.function_count <= isize::MAX,
        ensures
            map.initial() == (TableView {
                original_function_count: module.function_count,
                hooks: Seq::empty(),
            }),
            map.initial().grows_to(map.outcome()),
    {
        HookMap { map: new_lock(RequestedHooks::new(module.function_count)) }
    }

    /// Consumes the hooks that were generated on demand, and returns the functions to
    /// add to the module in the order in which they were inserted, so that their
    /// indices tell whether other functions were added in the meantime.
    #[must_use]
    pub fn finish(self) -> (hooks: Vec<Hook>)
        ensures
            hook_views(hooks@) == self.outcome().hooks,
            self.outcome().valid(),
    {
        into_table(self.map).into_hooks()
    }

    /// Returns a call of the hook of an instruction. The types are those of operands
    /// or results that the instruction alone does not fix.
    pub fn instr(&self, instr: &Instr, polymorphic_tys: &[ValType]) -> (call: Instr)
        requires
            instr.accepts(polymorphic_tys@),
        ensures
            self.answers(Request::Instr(*instr, polymorphic_tys@), call),
    {
        proof {
            lemma_generated(Request::Instr(*instr, polymorphic_tys@));
        }
        self.get_or_insert(Hook::instr(instr, polymorphic_tys))
    }

    /// Returns a call of the hook of the start of the program.
    pub fn start(&self) -> (call: Instr)
        ensures
            self.answers(Request::Start, call),
    {
        proof {
            lemma_generated(Request::Start);
        }
        self.get_or_insert(Hook::start())
    }

    /// Returns a call of the hook of the return of a call that gives results of these types.
    pub fn call_post(&self, result_tys: &[ValType]) -> (call: Instr)
        ensures
            self.answers(Request::CallPost(result_tys@), call),
    {
        proof {
            lemma_generated(Request::CallPost(result_tys@));
        }
        self.get_or_insert(Hook::call_post(result_tys))
    }

    /// Returns a call of the hook of the entry of a function.
    pub fn begin_function(&self) -> (call: Instr)
        ensures
            self.answers(Request::BeginFunction, call),
    {
        proof {
            lemma_generated(Request::BeginFunction);
        }
        self.get_or_insert(Hook::begin_function())
    }

    /// Returns a call of the hook of the entry of a block.
    pub fn begin_block(&self) -> (call: Instr)
        ensures
            self.answers(Request::BeginBlock, call),
    {
        proof {
            lemma_generated(Request::BeginBlock);
        }
        self.get_or_insert(Hook::begin_block())
    }

    /// Returns a call of the hook of the entry of a loop.
    pub fn begin_loop(&self) -> (call: Instr)
        ensures
            self.answers(Request::BeginLoop, call),
    {
        proof {
            lemma_generated(Request::BeginLoop);
        }
        self.get_or_insert(Hook::begin_loop())
    }

    /// Returns a call of the hook of the entry of the first branch of an `if`.
    pub fn begin_if(&self) -> (call: Instr)
        ensures
            self.answers(Request::BeginIf, call),
    {
        proof {
            lemma_generated(Request::BeginIf);
        }
        self.get_or_insert(Hook::begin_if())
    }

    /// Returns a call of the hook of the entry of the second branch of an `if`.
    pub fn begin_else(&self) -> (call: Instr)
        ensures
            self.answers(Request::BeginElse, call),
    {
        proof {
            lemma_generated(Request::BeginElse);
        }
        self.get_or_insert(Hook::begin_else())
    }

    /// Returns a call of the hook of the end of a block.
    pub fn end(&self, block: &BlockStackElement) -> (call: Instr)
        ensures
            self.answers(Request::End(*block), call),
    {
        proof {
            lemma_generated(Request::End(*block));
        }
        self.get_or_insert(Hook::end(block))
    }

    /// Returns a call of the requested hook, which either was freshly generated,
    /// since it was not requested with these types before, or came from the map.
    fn get_or_insert(&self, hook: Hook) -> (call: Instr)
        requires
            generated(hook@),
        ensures
            self.outcome().serves(hook@, call),
    {
        let mut guard = upgradable_read(&self.map);
        get_or_insert_held(&mut guard, hook)
    }
}

/// Asks for a hook under a guard: looks for it first, and takes exclusive access
/// only for a hook that is not there.
fn get_or_insert_held(guard: &mut TableGuard<'_>, hook: Hook) -> (call: Instr)
    requires
        generated(hook@),
        held_table(*old(guard)).grows_to(final_table(guarded_lock(*old(guard)))),
    ensures
        held_table(*final(guard)) == held_table(*old(guard)).with(hook@),
        call.calls(held_table(*old(guard)).index_for(hook@.lowlevel_name())),
        final_table(guarded_lock(*old(guard))).serves(hook@, call),
{
    let name = hook.lowlevel_name();
    let found = table(&*guard).lookup(name.as_str());
    let call = match found {
        Some(idx) => Instr::call(idx),
        None => get_or_insert_upgraded(guard, hook),
    };
    proof {
        lemma_with_serves(held_table(*old(guard)), hook@, call);
        lemma_position_stays(held_table(*guard), final_table(guarded_lock(*guard)), name@);
    }
    call
}

} // verus!
