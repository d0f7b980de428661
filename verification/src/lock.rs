//! The lock around the hook table.
//!
//! The table is shared by all who ask for hooks, and only
//! [`get_or_insert_upgraded`] ever changes it while it is shared: it enters a hook
//! behind the others, or none. So the table only grows. What a guard gives access to
//! at some moment is the beginning of what the lock holds in the end.
use parking_lot::lock_api;
use parking_lot::{RawRwLock, RwLock, RwLockUpgradableReadGuard};
use vstd::prelude::*;

use crate::generate::generated;
use crate::hook::Hook;
use crate::table::{RequestedHooks, TableView};
use crate::wasm::Instr;

verus! {

/// The reader-writer lock of `parking_lot`, which is that of `lock_api` over a raw
/// lock. Nothing is known of its inside.
#[verifier::external_type_specification]
#[verifier::external_body]
#[verifier::reject_recursive_types(R)]
#[verifier::reject_recursive_types(T)]
pub struct ExRwLock<R, T: ?Sized>(lock_api::RwLock<R, T>);

/// The raw lock of `parking_lot`. Nothing is known of its inside.
#[verifier::external_type_specification]
#[verifier::external_body]
pub struct ExRawRwLock(RawRwLock);

/// Upgradable read access to the table in a lock. While it is held nobody else can
/// change the table.
#[verifier::external_body]
pub struct TableGuard<'a> {
    guard: RwLockUpgradableReadGuard<'a, RequestedHooks>,
}

/// The table that a lock was made with.
pub uninterp spec fn initial_table(lock: RwLock<RequestedHooks>) -> TableView;

/// The table that a lock holds in the end, when [`into_table`] takes it out. A lock
/// has one such table from the beginning, although nobody can know it by then; it
/// stays the same while others change what the lock holds at the moment.
pub uninterp spec fn final_table(lock: RwLock<RequestedHooks>) -> TableView;

/// The table that a guard gives access to.
pub uninterp spec fn held_table(guard: TableGuard<'_>) -> TableView;

/// The lock that a guard belongs to.
pub uninterp spec fn guarded_lock(guard: TableGuard<'_>) -> RwLock<RequestedHooks>;

/// `RwLock::new` makes a lock that holds a table. In the end the lock holds this
/// table, perhaps with further hooks behind.
#[verifier::external_body]
pub(crate) fn new_lock(table: RequestedHooks) -> (lock: RwLock<RequestedHooks>)
    ensures
        initial_table(lock) == table@,
        table@.grows_to(final_table(lock)),
{
    RwLock::new(table)
}

/// `RwLock::upgradable_read` waits until nobody else has upgradable or exclusive
/// access, and returns a guard of this lock. What the guard gives access to is what
/// the lock holds by then, to which others can only add later. A thread that kept a
/// guard would wait for itself here; no function of the library keeps one.
#[verifier::external_body]
pub(crate) fn upgradable_read(lock: &RwLock<RequestedHooks>) -> (guard: TableGuard<'_>)
    ensures
        guarded_lock(guard) == *lock,
        held_table(guard).grows_to(final_table(*lock)),
{
    TableGuard { guard: lock.upgradable_read() }
}

/// `RwLockUpgradableReadGuard::deref` gives shared access to the guarded table.
#[verifier::external_body]
pub(crate) fn table<'a>(guard: &'a TableGuard<'_>) -> (table: &'a RequestedHooks)
    ensures
        table@ == held_table(*guard),
{
    &guard.guard
}

/// `RwLockUpgradableReadGuard::with_upgraded` upgrades the access to an exclusive
/// one, with no gap in which anybody else could change the table, runs the closure
/// on the table, and goes back to upgradable access. The closure is
/// [`RequestedHooks::get_or_insert`], so the table under the guard changes and the call
/// comes back as that function says, and the lock in the end holds the changed
/// table, perhaps with further hooks behind.
#[verifier::external_body]
pub(crate) fn get_or_insert_upgraded(guard: &mut TableGuard<'_>, hook: Hook) -> (call: Instr)
    requires
        generated(hook@),
    ensures
        held_table(*final(guard)) == held_table(*old(guard)).with(hook@),
        call.calls(held_table(*old(guard)).index_for(hook@.lowlevel_name())),
        guarded_lock(*final(guard)) == guarded_lock(*old(guard)),
        held_table(*final(guard)).grows_to(final_table(guarded_lock(*final(guard)))),
{
    guard.guard.with_upgraded(|table| table.get_or_insert(hook))
}

/// `RwLock::into_inner` takes the table out of a lock that nobody shares any more.
#[verifier::external_body]
pub(crate) fn into_table(lock: RwLock<RequestedHooks>) -> (table: RequestedHooks)
    ensures
        table@ == final_table(lock),
{
    lock.into_inner()
}

} // verus!
