//! The state coordinator: owner of the cached distribution list, the busy
//! counter, the heavy-operation lock and the coalescing change signal, and
//! the decision logic of every lifecycle verb.
//!
//! Each verb is a short protocol: a `begin` step that books the busy
//! counter (and, for heavy operations, the lock) and hands the caller the
//! argument vector to run, and a finishing step that takes the command's
//! outcome and settles counter, lock and cache. Detached re-checks carry a
//! ticket whose finishing step performs the matching busy decrement, so the
//! counter always returns to its starting value.

use vstd::prelude::*;

use crate::executor::WslCommandExecutor;
use crate::models::WslDistro;
use crate::result::WslCommandResult;

verus! {

/// The coordinator. All process, timer and lock I/O happens outside; these
/// fields are the authoritative in-memory state the verbs manipulate.
pub struct WslDashboard {
    /// The stateless command executor handed to callers that need it.
    pub executor: WslCommandExecutor,
    /// The cached distribution list, replaced wholesale on each refresh.
    pub distros: Vec<WslDistro>,
    /// Number of in-flight user-triggered operations, delayed re-checks
    /// included.
    pub busy_count: u64,
    /// Whether a heavy operation (delete, export, import, move) currently
    /// holds the exclusive lock.
    pub heavy_op_held: bool,
    /// The coalescing change signal: set on every change, cleared when a
    /// consumer observes it.
    pub change_pending: bool,
    /// Guard that keeps concurrent refreshes from piling up.
    pub refresh_in_progress: bool,
    /// Guard that keeps redundant presentation updates from piling up.
    pub ui_update_pending: bool,
}

impl WslDashboard {
    /// The state with another busy count.
    pub open spec fn with_busy(self, v: u64) -> Self {
        WslDashboard { busy_count: v, ..self }
    }

    /// The state with the heavy lock held or released.
    pub open spec fn with_lock(self, h: bool) -> Self {
        WslDashboard { heavy_op_held: h, ..self }
    }

    /// The state with the change signal set or cleared.
    pub open spec fn with_change(self, c: bool) -> Self {
        WslDashboard { change_pending: c, ..self }
    }

    /// The state with a freshly cached list and the change signal set.
    pub open spec fn with_cache(self, list: Vec<WslDistro>) -> Self {
        WslDashboard { distros: list, change_pending: true, ..self }
    }

    /// A fresh coordinator: empty cache, idle counter, free lock, no
    /// pending signal.
    pub fn new(executor: WslCommandExecutor) -> (d: Self)
        ensures
            d.distros@.len() == 0,
            d.busy_count == 0,
            !d.heavy_op_held,
            !d.change_pending,
            !d.refresh_in_progress,
            !d.ui_update_pending,
    {
        WslDashboard {
            executor,
            distros: Vec::new(),
            busy_count: 0,
            heavy_op_held: false,
            change_pending: false,
            refresh_in_progress: false,
            ui_update_pending: false,
        }
    }

    /// Books one in-flight operation.
    pub fn increment_manual_operation(&mut self)
        requires
            old(self).busy_count < u64::MAX,
        ensures
            *final(self) == old(self).with_busy((old(self).busy_count + 1) as u64),
    {
        self.busy_count = self.busy_count + 1;
    }

    /// Settles one in-flight operation.
    pub fn decrement_manual_operation(&mut self)
        requires
            old(self).busy_count > 0,
        ensures
            *final(self) == old(self).with_busy((old(self).busy_count - 1) as u64),
    {
        self.busy_count = self.busy_count - 1;
    }

    /// Whether anything is happening; a liveness indicator only.
    pub fn is_manual_operation(&self) -> (r: bool)
        ensures
            r == (self.busy_count > 0),
    {
        self.busy_count > 0
    }

    /// Takes the heavy-operation lock. At most one heavy operation may hold
    /// it at a time, so taking it demands that nobody does.
    pub fn acquire_heavy_lock(&mut self)
        requires
            !old(self).heavy_op_held,
        ensures
            *final(self) == old(self).with_lock(true),
    {
        self.heavy_op_held = true;
    }

    /// Releases the heavy-operation lock.
    pub fn release_heavy_lock(&mut self)
        requires
            old(self).heavy_op_held,
        ensures
            *final(self) == old(self).with_lock(false),
    {
        self.heavy_op_held = false;
    }

    /// Signals "something changed". Signals coalesce: however many arrive
    /// before a consumer looks, the signal is simply set.
    pub fn signal_change(&mut self)
        ensures
            *final(self) == old(self).with_change(true),
    {
        self.change_pending = true;
    }

    /// Observes and clears the change signal: one wake-up for any number of
    /// coalesced signals, carrying no payload.
    pub fn consume_change(&mut self) -> (r: bool)
        ensures
            r == old(self).change_pending,
            *final(self) == old(self).with_change(false),
    {
        let r = self.change_pending;
        self.change_pending = false;
        r
    }

    /// Replaces the cached list wholesale and signals the change.
    pub fn apply_refresh(&mut self, list: Vec<WslDistro>)
        ensures
            *final(self) == old(self).with_cache(list),
    {
        self.distros = list;
        self.change_pending = true;
    }

    /// Tries to become the one running refresh; a second caller is turned
    /// away instead of piling up.
    pub fn try_begin_refresh(&mut self) -> (r: bool)
        ensures
            r == !old(self).refresh_in_progress,
            final(self).refresh_in_progress,
            *final(self) == (WslDashboard { refresh_in_progress: true, ..*old(self) }),
    {
        let r = !self.refresh_in_progress;
        self.refresh_in_progress = true;
        r
    }

    /// Marks the running refresh as done.
    pub fn end_refresh(&mut self)
        ensures
            *final(self) == (WslDashboard { refresh_in_progress: false, ..*old(self) }),
    {
        self.refresh_in_progress = false;
    }

    /// Tries to become the one pending presentation update.
    pub fn try_begin_ui_update(&mut self) -> (r: bool)
        ensures
            r == !old(self).ui_update_pending,
            *final(self) == (WslDashboard { ui_update_pending: true, ..*old(self) }),
    {
        let r = !self.ui_update_pending;
        self.ui_update_pending = true;
        r
    }

    /// Marks the pending presentation update as delivered.
    pub fn end_ui_update(&mut self)
        ensures
            *final(self) == (WslDashboard { ui_update_pending: false, ..*old(self) }),
    {
        self.ui_update_pending = false;
    }
}

/// One operation on the heavy-operation lock, for reasoning about what any
/// interleaving of heavy operations can do to it.
#[derive(Clone, Copy, PartialEq, Eq, Structural)]
pub enum LockOp {
    Acquire,
    Release,
}

/// Whether the lock is held after the given operations, starting from
/// `init`.
pub open spec fn lock_held_after(init: bool, ops: Seq<LockOp>) -> bool
    decreases ops.len(),
{
    if ops.len() == 0 {
        init
    } else {
        lock_held_after(ops[0] is Acquire, ops.drop_first())
    }
}

/// Whether the operations respect the lock's contract: acquiring demands a
/// free lock, releasing demands a held one.
pub open spec fn lock_ops_valid(init: bool, ops: Seq<LockOp>) -> bool
    decreases ops.len(),
{
    ops.len() == 0 || {
        &&& (ops[0] is Acquire ==> !init)
        &&& (ops[0] is Release ==> init)
        &&& lock_ops_valid(ops[0] is Acquire, ops.drop_first())
    }
}

/// In a valid history, an acquire can only happen while the lock is free.
proof fn lemma_lock_acquire_needs_free(init: bool, ops: Seq<LockOp>, j: int)
    requires
        lock_ops_valid(init, ops),
        0 <= j < ops.len(),
        ops[j] is Acquire,
    ensures
        !lock_held_after(init, ops.take(j)),
    decreases j,
{
    if j == 0 {
        assert(ops.take(0) =~= Seq::<LockOp>::empty());
    } else {
        lemma_lock_acquire_needs_free(ops[0] is Acquire, ops.drop_first(), j - 1);
        assert(ops.drop_first().take(j - 1) =~= ops.take(j).drop_first());
        assert(ops.take(j)[0] == ops[0]);
    }
}

/// The lock stays held from an acquire until some release.
proof fn lemma_lock_stays_held(init: bool, ops: Seq<LockOp>, m: int, p: int)
    requires
        lock_held_after(init, ops.take(m)),
        0 <= m <= p <= ops.len(),
        forall|k: int| m <= k < p ==> !(#[trigger] ops[k] is Release),
    ensures
        lock_held_after(init, ops.take(p)),
    decreases p - m,
{
    if m < p {
        lemma_lock_stays_held(init, ops, m, p - 1);
        lemma_lock_held_step(init, ops, p - 1);
    }
}

/// Unfolds `lock_held_after` by one trailing operation.
proof fn lemma_lock_held_step(init: bool, ops: Seq<LockOp>, p: int)
    requires
        0 <= p < ops.len(),
    ensures
        lock_held_after(init, ops.take(p + 1)) == (ops[p] is Acquire),
    decreases p,
{
    if p == 0 {
        assert(ops.take(1).drop_first() =~= Seq::<LockOp>::empty());
        assert(ops.take(1)[0] == ops[0]);
        assert(ops.take(1).len() == 1);
        assert(lock_held_after(ops[0] is Acquire, Seq::<LockOp>::empty()) == (
        ops[0] is Acquire));
    } else {
        lemma_lock_held_step(ops[0] is Acquire, ops.drop_first(), p - 1);
        assert(ops.drop_first().take(p) =~= ops.take(p + 1).drop_first());
        assert(ops.take(p + 1)[0] == ops[0]);
        assert(ops.drop_first()[p - 1] == ops[p]);
    }
}

/// Law: two heavy operations never hold the lock at once. In any history
/// that respects the lock's contract, between any two acquisitions there is
/// a release: the second heavy operation can only proceed after the first
/// has let go.
pub proof fn lemma_heavy_lock_serializes(init: bool, ops: Seq<LockOp>, i: int, j: int)
    requires
        lock_ops_valid(init, ops),
        0 <= i < j < ops.len(),
        ops[i] is Acquire,
        ops[j] is Acquire,
    ensures
        exists|k: int| i < k < j && (#[trigger] ops[k]) is Release,
{
    if forall|k: int| i < k < j ==> !(#[trigger] ops[k] is Release) {
        lemma_lock_held_step(init, ops, i);
        lemma_lock_stays_held(init, ops, i + 1, j);
        lemma_lock_acquire_needs_free(init, ops, j);
        assert(false);
    }
}

} // verus!
