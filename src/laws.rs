use vstd::prelude::*;
use crate::freeze::{lemma_handle_eq, lemma_mintable, CellView, FreezeCell, FreezeError, Handle};
use crate::frozen::{bound_to, greeting, FrozenWorld, WORLD_KIND};
use crate::world::{lemma_greeted, World};

verus! {

/// One operation on a freeze cell, as the harness and the bound methods
/// perform them.
pub enum CellOp<T> {
    /// Open a window around a host value.
    Open(T),
    /// Close the latest window.
    Close,
    /// Re-enter through a handle, taking the ticket on success.
    Enter(Option<Handle>),
    /// Give the ticket back with the host value.
    Leave(T),
}

/// The cell after one operation, as `open`, `close`, `enter` and `leave` leave it.
pub open spec fn step<T>(c: CellView<T>, op: CellOp<T>) -> CellView<T> {
    match op {
        CellOp::Open(v) => c.opened(v),
        CellOp::Close => c.shut(),
        CellOp::Enter(h) => match c.entry_error(h) {
            Some(_) => c,
            None => c.taken(),
        },
        CellOp::Leave(v) => c.returned(v),
    }
}

/// The cell after a sequence of operations, in order.
pub open spec fn run<T>(c: CellView<T>, ops: Seq<CellOp<T>>) -> CellView<T>
    decreases ops.len(),
{
    if ops.len() == 0 {
        c
    } else {
        run(step(c, ops[0]), ops.drop_first())
    }
}

/// The cell after `n` greetings through `h`, one after the other.
pub open spec fn greetings(c: CellView<World>, h: Option<Handle>, n: nat) -> CellView<World>
    decreases n,
{
    if n == 0 {
        c
    } else {
        greeting(greetings(c, h, (n - 1) as nat), h)
    }
}

/// The world that one harness run over a cell in state `c` hands back when
/// its script greets `m` times through the wrapper it was given.
pub open spec fn window_world(c: CellView<World>, w: World, m: nat) -> World {
    greetings(c.opened(w), Some(choose|h: Handle| c.opened(w).mints(h)), m).slot->0
}

/// The world after consecutive harness runs whose scripts greet `ms[0]`,
/// `ms[1]`, ... times.
pub open spec fn runs(c: CellView<World>, w: World, ms: Seq<nat>) -> World
    decreases ms.len(),
{
    if ms.len() == 0 {
        w
    } else {
        runs(FreezeCell::<World>::after_scope(c), window_world(c, w, ms[0]), ms.drop_first())
    }
}

/// The sum of a sequence of counts.
pub open spec fn total(ms: Seq<nat>) -> nat
    decreases ms.len(),
{
    if ms.len() == 0 {
        0
    } else {
        ms[0] + total(ms.drop_first())
    }
}

/// A handle whose window has closed stays expired whatever happens to the
/// cell afterwards: windows opened later never revive it.
pub proof fn lemma_expired_stays_expired<T>(c: CellView<T>, h: Handle, ops: Seq<CellOp<T>>)
    requires
        h.window() <= c.window,
    ensures
        run(c.shut(), ops).entry_error(Some(h)) == Some(FreezeError::Expired),
{
    lemma_run_keeps_closed(c.shut(), h, ops);
}

proof fn lemma_run_keeps_closed<T>(c: CellView<T>, h: Handle, ops: Seq<CellOp<T>>)
    requires
        h.window() < c.window || (h.window() == c.window && !c.open),
    ensures
        run(c, ops).entry_error(Some(h)) == Some(FreezeError::Expired),
    decreases ops.len(),
{
    if ops.len() > 0 {
        lemma_run_keeps_closed(step(c, ops[0]), h, ops.drop_first());
    }
}

/// A handle minted by another cell never reaches this cell's value: it is
/// refused as expired, and a greeting through it changes nothing.
pub proof fn lemma_foreign_handle_refused(c: CellView<World>, h: Handle)
    requires
        h.cell() != c.id,
    ensures
        c.entry_error(Some(h)) == Some(FreezeError::Expired),
        greeting(c, Some(h)) == c,
{
}

/// A wrapper handed to a harness run never reaches the world again: after
/// the run, whatever later runs and re-entries do, it reports expired.
pub proof fn lemma_run_handle_expires(c: CellView<World>, w: World, f: FrozenWorld, ops: Seq<CellOp<World>>)
    requires
        bound_to(f, c.opened(w)),
    ensures
        run(FreezeCell::<World>::after_scope(c), ops).entry_error(f.bound_handle())
            == Some(FreezeError::Expired),
{
    lemma_run_keeps_closed(FreezeCell::<World>::after_scope(c), f.bound_handle()->0, ops);
}

/// A re-entry nested inside a granted one, through the same handle, is
/// refused as aliasing; the outer one then gives the value back and the
/// handle can be used again.
pub proof fn lemma_nested_entry_aliases<T>(c: CellView<T>, h: Handle, v: T)
    requires
        c.entry_error(Some(h)) is None,
    ensures
        c.taken().lent(),
        c.taken().entry_error(Some(h)) == Some(FreezeError::Aliased),
        c.taken().returned(v).entry_error(Some(h)) is None,
        c.taken().returned(v) == c.returned(v),
{
}

/// The same for the bound method: a greeting nested inside a granted
/// re-entry is refused as aliasing and leaves the cell as it was.
pub proof fn lemma_nested_greeting_aliases(c: CellView<World>, h: Handle)
    requires
        c.entry_error(Some(h)) is None,
    ensures
        c.taken().entry_error(Some(h)) == Some(FreezeError::Aliased),
        greeting(c.taken(), Some(h)) == c.taken(),
{
}

/// Greetings through a live handle within one window run one after the
/// other: each is granted and may advance the counter, the `k`-th sees the
/// counter advanced `k` times, and the lent world ends advanced `n` times,
/// with the window still open and the ticket free.
pub proof fn lemma_sequential_greetings(c: CellView<World>, h: Handle, n: nat)
    requires
        c.entry_error(Some(h)) is None,
        (c.slot->0).count() + n <= i64::MAX,
    ensures
        greetings(c, Some(h), n).entry_error(Some(h)) is None,
        (greetings(c, Some(h), n).slot->0).count() == (c.slot->0).count() + n,
        forall|k: nat|
            k < n ==> {
                &&& #[trigger] greetings(c, Some(h), k).entry_error(Some(h)) is None
                &&& (greetings(c, Some(h), k).slot->0).count() == (c.slot->0).count() + k
                &&& (greetings(c, Some(h), k).slot->0).count() < i64::MAX
            },
    decreases n,
{
    if n > 0 {
        let m = (n - 1) as nat;
        lemma_sequential_greetings(c, h, m);
        let p = greetings(c, Some(h), m);
        lemma_greeted(p.slot->0);
        assert forall|k: nat| k < n implies {
            &&& #[trigger] greetings(c, Some(h), k).entry_error(Some(h)) is None
            &&& (greetings(c, Some(h), k).slot->0).count() == (c.slot->0).count() + k
            &&& (greetings(c, Some(h), k).slot->0).count() < i64::MAX
        } by {
            if k == m {
                assert(greetings(c, Some(h), k) == p);
            }
        }
    }
}

/// One harness run whose script greets `m` times through the wrapper it was
/// given hands back the world advanced exactly `m` times.
pub proof fn lemma_window_world(c: CellView<World>, w: World, f: FrozenWorld, m: nat)
    requires
        !c.open,
        c.kind == WORLD_KIND,
        c.window < u64::MAX,
        bound_to(f, c.opened(w)),
        w.count() + m <= i64::MAX,
    ensures
        greetings(c.opened(w), f.bound_handle(), m).slot->0 == window_world(c, w, m),
        window_world(c, w, m).count() == w.count() + m,
{
    let h = choose|h: Handle| c.opened(w).mints(h);
    lemma_handle_eq(h, f.bound_handle()->0);
    lemma_sequential_greetings(c.opened(w), h, m);
}

/// Host state persists across any number of harness runs: after runs whose
/// scripts greet `ms[0]`, `ms[1]`, ... times, the world has advanced by the
/// sum of them, nothing lost or added between windows.
pub proof fn lemma_state_persists(c: CellView<World>, w: World, ms: Seq<nat>)
    requires
        !c.open,
        c.kind == WORLD_KIND,
        c.window + ms.len() <= u64::MAX,
        w.count() + total(ms) <= i64::MAX,
    ensures
        runs(c, w, ms).count() == w.count() + total(ms),
    decreases ms.len(),
{
    if ms.len() > 0 {
        lemma_mintable(c.opened(w));
        let h = choose|h: Handle| c.opened(w).mints(h);
        lemma_sequential_greetings(c.opened(w), h, ms[0]);
        let w1 = window_world(c, w, ms[0]);
        lemma_state_persists(FreezeCell::<World>::after_scope(c), w1, ms.drop_first());
    }
}

/// A failure part-way through a harness run rolls nothing back: a refused
/// re-entry changes nothing, and a run whose script greets `m` times before
/// it fails hands back the world advanced exactly `m` times.
pub proof fn lemma_failure_keeps_partial_state(c: CellView<World>, w: World, f: FrozenWorld, bad: Option<Handle>, m: nat)
    requires
        !c.open,
        c.kind == WORLD_KIND,
        bound_to(f, c.opened(w)),
        w.count() + m <= i64::MAX,
        greetings(c.opened(w), f.bound_handle(), m).entry_error(bad) is Some,
    ensures
        greeting(greetings(c.opened(w), f.bound_handle(), m), bad) == greetings(c.opened(w), f.bound_handle(), m),
        (greeting(greetings(c.opened(w), f.bound_handle(), m), bad).slot->0).count() == w.count() + m,
{
    lemma_sequential_greetings(c.opened(w), f.bound_handle()->0, m);
}

} // verus!
