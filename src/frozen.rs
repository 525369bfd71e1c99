use vstd::prelude::*;
use crate::freeze::{CellView, FreezeCell, FreezeError, Handle};
use crate::world::{lemma_same_count, World};

verus! {

/// The kind tag of cells and handles that lend a `World`.
pub const WORLD_KIND: u64 = 1;

/// The cell after one greeting through `h`: unchanged when the re-entry is
/// refused, else the lent world greeted once and given back.
pub open spec fn greeting(c: CellView<World>, h: Option<Handle>) -> CellView<World> {
    match c.entry_error(h) {
        Some(_) => c,
        None => c.returned((c.slot->0).greeted()),
    }
}

/// Whether `f` is bound to the window whose live cell is `c`.
pub open spec fn bound_to(f: FrozenWorld, c: CellView<World>) -> bool {
    &&& f.bound_handle() is Some
    &&& c.mints(f.bound_handle()->0)
}

/// A cloneable, heap-storable wrapper around the handle of a lent `World`.
/// Every copy names the same window, so liveness and the ticket are shared
/// through the cell that minted it.
#[derive(Clone, Copy, Debug)]
pub struct FrozenWorld {
    handle: Option<Handle>,
}

impl FrozenWorld {
    /// The handle carried, if the wrapper is bound.
    pub closed spec fn bound_handle(self) -> Option<Handle> {
        self.handle
    }

    /// The handle carried, if the wrapper is bound.
    pub fn handle(&self) -> (r: Option<Handle>)
        ensures
            r == self.bound_handle(),
    {
        self.handle
    }

    /// A placeholder bound to no window: every re-entry through it fails.
    pub fn new() -> (f: FrozenWorld)
        ensures
            f.bound_handle() is None,
    {
        FrozenWorld { handle: None }
    }

    /// A wrapper bound to the window that minted `h`.
    pub fn bind(h: Handle) -> (f: FrozenWorld)
        ensures
            f.bound_handle() == Some(h),
    {
        FrozenWorld { handle: Some(h) }
    }

    /// A fresh cell with identity `id` for lending worlds, with no window
    /// opened yet.
    pub fn cell(id: u64) -> (c: FreezeCell<World>)
        ensures
            c@ == (CellView::<World> { id, kind: WORLD_KIND, window: 0, open: false, slot: None }),
    {
        FreezeCell::new(id, WORLD_KIND)
    }

    /// Whether `say_hi` through this wrapper may be called on `cell`: either
    /// the re-entry is refused, or the lent world's counter can still advance.
    pub fn can_greet(&self, cell: &FreezeCell<World>) -> (r: bool)
        ensures
            r == (cell@.entry_error(self.bound_handle()) is None ==> (cell@.slot->0).count() < i64::MAX),
    {
        match cell.check(self.handle) {
            Some(_) => true,
            None => match cell.peek() {
                Some(w) => w.i() < i64::MAX,
                None => true,
            },
        }
    }

    /// The bound method `say_hi`: re-enters the lent world through this
    /// wrapper, greets it, and gives it back, returning the counter seen
    /// before the greeting. A refused re-entry leaves the cell as it was and
    /// reports why; a handle of another cell, or of a closed window, is
    /// refused as expired.
    pub fn say_hi(&self, cell: &mut FreezeCell<World>) -> (r: Result<i64, FreezeError>)
        requires
            old(cell)@.entry_error(self.bound_handle()) is None ==> (old(cell)@.slot->0).count() < i64::MAX,
        ensures
            match old(cell)@.entry_error(self.bound_handle()) {
                Some(e) => r == Err::<i64, FreezeError>(e) && final(cell)@ == old(cell)@,
                None => r == Ok::<i64, FreezeError>((old(cell)@.slot->0).count())
                    && final(cell)@ == old(cell)@.returned((old(cell)@.slot->0).greeted()),
            },
            final(cell)@ == greeting(old(cell)@, self.bound_handle()),
    {
        let greet = |w: World| -> (out: (World, i64))
            requires
                w.count() < i64::MAX,
            ensures
                out.0 == w.greeted(),
                out.1 == w.count(),
        {
            let mut w = w;
            let seen = w.say_hi();
            (w, seen)
        };
        cell.with_mut(self.handle, greet)
    }

    /// One run of the execution harness: lends `world` to a fresh window of
    /// `cell`, hands `script` the live cell and a wrapper bound to the window,
    /// then closes the window and writes back the world that the script left
    /// in the cell; the script must give the world back, holding no ticket.
    /// Nothing is rolled back when the script fails: its result, error or not,
    /// is returned as it came.
    pub fn run_window<R, F: FnOnce(FreezeCell<World>, FrozenWorld) -> (FreezeCell<World>, R)>(
        cell: &mut FreezeCell<World>,
        world: &mut World,
        script: F,
    ) -> (r: R)
        requires
            old(cell).may_open(),
            forall|c: FreezeCell<World>, f: FrozenWorld|
                c@ == old(cell)@.opened(*old(world)) && bound_to(f, c@)
                    ==> #[trigger] script.requires((c, f)),
            forall|c: FreezeCell<World>, f: FrozenWorld, out: (FreezeCell<World>, R)|
                #[trigger] script.ensures((c, f), out) ==> out.0@.slot is Some,
        ensures
            final(cell)@ == FreezeCell::<World>::after_scope(old(cell)@),
            exists|c0: FreezeCell<World>, f: FrozenWorld, out: (FreezeCell<World>, R)|
                c0@ == old(cell)@.opened(*old(world)) && bound_to(f, c0@)
                    && #[trigger] script.ensures((c0, f), out)
                    && *final(world) == out.0@.slot->0 && r == out.1,
    {
        let lent = World::new(world.i());
        proof {
            lemma_same_count(lent, *world);
        }
        let run = move |c: FreezeCell<World>, h: Handle| -> (out: (FreezeCell<World>, R))
            requires
                script.requires((c, (FrozenWorld { handle: Some(h) }))),
            ensures
                script.ensures((c, (FrozenWorld { handle: Some(h) })), out),
        {
            script(c, FrozenWorld::bind(h))
        };
        let (back, res) = cell.in_scope(lent, run);
        match back {
            Some(w) => {
                *world = w;
            },
            None => {},
        }
        res
    }
}

} // verus!
