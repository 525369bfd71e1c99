use vstd::prelude::*;

verus! {

/// Why a re-entry into a frozen host value was refused.
#[derive(Clone, Copy, Debug, PartialEq, Eq, Structural)]
pub enum FreezeError {
    /// The wrapper was never bound to a window.
    NotBound,
    /// The window that minted the handle has closed.
    Expired,
    /// Another re-entry already holds the host value.
    Aliased,
    /// The handle was minted for a value of another kind.
    TypeMismatch,
}

impl FreezeError {
    /// A short human-readable description of the error.
    pub fn message(&self) -> (r: &'static str)
        ensures
            r@ == match *self {
                FreezeError::NotBound => "frozen value is not bound to any scope"@,
                FreezeError::Expired => "frozen value accessed outside of enclosing scope"@,
                FreezeError::Aliased => "already borrowed incompatibly"@,
                FreezeError::TypeMismatch => "frozen value requested as another type"@,
            },
    {
        match self {
            FreezeError::NotBound => "frozen value is not bound to any scope",
            FreezeError::Expired => "frozen value accessed outside of enclosing scope",
            FreezeError::Aliased => "already borrowed incompatibly",
            FreezeError::TypeMismatch => "frozen value requested as another type",
        }
    }
}

/// An opaque, copyable token that stands for a host value lent to one
/// validity window: the cell that minted it, the kind of value and the
/// number of the window.
#[derive(Clone, Copy, Debug, PartialEq, Eq, Structural)]
pub struct Handle {
    cell: u64,
    kind: u64,
    window: u64,
}

impl Handle {
    /// The identity of the cell that minted the handle.
    pub closed spec fn cell(self) -> u64 {
        self.cell
    }

    /// The kind of host value the handle was minted for.
    pub closed spec fn kind(self) -> u64 {
        self.kind
    }

    /// The number of the window that minted the handle.
    pub closed spec fn window(self) -> u64 {
        self.window
    }
}

/// A handle is determined by its cell, kind and window number.
pub proof fn lemma_handle_eq(a: Handle, b: Handle)
    ensures
        a.cell() == b.cell() && a.kind() == b.kind() && a.window() == b.window() ==> a == b,
{
}

/// Every window number that fits a handle has a handle, for every cell.
pub proof fn lemma_mintable<T>(c: CellView<T>)
    requires
        c.window <= u64::MAX,
    ensures
        exists|h: Handle| c.mints(h),
{
    let h = Handle { cell: c.id, kind: c.kind, window: c.window as u64 };
    assert(c.mints(h));
}

/// The abstract state of a freeze cell.
pub struct CellView<T> {
    /// The cell's identity, recorded in every handle it mints.
    pub id: u64,
    /// The kind of host value this cell lends.
    pub kind: u64,
    /// How many windows have been opened so far; the latest one has this number.
    pub window: nat,
    /// Whether the latest window is still open.
    pub open: bool,
    /// The host value, while it is lent to the cell and no re-entry holds it.
    pub slot: Option<T>,
}

impl<T> CellView<T> {
    /// Some re-entry holds the exclusive-access ticket.
    pub open spec fn lent(self) -> bool {
        self.open && self.slot is None
    }

    /// A new window opened around `value`.
    pub open spec fn opened(self, value: T) -> CellView<T> {
        CellView { window: self.window + 1, open: true, slot: Some(value), ..self }
    }

    /// The latest window closed.
    pub open spec fn shut(self) -> CellView<T> {
        CellView { open: false, slot: None, ..self }
    }

    /// The ticket taken: the host value handed out to one re-entry.
    pub open spec fn taken(self) -> CellView<T> {
        CellView { slot: None, ..self }
    }

    /// The ticket given back together with the host value.
    pub open spec fn returned(self, value: T) -> CellView<T> {
        CellView { slot: Some(value), ..self }
    }

    /// Whether `h` was minted by this cell for the window that is open now.
    pub open spec fn live(self, h: Handle) -> bool {
        self.open && h.cell() == self.id && h.window() == self.window
    }

    /// Whether `h` is the handle of this cell's latest window.
    pub open spec fn mints(self, h: Handle) -> bool {
        h.cell() == self.id && h.kind() == self.kind && h.window() == self.window
    }

    /// The error, if any, that a re-entry through `h` meets.
    pub open spec fn entry_error(self, h: Option<Handle>) -> Option<FreezeError> {
        match h {
            None => Some(FreezeError::NotBound),
            Some(h) => if !self.live(h) {
                Some(FreezeError::Expired)
            } else if self.slot is None {
                Some(FreezeError::Aliased)
            } else if h.kind() != self.kind {
                Some(FreezeError::TypeMismatch)
            } else {
                None
            },
        }
    }
}

/// The scoped freeze cell. It lends a host value to one validity window at a
/// time: while the window is open the value sits in the cell, and a re-entry
/// takes it out (the exclusive-access ticket) and puts it back. The value is
/// reached only through a live handle of this cell, by one re-entry at a time.
pub struct FreezeCell<T> {
    id: u64,
    kind: u64,
    window: u64,
    open: bool,
    slot: Option<T>,
}

impl<T> View for FreezeCell<T> {
    type V = CellView<T>;

    closed spec fn view(&self) -> CellView<T> {
        CellView { id: self.id, kind: self.kind, window: self.window as nat, open: self.open, slot: self.slot }
    }
}

impl<T> FreezeCell<T> {
    /// Whether the cell can open one more window.
    pub open spec fn may_open(&self) -> bool {
        !self@.open && self@.window < u64::MAX
    }

    /// Whether the cell can open one more window: none is open, and the
    /// window numbers are not used up.
    pub fn can_open(&self) -> (r: bool)
        ensures
            r == self.may_open(),
    {
        !self.open && self.window < u64::MAX
    }

    /// A cell with identity `id` for host values of the given kind, with no
    /// window opened yet. Handles of other cells are refused by this one as
    /// long as their identities differ.
    pub fn new(id: u64, kind: u64) -> (c: FreezeCell<T>)
        ensures
            c@ == (CellView::<T> { id, kind, window: 0, open: false, slot: None }),
    {
        FreezeCell { id, kind, window: 0, open: false, slot: None }
    }

    /// Opens a new window around `value` and mints the handle for it.
    pub fn open(&mut self, value: T) -> (h: Handle)
        requires
            old(self).may_open(),
        ensures
            final(self)@ == old(self)@.opened(value),
            final(self)@.mints(h),
    {
        self.window = self.window + 1;
        self.open = true;
        self.slot = Some(value);
        Handle { cell: self.id, kind: self.kind, window: self.window }
    }

    /// Closes the latest window, which expires every handle it minted, and
    /// hands the host value back unless a re-entry still holds it.
    pub fn close(&mut self) -> (r: Option<T>)
        ensures
            final(self)@ == old(self)@.shut(),
            r == old(self)@.slot,
    {
        self.open = false;
        self.slot.take()
    }

    /// Whether `h` still names an open window.
    pub fn is_valid(&self, h: &Handle) -> (r: bool)
        ensures
            r == self@.live(*h),
    {
        self.open && h.cell == self.id && h.window == self.window
    }

    /// The error, if any, that a re-entry through `h` would meet now.
    pub fn check(&self, h: Option<Handle>) -> (r: Option<FreezeError>)
        ensures
            r == self@.entry_error(h),
    {
        match h {
            None => Some(FreezeError::NotBound),
            Some(h) => {
                if !(self.open && h.cell == self.id && h.window == self.window) {
                    Some(FreezeError::Expired)
                } else if self.slot.is_none() {
                    Some(FreezeError::Aliased)
                } else if h.kind != self.kind {
                    Some(FreezeError::TypeMismatch)
                } else {
                    None
                }
            },
        }
    }

    /// The host value as it sits in the cell, if no re-entry holds it.
    pub fn peek(&self) -> (r: Option<&T>)
        ensures
            r is Some == self@.slot is Some,
            r is Some ==> *r->0 == self@.slot->0,
    {
        match &self.slot {
            Some(v) => Some(v),
            None => None,
        }
    }

    /// Re-enters through `h`: on success takes the exclusive-access ticket and
    /// hands out the host value; on failure leaves the cell as it was.
    pub fn enter(&mut self, h: Option<Handle>) -> (r: Result<T, FreezeError>)
        ensures
            match old(self)@.entry_error(h) {
                Some(e) => r == Err::<T, FreezeError>(e) && final(self)@ == old(self)@,
                None => r == Ok::<T, FreezeError>(old(self)@.slot->0)
                    && final(self)@ == old(self)@.taken(),
            },
    {
        match h {
            None => Err(FreezeError::NotBound),
            Some(h) => {
                if !(self.open && h.cell == self.id && h.window == self.window) {
                    Err(FreezeError::Expired)
                } else if self.slot.is_none() {
                    Err(FreezeError::Aliased)
                } else if h.kind != self.kind {
                    Err(FreezeError::TypeMismatch)
                } else {
                    match self.slot.take() {
                        Some(v) => Ok(v),
                        None => Err(FreezeError::Aliased),
                    }
                }
            },
        }
    }

    /// The cell as `in_scope` leaves it: one more window numbered, and closed.
    pub open spec fn after_scope(c: CellView<T>) -> CellView<T> {
        CellView { window: c.window + 1, open: false, slot: None, ..c }
    }

    /// Lends `value` to a new window for the duration of `body`, which gets
    /// the window's live cell and its handle and gives the cell back with its
    /// result. This cell keeps the numbering: it ends closed with the new
    /// window's number, whatever `body` did, so no handle of this window or an
    /// earlier one is live again. The host value that `body` left in the cell
    /// comes back with `body`'s result.
    pub fn in_scope<R, F: FnOnce(FreezeCell<T>, Handle) -> (FreezeCell<T>, R)>(&mut self, value: T, body: F) -> (r: (Option<T>, R))
        requires
            old(self).may_open(),
            forall|c: FreezeCell<T>, h: Handle|
                c@ == old(self)@.opened(value) && c@.mints(h)
                    ==> #[trigger] body.requires((c, h)),
        ensures
            final(self)@ == Self::after_scope(old(self)@),
            exists|c0: FreezeCell<T>, h: Handle, out: (FreezeCell<T>, R)|
                c0@ == old(self)@.opened(value) && c0@.mints(h)
                    && #[trigger] body.ensures((c0, h), out) && r.0 == out.0@.slot && r.1 == out.1,
    {
        self.window = self.window + 1;
        self.open = false;
        self.slot = None;
        let live = FreezeCell { id: self.id, kind: self.kind, window: self.window, open: true, slot: Some(value) };
        let h = Handle { cell: self.id, kind: self.kind, window: self.window };
        let ghost c0 = live;
        let out = body(live, h);
        let ghost witness = out;
        let (left, res) = out;
        assert(body.ensures((c0, h), witness));
        (left.slot, res)
    }

    /// Ends a re-entry: gives the ticket back together with the host value.
    pub fn leave(&mut self, value: T)
        requires
            old(self)@.lent(),
        ensures
            final(self)@ == old(self)@.returned(value),
    {
        self.slot = Some(value);
    }

    /// Runs `op` on the host value through `h`, holding the ticket for the
    /// duration of the call, and returns what `op` produced.
    pub fn with_mut<R, F: FnOnce(T) -> (T, R)>(&mut self, h: Option<Handle>, op: F) -> (r: Result<R, FreezeError>)
        requires
            old(self)@.entry_error(h) is None ==> op.requires((old(self)@.slot->0,)),
        ensures
            match old(self)@.entry_error(h) {
                Some(e) => r == Err::<R, FreezeError>(e) && final(self)@ == old(self)@,
                None => exists|out: (T, R)|
                    op.ensures((old(self)@.slot->0,), out) && r == Ok::<R, FreezeError>(out.1)
                        && final(self)@ == old(self)@.returned(out.0),
            },
    {
        match self.enter(h) {
            Err(e) => Err(e),
            Ok(v) => {
                let out = op(v);
                let ghost witness = out;
                let (v, res) = out;
                self.leave(v);
                assert(op.ensures((old(self)@.slot->0,), witness));
                assert(self@ == old(self)@.returned(witness.0));
                Ok(res)
            },
        }
    }
}

} // verus!
