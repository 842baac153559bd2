//! A dynamically checked cell: read and write borrows are granted at run time
//! by a borrow-state machine, and each borrow is represented by a guard that
//! must be handed back to retire it.
use core::marker::PhantomData;
use vstd::prelude::*;

use crate::cell::MyCell;

verus! {

/// The borrow state of a [`MyRefCell`].
#[derive(Clone, Copy, Debug, PartialEq, Eq, Structural)]
pub enum ReferenceState {
    /// Exactly one write guard is outstanding.
    Exclusive,
    /// No guard is outstanding.
    Unshared,
    /// The given number (at least one) of read guards are outstanding.
    Shared(usize),
}

impl ReferenceState {
    /// Whether a read borrow is granted in this state. A shared count that
    /// could not grow any further refuses too.
    pub open spec fn can_read(self) -> bool {
        match self {
            ReferenceState::Exclusive => false,
            ReferenceState::Unshared => true,
            ReferenceState::Shared(n) => n < usize::MAX,
        }
    }

    /// Whether a write borrow is granted in this state.
    pub open spec fn can_write(self) -> bool {
        self is Unshared
    }

    /// The state after a granted read borrow.
    pub open spec fn after_read(self) -> ReferenceState {
        match self {
            ReferenceState::Shared(n) => ReferenceState::Shared((n + 1) as usize),
            _ => ReferenceState::Shared(1),
        }
    }

    /// The state after a read guard is released.
    pub open spec fn after_release_read(self) -> ReferenceState {
        match self {
            ReferenceState::Shared(n) => if n <= 1 {
                ReferenceState::Unshared
            } else {
                ReferenceState::Shared((n - 1) as usize)
            },
            _ => self,
        }
    }

    /// The number of read guards this state accounts for.
    pub open spec fn shared_count(self) -> nat {
        match self {
            ReferenceState::Shared(n) => n as nat,
            _ => 0,
        }
    }

    /// Whether a read guard can be released in this state.
    pub open spec fn holds_reader(self) -> bool {
        match self {
            ReferenceState::Shared(n) => n >= 1,
            _ => false,
        }
    }

    /// Applies a read request: the next state, or `None` when it is refused.
    pub fn request_read(self) -> (r: Option<ReferenceState>)
        ensures
            r == (if self.can_read() {
                Some(self.after_read())
            } else {
                None
            }),
    {
        match self {
            ReferenceState::Exclusive => None,
            ReferenceState::Unshared => Some(ReferenceState::Shared(1)),
            ReferenceState::Shared(count) => if count < usize::MAX {
                Some(ReferenceState::Shared(count + 1))
            } else {
                None
            },
        }
    }

    /// Applies a write request: the next state, or `None` when it is refused.
    pub fn request_write(self) -> (r: Option<ReferenceState>)
        ensures
            r == (if self.can_write() {
                Some(ReferenceState::Exclusive)
            } else {
                None
            }),
    {
        match self {
            ReferenceState::Unshared => Some(ReferenceState::Exclusive),
            _ => None,
        }
    }

    /// Applies the release of a read guard. Releasing one in a state that
    /// accounts for no reader is a bookkeeping defect and is ruled out.
    pub fn release_read(self) -> (r: ReferenceState)
        requires
            self.holds_reader(),
        ensures
            r == self.after_release_read(),
    {
        match self {
            ReferenceState::Shared(count) => {
                let new_count = count - 1;
                if new_count == 0 {
                    ReferenceState::Unshared
                } else {
                    ReferenceState::Shared(new_count)
                }
            },
            _ => self,
        }
    }

    /// Applies the release of the write guard. Releasing one in any state
    /// but `Exclusive` is a bookkeeping defect and is ruled out.
    pub fn release_write(self) -> (r: ReferenceState)
        requires
            self is Exclusive,
        ensures
            r == ReferenceState::Unshared,
    {
        ReferenceState::Unshared
    }
}

/// A value together with the run-time record of who borrows it.
///
/// Besides the borrow state, the cell keeps as ghost state the ticket of each
/// outstanding guard, so that its well-formedness can say exactly which guards
/// the state accounts for.
pub struct MyRefCell<T> {
    value: T,
    rc: MyCell<ReferenceState>,
    readers: Ghost<Set<nat>>,
    writer: Ghost<Option<nat>>,
    issued: Ghost<nat>,
}

/// A read borrow of a [`MyRefCell`]; hand it back with [`MyRef::release`].
#[must_use]
pub struct MyRef<T> {
    ticket: Ghost<nat>,
    marker: PhantomData<T>,
}

/// The write borrow of a [`MyRefCell`]; hand it back with [`MyRefMut::release`].
#[must_use]
pub struct MyRefMut<T> {
    ticket: Ghost<nat>,
    marker: PhantomData<T>,
}

impl<T> MyRefCell<T> {
    /// The wrapped value.
    pub closed spec fn value(self) -> T {
        self.value
    }

    /// The borrow state.
    pub closed spec fn state(self) -> ReferenceState {
        self.rc@
    }

    /// The tickets of the outstanding read guards.
    pub closed spec fn readers(self) -> Set<nat> {
        self.readers@
    }

    /// The ticket of the outstanding write guard, if any.
    pub closed spec fn writer(self) -> Option<nat> {
        self.writer@
    }

    /// The borrow state accounts for exactly the outstanding guards, and
    /// every outstanding ticket was issued by this cell.
    pub closed spec fn wf(self) -> bool {
        &&& self.readers@.finite()
        &&& forall|t: nat| self.readers@.contains(t) ==> t < self.issued@
        &&& (self.writer@ matches Some(w) ==> w < self.issued@)
        &&& match self.rc@ {
            ReferenceState::Unshared => self.readers@ == Set::<nat>::empty() && self.writer@ is None,
            ReferenceState::Shared(n) => n >= 1 && self.readers@.len() == n && self.writer@ is None,
            ReferenceState::Exclusive => self.readers@ == Set::<nat>::empty() && self.writer@ is Some,
        }
    }

    pub fn new(value: T) -> (r: Self)
        ensures
            r.wf(),
            r.value() == value,
            r.state() == ReferenceState::Unshared,
            r.readers() == Set::<nat>::empty(),
            r.writer() is None,
    {
        Self {
            value,
            rc: MyCell::new(ReferenceState::Unshared),
            readers: Ghost(Set::empty()),
            writer: Ghost(None),
            issued: Ghost(0),
        }
    }

    /// The current borrow state.
    pub fn borrow_state(&self) -> (r: ReferenceState)
        ensures
            r == self.state(),
    {
        self.rc.get()
    }

    /// Requests a read borrow. It is granted, as a new guard, unless a write
    /// guard is outstanding (or the shared count is at its limit); a refused
    /// request returns `None` and changes nothing.
    pub fn borrow(&mut self) -> (r: Option<MyRef<T>>)
        requires
            old(self).wf(),
        ensures
            final(self).wf(),
            final(self).value() == old(self).value(),
            final(self).writer() == old(self).writer(),
            r is Some <==> old(self).state().can_read(),
            match r {
                Some(g) => {
                    &&& final(self).state() == old(self).state().after_read()
                    &&& !old(self).readers().contains(g.ticket())
                    &&& final(self).readers() == old(self).readers().insert(g.ticket())
                },
                None => *final(self) == *old(self),
            },
    {
        match self.rc.get().request_read() {
            Some(next) => {
                let ticket: Ghost<nat> = Ghost(self.issued@);
                self.rc.set(next);
                self.readers = Ghost(self.readers@.insert(ticket@));
                self.issued = Ghost(self.issued@ + 1);
                Some(MyRef::new(ticket))
            },
            None => None,
        }
    }

    /// Requests the write borrow. It is granted, as a new guard, only when no
    /// guard is outstanding; a refused request returns `None` and changes
    /// nothing.
    pub fn borrow_mut(&mut self) -> (r: Option<MyRefMut<T>>)
        requires
            old(self).wf(),
        ensures
            final(self).wf(),
            final(self).value() == old(self).value(),
            final(self).readers() == old(self).readers(),
            r is Some <==> old(self).state().can_write(),
            match r {
                Some(g) => {
                    &&& final(self).state() == ReferenceState::Exclusive
                    &&& final(self).writer() == Some(g.ticket())
                },
                None => *final(self) == *old(self),
            },
    {
        match self.rc.get().request_write() {
            Some(next) => {
                let ticket: Ghost<nat> = Ghost(self.issued@);
                self.rc.set(next);
                self.writer = Ghost(Some(ticket@));
                self.issued = Ghost(self.issued@ + 1);
                Some(MyRefMut::new(ticket))
            },
            None => None,
        }
    }
}

impl<T> MyRef<T> {
    /// The ticket the issuing cell recorded for this guard.
    pub closed spec fn ticket(self) -> nat {
        self.ticket@
    }

    pub(crate) fn new(ticket: Ghost<nat>) -> (r: Self)
        ensures
            r.ticket() == ticket@,
    {
        MyRef { ticket, marker: PhantomData }
    }

    /// Read access to the value of the cell this guard borrows.
    pub fn as_ref<'a>(&self, cell: &'a MyRefCell<T>) -> (r: &'a T)
        requires
            cell.wf(),
            cell.readers().contains(self.ticket()),
        ensures
            *r == cell.value(),
    {
        &cell.value
    }

    /// Retires this read borrow: the shared count drops by one, and the cell
    /// becomes unshared when this was the last reader.
    pub fn release(self, cell: &mut MyRefCell<T>)
        requires
            old(cell).wf(),
            old(cell).readers().contains(self.ticket()),
        ensures
            final(cell).wf(),
            final(cell).value() == old(cell).value(),
            final(cell).writer() == old(cell).writer(),
            final(cell).readers() == old(cell).readers().remove(self.ticket()),
            final(cell).state() == old(cell).state().after_release_read(),
    {
        let next = cell.rc.get().release_read();
        cell.rc.set(next);
        cell.readers = Ghost(cell.readers@.remove(self.ticket@));
        proof {
            if cell.readers@.len() == 0 {
                cell.readers@.lemma_len0_is_empty();
            }
        }
    }
}

impl<T> MyRefMut<T> {
    /// The ticket the issuing cell recorded for this guard.
    pub closed spec fn ticket(self) -> nat {
        self.ticket@
    }

    pub(crate) fn new(ticket: Ghost<nat>) -> (r: Self)
        ensures
            r.ticket() == ticket@,
    {
        MyRefMut { ticket, marker: PhantomData }
    }

    /// Read-write access to the value of the cell this guard borrows.
    pub fn as_ref_mut<'a>(&self, cell: &'a mut MyRefCell<T>) -> (r: &'a mut T)
        requires
            old(cell).wf(),
            old(cell).writer() == Some(self.ticket()),
        ensures
            *r == old(cell).value(),
            final(cell).wf(),
            final(cell).value() == *final(r),
            final(cell).state() == old(cell).state(),
            final(cell).readers() == old(cell).readers(),
            final(cell).writer() == old(cell).writer(),
    {
        &mut cell.value
    }

    /// Retires the write borrow: the cell becomes unshared.
    pub fn release(self, cell: &mut MyRefCell<T>)
        requires
            old(cell).wf(),
            old(cell).writer() == Some(self.ticket()),
        ensures
            final(cell).wf(),
            final(cell).value() == old(cell).value(),
            final(cell).readers() == old(cell).readers(),
            final(cell).writer() is None,
            final(cell).state() == ReferenceState::Unshared,
    {
        let next = cell.rc.get().release_write();
        cell.rc.set(next);
        cell.writer = Ghost(None);
    }
}

/// The shared count of a well-formed cell equals the number of outstanding
/// read guards, and the cell is unshared exactly when no guard at all is
/// outstanding: releasing every read guard brings the count back to zero.
pub proof fn lemma_shared_count_matches_readers<T>(cell: MyRefCell<T>)
    requires
        cell.wf(),
    ensures
        cell.state().shared_count() == cell.readers().len(),
        cell.state() is Shared ==> cell.readers().len() >= 1,
        cell.state() == ReferenceState::Unshared <==> (cell.readers().is_empty()
            && cell.writer() is None),
{
    if cell.readers().is_empty() {
        cell.readers().lemma_len0_is_empty();
    }
}

/// While a write guard is outstanding, every further read or write borrow is
/// refused; once it is released, both kinds are granted again.
pub proof fn lemma_write_borrow_is_exclusive<T>(cell: MyRefCell<T>, guard: MyRefMut<T>)
    requires
        cell.wf(),
        cell.writer() == Some(guard.ticket()),
    ensures
        !cell.state().can_read(),
        !cell.state().can_write(),
        ReferenceState::Unshared.can_read(),
        ReferenceState::Unshared.can_write(),
{
}

/// Read and write borrows exclude each other: a write borrow is refused while
/// any read guard is outstanding, and a read borrow while a write guard is.
pub proof fn lemma_read_and_write_borrows_exclusive<T>(cell: MyRefCell<T>)
    requires
        cell.wf(),
    ensures
        !cell.readers().is_empty() ==> !cell.state().can_write(),
        cell.writer() is Some ==> !cell.state().can_read(),
{
}

} // verus!
