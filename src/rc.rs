//! Manually reference-counted shared ownership.
//!
//! Allocations live in an [`RcArena`]; a [`MyRc`] is a handle to one of them.
//! Each allocation counts its live handles: cloning a handle adds one,
//! releasing a handle (which consumes it) takes one away, and the release of
//! the last handle reclaims the value, exactly once.
use core::marker::PhantomData;
use vstd::prelude::*;

verus! {

/// One allocation: the shared value and the number of live handles to it.
struct MyRcRef<T> {
    value: T,
    count: usize,
}

/// The allocations that [`MyRc`] handles point into.
///
/// A slot is `None` once its last handle has been released. The arena keeps,
/// as ghost state, the ticket of each live handle of each slot, so that its
/// well-formedness can say that every count equals the number of live handles.
pub struct RcArena<T> {
    slots: Vec<Option<MyRcRef<T>>>,
    handles: Ghost<Seq<Set<nat>>>,
    issued: Ghost<nat>,
}

/// A handle to one allocation of an [`RcArena`]; hand it back with
/// [`MyRc::release`].
#[must_use]
pub struct MyRc<T> {
    index: usize,
    ticket: Ghost<nat>,
    marker: PhantomData<T>,
}

impl<T> RcArena<T> {
    /// The number of allocations ever made in this arena.
    pub closed spec fn len(self) -> nat {
        self.slots@.len()
    }

    /// Whether slot `i` holds a value that is not yet reclaimed.
    pub closed spec fn live(self, i: int) -> bool {
        0 <= i < self.slots@.len() && self.slots@[i] is Some
    }

    /// The value held in live slot `i`.
    pub closed spec fn value(self, i: int) -> T {
        self.slots@[i]->Some_0.value
    }

    /// The reference count of live slot `i`.
    pub closed spec fn count(self, i: int) -> nat {
        self.slots@[i]->Some_0.count as nat
    }

    /// The tickets of the live handles to slot `i`.
    pub closed spec fn handles(self, i: int) -> Set<nat> {
        self.handles@[i]
    }

    /// Whether `rc` is a live handle into this arena.
    pub open spec fn holds(self, rc: MyRc<T>) -> bool {
        self.live(rc.index()) && self.handles(rc.index()).contains(rc.ticket())
    }

    /// Every slot but `i` is the same in `self` and in `other`.
    pub open spec fn same_except(self, other: Self, i: int) -> bool {
        &&& self.len() == other.len()
        &&& forall|j: int|
            0 <= j < self.len() && j != i ==> {
                &&& self.live(j) == other.live(j)
                &&& self.handles(j) == other.handles(j)
                &&& self.live(j) ==> self.value(j) == other.value(j) && self.count(j)
                    == other.count(j)
            }
    }

    /// Every live slot counts exactly its live handles, a reclaimed slot has
    /// none, and every ticket was issued by this arena.
    pub closed spec fn wf(self) -> bool {
        &&& self.handles@.len() == self.slots@.len()
        &&& forall|i: int| 0 <= i < self.slots@.len() ==> #[trigger] self.slot_wf(i)
    }

    /// Slot `i` counts exactly its live handles, each issued by this arena.
    closed spec fn slot_wf(self, i: int) -> bool {
        &&& self.handles@[i].finite()
        &&& forall|t: nat| self.handles@[i].contains(t) ==> t < self.issued@
        &&& match self.slots@[i] {
            Some(e) => e.count >= 1 && e.count == self.handles@[i].len(),
            None => self.handles@[i] == Set::<nat>::empty(),
        }
    }

    /// `self` differs from `other` at most in the values its slots hold.
    closed spec fn keeps_counts_of(self, other: Self) -> bool {
        &&& self.handles == other.handles
        &&& self.issued == other.issued
        &&& self.slots@.len() == other.slots@.len()
        &&& forall|j: int|
            #![trigger self.slots@[j]]
            #![trigger other.slots@[j]]
            0 <= j < self.slots@.len() ==> {
                &&& (self.slots@[j] is Some) == (other.slots@[j] is Some)
                &&& self.slots@[j] is Some ==> self.slots@[j]->Some_0.count
                    == other.slots@[j]->Some_0.count
            }
    }

    proof fn lemma_keeping_counts_keeps_wf(self, other: Self)
        requires
            self.wf(),
            other.keeps_counts_of(self),
        ensures
            other.wf(),
    {
        assert forall|j: int| 0 <= j < other.slots@.len() implies other.slot_wf(j) by {
            assert(self.slot_wf(j));
            assert(other.slots@[j] is Some == self.slots@[j] is Some);
        }
    }

    pub fn new() -> (r: Self)
        ensures
            r.wf(),
            r.len() == 0,
    {
        RcArena { slots: Vec::new(), handles: Ghost(Seq::empty()), issued: Ghost(0) }
    }
}

impl<T> MyRc<T> {
    /// The slot this handle points at.
    pub closed spec fn index(self) -> int {
        self.index as int
    }

    /// The ticket the arena recorded for this handle.
    pub closed spec fn ticket(self) -> nat {
        self.ticket@
    }

    /// Allocates `value` in a new slot of `arena`, with a count of one, and
    /// returns the one handle to it.
    pub fn new(arena: &mut RcArena<T>, value: T) -> (r: Self)
        requires
            old(arena).wf(),
            old(arena).len() < usize::MAX,
        ensures
            final(arena).wf(),
            r.index() == old(arena).len(),
            final(arena).len() == old(arena).len() + 1,
            final(arena).live(r.index()),
            final(arena).value(r.index()) == value,
            final(arena).count(r.index()) == 1,
            final(arena).handles(r.index()) == set![r.ticket()],
            forall|j: int|
                0 <= j < old(arena).len() ==> {
                    &&& final(arena).live(j) == old(arena).live(j)
                    &&& final(arena).handles(j) == old(arena).handles(j)
                    &&& old(arena).live(j) ==> final(arena).value(j) == old(arena).value(j)
                        && final(arena).count(j) == old(arena).count(j)
                },
    {
        let ticket: Ghost<nat> = Ghost(arena.issued@);
        let index = arena.slots.len();
        arena.slots.push(Some(MyRcRef { value, count: 1 }));
        arena.handles = Ghost(arena.handles@.push(set![ticket@]));
        arena.issued = Ghost(arena.issued@ + 1);
        proof {
            assert(set![ticket@].len() == 1) by {
                assert(set![ticket@] == Set::<nat>::empty().insert(ticket@));
            }
            assert forall|j: int| 0 <= j < arena.slots@.len() implies arena.slot_wf(j) by {
                if j < index {
                    assert(old(arena).slot_wf(j));
                }
            }
        }
        MyRc { index, ticket, marker: PhantomData }
    }

    /// Returns a new handle to the same allocation; the count of the
    /// allocation, seen through every handle, grows by one.
    pub fn clone(&self, arena: &mut RcArena<T>) -> (r: Self)
        requires
            old(arena).wf(),
            old(arena).holds(*self),
            old(arena).count(self.index()) < usize::MAX,
        ensures
            final(arena).wf(),
            r.index() == self.index(),
            !old(arena).handles(self.index()).contains(r.ticket()),
            final(arena).handles(self.index()) == old(arena).handles(self.index()).insert(
                r.ticket(),
            ),
            final(arena).count(self.index()) == old(arena).count(self.index()) + 1,
            final(arena).live(self.index()),
            final(arena).value(self.index()) == old(arena).value(self.index()),
            final(arena).same_except(*old(arena), self.index()),
    {
        let ticket: Ghost<nat> = Ghost(arena.issued@);
        let i = self.index;
        proof {
            assert(arena.slot_wf(i as int));
        }
        match &mut arena.slots[i] {
            Some(entry) => {
                entry.count = entry.count + 1;
            },
            None => {},
        }
        arena.handles = Ghost(arena.handles@.update(i as int, arena.handles@[i as int].insert(ticket@)));
        arena.issued = Ghost(arena.issued@ + 1);
        proof {
            assert forall|j: int| 0 <= j < arena.slots@.len() implies arena.slot_wf(j) by {
                assert(old(arena).slot_wf(j));
            }
        }
        MyRc { index: i, ticket, marker: PhantomData }
    }

    /// Read access to the shared value, whatever the count.
    pub fn deref<'a>(&self, arena: &'a RcArena<T>) -> (r: &'a T)
        requires
            arena.wf(),
            arena.holds(*self),
        ensures
            *r == arena.value(self.index()),
    {
        match &arena.slots[self.index] {
            Some(entry) => &entry.value,
            None => unreached(),
        }
    }

    /// Releases this handle, which it consumes: the count drops by one, and
    /// when this was the last handle the value is reclaimed and handed back.
    pub fn release(self, arena: &mut RcArena<T>) -> (r: Option<T>)
        requires
            old(arena).wf(),
            old(arena).holds(self),
        ensures
            final(arena).wf(),
            final(arena).same_except(*old(arena), self.index()),
            final(arena).handles(self.index()) == old(arena).handles(self.index()).remove(
                self.ticket(),
            ),
            old(arena).count(self.index()) == 1 ==> {
                &&& r == Some(old(arena).value(self.index()))
                &&& !final(arena).live(self.index())
            },
            old(arena).count(self.index()) > 1 ==> {
                &&& r is None
                &&& final(arena).live(self.index())
                &&& final(arena).count(self.index()) == old(arena).count(self.index()) - 1
                &&& final(arena).value(self.index()) == old(arena).value(self.index())
            },
    {
        let i = self.index;
        proof {
            assert(arena.slot_wf(i as int));
        }
        let count: usize = match &arena.slots[i] {
            Some(entry) => entry.count,
            None => unreached(),
        };
        arena.handles = Ghost(arena.handles@.update(i as int, arena.handles@[i as int].remove(self.ticket@)));
        let r = if count == 1 {
            match arena.slots[i].take() {
                Some(entry) => Some(entry.value),
                None => None,
            }
        } else {
            match &mut arena.slots[i] {
                Some(entry) => {
                    entry.count = count - 1;
                },
                None => {},
            }
            None
        };
        proof {
            if count == 1 {
                arena.handles@[i as int].lemma_len0_is_empty();
            }
            assert forall|j: int| 0 <= j < arena.slots@.len() implies arena.slot_wf(j) by {
                assert(old(arena).slot_wf(j));
            }
        }
        r
    }

    /// Mutable access to the shared value, granted only when this is the one
    /// live handle to it; otherwise `None`, and nothing changes.
    pub fn get_mut<'a>(value: &mut Self, arena: &'a mut RcArena<T>) -> (r: Option<&'a mut T>)
        requires
            old(arena).wf(),
            old(arena).holds(*old(value)),
        ensures
            *final(value) == *old(value),
            r is Some <==> old(arena).count(old(value).index()) <= 1,
            match r {
                Some(m) => {
                    &&& *m == old(arena).value(old(value).index())
                    &&& final(arena).wf()
                    &&& final(arena).same_except(*old(arena), old(value).index())
                    &&& final(arena).live(old(value).index())
                    &&& final(arena).count(old(value).index()) == old(arena).count(old(value).index())
                    &&& final(arena).handles(old(value).index()) == old(arena).handles(old(value).index())
                    &&& final(arena).value(old(value).index()) == *final(m)
                },
                None => *final(arena) == *old(arena),
            },
    {
        let i = value.index;
        let count: usize = match &arena.slots[i] {
            Some(entry) => entry.count,
            None => unreached(),
        };
        if count <= 1 {
            proof {
                assert forall|a: RcArena<T>| a.keeps_counts_of(*arena) implies #[trigger] a.wf() by {
                    arena.lemma_keeping_counts_keeps_wf(a);
                }
            }
            match &mut arena.slots[i] {
                Some(entry) => Some(&mut entry.value),
                None => unreached(),
            }
        } else {
            None
        }
    }
}

/// The count of a live allocation equals the number of its live handles, so
/// exclusive access (a count of at most one) is granted exactly when the
/// handle that asks is the only live one.
pub proof fn lemma_count_matches_handles<T>(arena: RcArena<T>, rc: MyRc<T>)
    requires
        arena.wf(),
        arena.holds(rc),
    ensures
        arena.count(rc.index()) == arena.handles(rc.index()).len(),
        arena.count(rc.index()) >= 1,
        arena.count(rc.index()) <= 1 <==> arena.handles(rc.index()) == set![rc.ticket()],
{
    let s = arena.handles(rc.index());
    assert(arena.slot_wf(rc.index()));
    assert(set![rc.ticket()] == Set::<nat>::empty().insert(rc.ticket()));
    if s.len() <= 1 {
        s.remove(rc.ticket()).lemma_len0_is_empty();
        assert(s == set![rc.ticket()]);
    }
}

} // verus!
