use vstd::prelude::*;

verus! {

/// The live connections, one slot per library, addressed by stable indices.
///
/// A slot is created by `add` at the end of the pool and is only ever
/// emptied afterwards: indices are never shifted, compacted or reused.
pub struct ConnectionPool<T> {
    slots: Vec<Option<T>>,
}

/// What a task finds when it looks up its library's slot.
#[derive(Clone, Copy, Debug, PartialEq, Eq, Structural)]
pub enum SlotState {
    Live,
    /// The library was deleted or is being edited.
    Deleted,
    /// No library ever had this index.
    NeverExisted,
}

/// A change to the pool.
pub enum PoolOp<T> {
    Add(T),
    Delete(nat),
}

pub open spec fn pool_apply<T>(s: Seq<Option<T>>, op: PoolOp<T>) -> Seq<Option<T>> {
    match op {
        PoolOp::Add(c) => s.push(Some(c)),
        PoolOp::Delete(i) => if i < s.len() {
            s.update(i as int, None)
        } else {
            s
        },
    }
}

pub open spec fn pool_run<T>(s: Seq<Option<T>>, ops: Seq<PoolOp<T>>) -> Seq<Option<T>>
    decreases ops.len(),
{
    if ops.len() == 0 {
        s
    } else {
        pool_apply(pool_run(s, ops.drop_last()), ops.last())
    }
}

pub open spec fn slot_state_of<T>(s: Seq<Option<T>>, i: int) -> SlotState {
    if 0 <= i < s.len() {
        if s[i] is Some {
            SlotState::Live
        } else {
            SlotState::Deleted
        }
    } else {
        SlotState::NeverExisted
    }
}

impl<T> View for ConnectionPool<T> {
    type V = Seq<Option<T>>;

    closed spec fn view(&self) -> Seq<Option<T>> {
        self.slots@
    }
}

impl<T> ConnectionPool<T> {
    pub fn new() -> (r: ConnectionPool<T>)
        ensures
            r@ == Seq::<Option<T>>::empty(),
    {
        ConnectionPool { slots: Vec::new() }
    }

    /// The number of slots ever created.
    pub fn len(&self) -> (r: usize)
        ensures
            r == self@.len(),
    {
        self.slots.len()
    }

    /// Puts a new connection in a fresh slot at the end and returns its index.
    pub fn add(&mut self, conn: T) -> (index: usize)
        requires
            old(self)@.len() < usize::MAX,
        ensures
            index == old(self)@.len(),
            final(self)@ == pool_apply(old(self)@, PoolOp::Add(conn)),
    {
        let index = self.slots.len();
        self.slots.push(Some(conn));
        index
    }

    /// Empties the slot at `index`, keeping every index in place. Returns
    /// whether a connection was there.
    pub fn delete(&mut self, index: usize) -> (was_live: bool)
        ensures
            final(self)@ == pool_apply(old(self)@, PoolOp::Delete(index as nat)),
            was_live == (slot_state_of(old(self)@, index as int) == SlotState::Live),
    {
        if index < self.slots.len() {
            let was_live = self.slots[index].is_some();
            self.slots.set(index, None);
            was_live
        } else {
            false
        }
    }

    /// What a task finds at `index`.
    pub fn slot_state(&self, index: usize) -> (r: SlotState)
        ensures
            r == slot_state_of(self@, index as int),
    {
        if index < self.slots.len() {
            if self.slots[index].is_some() {
                SlotState::Live
            } else {
                SlotState::Deleted
            }
        } else {
            SlotState::NeverExisted
        }
    }

    /// The connection at `index`, if that slot is live.
    pub fn get(&self, index: usize) -> (r: Option<&T>)
        ensures
            index < self@.len() ==> r == match self@[index as int] {
                Some(c) => Some(&c),
                None => None::<&T>,
            },
            index >= self@.len() ==> r is None,
    {
        if index < self.slots.len() {
            self.slots[index].as_ref()
        } else {
            None
        }
    }

    /// Mutable access to the connection at `index`, if that slot is live.
    /// The slot keeps its place; only the connection inside may change.
    pub fn get_mut(&mut self, index: usize) -> (r: Option<&mut T>)
        ensures
            slot_state_of(old(self)@, index as int) == SlotState::Live ==> {
                &&& r is Some
                &&& *r->Some_0 == old(self)@[index as int]->Some_0
                &&& final(self)@ == old(self)@.update(index as int, Some(*final(r->Some_0)))
            },
            slot_state_of(old(self)@, index as int) != SlotState::Live ==> {
                &&& r is None
                &&& final(self)@ == old(self)@
            },
    {
        if index < self.slots.len() {
            let slot = &mut self.slots[index];
            match slot {
                Some(c) => Some(c),
                None => None,
            }
        } else {
            None
        }
    }
}

/// Once a slot exists, whatever sequence of additions and deletions follows,
/// it either still holds the very connection it held or is empty: an index
/// handed to a task never comes to name another library, and slots are
/// never removed.
pub proof fn law_indices_never_reused<T>(s: Seq<Option<T>>, ops: Seq<PoolOp<T>>, i: int)
    requires
        0 <= i < s.len(),
    ensures
        pool_run(s, ops).len() >= s.len(),
        pool_run(s, ops)[i] == s[i] || pool_run(s, ops)[i] is None,
        s[i] is None ==> pool_run(s, ops)[i] is None,
    decreases ops.len(),
{
    if ops.len() > 0 {
        law_indices_never_reused(s, ops.drop_last(), i);
    }
}

/// An addition always takes the next fresh index: the number of slots
/// created before it.
pub proof fn law_add_takes_fresh_index<T>(s: Seq<Option<T>>, c: T)
    ensures
        pool_apply(s, PoolOp::Add(c)).len() == s.len() + 1,
        pool_apply(s, PoolOp::Add(c))[s.len() as int] == Some(c),
        forall|j: int| 0 <= j < s.len() ==> #[trigger] pool_apply(s, PoolOp::Add(c))[j] == s[j],
{
}

} // verus!
