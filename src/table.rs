//! The client table: a fixed-capacity vector of optional connections, with
//! its uniqueness invariant and the lookups over it.
use vstd::prelude::*;
use crate::connection::{ClientId, Connection, PeerAddr, state_within};

verus! {

/// A fixed-capacity slotted table of connections.
pub struct ClientTable {
    pub slots: Vec<Option<Connection>>,
}

impl ClientTable {
    pub open spec fn len(&self) -> int {
        self.slots@.len() as int
    }

    pub open spec fn occupied(&self, i: int) -> bool {
        0 <= i < self.slots@.len() && self.slots@[i] is Some
    }

    pub open spec fn slot(&self, i: int) -> Connection {
        self.slots@[i]->Some_0
    }

    pub open spec fn holds_id(&self, i: int, id: ClientId) -> bool {
        self.occupied(i) && self.slot(i).client_id == id
    }

    pub open spec fn holds_addr(&self, i: int, addr: PeerAddr) -> bool {
        self.occupied(i) && self.slot(i).addr == addr
    }

    pub open spec fn has_id(&self, id: ClientId) -> bool {
        exists|i: int| #[trigger] self.holds_id(i, id)
    }

    pub open spec fn has_addr(&self, addr: PeerAddr) -> bool {
        exists|i: int| #[trigger] self.holds_addr(i, addr)
    }

    pub open spec fn is_full(&self) -> bool {
        forall|i: int| 0 <= i < self.slots@.len() ==> #[trigger] self.occupied(i)
    }

    /// No two occupied slots share a client id or a peer address.
    pub open spec fn unique(&self) -> bool {
        forall|i: int, j: int|
            #![trigger self.slots@[i], self.slots@[j]]
            self.occupied(i) && self.occupied(j) && i != j ==> self.slot(i).client_id
                != self.slot(j).client_id && self.slot(i).addr != self.slot(j).addr
    }

    /// Every retry record in the table lies at or before `time`.
    pub open spec fn within(&self, time: u64) -> bool {
        forall|i: int| #[trigger] self.occupied(i) ==> state_within(self.slot(i).state, time)
    }

    /// A table of `n` empty slots.
    pub fn with_capacity(n: usize) -> (t: ClientTable)
        ensures
            t.len() == n,
            forall|i: int| 0 <= i < n ==> !(#[trigger] t.occupied(i)),
            t.unique(),
    {
        let mut slots: Vec<Option<Connection>> = Vec::with_capacity(n);
        let mut k: usize = 0;
        while k < n
            invariant
                k <= n,
                slots@.len() == k,
                forall|i: int| 0 <= i < k ==> slots@[i] is None,
            decreases n - k,
        {
            slots.push(None);
            k += 1;
        }
        ClientTable { slots }
    }

    /// The slot holding client `id`, if any.
    pub fn find_by_id(&self, id: ClientId) -> (r: Option<usize>)
        ensures
            match r {
                Some(i) => self.holds_id(i as int, id),
                None => !self.has_id(id),
            },
    {
        let mut i: usize = 0;
        while i < self.slots.len()
            invariant
                i <= self.slots@.len(),
                forall|j: int| 0 <= j < i ==> !#[trigger] self.holds_id(j, id),
            decreases self.slots@.len() - i,
        {
            match &self.slots[i] {
                Some(c) => {
                    if c.client_id == id {
                        return Some(i);
                    }
                },
                None => {},
            }
            i += 1;
        }
        None
    }

    /// The slot bound to peer address `addr`, if any.
    pub fn find_by_addr(&self, addr: &PeerAddr) -> (r: Option<usize>)
        ensures
            match r {
                Some(i) => self.holds_addr(i as int, *addr),
                None => !self.has_addr(*addr),
            },
    {
        let mut i: usize = 0;
        while i < self.slots.len()
            invariant
                i <= self.slots@.len(),
                forall|j: int| 0 <= j < i ==> !#[trigger] self.holds_addr(j, *addr),
            decreases self.slots@.len() - i,
        {
            match &self.slots[i] {
                Some(c) => {
                    if c.addr == *addr {
                        return Some(i);
                    }
                },
                None => {},
            }
            i += 1;
        }
        None
    }

    /// The first empty slot, if any.
    pub fn first_free(&self) -> (r: Option<usize>)
        ensures
            match r {
                Some(i) => i < self.len() && !self.occupied(i as int) && forall|j: int|
                    0 <= j < i ==> #[trigger] self.occupied(j),
                None => self.is_full(),
            },
    {
        let mut i: usize = 0;
        while i < self.slots.len()
            invariant
                i <= self.slots@.len(),
                forall|j: int| 0 <= j < i ==> #[trigger] self.occupied(j),
            decreases self.slots@.len() - i,
        {
            if self.slots[i].is_none() {
                return Some(i);
            }
            i += 1;
        }
        None
    }
}

} // verus!
