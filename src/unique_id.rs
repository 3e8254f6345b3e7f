//! Hands out consecutive identifiers.
use vstd::prelude::*;

verus! {

/// A value that can carry an identifier.
pub trait SetId: Sized {
    /// The identifier the value carries.
    spec fn id_of(&self) -> u32;

    fn set_id(self, id: u32) -> (r: Self)
        ensures
            r.id_of() == id;
}

impl<T> SetId for crate::passenger::Passenger<T> {
    open spec fn id_of(&self) -> u32 {
        self.uid()
    }

    fn set_id(self, id: u32) -> (r: Self) {
        crate::passenger::Passenger::set_id(self, id)
    }
}

/// The source of identifiers: 0, 1, 2, ...
pub struct UniqueId {
    curr: u32,
}

impl UniqueId {
    /// The next identifier to hand out.
    pub closed spec fn upcoming(&self) -> u32 {
        self.curr
    }

    pub fn new() -> (r: Self)
        ensures
            r.upcoming() == 0,
    {
        Self { curr: 0 }
    }

    /// Hands out the next identifier.
    pub fn next_uid(&mut self) -> (r: u32)
        requires
            old(self).upcoming() < u32::MAX,
        ensures
            r == old(self).upcoming(),
            final(self).upcoming() == old(self).upcoming() + 1,
    {
        let tmp = self.curr;
        self.curr = self.curr + 1;
        tmp
    }

    /// Gives `t` the next identifier.
    pub fn set_id<T: SetId>(&mut self, t: T) -> (r: T)
        requires
            old(self).upcoming() < u32::MAX,
        ensures
            r.id_of() == old(self).upcoming(),
            final(self).upcoming() == old(self).upcoming() + 1,
    {
        let id = self.next_uid();
        t.set_id(id)
    }

    /// Gives every item the next identifier, in order: the item at position
    /// `k` gets the `k`-th identifier handed out.
    pub fn set_id_iter<T: SetId>(&mut self, items: Vec<T>) -> (r: Vec<T>)
        requires
            old(self).upcoming() + items@.len() <= u32::MAX,
        ensures
            r@.len() == items@.len(),
            forall|k: int| 0 <= k < r@.len() ==> (#[trigger] r@[k]).id_of() == old(self).upcoming() + k,
            final(self).upcoming() == old(self).upcoming() + items@.len(),
    {
        let ghost n = items@.len();
        let mut rest = items;
        let mut rev: Vec<T> = Vec::new();
        while rest.len() > 0
            invariant
                rest@.len() + rev@.len() == n,
            decreases rest.len(),
        {
            let t = rest.pop().unwrap();
            rev.push(t);
        }
        let mut out: Vec<T> = Vec::new();
        while rev.len() > 0
            invariant
                rev@.len() + out@.len() == n,
                self.upcoming() == old(self).upcoming() + out@.len(),
                forall|k: int| 0 <= k < out@.len() ==> (#[trigger] out@[k]).id_of() == old(self).upcoming() + k,
                old(self).upcoming() + n <= u32::MAX,
            decreases rev.len(),
        {
            let t = rev.pop().unwrap();
            let t = self.set_id(t);
            out.push(t);
        }
        out
    }
}

impl Default for UniqueId {
    fn default() -> (r: Self)
        ensures
            r.upcoming() == 0,
    {
        Self::new()
    }
}

} // verus!
