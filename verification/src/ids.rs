//! Identity generators for client and unit ids.
//!
//! Each generator hands out `u32` ids that are strictly increasing over
//! its lifetime, so ids are never reused, not even after a disconnect.
//! Running out of ids is a fatal condition: `next_id` refuses by
//! `requires` to wrap, and callers check `can_issue` first and abort the
//! server when it fails.

use vstd::prelude::*;

verus! {

/// Produces strictly increasing `u32` ids, starting at 0.
///
/// The ghost field `issued` records every id handed out so far, in order,
/// so that global uniqueness is a provable statement about any one value
/// of the generator.
pub struct IdGenerator {
    next: u32,
    issued: Ghost<Seq<u32>>,
}

impl IdGenerator {
    /// The next id this generator will hand out.
    pub closed spec fn next_spec(self) -> u32 {
        self.next
    }

    /// All ids handed out so far, oldest first.
    pub closed spec fn issued_ids(self) -> Seq<u32> {
        self.issued@
    }

    /// The issued ids are strictly increasing and all below `next`.
    pub open spec fn wf(self) -> bool {
        &&& forall|i: int, j: int|
            0 <= i < j < self.issued_ids().len() ==> (#[trigger] self.issued_ids()[i]) < (
            #[trigger] self.issued_ids()[j])
        &&& forall|i: int|
            0 <= i < self.issued_ids().len() ==> (#[trigger] self.issued_ids()[i])
                < self.next_spec()
    }

    pub fn new() -> (g: IdGenerator)
        ensures
            g.wf(),
            g.next_spec() == 0,
            g.issued_ids() =~= Seq::<u32>::empty(),
    {
        IdGenerator { next: 0, issued: Ghost(Seq::empty()) }
    }

    /// True when at least `n` more ids can be issued without exhausting
    /// the counter range.
    pub fn can_issue(&self, n: u32) -> (r: bool)
        ensures
            r <==> self.next_spec() + n <= u32::MAX,
    {
        self.next <= u32::MAX - n
    }

    /// Hands out the next id. Each id is strictly greater than every id
    /// issued before it.
    pub fn next_id(&mut self) -> (id: u32)
        requires
            old(self).wf(),
            old(self).next_spec() < u32::MAX,
        ensures
            final(self).wf(),
            id == old(self).next_spec(),
            final(self).next_spec() == id + 1,
            final(self).issued_ids() == old(self).issued_ids().push(id),
    {
        let id = self.next;
        self.next = self.next + 1;
        proof {
            self.issued@ = self.issued@.push(id);
            assert forall|i: int, j: int| 0 <= i < j < self.issued@.len() implies (
            #[trigger] self.issued@[i]) < (#[trigger] self.issued@[j]) by {
                if j == self.issued@.len() - 1 {
                    assert(self.issued@[i] == old(self).issued_ids()[i]);
                }
            }
        }
        id
    }
}

/// Law: every sequence of ids a well-formed generator has handed out is
/// strictly increasing, and therefore pairwise distinct. Client ids and
/// unit ids are only ever produced this way, so each family of assigned
/// ids is pairwise distinct and strictly increasing in issue order.
pub proof fn lemma_issued_ids_distinct_and_increasing(g: IdGenerator)
    requires
        g.wf(),
    ensures
        forall|i: int, j: int|
            0 <= i < j < g.issued_ids().len() ==> (#[trigger] g.issued_ids()[i]) < (
            #[trigger] g.issued_ids()[j]),
        forall|i: int, j: int|
            0 <= i < g.issued_ids().len() && 0 <= j < g.issued_ids().len() && i != j ==> (
            #[trigger] g.issued_ids()[i]) != (#[trigger] g.issued_ids()[j]),
{
}

} // verus!
