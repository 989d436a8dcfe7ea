//! A one-shot, order-preserving sequence of values. Consumption is
//! destructive: counting or taking items advances an exhaustion point that
//! never moves back, so a second full consumption observes nothing.

use vstd::prelude::*;

verus! {

/// A lazy, one-shot sequence of strings. `pos` is the exhaustion point:
/// everything before it has already been consumed.
pub struct LazySeq {
    items: Vec<String>,
    pos: usize,
}

impl LazySeq {
    /// The sequence is well formed: the exhaustion point lies inside it.
    pub closed spec fn well_formed(&self) -> bool {
        self.pos <= self.items@.len()
    }

    /// How many items are still unconsumed.
    pub closed spec fn remaining(&self) -> int {
        self.items@.len() - self.pos
    }

    /// The views of the items still unconsumed, in order.
    pub closed spec fn remaining_items(&self) -> Seq<Seq<char>> {
        self.items@.subrange(self.pos as int, self.items@.len() as int).map_values(|s: String| s@)
    }

    /// A fresh, entirely unconsumed sequence over `items`.
    pub fn from_items(items: Vec<String>) -> (r: LazySeq)
        ensures
            r.well_formed(),
            r.remaining() == items@.len(),
            r.remaining_items() == items@.map_values(|s: String| s@),
    {
        let r = LazySeq { items, pos: 0 };
        proof {
            assert(r.items@.subrange(0, r.items@.len() as int) =~= r.items@);
        }
        r
    }

    /// Consumes and returns the next item, or `None` once exhausted.
    pub fn next(&mut self) -> (r: Option<String>)
        requires
            old(self).well_formed(),
        ensures
            final(self).well_formed(),
            old(self).remaining() > 0 ==> {
                &&& r matches Some(s) && s@ == old(self).remaining_items()[0]
                &&& final(self).remaining() == old(self).remaining() - 1
                &&& final(self).remaining_items() == old(self).remaining_items().drop_first()
            },
            old(self).remaining() == 0 ==> r is None && *final(self) == *old(self),
    {
        if self.pos < self.items.len() {
            let s = self.items[self.pos].clone();
            self.pos = self.pos + 1;
            proof {
                assert(self.remaining_items() =~= old(self).remaining_items().drop_first());
            }
            Some(s)
        } else {
            None
        }
    }

    /// Exhausts the sequence and reports how many items were consumed.
    ///
    /// The count is the number of items that were still unconsumed at the
    /// call; consumption is destructive, so a repeated call reports zero.
    pub fn count(&mut self) -> (r: usize)
        requires
            old(self).well_formed(),
        ensures
            final(self).well_formed(),
            r == old(self).remaining(),
            final(self).remaining() == 0,
    {
        let start = self.pos;
        self.pos = self.items.len();
        self.items.len() - start
    }
}

/// Exhausts a one-shot sequence and reports its length.
pub fn from_generator(gen_obj: &mut LazySeq) -> (r: usize)
    requires
        old(gen_obj).well_formed(),
    ensures
        final(gen_obj).well_formed(),
        r == old(gen_obj).remaining(),
        final(gen_obj).remaining() == 0,
{
    gen_obj.count()
}

} // verus!
