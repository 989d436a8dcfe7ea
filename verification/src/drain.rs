//! Draining an ordered sequence of strings into an output sink. The sink
//! records every emission, so the contract can state that draining N strings
//! causes exactly N emissions, in input order.

use vstd::prelude::*;

verus! {

/// The views of a sequence of strings.
pub open spec fn views_of(lines: Seq<String>) -> Seq<Seq<char>> {
    lines.map_values(|s: String| s@)
}

/// An output sink that keeps every line emitted to it, in emission order.
pub struct Sink {
    pub lines: Vec<String>,
}

impl View for Sink {
    type V = Seq<Seq<char>>;

    open spec fn view(&self) -> Seq<Seq<char>> {
        views_of(self.lines@)
    }
}

impl Sink {
    /// A sink with no emissions yet.
    pub fn new() -> (r: Sink)
        ensures
            r@ == Seq::<Seq<char>>::empty(),
    {
        let r = Sink { lines: Vec::new() };
        proof {
            assert(r@ =~= Seq::<Seq<char>>::empty());
        }
        r
    }

    /// Emits one line.
    pub fn emit(&mut self, line: &String)
        ensures
            final(self)@ == old(self)@.push(line@),
    {
        self.lines.push(line.clone());
        proof {
            assert(self@ =~= old(self)@.push(line@));
        }
    }

    /// How many emissions have occurred.
    pub fn emission_count(&self) -> (r: usize)
        ensures
            r == self@.len(),
    {
        self.lines.len()
    }
}

/// Emits every string of `iter_obj` to `sink`, in input order: exactly
/// `iter_obj` many new emissions, and nothing already emitted is disturbed.
pub fn iterable(sink: &mut Sink, iter_obj: &Vec<String>)
    ensures
        final(sink)@ == old(sink)@ + views_of(iter_obj@),
{
    let mut i: usize = 0;
    while i < iter_obj.len()
        invariant
            0 <= i <= iter_obj@.len(),
            sink@ == old(sink)@ + views_of(iter_obj@.subrange(0, i as int)),
        decreases iter_obj@.len() - i,
    {
        sink.emit(&iter_obj[i]);
        proof {
            assert(sink@ =~= old(sink)@ + views_of(iter_obj@.subrange(0, i + 1)));
        }
        i = i + 1;
    }
    proof {
        assert(iter_obj@.subrange(0, iter_obj@.len() as int) =~= iter_obj@);
    }
}

} // verus!
