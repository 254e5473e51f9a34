//! How the snake's body grows when it eats.
use vstd::prelude::*;

verus! {

/// Segments added to the snake for each piece of food eaten.
pub const GROWTH: usize = 5;

/// Grows a body by `GROWTH` segments, each a copy of its last segment, so
/// that the new segments unfold from the tail as the snake moves on.
pub fn grow_tail<T: Copy>(body: &mut Vec<T>)
    requires
        old(body).len() > 0,
    ensures
        final(body)@ == old(body)@ + Seq::new(GROWTH as nat, |i: int| old(body)@.last()),
{
    let last = body[body.len() - 1];
    let mut k: usize = 0;
    while k < GROWTH
        invariant
            k <= GROWTH,
            old(body)@.len() > 0,
            last == old(body)@.last(),
            body@ == old(body)@ + Seq::new(k as nat, |i: int| old(body)@.last()),
        decreases GROWTH - k,
    {
        body.push(last);
        assert(body@ =~= old(body)@ + Seq::new((k + 1) as nat, |i: int| old(body)@.last()));
        k = k + 1;
    }
}

} // verus!
