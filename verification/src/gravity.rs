//! Identity allocation and deterministic color derivation for bodies.
//!
//! Every body carries a unique, strictly increasing identifier; when a caller
//! asks for an automatic color (by passing the sentinel value), the color is
//! derived deterministically from the identifier by a linear congruential
//! generator.

use vstd::prelude::*;

verus! {

/// Multiplier of the linear congruential step.
pub const LCG_A: u32 = 1664525;

/// Increment of the linear congruential step.
pub const LCG_C: u32 = 1013904223;

/// Sentinel color value that requests an automatically derived color.
pub const AUTO_COLOR: u32 = 0xFAFAFAFA;

/// One linear congruential step: `x * A + C mod 2^32`.
pub open spec fn lcg_step(x: u32) -> u32 {
    ((x * LCG_A + LCG_C) % 0x1_0000_0000) as u32
}

/// Three linear congruential steps applied to an id (truncated to 32 bits).
pub open spec fn color_of_id(id: usize) -> u32 {
    lcg_step(lcg_step(lcg_step(((id as int) % 0x1_0000_0000) as u32)))
}

/// Deterministic pseudo-random 32-bit value derived from an id by three
/// iterations of the linear congruential step.
#[verifier::rlimit(100)]
pub fn generate_semi_random_u32(id: usize) -> (r: u32)
    ensures
        r == color_of_id(id),
{
    let wide: u64 = id as u64;
    let mut id: u32 = #[verifier::truncate] (wide as u32);
    assert(wide as u32 == wide % 0x1_0000_0000) by (bit_vector);

    let ghost i0: u32 = id;
    id = ((id as u64 * LCG_A as u64 + LCG_C as u64) % 0x1_0000_0000) as u32;
    assert(id == lcg_step(i0));

    let ghost i1: u32 = id;
    id = ((id as u64 * LCG_A as u64 + LCG_C as u64) % 0x1_0000_0000) as u32;
    assert(id == lcg_step(i1));

    let ghost i2: u32 = id;
    id = ((id as u64 * LCG_A as u64 + LCG_C as u64) % 0x1_0000_0000) as u32;
    assert(id == lcg_step(i2));

    id
}

/// The color a body gets: the supplied color verbatim, unless it is the
/// sentinel, in which case a color derived from the id.
pub open spec fn resolved_color(id: usize, color: u32) -> u32 {
    if color == AUTO_COLOR {
        color_of_id(id)
    } else {
        color
    }
}

/// Resolves the color supplied at body construction: the sentinel value asks
/// for a color derived from the body's id, any other value is kept verbatim.
pub fn resolve_color(id: usize, color: u32) -> (r: u32)
    ensures
        r == resolved_color(id, color),
{
    if color == AUTO_COLOR {
        generate_semi_random_u32(id)
    } else {
        color
    }
}

/// Monotonic source of body identifiers: each call to `id` returns the number
/// of ids issued so far and increments it, so ids are issued as `0, 1, 2, ...`
/// with no reuse and no gaps.
pub struct IdAllocator {
    count: usize,
}

impl IdAllocator {
    /// The number of ids issued so far.
    pub closed spec fn issued(&self) -> nat {
        self.count as nat
    }

    /// A fresh allocator: no ids issued yet, so the first id is 0.
    pub fn new() -> (r: IdAllocator)
        ensures
            r.issued() == 0,
    {
        IdAllocator { count: 0 }
    }

    /// Issues the next identifier: one greater than the previous call's
    /// result, starting at 0.
    pub fn id(&mut self) -> (r: usize)
        requires
            old(self).issued() < usize::MAX,
        ensures
            r == old(self).issued(),
            final(self).issued() == old(self).issued() + 1,
    {
        let r = self.count;
        self.count = self.count + 1;
        r
    }

    /// The number of ids issued so far.
    pub fn get_current_id(&self) -> (r: usize)
        ensures
            r == self.issued(),
    {
        self.count
    }

    /// How many ids were issued before the `pending` most recent ones: lets a
    /// caller that registered `pending` entities recover the id of the first
    /// of them.
    pub fn get_id_offset(&self, pending: usize) -> (r: usize)
        requires
            pending <= self.issued(),
        ensures
            r == self.issued() - pending,
    {
        self.count - pending
    }
}

/// One call of `IdAllocator::id`: it returns the count of ids issued before
/// it and leaves the count one higher.
pub open spec fn id_call(pre: IdAllocator, post: IdAllocator, r: usize) -> bool {
    r == pre.issued() && post.issued() == pre.issued() + 1
}

proof fn lemma_id_chain_counts(states: Seq<IdAllocator>, ids: Seq<usize>, k: int)
    requires
        states.len() == ids.len() + 1,
        forall|j: int|
            0 <= j < ids.len() ==> #[trigger] id_call(states[j], states[j + 1], ids[j]),
        0 <= k <= ids.len(),
    ensures
        states[k].issued() == states[0].issued() + k,
    decreases k,
{
    if k > 0 {
        lemma_id_chain_counts(states, ids, k - 1);
        assert(id_call(states[k - 1], states[k - 1 + 1], ids[k - 1]));
    }
}

/// Identity monotonicity: over any sequence of calls to `IdAllocator::id`,
/// the ids handed out are strictly increasing, so no id is ever repeated.
pub proof fn lemma_ids_strictly_increasing(states: Seq<IdAllocator>, ids: Seq<usize>)
    requires
        states.len() == ids.len() + 1,
        forall|j: int|
            0 <= j < ids.len() ==> #[trigger] id_call(states[j], states[j + 1], ids[j]),
    ensures
        forall|i: int, j: int| 0 <= i < j < ids.len() ==> ids[i] < ids[j],
{
    assert forall|i: int, j: int| 0 <= i < j < ids.len() implies ids[i] < ids[j] by {
        lemma_id_chain_counts(states, ids, i);
        lemma_id_chain_counts(states, ids, j);
        assert(id_call(states[i], states[i + 1], ids[i]));
        assert(id_call(states[j], states[j + 1], ids[j]));
    }
}

} // verus!
