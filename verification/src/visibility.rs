//! Linking shadow-casting entities to a shadow-enabled grid instance.
//!
//! An entity is included when it is currently visible and not explicitly
//! exempted from shadow casting. No spatial culling against the fitted
//! shadow frustum happens here: a known incompleteness kept as documented
//! behaviour, so the list may cast more than the tight frustum requires.

use vstd::prelude::*;

verus! {

/// What the scene reports about one candidate shadow caster.
#[derive(Clone, Copy, Debug, PartialEq, Eq, Structural)]
pub struct ShadowCaster {
    /// The scene's identifier for the entity.
    pub id: u64,
    /// Whether the entity is visible this frame.
    pub visible: bool,
    /// Whether the entity is explicitly marked as casting no shadow.
    pub not_shadow_caster: bool,
}

/// An entity casts onto the grid when visible and not exempt.
pub open spec fn eligible(c: ShadowCaster) -> bool {
    c.visible && !c.not_shadow_caster
}

/// The identifiers of the eligible entities, in their original order.
pub open spec fn eligible_ids(s: Seq<ShadowCaster>) -> Seq<u64>
    decreases s.len(),
{
    if s.len() == 0 {
        Seq::empty()
    } else {
        let rest = eligible_ids(s.drop_last());
        if eligible(s.last()) {
            rest.push(s.last().id)
        } else {
            rest
        }
    }
}

/// Collect the entities eligible to cast the grid shadow this frame, in
/// scene order.
pub fn collect_shadow_casters(casters: &Vec<ShadowCaster>) -> (r: Vec<u64>)
    ensures
        r@ == eligible_ids(casters@),
{
    let mut r: Vec<u64> = Vec::new();
    let mut i: usize = 0;
    while i < casters.len()
        invariant
            0 <= i <= casters.len(),
            r@ == eligible_ids(casters@.take(i as int)),
        decreases casters.len() - i,
    {
        let c: ShadowCaster = casters[i];
        proof {
            assert(casters@.take(i as int + 1).drop_last() =~= casters@.take(i as int));
            assert(casters@.take(i as int + 1).last() == casters@[i as int]);
        }
        if c.visible && !c.not_shadow_caster {
            r.push(c.id);
        }
        i = i + 1;
    }
    proof {
        assert(casters@.take(casters@.len() as int) =~= casters@);
    }
    r
}

} // verus!
