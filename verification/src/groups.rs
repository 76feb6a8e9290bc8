//! Collision groups: which pairs of tracked shapes are eligible to interact.
//!
//! The group values are `ncollide2d`'s `CollisionGroups`. Verus does not see
//! inside that type; what this module says of its methods is taken on trust
//! from their source, and everything else is proved from it.

use ncollide2d::pipeline::CollisionGroups;
use vstd::prelude::*;

verus! {

/// `ncollide2d::pipeline::CollisionGroups`, carried as an opaque value.
#[verifier::external_type_specification]
#[verifier::external_body]
pub struct ExCollisionGroups(CollisionGroups);

/// What the `membership` field of a `CollisionGroups` holds: the groups the
/// value is a member of, bit `i` standing for group `i`.
pub uninterp spec fn membership_mask(g: CollisionGroups) -> u32;

/// What the `whitelist` field of a `CollisionGroups` holds: the groups the
/// value accepts partners from, bit `i` standing for group `i`.
pub uninterp spec fn whitelist_mask(g: CollisionGroups) -> u32;

/// What the `blacklist` field of a `CollisionGroups` holds: the groups the
/// value refuses partners from, bit `i` standing for group `i`.
pub uninterp spec fn blacklist_mask(g: CollisionGroups) -> u32;

/// Group indices run from 0 up to, but not including, this bound.
pub const GROUP_LIMIT: usize = 30;

/// The bit that stands for group `g`.
pub open spec fn group_bit(g: usize) -> u32 {
    1u32 << g
}

/// The mask with the bit of every group in `groups` set, and no other.
pub open spec fn mask_of(groups: Seq<usize>) -> u32
    decreases groups.len(),
{
    if groups.len() == 0 {
        0u32
    } else {
        mask_of(groups.drop_last()) | group_bit(groups.last())
    }
}

/// Every index in `groups` names a group.
pub open spec fn all_in_range(groups: Seq<usize>) -> bool {
    forall|i: int| 0 <= i < groups.len() ==> #[trigger] groups[i] < GROUP_LIMIT
}

/// Whether shapes carrying `a` and `b` are eligible to interact: each is a
/// member of a group the other accepts, and of none the other refuses.
pub open spec fn interacts(a: CollisionGroups, b: CollisionGroups) -> bool {
    &&& membership_mask(a) & blacklist_mask(b) == 0
    &&& membership_mask(b) & blacklist_mask(a) == 0
    &&& membership_mask(a) & whitelist_mask(b) != 0
    &&& membership_mask(b) & whitelist_mask(a) != 0
}

/// `CollisionGroups::new` returns a value that is a member of all thirty
/// groups, accepts all thirty and refuses none.
pub assume_specification[ CollisionGroups::new ]() -> (g: CollisionGroups)
    ensures
        membership_mask(g) == 0x3fff_ffffu32,
        whitelist_mask(g) == 0x3fff_ffffu32,
        blacklist_mask(g) == 0u32,
;

/// `CollisionGroups::set_membership` makes the value a member of the listed
/// groups only, and leaves what it accepts and refuses alone. It panics on an
/// index of 30 or more, which the precondition rules out.
pub assume_specification[ CollisionGroups::set_membership ](
    g: &mut CollisionGroups,
    groups: &[usize],
)
    requires
        all_in_range(groups@),
    ensures
        membership_mask(*final(g)) == mask_of(groups@),
        whitelist_mask(*final(g)) == whitelist_mask(*old(g)),
        blacklist_mask(*final(g)) == blacklist_mask(*old(g)),
;

/// `CollisionGroups::set_whitelist` makes the value accept the listed groups
/// only, and leaves its membership and what it refuses alone. It panics on an
/// index of 30 or more, which the precondition rules out.
pub assume_specification[ CollisionGroups::set_whitelist ](
    g: &mut CollisionGroups,
    groups: &[usize],
)
    requires
        all_in_range(groups@),
    ensures
        whitelist_mask(*final(g)) == mask_of(groups@),
        membership_mask(*final(g)) == membership_mask(*old(g)),
        blacklist_mask(*final(g)) == blacklist_mask(*old(g)),
;

/// `CollisionGroups::can_interact_with_groups` compares the three masks of
/// the two values as `interacts` says.
pub assume_specification[ CollisionGroups::can_interact_with_groups ](
    a: &CollisionGroups,
    b: &CollisionGroups,
) -> (r: bool)
    ensures
        r == interacts(*a, *b),
;

/// A group value that is a member of group `own` alone, accepts partners from
/// the groups in `accepted` alone, and refuses none.
pub fn group_accepting(own: usize, accepted: &Vec<usize>) -> (g: CollisionGroups)
    requires
        own < GROUP_LIMIT,
        all_in_range(accepted@),
    ensures
        membership_mask(g) == group_bit(own),
        whitelist_mask(g) == mask_of(accepted@),
        blacklist_mask(g) == 0u32,
{
    let mut g = CollisionGroups::new();
    let mut member: Vec<usize> = Vec::new();
    member.push(own);
    g.set_membership(member.as_slice());
    g.set_whitelist(accepted.as_slice());
    proof {
        lemma_mask_of_one(own);
    }
    g
}

/// The mask of a single group is that group's bit.
pub proof fn lemma_mask_of_one(g: usize)
    ensures
        mask_of(seq![g]) == group_bit(g),
{
    let s = seq![g];
    assert(mask_of(s.drop_last()) == 0u32);
    let b = group_bit(g);
    assert(0u32 | b == b) by (bit_vector);
}

} // verus!
