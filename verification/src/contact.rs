use vstd::prelude::*;

verus! {

/// What a contact manifold between the sensor's owner and a hit collider says
/// about the cast. The two comparisons are made by the engine side, on the
/// manifold's normals: `normal1_beyond_cutoff` is
/// `cutoff < normal1 · cast_direction`, and likewise for `normal2`.
#[derive(Clone, Copy, Debug, PartialEq, Eq, Structural)]
pub struct ManifoldFacts {
    /// The manifold holds at least one contact point.
    pub has_contacts: bool,
    /// The first normal points along the cast more than the cutoff allows.
    pub normal1_beyond_cutoff: bool,
    /// The second normal points along the cast more than the cutoff allows.
    pub normal2_beyond_cutoff: bool,
}

/// The contacts that the engine records between the sensor's owner and a hit
/// collider: which of the two entities it lists first, and its manifolds.
#[derive(Debug)]
pub struct ContactPair {
    pub entity1: u64,
    pub manifolds: Vec<ManifoldFacts>,
}

/// A manifold blocks the hit when it has contacts and the normal that points
/// away from the owner (the second normal when the owner is listed first,
/// the first one otherwise) is beyond the cutoff.
pub open spec fn manifold_blocks(m: ManifoldFacts, owner_listed_first: bool) -> bool {
    m.has_contacts && (if owner_listed_first {
        m.normal2_beyond_cutoff
    } else {
        m.normal1_beyond_cutoff
    })
}

/// A hit is passed over when the owner already touches the hit collider
/// through some manifold that blocks it.
pub open spec fn contact_blocks_spec(owner: u64, contacts: Option<ContactPair>) -> bool {
    match contacts {
        None => false,
        Some(pair) => pair_blocks(owner, pair),
    }
}

/// Some manifold of the pair blocks the hit.
pub open spec fn pair_blocks(owner: u64, pair: ContactPair) -> bool {
    exists|i: int|
        0 <= i < pair.manifolds@.len() && manifold_blocks(
            #[trigger] pair.manifolds@[i],
            owner == pair.entity1,
        )
}

/// Whether the owner's existing contacts with a hit collider make the sensor
/// pass over that hit.
pub fn contact_blocks(owner: u64, contacts: &Option<ContactPair>) -> (blocks: bool)
    ensures
        blocks == contact_blocks_spec(owner, *contacts),
{
    match contacts {
        None => false,
        Some(pair) => {
            let owner_listed_first = owner == pair.entity1;
            let n = pair.manifolds.len();
            let mut i: usize = 0;
            while i < n
                invariant
                    n == pair.manifolds@.len(),
                    *contacts == Some(*pair),
                    i <= n,
                    owner_listed_first == (owner == pair.entity1),
                    forall|j: int|
                        0 <= j < i ==> !manifold_blocks(
                            #[trigger] pair.manifolds@[j],
                            owner_listed_first,
                        ),
                decreases n - i,
            {
                let m = pair.manifolds[i];
                if m.has_contacts {
                    let normal_beyond = if owner_listed_first {
                        m.normal2_beyond_cutoff
                    } else {
                        m.normal1_beyond_cutoff
                    };
                    if normal_beyond {
                        assert(manifold_blocks(pair.manifolds@[i as int], owner == pair.entity1));
                        return true;
                    }
                }
                i += 1;
            }
            false
        },
    }
}

/// The normal consulted on the owner's side is fixed by which entity the pair
/// lists first, not by how the entity ids compare: when the owner is listed
/// first, the hit is skipped exactly when some manifold with contact points has
/// its second normal beyond the cutoff; otherwise exactly when some such
/// manifold has its first normal beyond the cutoff. Without recorded contacts
/// no hit is skipped.
pub proof fn lemma_owner_side_normal(owner: u64, pair: ContactPair)
    ensures
        !contact_blocks_spec(owner, None),
        owner == pair.entity1 ==> (contact_blocks_spec(owner, Some(pair)) <==> exists|i: int|
            0 <= i < pair.manifolds@.len() && (#[trigger] pair.manifolds@[i]).has_contacts
                && pair.manifolds@[i].normal2_beyond_cutoff),
        owner != pair.entity1 ==> (contact_blocks_spec(owner, Some(pair)) <==> exists|i: int|
            0 <= i < pair.manifolds@.len() && (#[trigger] pair.manifolds@[i]).has_contacts
                && pair.manifolds@[i].normal1_beyond_cutoff),
{
    if contact_blocks_spec(owner, Some(pair)) {
        let i = choose|i: int|
            0 <= i < pair.manifolds@.len() && manifold_blocks(
                #[trigger] pair.manifolds@[i],
                owner == pair.entity1,
            );
        assert(pair.manifolds@[i].has_contacts);
    }
    if owner == pair.entity1 {
        if exists|i: int|
            0 <= i < pair.manifolds@.len() && (#[trigger] pair.manifolds@[i]).has_contacts
                && pair.manifolds@[i].normal2_beyond_cutoff {
            let i = choose|i: int|
                0 <= i < pair.manifolds@.len() && (#[trigger] pair.manifolds@[i]).has_contacts
                    && pair.manifolds@[i].normal2_beyond_cutoff;
            assert(manifold_blocks(pair.manifolds@[i], owner == pair.entity1));
        }
    } else {
        if exists|i: int|
            0 <= i < pair.manifolds@.len() && (#[trigger] pair.manifolds@[i]).has_contacts
                && pair.manifolds@[i].normal1_beyond_cutoff {
            let i = choose|i: int|
                0 <= i < pair.manifolds@.len() && (#[trigger] pair.manifolds@[i]).has_contacts
                    && pair.manifolds@[i].normal1_beyond_cutoff;
            assert(manifold_blocks(pair.manifolds@[i], owner == pair.entity1));
        }
    }
}

} // verus!
