use vstd::prelude::*;

use crate::contact::{contact_blocks, contact_blocks_spec, ContactPair};
use crate::layers::{excluded_by_collision_layers, excluded_by_layers, CollisionLayerBits, PhysicsBackend};
use crate::toggle::{effective_toggle, effective_toggle_spec, TnuaToggle};

verus! {

/// What the engine knows of the entity behind a hit collider.
#[derive(Clone, Copy, Debug, PartialEq, Eq, Structural)]
pub struct ObjectFacts {
    /// The entity is a ghost platform.
    pub is_ghost: bool,
    /// The collider is a sensor of the engine (it does not collide).
    pub is_sensor: bool,
    /// The entity's collision layers, if it has any.
    pub layers: Option<CollisionLayerBits>,
}

/// Everything the sensor decides a hit on: the owner's recorded contacts with
/// the hit collider, and what is known of the hit entity (nothing when the
/// entity cannot be looked up).
#[derive(Debug)]
pub struct HitFacts {
    pub contacts: Option<ContactPair>,
    pub object: Option<ObjectFacts>,
}

/// How the proximity sensor treats one hit of its cast.
#[derive(Clone, Copy, Debug, PartialEq, Eq, Structural)]
pub enum HitClass {
    /// The owner already touches the collider on the cast's side: skip it, go on.
    BlockedByContact,
    /// The hit entity cannot be looked up: stop, reporting nothing for this hit.
    Unknown,
    /// A ghost platform: record it among the ghosts, go on.
    GhostPlatform,
    /// A sensor collider, or one excluded by collision layers: skip it, go on.
    PassedOver,
    /// A tangible collider: it is the sensor's output, stop.
    Tangible,
}

/// The class of a hit, in the order in which the sensor tests it.
pub open spec fn hit_class(
    backend: PhysicsBackend,
    owner: u64,
    owner_layers: Option<CollisionLayerBits>,
    hit: HitFacts,
) -> HitClass {
    if contact_blocks_spec(owner, hit.contacts) {
        HitClass::BlockedByContact
    } else {
        match hit.object {
            None => HitClass::Unknown,
            Some(o) => if o.is_ghost {
                HitClass::GhostPlatform
            } else if o.is_sensor || excluded_by_layers(backend, owner_layers, o.layers) {
                HitClass::PassedOver
            } else {
                HitClass::Tangible
            },
        }
    }
}

/// Classifies one hit of the sensor's cast.
pub fn classify_hit(
    backend: PhysicsBackend,
    owner: u64,
    owner_layers: Option<CollisionLayerBits>,
    hit: &HitFacts,
) -> (class: HitClass)
    ensures
        class == hit_class(backend, owner, owner_layers, *hit),
{
    if contact_blocks(owner, &hit.contacts) {
        return HitClass::BlockedByContact;
    }
    match hit.object {
        None => HitClass::Unknown,
        Some(o) => {
            if o.is_ghost {
                HitClass::GhostPlatform
            } else if o.is_sensor || excluded_by_collision_layers(backend, owner_layers, o.layers) {
                HitClass::PassedOver
            } else {
                HitClass::Tangible
            }
        },
    }
}

/// The entity on whose behalf a sensor senses: the owner named by its
/// subservient-sensor component, or the sensor's own entity.
pub fn sensing_owner(sensor_entity: u64, subservient_owner: Option<u64>) -> (owner: u64)
    ensures
        owner == (match subservient_owner {
            Some(o) => o,
            None => sensor_entity,
        }),
{
    match subservient_owner {
        Some(o) => o,
        None => sensor_entity,
    }
}

/// A hit of this class ends the cast.
pub open spec fn stops(c: HitClass) -> bool {
    c is Unknown || c is Tangible
}

/// Whether a sensor is updated this frame: under `Disabled` its output and its
/// ghost list are left as they are; under every other toggle both are cleared
/// and filled from a new cast.
pub fn sensing_due(toggle: Option<TnuaToggle>) -> (due: bool)
    ensures
        due == !(effective_toggle_spec(toggle) is Disabled),
        due <==> toggle != Some(TnuaToggle::Disabled),
{
    match effective_toggle(toggle) {
        TnuaToggle::Disabled => false,
        TnuaToggle::SenseOnly => true,
        TnuaToggle::Enabled => true,
    }
}

/// How the sensor probes the world. The engines deliver the hits of a shape
/// cast nearest first, and those of a ray cast in no particular order.
#[derive(Clone, Copy, Debug, PartialEq, Eq, Structural)]
pub enum CastKind {
    Ray,
    Shape,
}

/// Whether the engine should go on delivering hits after this one. A shape
/// cast delivers its hits nearest first, so it can end at the first hit that
/// decides the reading; a ray cast must deliver all of its hits, since a nearer
/// one may still come.
pub fn keep_casting(kind: CastKind, class: HitClass) -> (keep_going: bool)
    ensures
        keep_going == (kind is Ray || !stops(class)),
        kind == CastKind::Ray ==> keep_going,
        kind == CastKind::Shape ==> (keep_going <==> !(class == HitClass::Unknown || class
            == HitClass::Tangible)),
{
    match kind {
        CastKind::Ray => true,
        CastKind::Shape => !stops_exec(class),
    }
}

/// One hit of a cast, as delivered by the engine: its class, and a key that
/// orders the hits as their distances along the cast do (the nearer hit has
/// the smaller key; equal distances give equal keys).
#[derive(Clone, Copy, Debug, PartialEq, Eq, Structural)]
pub struct CastHit {
    pub distance_key: u32,
    pub class: HitClass,
}

/// Hit `a` comes before hit `b` along the cast: it is nearer, or as near and
/// delivered earlier.
pub open spec fn precedes(hits: Seq<CastHit>, a: int, b: int) -> bool {
    hits[a].distance_key < hits[b].distance_key || (hits[a].distance_key == hits[b].distance_key
        && a < b)
}

/// Hit `k` is seen by the sensor: no hit before it along the cast ends the cast.
pub open spec fn reached(hits: Seq<CastHit>, k: int) -> bool {
    forall|j: int| 0 <= j < hits.len() && #[trigger] precedes(hits, j, k) ==> !stops(hits[j].class)
}

/// The hits listed in `g` come in order along the cast.
pub open spec fn in_cast_order(hits: Seq<CastHit>, g: Seq<usize>) -> bool {
    forall|p: int, q: int|
        0 <= p < q < g.len() ==> #[trigger] precedes(hits, g[p] as int, g[q] as int)
}

/// The sensor's reading after a cast: the hit chosen as output and the ghost
/// hits, both by their index in the order the engine delivered them.
#[derive(Debug)]
pub struct SensorReading {
    pub output: Option<usize>,
    pub ghosts: Vec<usize>,
}

fn stops_exec(class: HitClass) -> (r: bool)
    ensures
        r == stops(class),
{
    match class {
        HitClass::Unknown | HitClass::Tangible => true,
        _ => false,
    }
}

fn precedes_exec(hits: &Vec<CastHit>, a: usize, b: usize) -> (r: bool)
    requires
        a < hits@.len(),
        b < hits@.len(),
    ensures
        r == precedes(hits@, a as int, b as int),
{
    hits[a].distance_key < hits[b].distance_key || (hits[a].distance_key == hits[b].distance_key
        && a < b)
}

/// The hit that ends the cast: the first, along the cast, of the hits that stop it.
fn first_stop(hits: &Vec<CastHit>) -> (stop: Option<usize>)
    ensures
        match stop {
            Some(s) => s < hits@.len() && stops(hits@[s as int].class) && forall|j: int|
                0 <= j < hits@.len() && stops(#[trigger] hits@[j].class) ==> (j == s || precedes(
                    hits@,
                    s as int,
                    j,
                )),
            None => forall|j: int| 0 <= j < hits@.len() ==> !stops(#[trigger] hits@[j].class),
        },
{
    let n = hits.len();
    let mut stop: Option<usize> = None;
    for i in 0..n
        invariant
            n == hits@.len(),
            match stop {
                Some(s) => s < i && stops(hits@[s as int].class) && forall|j: int|
                    0 <= j < i && stops(#[trigger] hits@[j].class) ==> (j == s || precedes(
                        hits@,
                        s as int,
                        j,
                    )),
                None => forall|j: int| 0 <= j < i ==> !stops(#[trigger] hits@[j].class),
            },
    {
        if stops_exec(hits[i].class) {
            match stop {
                None => {
                    stop = Some(i);
                },
                Some(s) => {
                    if precedes_exec(hits, i, s) {
                        stop = Some(i);
                    }
                },
            }
        }
    }
    stop
}

/// Whether hit `k` is seen, given the hit that ends the cast.
fn reached_exec(hits: &Vec<CastHit>, stop: Option<usize>, k: usize) -> (r: bool)
    requires
        k < hits@.len(),
        match stop {
            Some(s) => s < hits@.len() && stops(hits@[s as int].class) && forall|j: int|
                0 <= j < hits@.len() && stops(#[trigger] hits@[j].class) ==> (j == s || precedes(
                    hits@,
                    s as int,
                    j,
                )),
            None => forall|j: int| 0 <= j < hits@.len() ==> !stops(#[trigger] hits@[j].class),
        },
    ensures
        r == reached(hits@, k as int),
{
    match stop {
        None => {
            assert forall|j: int| 0 <= j < hits@.len() && #[trigger] precedes(hits@, j, k as int)
                implies !stops(hits@[j].class) by {}
            true
        },
        Some(s) => {
            let r = !precedes_exec(hits, s, k);
            if r {
                assert forall|j: int|
                    0 <= j < hits@.len() && #[trigger] precedes(hits@, j, k as int) implies !stops(
                    hits@[j].class,
                ) by {
                    if stops(hits@[j].class) {
                        assert(j == s || precedes(hits@, s as int, j));
                    }
                }
            } else {
                assert(precedes(hits@, s as int, k as int));
            }
            r
        },
    }
}

/// Reads a whole cast. The hits are given in the order the engine delivered
/// them, each with its distance key; the reading goes by distance, so the order
/// of delivery only breaks ties.
///
/// The output is the nearest tangible hit, provided no nearer hit ended the
/// cast (a hit whose entity cannot be looked up ends it without output). The
/// ghosts, kept only when the entity has a ghost sensor, are all ghost platforms
/// nearer than the hit that ended the cast, nearest first.
pub fn sense_cast(records_ghosts: bool, hits: &Vec<CastHit>) -> (reading: SensorReading)
    ensures
        match reading.output {
            Some(k) => k < hits@.len() && reached(hits@, k as int) && hits@[k as int].class is Tangible,
            None => forall|k: int|
                0 <= k < hits@.len() && reached(hits@, k) ==> !(#[trigger] hits@[k].class is Tangible),
        },
        records_ghosts ==> {
            &&& in_cast_order(hits@, reading.ghosts@)
            &&& forall|p: int|
                0 <= p < reading.ghosts@.len() ==> {
                    let g = #[trigger] reading.ghosts@[p] as int;
                    &&& g < hits@.len()
                    &&& reached(hits@, g)
                    &&& hits@[g].class is GhostPlatform
                }
            &&& forall|k: int|
                0 <= k < hits@.len() && reached(hits@, k) && #[trigger] hits@[k].class is GhostPlatform
                    ==> reading.ghosts@.contains(k as usize)
        },
        !records_ghosts ==> reading.ghosts@.len() == 0,
{
    let n = hits.len();
    let stop = first_stop(hits);
    let output = match stop {
        Some(s) => {
            if hits[s].class == HitClass::Tangible {
                assert(reached(hits@, s as int));
                Some(s)
            } else {
                None
            }
        },
        None => None,
    };
    proof {
        assert forall|k: int|
            0 <= k < hits@.len() && reached(hits@, k) && #[trigger] hits@[k].class is Tangible
            implies output == Some(k as usize) by {
            match stop {
                Some(s) => {
                    assert(k == s || precedes(hits@, s as int, k));
                    if k != s {
                        assert(!stops(hits@[s as int].class));
                    }
                },
                None => {
                    assert(!stops(hits@[k].class));
                },
            }
        }
    }
    let mut ghosts: Vec<usize> = Vec::new();
    if records_ghosts {
        for i in 0..n
            invariant
                n == hits@.len(),
                match stop {
                    Some(s) => s < hits@.len() && stops(hits@[s as int].class) && forall|j: int|
                        0 <= j < hits@.len() && stops(#[trigger] hits@[j].class) ==> (j == s
                            || precedes(hits@, s as int, j)),
                    None => forall|j: int| 0 <= j < hits@.len() ==> !stops(#[trigger] hits@[j].class),
                },
                in_cast_order(hits@, ghosts@),
                forall|p: int|
                    0 <= p < ghosts@.len() ==> {
                        let g = #[trigger] ghosts@[p] as int;
                        &&& g < i
                        &&& reached(hits@, g)
                        &&& hits@[g].class is GhostPlatform
                    },
                forall|k: int|
                    0 <= k < i && reached(hits@, k) && #[trigger] hits@[k].class is GhostPlatform
                        ==> ghosts@.contains(k as usize),
        {
            if hits[i].class == HitClass::GhostPlatform && reached_exec(hits, stop, i) {
                let mut p: usize = 0;
                while p < ghosts.len() && precedes_exec(hits, ghosts[p], i)
                    invariant
                        n == hits@.len(),
                        i < n,
                        p <= ghosts@.len(),
                        forall|q: int| 0 <= q < ghosts@.len() ==> #[trigger] ghosts@[q] < i,
                        forall|q: int| 0 <= q < p ==> precedes(hits@, #[trigger] ghosts@[q] as int, i as int),
                    decreases ghosts@.len() - p,
                {
                    p += 1;
                }
                let ghost old_ghosts = ghosts@;
                proof {
                    assert forall|q: int| p <= q < old_ghosts.len() implies precedes(
                        hits@,
                        i as int,
                        #[trigger] old_ghosts[q] as int,
                    ) by {
                        assert(!precedes(hits@, old_ghosts[p as int] as int, i as int));
                        if q > p {
                            assert(precedes(hits@, old_ghosts[p as int] as int, old_ghosts[q] as int));
                        }
                    }
                }
                ghosts.insert(p, i);
                proof {
                    assert forall|a: int, b: int| 0 <= a < b < ghosts@.len() implies #[trigger] precedes(
                        hits@,
                        ghosts@[a] as int,
                        ghosts@[b] as int,
                    ) by {
                        if b < p {
                            assert(precedes(hits@, old_ghosts[a] as int, old_ghosts[b] as int));
                        } else if b == p {
                            assert(precedes(hits@, old_ghosts[a] as int, i as int));
                        } else if a < p {
                            assert(precedes(hits@, old_ghosts[a] as int, old_ghosts[b - 1] as int));
                        } else if a == p {
                            assert(precedes(hits@, i as int, old_ghosts[b - 1] as int));
                        } else {
                            assert(precedes(hits@, old_ghosts[a - 1] as int, old_ghosts[b - 1] as int));
                        }
                    }
                    assert forall|q: int| 0 <= q < ghosts@.len() implies {
                        let g = #[trigger] ghosts@[q] as int;
                        &&& g < i + 1
                        &&& reached(hits@, g)
                        &&& hits@[g].class is GhostPlatform
                    } by {
                        if q < p {
                            assert(ghosts@[q] == old_ghosts[q]);
                        } else if q > p {
                            assert(ghosts@[q] == old_ghosts[q - 1]);
                        }
                    }
                    assert forall|k: int|
                        0 <= k < i + 1 && reached(hits@, k) && #[trigger] hits@[k].class is GhostPlatform
                        implies ghosts@.contains(k as usize) by {
                        if k < i {
                            assert(old_ghosts.contains(k as usize));
                            let w = choose|w: int| 0 <= w < old_ghosts.len() && old_ghosts[w] == k as usize;
                            if w < p {
                                assert(ghosts@[w] == k as usize);
                            } else {
                                assert(ghosts@[w + 1] == k as usize);
                            }
                        } else {
                            assert(ghosts@[p as int] == i);
                        }
                    }
                }
            } else {
                proof {
                    assert forall|q: int| 0 <= q < ghosts@.len() implies {
                        let g = #[trigger] ghosts@[q] as int;
                        &&& g < i + 1
                        &&& reached(hits@, g)
                        &&& hits@[g].class is GhostPlatform
                    } by {}
                }
            }
        }
    }
    SensorReading { output, ghosts }
}

/// Every ghost platform the sensor sees is nearer, along the cast, than the
/// tangible hit it reports.
pub proof fn lemma_ghosts_nearer_than_output(hits: Seq<CastHit>, g: int, k: int)
    requires
        0 <= g < hits.len(),
        0 <= k < hits.len(),
        reached(hits, g),
        hits[g].class is GhostPlatform,
        hits[k].class is Tangible,
    ensures
        precedes(hits, g, k),
{
    assert(!precedes(hits, k, g));
}

/// A cast whose hits come nearest first may end at the first hit that stops
/// it: the hits seen are then exactly those up to that one, and the hits
/// delivered after it would not change the reading.
pub proof fn lemma_nearest_first_cast_may_end_early(hits: Seq<CastHit>, s: int)
    requires
        0 <= s < hits.len(),
        forall|a: int, b: int|
            0 <= a < b < hits.len() ==> #[trigger] hits[a].distance_key <= #[trigger] hits[b].distance_key,
        stops(hits[s].class),
        forall|j: int| 0 <= j < s ==> !stops(#[trigger] hits[j].class),
    ensures
        forall|k: int| 0 <= k < hits.len() ==> (#[trigger] reached(hits, k) <==> k <= s),
        forall|k: int|
            0 <= k <= s ==> (#[trigger] reached(hits.take(s + 1), k) <==> reached(hits, k)),
{
    assert forall|k: int| 0 <= k < hits.len() implies (#[trigger] reached(hits, k) <==> k <= s) by {
        if k <= s {
            assert forall|j: int| 0 <= j < hits.len() && #[trigger] precedes(hits, j, k) implies !stops(
                hits[j].class,
            ) by {
                if j > k {
                    assert(hits[k].distance_key <= hits[j].distance_key);
                }
            }
        } else {
            assert(hits[s].distance_key <= hits[k].distance_key);
            assert(precedes(hits, s, k));
        }
    }
    let t = hits.take(s + 1);
    assert forall|k: int| 0 <= k <= s implies (#[trigger] reached(t, k) <==> reached(hits, k)) by {
        assert forall|j: int| 0 <= j < t.len() && #[trigger] precedes(t, j, k) implies !stops(
            t[j].class,
        ) by {
            assert(t[j] == hits[j]);
            if j > k {
                assert(hits[k].distance_key <= hits[j].distance_key);
            }
        }
    }
}

/// How each hit is classified, in terms of the facts themselves:
/// a hit skipped for a blocking contact is that and nothing else; otherwise an
/// entity that cannot be looked up ends the cast; a ghost platform is recorded
/// as a ghost whatever its sensor flag and collision layers; a sensor collider
/// is passed over; and any other collider is tangible exactly when the owner's
/// own layers and the collider's layers pass the engine's interaction test.
pub proof fn lemma_classification(
    backend: PhysicsBackend,
    owner: u64,
    owner_layers: Option<CollisionLayerBits>,
    hit: HitFacts,
)
    ensures
        contact_blocks_spec(owner, hit.contacts) ==> hit_class(backend, owner, owner_layers, hit)
            == HitClass::BlockedByContact,
        !contact_blocks_spec(owner, hit.contacts) ==> match hit.object {
            None => hit_class(backend, owner, owner_layers, hit) == HitClass::Unknown,
            Some(o) => {
                &&& o.is_ghost ==> hit_class(backend, owner, owner_layers, hit)
                    == HitClass::GhostPlatform
                &&& !o.is_ghost && o.is_sensor ==> hit_class(backend, owner, owner_layers, hit)
                    == HitClass::PassedOver
                &&& !o.is_ghost && !o.is_sensor ==> (hit_class(backend, owner, owner_layers, hit)
                    is Tangible || hit_class(backend, owner, owner_layers, hit) is PassedOver)
                &&& !o.is_ghost && !o.is_sensor ==> ((hit_class(backend, owner, owner_layers, hit)
                    is Tangible) == !excluded_by_layers(backend, owner_layers, o.layers))
                &&& !o.is_ghost && !o.is_sensor && owner_layers is Some && o.layers is Some ==> ((
                hit_class(backend, owner, owner_layers, hit) is Tangible) == ((
                owner_layers->0.memberships & o.layers->0.filters) != 0u32 && (
                o.layers->0.memberships & owner_layers->0.filters) != 0u32))
            },
        },
{
}

/// The hits that end a cast are exactly those whose entity cannot be looked up
/// and the tangible ones.
pub proof fn lemma_what_ends_a_cast(c: HitClass)
    ensures
        stops(c) <==> (c == HitClass::Unknown || c == HitClass::Tangible),
{
}

/// A hit is seen by the sensor exactly when no hit that is nearer, or as near
/// and delivered earlier, is tangible or belongs to an entity that cannot be
/// looked up.
pub proof fn lemma_seen_hits(hits: Seq<CastHit>, k: int)
    requires
        0 <= k < hits.len(),
    ensures
        reached(hits, k) <==> forall|j: int|
            0 <= j < hits.len() && (#[trigger] hits[j].distance_key < hits[k].distance_key
                || (hits[j].distance_key == hits[k].distance_key && j < k)) ==> !(hits[j].class
                == HitClass::Unknown || hits[j].class == HitClass::Tangible),
{
    if reached(hits, k) {
        assert forall|j: int|
            0 <= j < hits.len() && (#[trigger] hits[j].distance_key < hits[k].distance_key
                || (hits[j].distance_key == hits[k].distance_key && j < k)) implies !(hits[j].class
            == HitClass::Unknown || hits[j].class == HitClass::Tangible) by {
            assert(precedes(hits, j, k));
        }
    } else {
        let j = choose|j: int| 0 <= j < hits.len() && #[trigger] precedes(hits, j, k) && stops(
            hits[j].class,
        );
        assert(hits[j].distance_key < hits[k].distance_key || (hits[j].distance_key
            == hits[k].distance_key && j < k));
    }
}

/// Ghosts listed in cast order come nearest first, and among equally near
/// ones, in the order they were delivered.
pub proof fn lemma_cast_order_is_distance_order(hits: Seq<CastHit>, g: Seq<usize>)
    ensures
        in_cast_order(hits, g) <==> forall|p: int, q: int|
            0 <= p < q < g.len() ==> (hits[#[trigger] g[p] as int].distance_key < hits[#[trigger] g[q] as int].distance_key
                || (hits[g[p] as int].distance_key == hits[g[q] as int].distance_key && g[p] < g[q])),
{
    if in_cast_order(hits, g) {
        assert forall|p: int, q: int| 0 <= p < q < g.len() implies (hits[#[trigger] g[p] as int].distance_key
            < hits[#[trigger] g[q] as int].distance_key || (hits[g[p] as int].distance_key
            == hits[g[q] as int].distance_key && g[p] < g[q])) by {
            assert(precedes(hits, g[p] as int, g[q] as int));
        }
    }
}

} // verus!
