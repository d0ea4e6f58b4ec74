use vstd::prelude::*;

verus! {

/// The physics engine that a backend drives; the engines differ in the
/// collision layers that a collider without a `CollisionLayers` component has.
#[derive(Clone, Copy, Debug, PartialEq, Eq, Structural)]
pub enum PhysicsBackend {
    /// The avian3d engine.
    Avian3d,
    /// The bevy_xpbd_2d engine.
    Xpbd2d,
}

/// The bits of a collider's `CollisionLayers`: the layers it belongs to and
/// the layers it can interact with, one bit per layer.
#[derive(Clone, Copy, Debug, PartialEq, Eq, Structural)]
pub struct CollisionLayerBits {
    pub memberships: u32,
    pub filters: u32,
}

/// Two colliders interact when each one belongs to a layer that the other one filters for.
pub open spec fn layers_interact(a: CollisionLayerBits, b: CollisionLayerBits) -> bool {
    (a.memberships & b.filters) != 0u32 && (b.memberships & a.filters) != 0u32
}

/// The layers of a collider that has no `CollisionLayers` component.
pub open spec fn default_layers(backend: PhysicsBackend) -> CollisionLayerBits {
    match backend {
        PhysicsBackend::Avian3d => CollisionLayerBits { memberships: 1u32, filters: 0xffff_ffffu32 },
        PhysicsBackend::Xpbd2d => CollisionLayerBits {
            memberships: 0xffff_ffffu32,
            filters: 0xffff_ffffu32,
        },
    }
}

/// The layers in force for a collider that may or may not carry its own.
pub open spec fn resolved_layers(
    backend: PhysicsBackend,
    layers: Option<CollisionLayerBits>,
) -> CollisionLayerBits {
    match layers {
        Some(l) => l,
        None => default_layers(backend),
    }
}

/// A hit collider is excluded when its layers and the sensor owner's layers do not interact.
pub open spec fn excluded_by_layers(
    backend: PhysicsBackend,
    owner: Option<CollisionLayerBits>,
    other: Option<CollisionLayerBits>,
) -> bool {
    !layers_interact(resolved_layers(backend, owner), resolved_layers(backend, other))
}

/// `avian3d::prelude::CollisionLayers::interacts_with`, on layers built with
/// `CollisionLayers::from_bits`. Its source ANDs each side's memberships with the
/// other side's filters and asks both results to be nonzero; this contract says so.
#[verifier::external_body]
fn avian3d_interacts_with(a: CollisionLayerBits, b: CollisionLayerBits) -> (r: bool)
    ensures
        r == layers_interact(a, b),
{
    let a = avian3d::prelude::CollisionLayers::from_bits(a.memberships, a.filters);
    let b = avian3d::prelude::CollisionLayers::from_bits(b.memberships, b.filters);
    a.interacts_with(b)
}

/// `<avian3d::prelude::CollisionLayers as Default>::default`, read back as bits.
/// Its source returns `CollisionLayers::DEFAULT`: memberships `1` (the default
/// layer) and filters with every bit set; this contract says so.
#[verifier::external_body]
fn avian3d_default_layers() -> (r: CollisionLayerBits)
    ensures
        r == default_layers(PhysicsBackend::Avian3d),
{
    let l = <avian3d::prelude::CollisionLayers as Default>::default();
    CollisionLayerBits { memberships: l.memberships.0, filters: l.filters.0 }
}

/// `bevy_xpbd_2d::prelude::CollisionLayers::interacts_with`, on layers built with
/// `CollisionLayers::from_bits`. Its source ANDs each side's memberships with the
/// other side's filters and asks both results to be nonzero; this contract says so.
#[verifier::external_body]
fn xpbd2d_interacts_with(a: CollisionLayerBits, b: CollisionLayerBits) -> (r: bool)
    ensures
        r == layers_interact(a, b),
{
    let a = bevy_xpbd_2d::prelude::CollisionLayers::from_bits(a.memberships, a.filters);
    let b = bevy_xpbd_2d::prelude::CollisionLayers::from_bits(b.memberships, b.filters);
    a.interacts_with(b)
}

/// `<bevy_xpbd_2d::prelude::CollisionLayers as Default>::default`, read back as bits.
/// Its source sets every membership bit and every filter bit; this contract says so.
#[verifier::external_body]
fn xpbd2d_default_layers() -> (r: CollisionLayerBits)
    ensures
        r == default_layers(PhysicsBackend::Xpbd2d),
{
    let l = <bevy_xpbd_2d::prelude::CollisionLayers as Default>::default();
    CollisionLayerBits { memberships: l.memberships.0, filters: l.filters.0 }
}

/// Whether two colliders' layers interact, as the backend's engine decides it.
pub fn interacts_with(backend: PhysicsBackend, a: CollisionLayerBits, b: CollisionLayerBits) -> (r:
    bool)
    ensures
        r == layers_interact(a, b),
{
    match backend {
        PhysicsBackend::Avian3d => avian3d_interacts_with(a, b),
        PhysicsBackend::Xpbd2d => xpbd2d_interacts_with(a, b),
    }
}

/// The layers in force for a collider: its own, or the engine's default.
pub fn resolve_layers(backend: PhysicsBackend, layers: Option<CollisionLayerBits>) -> (r:
    CollisionLayerBits)
    ensures
        r == resolved_layers(backend, layers),
{
    match layers {
        Some(l) => l,
        None => match backend {
            PhysicsBackend::Avian3d => avian3d_default_layers(),
            PhysicsBackend::Xpbd2d => xpbd2d_default_layers(),
        },
    }
}

/// Whether a hit collider is passed over because its layers do not interact
/// with those of the sensor's owner.
pub fn excluded_by_collision_layers(
    backend: PhysicsBackend,
    owner: Option<CollisionLayerBits>,
    other: Option<CollisionLayerBits>,
) -> (excluded: bool)
    ensures
        excluded == excluded_by_layers(backend, owner, other),
{
    let owner_layers = resolve_layers(backend, owner);
    let other_layers = resolve_layers(backend, other);
    !interacts_with(backend, owner_layers, other_layers)
}

/// Exclusion by collision layers is symmetric: the owner excludes a collider
/// exactly when that collider, as owner, would exclude the first one.
pub proof fn lemma_exclusion_is_symmetric(
    backend: PhysicsBackend,
    a: Option<CollisionLayerBits>,
    b: Option<CollisionLayerBits>,
)
    ensures
        excluded_by_layers(backend, a, b) == excluded_by_layers(backend, b, a),
{
}

/// Colliders that carry no collision layers at all never exclude one another,
/// on either engine.
pub proof fn lemma_default_layers_interact(backend: PhysicsBackend)
    ensures
        !excluded_by_layers(backend, None, None),
{
    assert((1u32 & 0xffff_ffffu32) != 0u32) by (bit_vector);
    assert((0xffff_ffffu32 & 0xffff_ffffu32) != 0u32) by (bit_vector);
}

/// A hit collider is excluded exactly when the engines' interaction test
/// fails and on no other ground: when the owner's memberships share no bit with
/// the collider's filters, or the collider's memberships share no bit with the
/// owner's filters. Sharing a membership layer does not make two colliders interact.
pub proof fn lemma_exclusion_is_the_interaction_test(
    backend: PhysicsBackend,
    owner: CollisionLayerBits,
    other: CollisionLayerBits,
)
    ensures
        excluded_by_layers(backend, Some(owner), Some(other)) == ((owner.memberships & other.filters)
            == 0u32 || (other.memberships & owner.filters) == 0u32),
{
}

/// A collider without collision layers is tested with its engine's default:
/// under avian3d it belongs to the first layer only and filters for every
/// layer; under bevy_xpbd_2d it belongs to and filters for every layer.
pub proof fn lemma_missing_layers_take_engine_default(other: CollisionLayerBits)
    ensures
        excluded_by_layers(PhysicsBackend::Avian3d, None, Some(other)) == ((1u32 & other.filters)
            == 0u32 || (other.memberships & 0xffff_ffffu32) == 0u32),
        excluded_by_layers(PhysicsBackend::Avian3d, Some(other), None) == ((other.memberships
            & 0xffff_ffffu32) == 0u32 || (1u32 & other.filters) == 0u32),
        excluded_by_layers(PhysicsBackend::Xpbd2d, None, Some(other)) == ((0xffff_ffffu32
            & other.filters) == 0u32 || (other.memberships & 0xffff_ffffu32) == 0u32),
        excluded_by_layers(PhysicsBackend::Xpbd2d, Some(other), None) == ((other.memberships
            & 0xffff_ffffu32) == 0u32 || (0xffff_ffffu32 & other.filters) == 0u32),
{
}

} // verus!
