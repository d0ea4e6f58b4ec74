use tnua_integration::contact::{contact_blocks, ContactPair, ManifoldFacts};
use tnua_integration::layers::{
    excluded_by_collision_layers, interacts_with, resolve_layers, CollisionLayerBits,
    PhysicsBackend,
};
use tnua_integration::motors::{motor_plan, motor_plans, MotorFiniteness, MotorPlan};
use tnua_integration::sensing::{
    classify_hit, keep_casting, sense_cast, sensing_due, sensing_owner, CastHit, CastKind,
    HitClass, HitFacts, ObjectFacts,
};
use tnua_integration::toggle::{effective_toggle, tracker_update_due, TnuaToggle};

fn bits(memberships: u32, filters: u32) -> CollisionLayerBits {
    CollisionLayerBits { memberships, filters }
}

fn manifold(has_contacts: bool, n1: bool, n2: bool) -> ManifoldFacts {
    ManifoldFacts { has_contacts, normal1_beyond_cutoff: n1, normal2_beyond_cutoff: n2 }
}

fn tangible_object() -> ObjectFacts {
    ObjectFacts { is_ghost: false, is_sensor: false, layers: None }
}

#[test]
fn absent_toggle_counts_as_enabled() {
    assert_eq!(effective_toggle(None), TnuaToggle::Enabled);
    assert_eq!(effective_toggle(Some(TnuaToggle::SenseOnly)), TnuaToggle::SenseOnly);
    assert_eq!(TnuaToggle::default(), TnuaToggle::Enabled);
}

#[test]
fn toggle_decides_tracker_updates() {
    assert!(!tracker_update_due(Some(TnuaToggle::Disabled)));
    assert!(tracker_update_due(Some(TnuaToggle::SenseOnly)));
    assert!(tracker_update_due(Some(TnuaToggle::Enabled)));
    assert!(tracker_update_due(None));
}

#[test]
fn avian_layers_interact_only_both_ways() {
    // a belongs to layer 1 and listens to layer 2; b the other way round.
    assert!(interacts_with(PhysicsBackend::Avian3d, bits(0b01, 0b10), bits(0b10, 0b01)));
    // b does not listen to a's layer.
    assert!(!interacts_with(PhysicsBackend::Avian3d, bits(0b01, 0b10), bits(0b10, 0b10)));
    assert!(!interacts_with(PhysicsBackend::Xpbd2d, bits(0b01, 0b10), bits(0b10, 0b10)));
    assert!(interacts_with(PhysicsBackend::Xpbd2d, bits(0b11, 0b11), bits(0b10, 0b01)));
}

#[test]
fn default_layers_differ_between_engines() {
    assert_eq!(resolve_layers(PhysicsBackend::Avian3d, None), bits(1, 0xffff_ffff));
    assert_eq!(resolve_layers(PhysicsBackend::Xpbd2d, None), bits(0xffff_ffff, 0xffff_ffff));
    assert_eq!(resolve_layers(PhysicsBackend::Avian3d, Some(bits(4, 5))), bits(4, 5));
}

#[test]
fn exclusion_uses_engine_defaults() {
    // A collider on layer 2 only, listening to everything: it does not listen
    // for layer 1, which is where an avian collider without layers lives.
    let other = Some(bits(0b10, 0b10));
    assert!(excluded_by_collision_layers(PhysicsBackend::Avian3d, None, other));
    // Under bevy_xpbd_2d a collider without layers belongs to every layer.
    assert!(!excluded_by_collision_layers(PhysicsBackend::Xpbd2d, None, other));
    assert!(!excluded_by_collision_layers(PhysicsBackend::Avian3d, None, None));
    assert!(!excluded_by_collision_layers(PhysicsBackend::Xpbd2d, None, None));
}

#[test]
fn exclusion_is_symmetric_on_example() {
    let a = Some(bits(0b001, 0b110));
    let b = Some(bits(0b100, 0b011));
    let c = Some(bits(0b100, 0b010));
    for backend in [PhysicsBackend::Avian3d, PhysicsBackend::Xpbd2d] {
        assert_eq!(
            excluded_by_collision_layers(backend, a, b),
            excluded_by_collision_layers(backend, b, a)
        );
        assert_eq!(
            excluded_by_collision_layers(backend, a, c),
            excluded_by_collision_layers(backend, c, a)
        );
        assert!(!excluded_by_collision_layers(backend, a, b));
        assert!(excluded_by_collision_layers(backend, a, c));
    }
}

#[test]
fn contact_normal_depends_on_entity_order() {
    let pair = Some(ContactPair { entity1: 7, manifolds: vec![manifold(true, false, true)] });
    // Owner 7 is listed first: its side of the contact is normal2.
    assert!(contact_blocks(7, &pair));
    // Owner 9 is listed second: normal1 is used.
    assert!(!contact_blocks(9, &pair));
    assert!(!contact_blocks(7, &None));
}

#[test]
fn contact_without_points_never_blocks() {
    let pair = Some(ContactPair {
        entity1: 1,
        manifolds: vec![manifold(false, true, true), manifold(true, false, false)],
    });
    assert!(!contact_blocks(1, &pair));
    assert!(!contact_blocks(2, &pair));
    let pair = Some(ContactPair {
        entity1: 1,
        manifolds: vec![manifold(false, true, true), manifold(true, true, false)],
    });
    assert!(!contact_blocks(1, &pair));
    assert!(contact_blocks(2, &pair));
}

#[test]
fn classification_follows_test_order() {
    let b = PhysicsBackend::Avian3d;
    let blocking = Some(ContactPair { entity1: 3, manifolds: vec![manifold(true, false, true)] });
    // The contact test comes first, even for an unknown entity.
    let hit = HitFacts { contacts: blocking, object: None };
    assert_eq!(classify_hit(b, 3, None, &hit), HitClass::BlockedByContact);
    let hit = HitFacts { contacts: None, object: None };
    assert_eq!(classify_hit(b, 3, None, &hit), HitClass::Unknown);
    // A ghost that is also a sensor is still a ghost.
    let ghost = ObjectFacts { is_ghost: true, is_sensor: true, layers: None };
    let hit = HitFacts { contacts: None, object: Some(ghost) };
    assert_eq!(classify_hit(b, 3, None, &hit), HitClass::GhostPlatform);
    let sensor = ObjectFacts { is_ghost: false, is_sensor: true, layers: None };
    let hit = HitFacts { contacts: None, object: Some(sensor) };
    assert_eq!(classify_hit(b, 3, None, &hit), HitClass::PassedOver);
    let excluded = ObjectFacts { is_ghost: false, is_sensor: false, layers: Some(bits(2, 2)) };
    let hit = HitFacts { contacts: None, object: Some(excluded) };
    assert_eq!(classify_hit(b, 3, None, &hit), HitClass::PassedOver);
    assert_eq!(classify_hit(PhysicsBackend::Xpbd2d, 3, None, &hit), HitClass::Tangible);
    let hit = HitFacts { contacts: None, object: Some(tangible_object()) };
    assert_eq!(classify_hit(b, 3, None, &hit), HitClass::Tangible);
}

#[test]
fn subservient_sensor_senses_for_its_owner() {
    assert_eq!(sensing_owner(10, Some(4)), 4);
    assert_eq!(sensing_owner(10, None), 10);
}

fn hit(distance_key: u32, class: HitClass) -> CastHit {
    CastHit { distance_key, class }
}

#[test]
fn disabled_sensor_is_left_alone() {
    assert!(!sensing_due(Some(TnuaToggle::Disabled)));
    assert!(sensing_due(Some(TnuaToggle::SenseOnly)));
    assert!(sensing_due(Some(TnuaToggle::Enabled)));
    assert!(sensing_due(None));
}

#[test]
fn ray_casts_run_to_the_end_shape_casts_stop_early() {
    assert!(keep_casting(CastKind::Ray, HitClass::Tangible));
    assert!(keep_casting(CastKind::Ray, HitClass::Unknown));
    assert!(!keep_casting(CastKind::Shape, HitClass::Tangible));
    assert!(!keep_casting(CastKind::Shape, HitClass::Unknown));
    assert!(keep_casting(CastKind::Shape, HitClass::GhostPlatform));
    assert!(keep_casting(CastKind::Shape, HitClass::PassedOver));
    assert!(keep_casting(CastKind::Shape, HitClass::BlockedByContact));
}

#[test]
fn nearest_tangible_hit_wins_whatever_the_delivery_order() {
    // A ray delivers the far wall first, then a ghost, the floor and a sensor.
    let hits = vec![
        hit(50, HitClass::Tangible),
        hit(20, HitClass::GhostPlatform),
        hit(30, HitClass::Tangible),
        hit(10, HitClass::PassedOver),
        hit(40, HitClass::GhostPlatform),
    ];
    let reading = sense_cast(true, &hits);
    assert_eq!(reading.output, Some(2));
    assert_eq!(reading.ghosts, vec![1]);
}

#[test]
fn ghosts_are_listed_nearest_first() {
    let hits = vec![
        hit(30, HitClass::GhostPlatform),
        hit(10, HitClass::GhostPlatform),
        hit(60, HitClass::Tangible),
        hit(20, HitClass::GhostPlatform),
        hit(70, HitClass::GhostPlatform),
    ];
    let reading = sense_cast(true, &hits);
    assert_eq!(reading.output, Some(2));
    assert_eq!(reading.ghosts, vec![1, 3, 0]);
    // Without a ghost sensor, no ghosts are kept but the output is the same.
    let reading = sense_cast(false, &hits);
    assert_eq!(reading.output, Some(2));
    assert!(reading.ghosts.is_empty());
}

#[test]
fn equal_distances_go_by_delivery_order() {
    let hits = vec![hit(5, HitClass::Tangible), hit(5, HitClass::Tangible), hit(5, HitClass::GhostPlatform)];
    let reading = sense_cast(true, &hits);
    assert_eq!(reading.output, Some(0));
    assert!(reading.ghosts.is_empty());
    let hits = vec![hit(5, HitClass::GhostPlatform), hit(5, HitClass::Tangible)];
    let reading = sense_cast(true, &hits);
    assert_eq!(reading.output, Some(1));
    assert_eq!(reading.ghosts, vec![0]);
}

#[test]
fn nearer_unknown_entity_ends_cast_without_output() {
    let hits = vec![
        hit(9, HitClass::Tangible),
        hit(3, HitClass::Unknown),
        hit(1, HitClass::GhostPlatform),
        hit(4, HitClass::GhostPlatform),
    ];
    let reading = sense_cast(true, &hits);
    assert_eq!(reading.output, None);
    assert_eq!(reading.ghosts, vec![2]);
}

#[test]
fn cast_without_tangible_hit_reports_nothing() {
    let hits = vec![
        hit(4, HitClass::GhostPlatform),
        hit(2, HitClass::BlockedByContact),
        hit(3, HitClass::PassedOver),
        hit(1, HitClass::GhostPlatform),
    ];
    let reading = sense_cast(true, &hits);
    assert_eq!(reading.output, None);
    assert_eq!(reading.ghosts, vec![3, 0]);
    let reading = sense_cast(true, &vec![]);
    assert_eq!(reading.output, None);
    assert!(reading.ghosts.is_empty());
}

#[test]
fn nearest_first_cast_may_stop_at_its_first_stopping_hit() {
    let all = vec![
        hit(1, HitClass::GhostPlatform),
        hit(2, HitClass::Tangible),
        hit(3, HitClass::GhostPlatform),
        hit(4, HitClass::Tangible),
    ];
    let full = sense_cast(true, &all);
    let prefix = sense_cast(true, &all[..2].to_vec());
    assert_eq!(full.output, Some(1));
    assert_eq!(full.output, prefix.output);
    assert_eq!(full.ghosts, prefix.ghosts);
}

#[test]
fn enabled_motor_applies_finite_parts() {
    let finite = MotorFiniteness {
        linear_boost: true,
        linear_acceleration: false,
        angular_boost: false,
        angular_acceleration: true,
    };
    assert_eq!(
        motor_plan(None, finite),
        MotorPlan {
            reset_force: false,
            add_linear_boost: true,
            set_force: false,
            add_angular_boost: false,
            set_torque: true,
        }
    );
}

#[test]
fn inactive_motor_only_resets_force() {
    let finite = MotorFiniteness {
        linear_boost: true,
        linear_acceleration: true,
        angular_boost: true,
        angular_acceleration: true,
    };
    let idle = MotorPlan {
        reset_force: true,
        add_linear_boost: false,
        set_force: false,
        add_angular_boost: false,
        set_torque: false,
    };
    assert_eq!(motor_plan(Some(TnuaToggle::SenseOnly), finite), idle);
    assert_eq!(motor_plan(Some(TnuaToggle::Disabled), finite), idle);
}

#[test]
fn enabled_entity_after_disabled_one_is_still_driven() {
    let all_finite = MotorFiniteness {
        linear_boost: true,
        linear_acceleration: true,
        angular_boost: true,
        angular_acceleration: true,
    };
    let partly_finite = MotorFiniteness {
        linear_boost: false,
        linear_acceleration: true,
        angular_boost: true,
        angular_acceleration: false,
    };
    let entities = vec![
        (Some(TnuaToggle::Disabled), all_finite),
        (None, partly_finite),
        (Some(TnuaToggle::SenseOnly), all_finite),
        (Some(TnuaToggle::Enabled), all_finite),
    ];
    let plans = motor_plans(&entities);
    assert_eq!(plans.len(), 4);
    for (plan, (toggle, finite)) in plans.iter().zip(entities.iter()) {
        assert_eq!(*plan, motor_plan(*toggle, *finite));
    }
    assert_eq!(
        plans[1],
        MotorPlan {
            reset_force: false,
            add_linear_boost: false,
            set_force: true,
            add_angular_boost: true,
            set_torque: false,
        }
    );
    assert!(plans[3].add_linear_boost && plans[3].set_force && !plans[3].reset_force);
    assert!(plans[0].reset_force && plans[2].reset_force);
    assert!(motor_plans(&vec![]).is_empty());
}
