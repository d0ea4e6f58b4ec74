use vstd::prelude::*;

use crate::toggle::{effective_toggle, effective_toggle_spec, TnuaToggle};

verus! {

/// Which parts of an entity's motor hold finite values. The engine side tests
/// the vectors; a vector is finite when all of its components are.
#[derive(Clone, Copy, Debug, PartialEq, Eq, Structural)]
pub struct MotorFiniteness {
    pub linear_boost: bool,
    pub linear_acceleration: bool,
    pub angular_boost: bool,
    pub angular_acceleration: bool,
}

/// What the motor system does to one entity this frame.
#[derive(Clone, Copy, Debug, PartialEq, Eq, Structural)]
pub struct MotorPlan {
    /// Reset the entity's external force to its default (zero).
    pub reset_force: bool,
    /// Add the linear boost to the linear velocity.
    pub add_linear_boost: bool,
    /// Set the external force to the linear acceleration times the mass.
    pub set_force: bool,
    /// Add the angular boost to the angular velocity.
    pub add_angular_boost: bool,
    /// Set the external torque to the inertia times the angular acceleration.
    pub set_torque: bool,
}

/// The plan for one entity: under `Enabled`, every finite part of the motor is
/// applied and nothing else; under any other toggle, the external force is
/// reset and nothing is applied.
pub open spec fn motor_plan_spec(toggle: Option<TnuaToggle>, finite: MotorFiniteness) -> MotorPlan {
    if effective_toggle_spec(toggle) is Enabled {
        MotorPlan {
            reset_force: false,
            add_linear_boost: finite.linear_boost,
            set_force: finite.linear_acceleration,
            add_angular_boost: finite.angular_boost,
            set_torque: finite.angular_acceleration,
        }
    } else {
        MotorPlan {
            reset_force: true,
            add_linear_boost: false,
            set_force: false,
            add_angular_boost: false,
            set_torque: false,
        }
    }
}

/// Decides what the motor system does to one entity.
pub fn motor_plan(toggle: Option<TnuaToggle>, finite: MotorFiniteness) -> (plan: MotorPlan)
    ensures
        plan == motor_plan_spec(toggle, finite),
{
    match effective_toggle(toggle) {
        TnuaToggle::Enabled => MotorPlan {
            reset_force: false,
            add_linear_boost: finite.linear_boost,
            set_force: finite.linear_acceleration,
            add_angular_boost: finite.angular_boost,
            set_torque: finite.angular_acceleration,
        },
        TnuaToggle::Disabled | TnuaToggle::SenseOnly => MotorPlan {
            reset_force: true,
            add_linear_boost: false,
            set_force: false,
            add_angular_boost: false,
            set_torque: false,
        },
    }
}

/// No motor effect is ever applied from a part that is not finite, whatever the toggle.
pub proof fn lemma_only_finite_parts_applied(toggle: Option<TnuaToggle>, finite: MotorFiniteness)
    ensures
        motor_plan_spec(toggle, finite).add_linear_boost ==> finite.linear_boost,
        motor_plan_spec(toggle, finite).set_force ==> finite.linear_acceleration,
        motor_plan_spec(toggle, finite).add_angular_boost ==> finite.angular_boost,
        motor_plan_spec(toggle, finite).set_torque ==> finite.angular_acceleration,
{
}

/// The plans of a batch of entities: each entity's plan, at its own place.
pub open spec fn motor_plans_spec(entities: Seq<(Option<TnuaToggle>, MotorFiniteness)>) -> Seq<
    MotorPlan,
> {
    entities.map_values(|e: (Option<TnuaToggle>, MotorFiniteness)| motor_plan_spec(e.0, e.1))
}

/// Decides what the motor system does to every entity it handles this frame,
/// in the order it handles them. Each entity is planned from its own toggle and
/// motor alone.
pub fn motor_plans(entities: &Vec<(Option<TnuaToggle>, MotorFiniteness)>) -> (plans: Vec<MotorPlan>)
    ensures
        plans@ == motor_plans_spec(entities@),
{
    let n = entities.len();
    let mut plans: Vec<MotorPlan> = Vec::new();
    for i in 0..n
        invariant
            n == entities@.len(),
            plans@.len() == i,
            forall|j: int|
                0 <= j < i ==> #[trigger] plans@[j] == motor_plan_spec(
                    entities@[j].0,
                    entities@[j].1,
                ),
    {
        let (toggle, finite) = entities[i];
        plans.push(motor_plan(toggle, finite));
    }
    assert(plans@ =~= motor_plans_spec(entities@));
    plans
}

/// An entity's motor is applied exactly as if it were the only entity the
/// system handles: its plan in any batch, wherever it stands and whatever the
/// toggles and motors of the other entities, is its plan alone.
pub proof fn lemma_each_entity_planned_alone(
    entities: Seq<(Option<TnuaToggle>, MotorFiniteness)>,
    i: int,
)
    requires
        0 <= i < entities.len(),
    ensures
        motor_plans_spec(entities)[i] == motor_plans_spec(seq![entities[i]])[0],
        motor_plans_spec(entities)[i] == motor_plan_spec(entities[i].0, entities[i].1),
{
}

/// An entity that is enabled (or carries no toggle) gets each part of its motor
/// exactly when that part is finite, each part independently of the others,
/// and its force is not reset.
pub proof fn lemma_enabled_motor_applies_each_finite_part(
    toggle: Option<TnuaToggle>,
    finite: MotorFiniteness,
)
    requires
        toggle == None::<TnuaToggle> || toggle == Some(TnuaToggle::Enabled),
    ensures
        !motor_plan_spec(toggle, finite).reset_force,
        motor_plan_spec(toggle, finite).add_linear_boost == finite.linear_boost,
        motor_plan_spec(toggle, finite).set_force == finite.linear_acceleration,
        motor_plan_spec(toggle, finite).add_angular_boost == finite.angular_boost,
        motor_plan_spec(toggle, finite).set_torque == finite.angular_acceleration,
{
}

/// An entity that is disabled or only senses has its force reset and nothing
/// of its motor applied, however finite its motor is.
pub proof fn lemma_inactive_motor_only_resets_force(
    toggle: Option<TnuaToggle>,
    finite: MotorFiniteness,
)
    requires
        toggle == Some(TnuaToggle::Disabled) || toggle == Some(TnuaToggle::SenseOnly),
    ensures
        motor_plan_spec(toggle, finite).reset_force,
        !motor_plan_spec(toggle, finite).add_linear_boost,
        !motor_plan_spec(toggle, finite).set_force,
        !motor_plan_spec(toggle, finite).add_angular_boost,
        !motor_plan_spec(toggle, finite).set_torque,
{
}

} // verus!
