use counterproduction_core::geometry::Fx;
use counterproduction_core::geometry::FxVec;
use counterproduction_core::geometry::IVec;
use counterproduction_core::geometry::Rot;
use counterproduction_core::physics::angular_update;
use counterproduction_core::physics::apply_force;
use counterproduction_core::physics::linear_update;
use counterproduction_core::physics::PhysicsBundle;
use counterproduction_core::physics::Timestep;

fn fx(v: f64) -> Fx {
    Fx::from_raw((v * 4294967296.0) as i64)
}

fn fxv(x: f64, y: f64, z: f64) -> FxVec {
    FxVec::new(fx(x), fx(y), fx(z))
}

fn raw(v: FxVec) -> (i64, i64, i64) {
    (v.x.0, v.y.0, v.z.0)
}

fn unit_body_at_origin() -> PhysicsBundle {
    let mut body = PhysicsBundle::new(
        FxVec::zero(),
        Rot::identity(),
        FxVec::zero(),
        &vec![(IVec::new(0, 0, 0), 1)],
    );
    body.recompute_after_changed_body();
    body.recompute_computed_after_changed();
    body
}

// A unit-mass point body under constant force (1, 0, 0) for two ticks of
// timestep 1, then the reversed force for two ticks.  With the integrator
// `momentum += dt * force; position += dt * momentum / mass` the momentum
// goes 1, 2, 1, 0 and the position gains match it: (3, 0, 0) after two
// ticks and (4, 0, 0) with zero momentum after four.
#[test]
fn test_simple_movement() {
    let ts = Timestep(fx(1.0));
    let mut body = unit_body_at_origin();
    assert_eq!(body.inv_mass.0, fx(1.0));
    for _ in 0..2 {
        let at = body.position.0;
        apply_force(
            fxv(1.0, 0.0, 0.0),
            at,
            &mut body.force,
            &mut body.torque,
            &body.position,
        );
        linear_update(&mut body, ts);
    }
    assert_eq!(raw(body.position.0), raw(fxv(3.0, 0.0, 0.0)));
    assert_eq!(raw(body.momentum.0), raw(fxv(2.0, 0.0, 0.0)));
    for _ in 0..2 {
        let at = body.position.0;
        apply_force(
            fxv(-1.0, 0.0, 0.0),
            at,
            &mut body.force,
            &mut body.torque,
            &body.position,
        );
        linear_update(&mut body, ts);
    }
    assert_eq!(raw(body.position.0), raw(fxv(4.0, 0.0, 0.0)));
    assert_eq!(raw(body.momentum.0), raw(fxv(0.0, 0.0, 0.0)));
}

// With force and torque held at zero, momentum never changes and the
// position advances by the same exact increment every tick.
#[test]
fn momentum_conserved_under_zero_force() {
    let ts = Timestep(fx(1.0));
    let mut body = PhysicsBundle::new(
        FxVec::zero(),
        Rot::identity(),
        fxv(0.25, -0.5, 2.0),
        &vec![(IVec::new(0, 0, 0), 1)],
    );
    body.recompute_after_changed_body();
    body.recompute_computed_after_changed();
    let m0 = raw(body.momentum.0);
    let p0 = raw(body.position.0);
    let mut last = p0;
    let mut gain = (0i64, 0i64, 0i64);
    for step in 0..5 {
        linear_update(&mut body, ts);
        assert_eq!(raw(body.momentum.0), m0);
        let now = raw(body.position.0);
        let this_gain = (now.0 - last.0, now.1 - last.1, now.2 - last.2);
        if step == 0 {
            gain = this_gain;
        } else {
            assert_eq!(this_gain, gain);
        }
        last = now;
    }
    assert_eq!(last.0, p0.0 + 5 * gain.0);
    assert_eq!(last.1, p0.1 + 5 * gain.1);
    assert_eq!(last.2, p0.2 + 5 * gain.2);
}

// Accumulating a mass distribution is order-independent: two permutations
// of the same masses produce identical exact accumulators.
#[test]
fn mass_accumulation_order_independent() {
    let masses_a = vec![
        (IVec::new(0, 0, 0), 1),
        (IVec::new(3, -1, 2), 2),
        (IVec::new(-5, 4, 1), 1),
        (IVec::new(2, 2, 2), 3),
    ];
    let masses_b = vec![
        (IVec::new(2, 2, 2), 3),
        (IVec::new(0, 0, 0), 1),
        (IVec::new(-5, 4, 1), 1),
        (IVec::new(3, -1, 2), 2),
    ];
    let a = PhysicsBundle::new(FxVec::zero(), Rot::identity(), FxVec::zero(), &masses_a);
    let b = PhysicsBundle::new(FxVec::zero(), Rot::identity(), FxVec::zero(), &masses_b);
    assert_eq!(a.mass.0, b.mass.0);
    assert_eq!(a.total_mass_position.0, b.total_mass_position.0);
    assert_eq!(a.inertia.0, b.inertia.0);
}

// Accumulating everything in one pass equals accumulating incrementally
// through pending changes.
#[test]
fn mass_accumulation_incremental_matches_one_pass() {
    let all = vec![
        (IVec::new(0, 0, 0), 1),
        (IVec::new(1, 0, 0), 1),
        (IVec::new(0, 2, -1), 2),
    ];
    let one_pass = PhysicsBundle::new(FxVec::zero(), Rot::identity(), FxVec::zero(), &all);
    let mut incremental = PhysicsBundle::new(
        FxVec::zero(),
        Rot::identity(),
        FxVec::zero(),
        &vec![(IVec::new(0, 0, 0), 1)],
    );
    incremental.changed_bodies.0.push((IVec::new(1, 0, 0), 1));
    incremental.changed_bodies.0.push((IVec::new(0, 2, -1), 2));
    incremental.recompute_after_changed_body();
    assert_eq!(incremental.mass.0, one_pass.mass.0);
    assert_eq!(incremental.total_mass_position.0, one_pass.total_mass_position.0);
    assert_eq!(incremental.inertia.0, one_pass.inertia.0);
    assert_eq!(incremental.changed_bodies.0.len(), 0);
}

// Adding a mass off-center and re-deriving the center of mass corrects the
// tracked position so that, for an unrotated body, the world location of
// the previously tracked point is unchanged.
#[test]
fn center_of_mass_shift_keeps_anchor() {
    let mut body = unit_body_at_origin();
    // World location of the anchor: position - rotation * centerOfMass;
    // with the identity rotation this is the componentwise difference.
    let anchor_before = (
        body.position.0.x.0 - body.center_of_mass.0.x.0,
        body.position.0.y.0 - body.center_of_mass.0.y.0,
        body.position.0.z.0 - body.center_of_mass.0.z.0,
    );
    body.changed_bodies.0.push((IVec::new(4, 0, 0), 1));
    body.recompute_after_changed_body();
    body.recompute_computed_after_changed();
    assert_eq!(body.center_of_mass.0, fxv(2.0, 0.0, 0.0));
    let anchor_after = (
        body.position.0.x.0 - body.center_of_mass.0.x.0,
        body.position.0.y.0 - body.center_of_mass.0.y.0,
        body.position.0.z.0 - body.center_of_mass.0.z.0,
    );
    assert_eq!(anchor_before, anchor_after);
}

// The inverse mass follows the exact total mass.
#[test]
fn inverse_mass_of_four_units() {
    let masses = vec![
        (IVec::new(0, 0, 0), 1),
        (IVec::new(1, 0, 0), 1),
        (IVec::new(0, 1, 0), 1),
        (IVec::new(0, 0, 1), 1),
    ];
    let mut body = PhysicsBundle::new(FxVec::zero(), Rot::identity(), FxVec::zero(), &masses);
    body.recompute_after_changed_body();
    body.recompute_computed_after_changed();
    assert_eq!(body.mass.0, 4);
    assert_eq!(body.inv_mass.0, fx(0.25));
}

// With zero torque and zero angular momentum the angular update leaves the
// rotation untouched.
#[test]
fn angular_update_at_rest() {
    let ts = Timestep(fx(1.0));
    let mut body = unit_body_at_origin();
    let rot_before = body.rotation.0;
    angular_update(&mut body, ts);
    assert_eq!(body.rotation.0, rot_before);
    assert_eq!(body.angular_momentum.0, FxVec::zero());
}

// A torque impulse turns into angular momentum and a rotation increment;
// the accumulated torque is cleared afterwards.
#[test]
fn angular_update_spins_under_torque() {
    let ts = Timestep(fx(1.0));
    let mut body = unit_body_at_origin();
    body.torque.0 = fxv(0.0, 0.0, 0.125);
    angular_update(&mut body, ts);
    assert_eq!(body.angular_momentum.0, fxv(0.0, 0.0, 0.125));
    assert_eq!(body.torque.0, FxVec::zero());
    assert!(body.rotation.0 != Rot::identity());
    assert!(body.rotation.0.s.0 < fx(1.0).0);
    assert!(body.rotation.0.xy.0 > 0);
}
