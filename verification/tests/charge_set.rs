use special_relativity::charge_set::{
    collect_sources, most_past_charge_index, ChargePreset, EomCharge, EomChargeSet, SpeedChange,
};
use special_relativity::matrix::Matrix;
use special_relativity::mechanics::PhaseSpace;
use special_relativity::world_line::{DiscreteWorldLine, Retarded};
use special_relativity::{vec3, vec4, Scalar, Vector3, Vector4};

const Q: f64 = std::f64::consts::PI * 4.0;

fn s(v: f64) -> Scalar {
    Scalar::from_bits(v.to_bits())
}

fn f(v: Scalar) -> f64 {
    f64::from_bits(v.to_bits())
}

fn v3(v: [f64; 3]) -> Vector3 {
    vec3(s(v[0]), s(v[1]), s(v[2]))
}

fn v4(v: [f64; 4]) -> Vector4 {
    vec4(s(v[0]), s(v[1]), s(v[2]), s(v[3]))
}

fn a3(v: Vector3) -> [f64; 3] {
    [f(v.x), f(v.y), f(v.z)]
}

fn a4(v: Vector4) -> [f64; 4] {
    [f(v.x), f(v.y), f(v.z), f(v.ct)]
}

fn sub4(a: [f64; 4], b: [f64; 4]) -> [f64; 4] {
    [a[0] - b[0], a[1] - b[1], a[2] - b[2], a[3] - b[3]]
}

fn lorentz_dot(a: [f64; 4], b: [f64; 4]) -> f64 {
    a[0] * b[0] + a[1] * b[1] + a[2] * b[2] - a[3] * b[3]
}

fn lorentz_norm2(a: [f64; 4]) -> f64 {
    lorentz_dot(a, a)
}

fn dot(a: [f64; 3], b: [f64; 3]) -> f64 {
    a[0] * b[0] + a[1] * b[1] + a[2] * b[2]
}

fn gamma(u: [f64; 3]) -> f64 {
    (1.0 + dot(u, u)).sqrt()
}

/// A charge released at `x` with velocity `u`, having rested at its place at
/// the times 1e4, 1e3, 1e2, 1e1 and 1e0 before.
fn released(m: f64, q: f64, x: [f64; 4], u: [f64; 3]) -> EomCharge {
    let lead_in = [s(x[3] - 1e4), s(x[3] - 1e3), s(x[3] - 1e2), s(x[3] - 1e1), s(x[3] - 1e0)];
    EomCharge::new(s(m), s(q), v4(x), v3(u), &lead_in).unwrap()
}

fn see_discrete(wl: &DiscreteWorldLine, x: Vector4) -> Option<Retarded> {
    let mut search = wl.find_future_nearest();
    while let Some(i) = search.probe() {
        let sample = wl.get(i).unwrap();
        let interval = lorentz_norm2(sub4(a4(sample), a4(x)));
        search = wl.search_step(search, x, s(interval));
    }
    let i = search.found()?;
    let (x0, x1, x2) = wl.bracket(i).unwrap();
    let (x0, x1, x2, x) = (a4(x0), a4(x1), a4(x2), a4(x));
    let a = -lorentz_norm2(sub4(x2, x1));
    let b = -lorentz_dot(sub4(x2, x1), sub4(x, x1));
    let c = -lorentz_norm2(sub4(x, x1));
    let lambda = c / (b + (b * b - a * c).sqrt());
    let tau0 = (-lorentz_norm2(sub4(x1, x0))).sqrt();
    let tau1 = (-lorentz_norm2(sub4(x2, x1))).sqrt();
    let d0 = sub4(x1, x0);
    let d1 = sub4(x2, x1);
    let u0 = [d0[0] / tau0, d0[1] / tau0, d0[2] / tau0];
    let u1 = [d1[0] / tau1, d1[1] / tau1, d1[2] / tau1];
    let k = 2.0 / (tau0 + tau1);
    let acc = [(u1[0] - u0[0]) * k, (u1[1] - u0[1]) * k, (u1[2] - u0[2]) * k];
    let at = |j: usize| x1[j] * (1.0 - lambda) + x2[j] * lambda;
    Some((v4([at(0), at(1), at(2), at(3)]), v3(u1), v3(acc)))
}

/// The Lienard-Wiechert tensor of a charge, with the guard of the library in
/// front of the division by the distance.
fn field_strength(q: f64, l: [f64; 3], u: [f64; 3], a: [f64; 3]) -> [[f64; 4]; 4] {
    let l_len = dot(l, l).sqrt();
    let l_hat = [l[0] / l_len, l[1] / l_len, l[2] / l_len];
    let u_t = gamma(u);
    let a_t = dot(a, u) / u_t;
    let lu = dot(l_hat, u);
    let la = dot(l_hat, a);
    let k1 = (u_t * (la - 1.0 / l_len) - a_t * lu) / u_t.powi(3);
    let k2 = (a_t + la - 1.0 / l_len) / u_t.powi(3);
    let k3 = 1.0 / u_t.powi(2);
    let f_t = [
        l_hat[0] * k1 + u[0] * k2 - a[0] / u_t.powi(2),
        l_hat[1] * k1 + u[1] * k2 - a[1] / u_t.powi(2),
        l_hat[2] * k1 + u[2] * k2 - a[2] / u_t.powi(2),
    ];
    let f_xy = (l_hat[0] * a[1] - l_hat[1] * a[0]) * k3 - (l_hat[0] * u[1] - l_hat[1] * u[0]) * k2;
    let f_yz = (l_hat[1] * a[2] - l_hat[2] * a[1]) * k3 - (l_hat[1] * u[2] - l_hat[2] * u[1]) * k2;
    let f_zx = (l_hat[2] * a[0] - l_hat[0] * a[2]) * k3 - (l_hat[2] * u[0] - l_hat[0] * u[2]) * k2;
    let scale = q / l_len;
    Matrix::field_strength(
        s(l_len),
        s(f_xy * scale),
        s(f_yz * scale),
        s(f_zx * scale),
        v3([f_t[0] * scale, f_t[1] * scale, f_t[2] * scale]),
    )
    .rows
    .map(|row| row.map(f))
}

/// Advances the charges until none is causally behind `until`: the library
/// says which charge is next and keeps the records, the step itself is
/// computed here. Returns the order in which the charges advanced.
fn tick(set: &mut EomChargeSet, c: f64, until: [f64; 4]) -> Vec<usize> {
    let ds = 1.0 / 100.0 * c;
    let mut order = Vec::new();
    loop {
        let n = set.len();
        let intervals: Vec<Scalar> = (0..n)
            .map(|i| s(lorentz_norm2(sub4(a4(set.get(i).unwrap().phase_space().position), until))))
            .collect();
        let Some(i) = set.next_to_advance(v4(until), &intervals) else {
            break;
        };
        order.push(i);
        let state = set.get(i).unwrap().phase_space();
        let position = a4(state.position);
        let velocity = a3(state.velocity);
        let hits: Vec<Option<Retarded>> =
            (0..n).map(|j| see_discrete(set.get(j).unwrap().world_line(), state.position)).collect();
        let mut fs = [[0.0f64; 4]; 4];
        for (q, (x, u, a)) in set.field_sources(i, &hits) {
            let x = a4(x);
            let l = [x[0] - position[0], x[1] - position[1], x[2] - position[2]];
            let one = field_strength(f(q) / c, l, a3(u), a3(a));
            for r in 0..4 {
                for k in 0..4 {
                    fs[r][k] += one[r][k];
                }
            }
        }
        let four_velocity = [velocity[0], velocity[1], velocity[2], -gamma(velocity)];
        let charge = set.get(i).unwrap();
        let q_over_m = f(charge.q()) / f(charge.m());
        let mut force = [0.0f64; 3];
        for r in 0..3 {
            let row = fs[r];
            force[r] = (row[0] * four_velocity[0]
                + row[1] * four_velocity[1]
                + row[2] * four_velocity[2]
                + row[3] * four_velocity[3])
                * q_over_m;
        }
        let g = gamma(velocity);
        let next = PhaseSpace::new(
            v3([velocity[0] + force[0] * ds, velocity[1] + force[1] * ds, velocity[2] + force[2] * ds]),
            v4([
                position[0] + velocity[0] * ds,
                position[1] + velocity[1] * ds,
                position[2] + velocity[2] * ds,
                position[3] + g * ds,
            ]),
        );
        assert!(set.advance(i, next));
    }
    order
}

fn two_charges(c: f64, t: f64) -> EomChargeSet {
    let v = 5.0;
    let u = v / c;
    let r = 2.0;
    let c1 = released(1.0, -Q, [u, r, 0.0, t], [-u, 0.0, 0.0]);
    let c2 = released(1.0, Q, [-u, -r, 0.0, t], [u, 0.0, 0.0]);
    EomChargeSet::new(vec![c1, c2])
}

fn history(charge: &EomCharge) -> Vec<[f64; 4]> {
    let wl = charge.world_line();
    (0..wl.len()).map(|i| a4(wl.get(i).unwrap())).collect()
}

#[test]
fn preset_names() {
    assert!(matches!(ChargePreset::from_name("static"), Ok(ChargePreset::Static)));
    assert!(matches!(ChargePreset::from_name("eom"), Ok(ChargePreset::Eom)));
    assert!(matches!(ChargePreset::from_name("line_o"), Ok(ChargePreset::LineOscillate)));
    assert!(matches!(ChargePreset::from_name("eom_with_static"), Ok(ChargePreset::EomWithStatic)));
    assert!(matches!(ChargePreset::from_name("circle"), Ok(ChargePreset::Circle)));
    assert!(matches!(ChargePreset::from_name(""), Err(())));
    assert!(matches!(ChargePreset::from_name("Static"), Err(())));
    assert!(matches!(ChargePreset::from_name("static "), Err(())));
    assert!(matches!(ChargePreset::from_name("line_oscillate"), Err(())));
    assert!(matches!("circle".parse::<ChargePreset>(), Ok(ChargePreset::Circle)));
    assert!(matches!("square".parse::<ChargePreset>(), Err(())));
}

#[test]
fn a_released_charge_has_rested_before() {
    let charge = released(1.0, Q, [1.0, 2.0, 3.0, -30.0], [0.5, 0.0, 0.0]);
    assert_eq!(f(charge.m()), 1.0);
    assert_eq!(f(charge.q()), Q);
    assert_eq!(a4(charge.phase_space().position), [1.0, 2.0, 3.0, -30.0]);
    assert_eq!(a3(charge.phase_space().velocity), [0.5, 0.0, 0.0]);
    assert_eq!(
        history(&charge),
        vec![
            [1.0, 2.0, 3.0, -10030.0],
            [1.0, 2.0, 3.0, -1030.0],
            [1.0, 2.0, 3.0, -130.0],
            [1.0, 2.0, 3.0, -40.0],
            [1.0, 2.0, 3.0, -31.0],
            [1.0, 2.0, 3.0, -30.0],
        ]
    );
}

#[test]
fn a_charge_needs_a_past_that_leads_up_to_it() {
    let x = v4([0.0, 0.0, 0.0, 0.0]);
    let u = v3([0.0, 0.0, 0.0]);
    assert!(EomCharge::new(s(1.0), s(1.0), x, u, &[]).is_some());
    assert!(EomCharge::new(s(1.0), s(1.0), x, u, &[s(-2.0), s(-1.0)]).is_some());
    assert!(EomCharge::new(s(1.0), s(1.0), x, u, &[s(-1.0), s(-2.0)]).is_none());
    assert!(EomCharge::new(s(1.0), s(1.0), x, u, &[s(-1.0), s(-1.0)]).is_none());
    assert!(EomCharge::new(s(1.0), s(1.0), x, u, &[s(-1.0), s(0.0)]).is_none());
    assert!(EomCharge::new(s(1.0), s(1.0), x, u, &[s(-1.0), s(1.0)]).is_none());
    assert!(EomCharge::new(s(1.0), s(1.0), x, u, &[s(f64::NAN)]).is_none());
    let nowhen = v4([0.0, 0.0, 0.0, f64::NAN]);
    assert!(EomCharge::new(s(1.0), s(1.0), nowhen, u, &[]).is_none());
}

#[test]
fn the_most_past_charge_is_the_first_of_the_earliest() {
    let at = |ct: f64| released(1.0, Q, [0.0, 0.0, 0.0, ct], [0.0, 0.0, 0.0]);
    assert_eq!(most_past_charge_index(&[at(3.0)]), 0);
    assert_eq!(most_past_charge_index(&[at(3.0), at(1.0), at(2.0), at(1.0)]), 1);
    assert_eq!(most_past_charge_index(&[at(-3.0), at(1.0), at(-4.0)]), 2);
    // in the total order -0.0 comes before +0.0
    assert_eq!(most_past_charge_index(&[at(0.0), at(-0.0)]), 1);
    assert_eq!(most_past_charge_index(&[at(-0.0), at(0.0)]), 0);
}

#[test]
fn no_charge_advances_once_all_have_caught_up() {
    let set = two_charges(1.0, -30.0);
    // an observer in the common past of both charges
    let until = [0.0, 0.0, 0.0, -31.0];
    let intervals: Vec<Scalar> = (0..2)
        .map(|i| s(lorentz_norm2(sub4(a4(set.get(i).unwrap().phase_space().position), until))))
        .collect();
    assert_eq!(set.next_to_advance(v4(until), &intervals), None);
    // later than the observer, whatever the interval
    assert_eq!(set.next_to_advance(v4(until), &[s(-1.0), s(-1.0)]), None);
    // earlier than the observer but not inside the light cone
    let until = [0.0, 0.0, 0.0, -29.0];
    assert_eq!(set.next_to_advance(v4(until), &[s(0.0), s(5.0)]), None);
    // one charge inside the light cone is enough
    assert_eq!(set.next_to_advance(v4(until), &[s(0.0), s(-5.0)]), Some(0));
    assert_eq!(set.next_to_advance(v4(until), &[s(-5.0), s(0.0)]), Some(0));
    // no charges, nothing to advance
    let empty = EomChargeSet::new(Vec::new());
    assert_eq!(empty.next_to_advance(v4(until), &[]), None);
}

#[test]
fn the_earliest_charge_advances_even_if_another_is_the_one_behind() {
    let early_but_far = released(1.0, Q, [100.0, 0.0, 0.0, 0.0], [0.0, 0.0, 0.0]);
    let late_but_near = released(1.0, Q, [0.0, 0.0, 0.0, 1.0], [0.0, 0.0, 0.0]);
    let set = EomChargeSet::new(vec![late_but_near, early_but_far]);
    let until = [0.0, 0.0, 0.0, 2.0];
    let intervals: Vec<Scalar> = (0..2)
        .map(|i| s(lorentz_norm2(sub4(a4(set.get(i).unwrap().phase_space().position), until))))
        .collect();
    assert_eq!(intervals.iter().map(|i| f(*i)).collect::<Vec<_>>(), vec![-1.0, 9996.0]);
    assert_eq!(set.next_to_advance(v4(until), &intervals), Some(1));
}

#[test]
fn advance_records_the_new_position() {
    let mut set = two_charges(1.0, -30.0);
    let before = history(set.get(1).unwrap());
    let next = PhaseSpace::new(v3([5.0, 0.1, 0.0]), v4([-4.95, -2.0, 0.0, -29.9]));
    assert!(set.advance(1, next));
    let charge = set.get(1).unwrap();
    assert_eq!(a4(charge.phase_space().position), [-4.95, -2.0, 0.0, -29.9]);
    assert_eq!(a3(charge.phase_space().velocity), [5.0, 0.1, 0.0]);
    let mut expected = before;
    expected.push([-4.95, -2.0, 0.0, -29.9]);
    assert_eq!(history(charge), expected);
    assert_eq!(history(set.get(0).unwrap()).len(), 6);
    assert_eq!(f(charge.q()), Q);
    assert_eq!(f(charge.m()), 1.0);
}

#[test]
fn advance_refuses_a_step_that_does_not_lead_forward_in_time() {
    let mut set = two_charges(1.0, -30.0);
    for ct in [-30.0, -30.5, f64::NAN, f64::NEG_INFINITY] {
        let next = PhaseSpace::new(v3([0.0, 0.0, 0.0]), v4([0.0, 0.0, 0.0, ct]));
        assert!(!set.advance(0, next));
        assert_eq!(a4(set.get(0).unwrap().phase_space().position), [5.0, 2.0, 0.0, -30.0]);
        assert_eq!(a3(set.get(0).unwrap().phase_space().velocity), [-5.0, 0.0, 0.0]);
        assert_eq!(history(set.get(0).unwrap()).len(), 6);
    }
}

#[test]
fn an_observer_receives_the_charges_that_reach_it() {
    let set = two_charges(1.0, -30.0);
    let hit = |ct: f64| Some((v4([0.0, 0.0, 0.0, ct]), v3([0.0; 3]), v3([0.0; 3])));
    let both = set.iter(&[hit(-1.0), hit(-2.0)]);
    assert_eq!(both.len(), 2);
    assert_eq!(f(both[0].0), -Q);
    assert_eq!(f(both[0].1 .0.ct), -1.0);
    assert_eq!(f(both[1].0), Q);
    assert_eq!(f(both[1].1 .0.ct), -2.0);
    let second = set.iter(&[None, hit(-2.0)]);
    assert_eq!(second.len(), 1);
    assert_eq!(f(second[0].0), Q);
    assert_eq!(f(second[0].1 .0.ct), -2.0);
    assert!(set.iter(&[None, None]).is_empty());
}

#[test]
fn a_charge_does_not_act_on_itself() {
    let set = two_charges(1.0, -30.0);
    let hit = |ct: f64| Some((v4([0.0, 0.0, 0.0, ct]), v3([0.0; 3]), v3([0.0; 3])));
    let on_first = set.field_sources(0, &[hit(-1.0), hit(-2.0)]);
    assert_eq!(on_first.len(), 1);
    assert_eq!(f(on_first[0].0), Q);
    assert_eq!(f(on_first[0].1 .0.ct), -2.0);
    let on_second = set.field_sources(1, &[hit(-1.0), hit(-2.0)]);
    assert_eq!(on_second.len(), 1);
    assert_eq!(f(on_second[0].0), -Q);
    assert!(set.field_sources(1, &[None, hit(-2.0)]).is_empty());
    // an index beyond the set leaves nobody out
    assert_eq!(set.field_sources(2, &[hit(-1.0), hit(-2.0)]).len(), 2);
}

#[test]
fn change_c_rescales_velocities_only() {
    let mut set = two_charges(1.0, -30.0);
    let before: Vec<_> = (0..2).map(|i| history(set.get(i).unwrap())).collect();
    set.change_c(&[v3([-2.5, 0.0, 0.0]), v3([2.5, 0.0, 0.0])]);
    assert_eq!(a3(set.get(0).unwrap().phase_space().velocity), [-2.5, 0.0, 0.0]);
    assert_eq!(a3(set.get(1).unwrap().phase_space().velocity), [2.5, 0.0, 0.0]);
    assert_eq!(a4(set.get(0).unwrap().phase_space().position), [5.0, 2.0, 0.0, -30.0]);
    assert_eq!(a4(set.get(1).unwrap().phase_space().position), [-5.0, -2.0, 0.0, -30.0]);
    for i in 0..2 {
        assert_eq!(history(set.get(i).unwrap()), before[i]);
    }
}

#[test]
fn ticking_keeps_every_world_line_in_order_and_advances_the_earliest() {
    let mut set = two_charges(1.0, -30.0);
    let mut total = 0;
    for until_ct in [-24.0, -23.5, -23.5, -22.0] {
        let until = [0.0, 0.0, 0.0, until_ct];
        let before: Vec<usize> = (0..2).map(|i| set.get(i).unwrap().world_line().len()).collect();
        let order = tick(&mut set, 1.0, until);
        total += order.len();
        for i in 0..2 {
            let charge = set.get(i).unwrap();
            let h = history(charge);
            assert_eq!(h.len(), before[i] + order.iter().filter(|&&j| j == i).count());
            assert!(h.windows(2).all(|w| w[0][3] < w[1][3]));
            let position = a4(charge.phase_space().position);
            assert_eq!(*h.last().unwrap(), position);
            // the charge has caught up with the observer
            assert!(position[3] >= until[3] || lorentz_norm2(sub4(position, until)) >= 0.0);
        }
    }
    assert!(total > 0);
    // the two charges started at one time and step alike: they take turns,
    // the first going first
    let mut set = two_charges(1.0, -30.0);
    let order = tick(&mut set, 1.0, [0.0, 0.0, 0.0, -24.0]);
    assert!(order.len() >= 2);
    assert_eq!(&order[..2], &[0, 1]);
    // the charges act on each other, and alike: they leave their straight
    // paths by the same amount in opposite directions
    let y0 = a4(set.get(0).unwrap().phase_space().position)[1];
    let y1 = a4(set.get(1).unwrap().phase_space().position)[1];
    assert!(y0 != 2.0 && (y0 + y1).abs() < 1e-9, "y0={y0} y1={y1}");
}

#[test]
fn a_charge_seen_from_afar_is_seen_where_it_was() {
    let mut set = two_charges(1.0, -30.0);
    let steps = tick(&mut set, 1.0, [0.0, 0.0, 0.0, -20.0]).len();
    assert!(steps > 100, "{steps} steps");
    let observer = v4([0.0, 0.0, 30.0, 5.0]);
    let hits: Vec<Option<Retarded>> =
        (0..2).map(|j| see_discrete(set.get(j).unwrap().world_line(), observer)).collect();
    let seen = set.iter(&hits);
    assert_eq!(seen.len(), 2);
    for (_, (x, _, _)) in seen {
        let d = sub4(a4(observer), a4(x));
        assert!(f(x.ct) > -30.0 && f(x.ct) < 5.0, "{}", f(x.ct));
        assert!(lorentz_norm2(d).abs() < 1e-9, "{}", lorentz_norm2(d));
    }
}

#[test]
fn a_faster_light_rescales_and_a_slower_light_restarts() {
    assert!(matches!(SpeedChange::of(s(1.0), s(2.0)), SpeedChange::Rescale));
    assert!(matches!(SpeedChange::of(s(1.0), s(1.0000000000000002)), SpeedChange::Rescale));
    assert!(matches!(SpeedChange::of(s(1.0), s(1.0)), SpeedChange::Keep));
    assert!(matches!(SpeedChange::of(s(2.0), s(1.0)), SpeedChange::Restart));
    assert!(matches!(SpeedChange::of(s(1.0), s(0.9999999999999999)), SpeedChange::Restart));
    assert!(matches!(SpeedChange::of(s(1.0), s(f64::INFINITY)), SpeedChange::Rescale));
}

#[test]
fn sources_come_in_the_order_of_the_charges() {
    let hit = |ct: f64| Some((v4([0.0, 0.0, 0.0, ct]), v3([0.0; 3]), v3([0.0; 3])));
    let charges = [s(1.0), s(2.0), s(3.0), s(4.0)];
    let hits = [hit(-1.0), None, hit(-3.0), hit(-4.0)];
    let seen = collect_sources(&charges, &hits, None);
    let pairs: Vec<(f64, f64)> = seen.iter().map(|(q, (x, _, _))| (f(*q), f(x.ct))).collect();
    assert_eq!(pairs, vec![(1.0, -1.0), (3.0, -3.0), (4.0, -4.0)]);
    let seen = collect_sources(&charges, &hits, Some(2));
    let pairs: Vec<(f64, f64)> = seen.iter().map(|(q, (x, _, _))| (f(*q), f(x.ct))).collect();
    assert_eq!(pairs, vec![(1.0, -1.0), (4.0, -4.0)]);
    let seen = collect_sources(&charges, &hits, Some(1));
    assert_eq!(seen.len(), 3);
    assert!(collect_sources(&[], &[], None).is_empty());
    assert!(collect_sources(&[s(1.0)], &[None], None).is_empty());
}

#[test]
fn the_charges_of_a_set() {
    let set = two_charges(1.0, -30.0);
    assert_eq!(set.charges().iter().map(|q| f(*q)).collect::<Vec<_>>(), vec![-Q, Q]);
    assert!(EomChargeSet::new(Vec::new()).charges().is_empty());
}
