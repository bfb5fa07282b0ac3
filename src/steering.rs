//! The force pass: separation, alignment, cohesion and the mouse, each within
//! its own cone of awareness, read from one snapshot of the population.
use vstd::prelude::*;
use crate::config::{
    Agent, Config, MouseInput, COORD_LIMIT, FORCE_LIMIT, INVERSE_SQUARE_COEF_LIMIT,
    LINEAR_COEF_LIMIT, MAX_AGENTS,
};
use crate::vector::{
    IVec, Vector, bounded, div_trunc, lemma_trunc_div_bound, norm_sq, trunc_div, vadd, vdiv, vneg,
    vscale, vsub,
};
use crate::visibility::{in_range, is_in_range, SIGHT_COORD_LIMIT};

verus! {

/// The repulsion that `q` exerts on `p`: `coef * (p - q) / |p - q|^2`, each
/// component rounded toward zero, and zero where the two points coincide.
pub open spec fn separation_force(p: IVec, q: IVec, coef: int) -> IVec {
    let d = vsub(p, q);
    let n = norm_sq(d);
    if n > 0 {
        (trunc_div(coef * d.0, n), trunc_div(coef * d.1, n))
    } else {
        (0int, 0int)
    }
}

/// `t` is another agent in `base`'s separation cone, farther than the
/// minimum range.
pub open spec fn separates(base: Agent, t: Agent, cfg: Config) -> bool {
    &&& t.id != base.id
    &&& in_range(base.position@, t.position@, cfg.separation.radius as int, base.velocity@, cfg.separation.angle)
    &&& !in_range(base.position@, t.position@, cfg.separation_min_range as int, base.velocity@, cfg.separation.angle)
}

/// `t` is another agent in `base`'s alignment cone.
pub open spec fn aligns(base: Agent, t: Agent, cfg: Config) -> bool {
    &&& t.id != base.id
    &&& in_range(base.position@, t.position@, cfg.alignment.radius as int, base.velocity@, cfg.alignment.angle)
}

/// `t` is another agent in `base`'s cohesion cone.
pub open spec fn coheres(base: Agent, t: Agent, cfg: Config) -> bool {
    &&& t.id != base.id
    &&& in_range(base.position@, t.position@, cfg.cohesion.radius as int, base.velocity@, cfg.cohesion.angle)
}

/// What one agent gathers from its neighbours during the force pass.
pub struct Tally {
    pub separation: IVec,
    pub alignment_sum: IVec,
    pub alignment_count: int,
    pub cohesion_sum: IVec,
    pub cohesion_count: int,
}

pub open spec fn empty_tally() -> Tally {
    Tally {
        separation: (0int, 0int),
        alignment_sum: (0int, 0int),
        alignment_count: 0,
        cohesion_sum: (0int, 0int),
        cohesion_count: 0,
    }
}

pub open spec fn tally_add(a: Tally, b: Tally) -> Tally {
    Tally {
        separation: vadd(a.separation, b.separation),
        alignment_sum: vadd(a.alignment_sum, b.alignment_sum),
        alignment_count: a.alignment_count + b.alignment_count,
        cohesion_sum: vadd(a.cohesion_sum, b.cohesion_sum),
        cohesion_count: a.cohesion_count + b.cohesion_count,
    }
}

/// What `t` contributes to `base`'s tally.
pub open spec fn tally_term(base: Agent, t: Agent, cfg: Config) -> Tally {
    Tally {
        separation: if separates(base, t, cfg) {
            separation_force(base.position@, t.position@, cfg.separation.coefficient as int)
        } else {
            (0int, 0int)
        },
        alignment_sum: if aligns(base, t, cfg) { t.velocity@ } else { (0int, 0int) },
        alignment_count: if aligns(base, t, cfg) { 1int } else { 0int },
        cohesion_sum: if coheres(base, t, cfg) { t.position@ } else { (0int, 0int) },
        cohesion_count: if coheres(base, t, cfg) { 1int } else { 0int },
    }
}

/// The sum of the contributions of all agents of `s` to `base`'s tally.
pub open spec fn tally(base: Agent, s: Seq<Agent>, cfg: Config) -> Tally
    decreases s.len(),
{
    if s.len() == 0 {
        empty_tally()
    } else {
        tally_add(tally(base, s.drop_last(), cfg), tally_term(base, s.last(), cfg))
    }
}

/// The mouse's pull on `base`: repulsion like separation while the right
/// button is held, its opposite while the left one is, both if both are.
pub open spec fn mouse_force(base: Agent, mouse: MouseInput, cfg: Config) -> IVec {
    match mouse.cursor {
        Some(c) => if in_range(base.position@, c@, cfg.mouse.radius as int, base.velocity@, cfg.mouse.angle) {
            let f = separation_force(base.position@, c@, cfg.mouse.coefficient as int);
            vadd(
                if mouse.right { f } else { (0int, 0int) },
                if mouse.left { vneg(f) } else { (0int, 0int) },
            )
        } else {
            (0int, 0int)
        },
        None => (0int, 0int),
    }
}

/// `coef * (avg - own)` where `avg` is `sum / count` rounded toward zero, or
/// zero when there is nobody to average over.
pub open spec fn steer_toward_average(sum: IVec, count: int, own: IVec, coef: int) -> IVec {
    if count > 0 {
        vscale(vsub(vdiv(sum, count), own), coef)
    } else {
        (0int, 0int)
    }
}

/// The net steering force on `base` in the population `agents`.
pub open spec fn steering_force(base: Agent, agents: Seq<Agent>, mouse: MouseInput, cfg: Config) -> IVec {
    let t = tally(base, agents, cfg);
    let alignment = steer_toward_average(
        t.alignment_sum, t.alignment_count, base.velocity@, cfg.alignment.coefficient as int);
    let cohesion = steer_toward_average(
        t.cohesion_sum, t.cohesion_count, base.position@, cfg.cohesion.coefficient as int);
    vadd(vadd(vadd(t.separation, alignment), cohesion), mouse_force(base, mouse, cfg))
}

/// All agents are within bounds.
pub open spec fn population_wf(agents: Seq<Agent>) -> bool {
    forall|i: int| 0 <= i < agents.len() ==> #[trigger] agents[i].wf()
}

proof fn lemma_component_le_norm(a: int, b: int, n: int, coef: int)
    requires
        n == a * a + b * b,
        n > 0,
        coef >= 0,
    ensures
        -(coef * n) <= coef * a <= coef * n,
{
    assert(-n <= a <= n) by (nonlinear_arith)
        requires n == a * a + b * b;
    assert(-(coef * n) <= coef * a <= coef * n) by (nonlinear_arith)
        requires -n <= a <= n, coef >= 0;
}

/// The separation force that `tg_pos` exerts on `self_pos`.
pub fn separation(self_pos: &Vector, tg_pos: &Vector, coefficient: i64) -> (r: Vector)
    requires
        bounded(vsub(self_pos@, tg_pos@), SIGHT_COORD_LIMIT as int),
        0 <= coefficient <= INVERSE_SQUARE_COEF_LIMIT,
    ensures
        r@ == separation_force(self_pos@, tg_pos@, coefficient as int),
        bounded(r@, coefficient as int),
{
    let d = self_pos.diff(tg_pos);
    let n = d.length_squared();
    if n > 0 {
        let c = coefficient as i128;
        proof {
            lemma_component_le_norm(d.x as int, d.y as int, n as int, c as int);
            lemma_component_le_norm(d.y as int, d.x as int, n as int, c as int);
            lemma_trunc_div_bound(c * d.x, n as int, c as int);
            lemma_trunc_div_bound(c * d.y, n as int, c as int);
        }
        assert(-0x2_0000_0000_0000_0000 <= c * (d.x as i128) <= 0x2_0000_0000_0000_0000) by (nonlinear_arith)
            requires 0 <= c <= 0x1_0000_0000, -0x200_0000 <= d.x <= 0x200_0000;
        assert(-0x2_0000_0000_0000_0000 <= c * (d.y as i128) <= 0x2_0000_0000_0000_0000) by (nonlinear_arith)
            requires 0 <= c <= 0x1_0000_0000, -0x200_0000 <= d.y <= 0x200_0000;
        let qx = div_trunc(c * (d.x as i128), n);
        let qy = div_trunc(c * (d.y as i128), n);
        Vector { x: qx as i64, y: qy as i64 }
    } else {
        Vector::origin()
    }
}

/// `coefficient * (average - own)`: steering toward an average velocity or
/// position.
fn steer_toward(own: &Vector, average: &Vector, coefficient: i64) -> (r: Vector)
    requires
        bounded(own@, COORD_LIMIT as int),
        bounded(average@, COORD_LIMIT as int),
        0 <= coefficient <= LINEAR_COEF_LIMIT,
    ensures
        r@ == vscale(vsub(average@, own@), coefficient as int),
        bounded(r@, 0x200_0000_0000),
{
    let d = average.diff(own);
    assert(-0x200_0000_0000 <= d.x * coefficient <= 0x200_0000_0000) by (nonlinear_arith)
        requires 0 <= coefficient <= 0x1_0000, -0x200_0000 <= d.x <= 0x200_0000;
    assert(-0x200_0000_0000 <= d.y * coefficient <= 0x200_0000_0000) by (nonlinear_arith)
        requires 0 <= coefficient <= 0x1_0000, -0x200_0000 <= d.y <= 0x200_0000;
    d.multiply(coefficient)
}

/// Steering toward the average velocity of the neighbours.
pub fn alignment(self_v: &Vector, v_avg: &Vector, coefficient: i64) -> (r: Vector)
    requires
        bounded(self_v@, COORD_LIMIT as int),
        bounded(v_avg@, COORD_LIMIT as int),
        0 <= coefficient <= LINEAR_COEF_LIMIT,
    ensures
        r@ == vscale(vsub(v_avg@, self_v@), coefficient as int),
        bounded(r@, 0x200_0000_0000),
{
    steer_toward(self_v, v_avg, coefficient)
}

/// Steering toward the centroid of the neighbours.
pub fn cohesion(self_pos: &Vector, cent_pos: &Vector, coefficient: i64) -> (r: Vector)
    requires
        bounded(self_pos@, COORD_LIMIT as int),
        bounded(cent_pos@, COORD_LIMIT as int),
        0 <= coefficient <= LINEAR_COEF_LIMIT,
    ensures
        r@ == vscale(vsub(cent_pos@, self_pos@), coefficient as int),
        bounded(r@, 0x200_0000_0000),
{
    steer_toward(self_pos, cent_pos, coefficient)
}

proof fn lemma_tally_step(base: Agent, s: Seq<Agent>, j: int, cfg: Config)
    requires
        0 <= j < s.len(),
    ensures
        tally(base, s.take(j + 1), cfg) == tally_add(tally(base, s.take(j), cfg), tally_term(base, s[j], cfg)),
{
    assert(s.take(j + 1).drop_last() =~= s.take(j));
}

/// The net steering force on `base`, read from the snapshot `agents`.
pub fn agent_force(base: &Agent, agents: &Vec<Agent>, mouse: &MouseInput, cfg: &Config) -> (r: Vector)
    requires
        cfg.wf(),
        base.wf(),
        population_wf(agents@),
        agents.len() <= MAX_AGENTS,
        mouse.wf(),
    ensures
        r@ == steering_force(*base, agents@, *mouse, *cfg),
        bounded(r@, FORCE_LIMIT as int),
{
    let mut sep = Vector::origin();
    let mut al_sum = Vector::origin();
    let mut al_n: i64 = 0;
    let mut co_sum = Vector::origin();
    let mut co_n: i64 = 0;
    let mut j: usize = 0;
    while j < agents.len()
        invariant
            0 <= j <= agents.len(),
            agents.len() <= MAX_AGENTS,
            cfg.wf(),
            base.wf(),
            population_wf(agents@),
            sep@ == tally(*base, agents@.take(j as int), *cfg).separation,
            al_sum@ == tally(*base, agents@.take(j as int), *cfg).alignment_sum,
            al_n == tally(*base, agents@.take(j as int), *cfg).alignment_count,
            co_sum@ == tally(*base, agents@.take(j as int), *cfg).cohesion_sum,
            co_n == tally(*base, agents@.take(j as int), *cfg).cohesion_count,
            bounded(sep@, j * INVERSE_SQUARE_COEF_LIMIT),
            0 <= al_n <= j,
            0 <= co_n <= j,
            bounded(al_sum@, al_n * COORD_LIMIT),
            bounded(co_sum@, co_n * COORD_LIMIT),
        decreases agents.len() - j,
    {
        let t = &agents[j];
        proof {
            lemma_tally_step(*base, agents@, j as int, *cfg);
            assert(agents@[j as int].wf());
        }
        if t.id != base.id
            && is_in_range(&base.position, &t.position, cfg.separation.radius, &base.velocity, cfg.separation.angle)
            && !is_in_range(&base.position, &t.position, cfg.separation_min_range, &base.velocity, cfg.separation.angle)
        {
            let f = separation(&base.position, &t.position, cfg.separation.coefficient);
            sep = sep.add(&f);
        }
        if t.id != base.id
            && is_in_range(&base.position, &t.position, cfg.alignment.radius, &base.velocity, cfg.alignment.angle)
        {
            al_sum = al_sum.add(&t.velocity);
            al_n = al_n + 1;
        }
        if t.id != base.id
            && is_in_range(&base.position, &t.position, cfg.cohesion.radius, &base.velocity, cfg.cohesion.angle)
        {
            co_sum = co_sum.add(&t.position);
            co_n = co_n + 1;
        }
        j = j + 1;
    }
    proof {
        assert(agents@.take(agents.len() as int) =~= agents@);
    }
    let mut force = sep;
    if al_n > 0 {
        proof {
            lemma_trunc_div_bound(al_sum.x as int, al_n as int, COORD_LIMIT as int);
            lemma_trunc_div_bound(al_sum.y as int, al_n as int, COORD_LIMIT as int);
        }
        let avg = al_sum.div(al_n);
        let a = alignment(&base.velocity, &avg, cfg.alignment.coefficient);
        force = force.add(&a);
    }
    if co_n > 0 {
        proof {
            lemma_trunc_div_bound(co_sum.x as int, co_n as int, COORD_LIMIT as int);
            lemma_trunc_div_bound(co_sum.y as int, co_n as int, COORD_LIMIT as int);
        }
        let centroid = co_sum.div(co_n);
        let c = cohesion(&base.position, &centroid, cfg.cohesion.coefficient);
        force = force.add(&c);
    }
    let mut mouse_f = Vector::origin();
    match mouse.cursor {
        Some(c) => {
            if is_in_range(&base.position, &c, cfg.mouse.radius, &base.velocity, cfg.mouse.angle) {
                let f = separation(&base.position, &c, cfg.mouse.coefficient);
                if mouse.right {
                    mouse_f = mouse_f.add(&f);
                }
                if mouse.left {
                    mouse_f = mouse_f.diff(&f);
                }
            }
        },
        None => {},
    }
    force.add(&mouse_f)
}

/// The steering force of every agent, read from one snapshot: entry `i` is
/// the force on `agents[i]`.
pub fn compute_forces(agents: &Vec<Agent>, mouse: &MouseInput, cfg: &Config) -> (r: Vec<Vector>)
    requires
        cfg.wf(),
        population_wf(agents@),
        agents.len() <= MAX_AGENTS,
        mouse.wf(),
    ensures
        r.len() == agents.len(),
        forall|i: int| 0 <= i < r.len() ==>
            (#[trigger] r[i])@ == steering_force(agents[i], agents@, *mouse, *cfg),
        forall|i: int| 0 <= i < r.len() ==> bounded((#[trigger] r[i])@, FORCE_LIMIT as int),
{
    let mut forces: Vec<Vector> = Vec::new();
    let mut i: usize = 0;
    while i < agents.len()
        invariant
            0 <= i <= agents.len(),
            forces.len() == i,
            cfg.wf(),
            population_wf(agents@),
            agents.len() <= MAX_AGENTS,
            mouse.wf(),
            forall|k: int| 0 <= k < i ==>
                (#[trigger] forces[k])@ == steering_force(agents[k], agents@, *mouse, *cfg),
            forall|k: int| 0 <= k < i ==> bounded((#[trigger] forces[k])@, FORCE_LIMIT as int),
        decreases agents.len() - i,
    {
        proof {
            assert(agents@[i as int].wf());
        }
        let f = agent_force(&agents[i], agents, mouse, cfg);
        forces.push(f);
        i = i + 1;
    }
    forces
}

/// One force pass: every agent's force is recomputed from the population as
/// it stood before the pass, then written back; nothing else changes.
pub fn boid_system(agents: &mut Vec<Agent>, mouse: &MouseInput, cfg: &Config)
    requires
        cfg.wf(),
        population_wf(old(agents)@),
        old(agents).len() <= MAX_AGENTS,
        mouse.wf(),
    ensures
        final(agents).len() == old(agents).len(),
        forall|i: int| 0 <= i < final(agents).len() ==> {
            &&& (#[trigger] final(agents)[i]).id == old(agents)[i].id
            &&& final(agents)[i].position == old(agents)[i].position
            &&& final(agents)[i].velocity == old(agents)[i].velocity
            &&& final(agents)[i].force@ == steering_force(old(agents)[i], old(agents)@, *mouse, *cfg)
            &&& bounded(final(agents)[i].force@, FORCE_LIMIT as int)
        },
        population_wf(final(agents)@),
{
    let forces = compute_forces(agents, mouse, cfg);
    let ghost snapshot = agents@;
    let mut i: usize = 0;
    while i < agents.len()
        invariant
            0 <= i <= agents.len(),
            agents.len() == snapshot.len(),
            forces.len() == snapshot.len(),
            forall|k: int| 0 <= k < snapshot.len() ==>
                (#[trigger] forces[k])@ == steering_force(snapshot[k], snapshot, *mouse, *cfg),
            forall|k: int| 0 <= k < snapshot.len() ==> bounded((#[trigger] forces[k])@, FORCE_LIMIT as int),
            forall|k: int| 0 <= k < i ==> {
                &&& (#[trigger] agents[k]).id == snapshot[k].id
                &&& agents[k].position == snapshot[k].position
                &&& agents[k].velocity == snapshot[k].velocity
                &&& agents[k].force == forces[k]
            },
            forall|k: int| i <= k < snapshot.len() ==> #[trigger] agents[k] == snapshot[k],
        decreases agents.len() - i,
    {
        let mut a = agents[i];
        a.force = forces[i];
        agents.set(i, a);
        i = i + 1;
    }
    proof {
        assert forall|k: int| 0 <= k < agents.len() implies #[trigger] agents@[k].wf() by {
            assert(snapshot[k].wf());
        }
    }
}

/// The separation force is zero when no agent lies in the separation cone
/// farther than the minimum range.
pub proof fn lemma_no_neighbor_no_separation(base: Agent, agents: Seq<Agent>, cfg: Config)
    requires
        forall|i: int| 0 <= i < agents.len() ==> !separates(base, #[trigger] agents[i], cfg),
    ensures
        tally(base, agents, cfg).separation == (0int, 0int),
    decreases agents.len(),
{
    if agents.len() > 0 {
        let rest = agents.drop_last();
        assert forall|i: int| 0 <= i < rest.len() implies !separates(base, #[trigger] rest[i], cfg) by {
            assert(rest[i] == agents[i]);
        }
        lemma_no_neighbor_no_separation(base, rest, cfg);
        assert(!separates(base, agents[agents.len() - 1], cfg));
    }
}

/// An agent that sees no neighbour in any cone and gets no mouse input
/// feels no force at all.
pub proof fn lemma_alone_no_force(base: Agent, agents: Seq<Agent>, mouse: MouseInput, cfg: Config)
    requires
        forall|i: int| 0 <= i < agents.len() ==> {
            &&& !separates(base, #[trigger] agents[i], cfg)
            &&& !aligns(base, agents[i], cfg)
            &&& !coheres(base, agents[i], cfg)
        },
        !mouse.left,
        !mouse.right,
    ensures
        steering_force(base, agents, mouse, cfg) == (0int, 0int),
{
    lemma_tally_empty(base, agents, cfg);
}

proof fn lemma_tally_empty(base: Agent, agents: Seq<Agent>, cfg: Config)
    requires
        forall|i: int| 0 <= i < agents.len() ==> {
            &&& !separates(base, #[trigger] agents[i], cfg)
            &&& !aligns(base, agents[i], cfg)
            &&& !coheres(base, agents[i], cfg)
        },
    ensures
        tally(base, agents, cfg) == empty_tally(),
    decreases agents.len(),
{
    if agents.len() > 0 {
        let rest = agents.drop_last();
        assert forall|i: int| 0 <= i < rest.len() implies {
            &&& !separates(base, #[trigger] rest[i], cfg)
            &&& !aligns(base, rest[i], cfg)
            &&& !coheres(base, rest[i], cfg)
        } by {
            assert(rest[i] == agents[i]);
        }
        lemma_tally_empty(base, rest, cfg);
        let last = agents[agents.len() - 1];
        assert(!separates(base, last, cfg) && !aligns(base, last, cfg) && !coheres(base, last, cfg));
    }
}

/// Taking any one agent out of the tally and adding its term back gives the
/// same tally.
proof fn lemma_tally_remove(base: Agent, s: Seq<Agent>, j: int, cfg: Config)
    requires
        0 <= j < s.len(),
    ensures
        tally(base, s, cfg) == tally_add(tally(base, s.remove(j), cfg), tally_term(base, s[j], cfg)),
    decreases s.len(),
{
    if j == s.len() - 1 {
        assert(s.remove(j) =~= s.drop_last());
    } else {
        let rest = s.drop_last();
        lemma_tally_remove(base, rest, j, cfg);
        assert(rest.remove(j) =~= s.remove(j).drop_last());
        assert(s.remove(j).last() == s.last());
    }
}

/// The tally depends only on which agents there are, not on their order.
proof fn lemma_tally_permutation(base: Agent, s1: Seq<Agent>, s2: Seq<Agent>, cfg: Config)
    requires
        s1.to_multiset() == s2.to_multiset(),
    ensures
        tally(base, s1, cfg) == tally(base, s2, cfg),
    decreases s1.len(),
{
    broadcast use vstd::seq_lib::group_to_multiset_ensures;
    if s1.len() == 0 {
        assert(s2.to_multiset().len() == 0);
        assert(s2.len() == 0);
    } else {
        let x = s1.last();
        let rest1 = s1.drop_last();
        assert(rest1.push(x) =~= s1);
        assert(s1.to_multiset() =~= rest1.to_multiset().insert(x));
        assert(s1.to_multiset().count(x) > 0);
        assert(s2.contains(x));
        let j = choose|j: int| 0 <= j < s2.len() && s2[j] == x;
        let rest2 = s2.remove(j);
        assert(rest2.to_multiset() =~= s2.to_multiset().remove(x));
        assert(rest1.to_multiset() =~= rest1.to_multiset().insert(x).remove(x));
        lemma_tally_permutation(base, rest1, rest2, cfg);
        lemma_tally_remove(base, s2, j, cfg);
    }
}

/// The force on an agent does not depend on the order in which the
/// population is scanned: any reordering of the agents gives the same force.
pub proof fn lemma_force_order_independent(
    base: Agent,
    agents: Seq<Agent>,
    reordered: Seq<Agent>,
    mouse: MouseInput,
    cfg: Config,
)
    requires
        agents.to_multiset() == reordered.to_multiset(),
    ensures
        steering_force(base, agents, mouse, cfg) == steering_force(base, reordered, mouse, cfg),
{
    lemma_tally_permutation(base, agents, reordered, cfg);
}

} // verus!
