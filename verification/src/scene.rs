//! The scene: the particle store, the generator, and the per-frame step.
use vstd::prelude::*;

use crate::rng::{range_value, rng_next, rng_nth, Rng};
use crate::{ButtonState, Color, InputState, MouseState, Vec2, HEIGHT, WIDTH};

verus! {

/// How many particles one pressed-button frame spawns.
pub const SPAWN_COUNT: usize = 10;

/// How many frames a spawned particle lives.
pub const PARTICLE_LIFETIME: u32 = 100;

/// Spawn velocity range along x, in sub-units per frame (one simulation unit
/// is `SCALE` sub-units, so this is -1 to 1 units per frame).
pub const VELOCITY_X_LOW: i64 = -10;

pub const VELOCITY_X_HIGH: i64 = 10;

/// Spawn velocity range along y, in sub-units per frame (3 to 4 units per frame).
pub const VELOCITY_Y_LOW: i64 = 30;

pub const VELOCITY_Y_HIGH: i64 = 40;

/// Gravity along x, in sub-units per frame of velocity change.
pub const GRAVITY_X: i64 = 0;

/// Gravity along y: -0.2 simulation units per frame, in sub-units.
pub const GRAVITY_Y: i64 = -2;

/// The seed every scene starts from, making runs reproducible.
pub const INITIAL_SEED: u64 = 1312;

/// The fixed color of every spawned particle, a terracotta tone.
pub open spec fn particle_color() -> Color {
    Color { r: 216, g: 81, b: 33, a: 255 }
}

/// The color the canvas is cleared to: opaque black.
pub open spec fn black_color() -> Color {
    Color { r: 0, g: 0, b: 0, a: 255 }
}

/// The gravity applied to a particle's velocity each integrated frame.
pub open spec fn gravity() -> Vec2 {
    Vec2 { x: GRAVITY_X, y: GRAVITY_Y }
}

/// One particle: where it is, how it moves, and its lifetime window.
#[derive(Clone, Copy, Debug, PartialEq, Eq, Structural)]
pub struct Particle {
    pub color: Color,
    pub start_frame: u32,
    pub lifetime: u32,
    pub pos: Vec2,
    pub velocity: Vec2,
}

impl Particle {
    pub fn new(pos: Vec2, velocity: Vec2, start_frame: u32, lifetime: u32) -> (p: Particle)
        ensures
            p == (Particle { color: particle_color(), start_frame, lifetime, pos, velocity }),
    {
        Particle { color: Color::new(216, 81, 33, 255), start_frame, lifetime, velocity, pos }
    }
}

/// Whether a particle still lives at `frame`: its lifetime window is the
/// half-open frame range `[start_frame, start_frame + lifetime)`.
pub open spec fn alive(p: Particle, frame: u32) -> bool {
    p.start_frame + p.lifetime > frame
}

/// One fixed-timestep Euler step: the position moves by the velocity, then
/// the velocity changes by gravity.
pub open spec fn stepped(p: Particle) -> Particle {
    Particle { pos: p.pos.spec_add(p.velocity), velocity: p.velocity.spec_add(gravity()), ..p }
}

/// The `k`-th particle a pressed-button frame spawns, counted from 0: it
/// starts at the mouse position with the shared spawn frame, and its velocity
/// comes from the two generator draws after `seed` that belong to it.
pub open spec fn spawned(seed: u64, frame: u32, pos: Vec2, k: int) -> Particle {
    Particle {
        color: particle_color(),
        start_frame: frame,
        lifetime: PARTICLE_LIFETIME,
        pos: pos,
        velocity: Vec2 {
            x: range_value(
                rng_nth(seed, (2 * k + 1) as nat),
                VELOCITY_X_LOW as int,
                VELOCITY_X_HIGH as int,
            ) as i64,
            y: range_value(
                rng_nth(seed, (2 * k + 2) as nat),
                VELOCITY_Y_LOW as int,
                VELOCITY_Y_HIGH as int,
            ) as i64,
        },
    }
}

/// The first `count` particles a pressed-button frame spawns.
pub open spec fn spawn_prefix(seed: u64, frame: u32, pos: Vec2, count: nat) -> Seq<Particle> {
    Seq::new(count, |k: int| spawned(seed, frame, pos, k))
}

/// The full batch of particles one pressed-button frame spawns.
pub open spec fn spawn_batch(seed: u64, frame: u32, pos: Vec2) -> Seq<Particle> {
    spawn_prefix(seed, frame, pos, SPAWN_COUNT as nat)
}

/// The store after the spawn phase: unchanged unless the left button is
/// pressed, in which case the batch is appended.
pub open spec fn with_spawns(pre: Seq<Particle>, seed: u64, input: InputState) -> Seq<Particle> {
    if input.mouse.left_button == ButtonState::Pressed {
        pre + spawn_batch(seed, input.frame, input.mouse.position)
    } else {
        pre
    }
}

/// The particles of `ps` whose lifetime window still contains `frame`, in order.
pub open spec fn living(ps: Seq<Particle>, frame: u32) -> Seq<Particle> {
    ps.filter(|p: Particle| alive(p, frame))
}

/// Every particle advanced by one Euler step.
pub open spec fn integrated(ps: Seq<Particle>) -> Seq<Particle> {
    ps.map_values(|p: Particle| stepped(p))
}

/// The particle store after one update on `input`: spawn on a pressed left
/// button, drop expired particles, then integrate once if time advanced.
pub open spec fn particles_after(pre: Seq<Particle>, seed: u64, input: InputState) -> Seq<
    Particle,
> {
    let kept = living(with_spawns(pre, seed, input), input.frame);
    if input.dt_positive {
        integrated(kept)
    } else {
        kept
    }
}

/// The generator state after one update: two draws per spawned particle.
pub open spec fn seed_after(seed: u64, input: InputState) -> u64 {
    if input.mouse.left_button == ButtonState::Pressed {
        rng_nth(seed, (2 * SPAWN_COUNT) as nat)
    } else {
        seed
    }
}

/// The simulation state: the most recent input, the particle store, and the
/// generator. One scene is created per process and lives for its lifetime.
pub struct Scene {
    pub state: InputState,
    pub particles: Vec<Particle>,
    pub rng: Rng,
}

impl Scene {
    /// A fresh scene: no particles, default input, and the fixed seed.
    pub fn new() -> (s: Scene)
        ensures
            s.state == (InputState {
                frame: 0,
                dt_positive: false,
                mouse: MouseState {
                    position: Vec2 { x: 0, y: 0 },
                    left_button: ButtonState::Released,
                    right_button: ButtonState::Released,
                },
            }),
            s.particles@ == Seq::<Particle>::empty(),
            s.rng == (Rng { seed: INITIAL_SEED }),
    {
        Scene { state: InputState::default(), particles: Vec::new(), rng: Rng::new(INITIAL_SEED) }
    }

    /// One frame step: record the input; spawn a batch of `SPAWN_COUNT`
    /// particles at the mouse position if the left button is pressed; remove
    /// every particle whose lifetime window has closed; and, when time
    /// advanced, take one fixed Euler step on every remaining particle.
    #[verifier::loop_isolation(false)]
    pub fn update(&mut self, state: InputState)
        ensures
            final(self).state == state,
            final(self).rng.seed == seed_after(old(self).rng.seed, state),
            final(self).particles@ == particles_after(
                old(self).particles@,
                old(self).rng.seed,
                state,
            ),
    {
        let ghost seed0: u64 = self.rng.seed;
        let ghost pre: Seq<Particle> = self.particles@;
        self.state = state;
        if state.mouse.left_button == ButtonState::Pressed {
            for k in 0..SPAWN_COUNT
                invariant
                    self.state == state,
                    self.rng.seed == rng_nth(seed0, (2 * k) as nat),
                    self.particles@ == pre + spawn_prefix(
                        seed0,
                        state.frame,
                        state.mouse.position,
                        k as nat,
                    ),
            {
                let vx: i64 = self.rng.gen_range(VELOCITY_X_LOW, VELOCITY_X_HIGH);
                proof {
                    assert(rng_nth(seed0, (2 * k + 1) as nat) == rng_next(
                        rng_nth(seed0, (2 * k) as nat),
                    ));
                }
                let vy: i64 = self.rng.gen_range(VELOCITY_Y_LOW, VELOCITY_Y_HIGH);
                proof {
                    assert(rng_nth(seed0, (2 * k + 2) as nat) == rng_next(
                        rng_nth(seed0, (2 * k + 1) as nat),
                    ));
                }
                let p = Particle::new(
                    state.mouse.position,
                    Vec2::new(vx, vy),
                    state.frame,
                    PARTICLE_LIFETIME,
                );
                proof {
                    assert(p == spawned(seed0, state.frame, state.mouse.position, k as int));
                    assert(pre + spawn_prefix(
                        seed0,
                        state.frame,
                        state.mouse.position,
                        (k + 1) as nat,
                    ) =~= (pre + spawn_prefix(
                        seed0,
                        state.frame,
                        state.mouse.position,
                        k as nat,
                    )).push(p));
                }
                self.particles.push(p);
            }
        }
        proof {
            assert(self.particles@ == with_spawns(pre, seed0, state));
            assert(self.rng.seed == seed_after(seed0, state));
        }
        let ghost mid: Seq<Particle> = self.particles@;
        let mut kept: Vec<Particle> = Vec::new();
        let n: usize = self.particles.len();
        proof {
            assert(mid.take(0) =~= Seq::<Particle>::empty());
            lemma_living_of_empty(state.frame);
        }
        for i in 0..n
            invariant
                kept@ == living(mid.take(i as int), state.frame),
        {
            let p = self.particles[i];
            proof {
                assert(mid.take(i + 1) =~= mid.take(i as int).push(mid[i as int]));
                lemma_living_push(mid.take(i as int), mid[i as int], state.frame);
            }
            let window_end: u64 = p.start_frame as u64 + p.lifetime as u64;
            if window_end > state.frame as u64 {
                kept.push(p);
            }
        }
        proof {
            assert(mid.take(n as int) =~= mid);
        }
        self.particles = kept;
        if state.dt_positive {
            let ghost survivors: Seq<Particle> = self.particles@;
            let m: usize = self.particles.len();
            for i in 0..m
                invariant
                    self.state == state,
                    self.rng.seed == seed_after(seed0, state),
                    self.particles@.len() == survivors.len(),
                    forall|j: int| 0 <= j < i ==> self.particles@[j] == stepped(survivors[j]),
                    forall|j: int| i <= j < survivors.len() ==> self.particles@[j] == survivors[j],
            {
                let p = self.particles[i];
                let np = Particle {
                    pos: p.pos.add(p.velocity),
                    velocity: p.velocity.add(Vec2::new(GRAVITY_X, GRAVITY_Y)),
                    ..p
                };
                self.particles[i] = np;
            }
            proof {
                assert(self.particles@ =~= integrated(survivors));
            }
        }
    }

    /// Paints the frame: clears the whole buffer to opaque black, then draws
    /// every surviving particle in store order as a single pixel of its
    /// packed color, skipping particles that fall off the canvas. Later
    /// particles overwrite earlier ones on the same pixel.
    #[verifier::loop_isolation(false)]
    pub fn render(&self, buffer: &mut Vec<u32>)
        requires
            old(buffer)@.len() == WIDTH * HEIGHT,
        ensures
            final(buffer)@ == rendered(self.particles@),
    {
        let black: u32 = Color::new(0, 0, 0, 255).to_u32();
        let n: usize = buffer.len();
        for j in 0..n
            invariant
                buffer@.len() == WIDTH * HEIGHT,
                forall|t: int| 0 <= t < j ==> buffer@[t] == black_color().packed(),
        {
            buffer[j] = black;
        }
        proof {
            assert(buffer@ =~= blank());
            assert(self.particles@.take(0) =~= Seq::<Particle>::empty());
        }
        let m: usize = self.particles.len();
        for i in 0..m
            invariant
                buffer@ == rendered(self.particles@.take(i as int)),
        {
            let p = self.particles[i];
            proof {
                lemma_rendered_len(self.particles@.take(i as int));
                assert(self.particles@.take(i + 1).drop_last() =~= self.particles@.take(i as int));
            }
            if let Some(px) = p.pos.to_px() {
                let idx: usize = px.to_index();
                buffer[idx] = p.color.to_u32();
            }
            proof {
                assert(buffer@ == rendered(self.particles@.take(i + 1)));
            }
        }
        proof {
            assert(self.particles@.take(m as int) =~= self.particles@);
        }
    }
}

/// The canvas cleared to opaque black.
pub open spec fn blank() -> Seq<u32> {
    Seq::new((WIDTH * HEIGHT) as nat, |i: int| black_color().packed())
}

/// The frame `ps` paints: the blank canvas with each particle's packed color
/// written at its pixel, in store order, so later particles win shared pixels.
pub open spec fn rendered(ps: Seq<Particle>) -> Seq<u32>
    decreases ps.len(),
{
    if ps.len() == 0 {
        blank()
    } else {
        let prev = rendered(ps.drop_last());
        let p = ps.last();
        match p.pos.spec_to_px() {
            Some(px) => prev.update(px.spec_index(), p.color.packed()),
            None => prev,
        }
    }
}

/// A rendered frame always covers the whole canvas.
pub proof fn lemma_rendered_len(ps: Seq<Particle>)
    ensures
        rendered(ps).len() == WIDTH * HEIGHT,
    decreases ps.len(),
{
    if ps.len() > 0 {
        lemma_rendered_len(ps.drop_last());
    }
}

/// No particle lives in an empty store.
pub proof fn lemma_living_of_empty(frame: u32)
    ensures
        living(Seq::<Particle>::empty(), frame) == Seq::<Particle>::empty(),
{
    reveal(Seq::<_>::filter);
}

/// Extending a store by one particle extends its living particles by that
/// particle exactly when its window contains `frame`.
pub proof fn lemma_living_push(ps: Seq<Particle>, p: Particle, frame: u32)
    ensures
        living(ps.push(p), frame) == if alive(p, frame) {
            living(ps, frame).push(p)
        } else {
            living(ps, frame)
        },
{
    broadcast use vstd::prelude::Seq::lemma_filter_push;

}

/// What every particle of one spawn batch looks like: the shared spawn frame
/// and position, the fixed lifetime and color, and a velocity inside the two
/// spawn ranges.
pub open spec fn is_spawn_of(p: Particle, frame: u32, pos: Vec2) -> bool {
    &&& p.start_frame == frame
    &&& p.pos == pos
    &&& p.lifetime == PARTICLE_LIFETIME
    &&& p.color == particle_color()
    &&& VELOCITY_X_LOW <= p.velocity.x < VELOCITY_X_HIGH
    &&& VELOCITY_Y_LOW <= p.velocity.y < VELOCITY_Y_HIGH
}

/// Law: a pressed-button frame spawns exactly `SPAWN_COUNT` particles; they
/// all share the spawn frame and position, and each velocity component lies
/// in its spawn range (x in [-10, 10), y in [30, 40) sub-units per frame).
pub proof fn lemma_spawn_batch_shape(seed: u64, frame: u32, pos: Vec2)
    ensures
        spawn_batch(seed, frame, pos).len() == SPAWN_COUNT,
        forall|k: int|
            0 <= k < SPAWN_COUNT ==> is_spawn_of(
                #[trigger] spawn_batch(seed, frame, pos)[k],
                frame,
                pos,
            ),
{
    assert forall|k: int|
        0 <= k < SPAWN_COUNT implies is_spawn_of(
        #[trigger] spawn_batch(seed, frame, pos)[k],
        frame,
        pos,
    ) by {
        crate::rng::lemma_range_value_bounds(
            rng_nth(seed, (2 * k + 1) as nat),
            VELOCITY_X_LOW as int,
            VELOCITY_X_HIGH as int,
        );
        crate::rng::lemma_range_value_bounds(
            rng_nth(seed, (2 * k + 2) as nat),
            VELOCITY_Y_LOW as int,
            VELOCITY_Y_HIGH as int,
        );
    }
}

/// A store whose particles all live at `frame` is kept whole.
pub proof fn lemma_living_all(ps: Seq<Particle>, frame: u32)
    requires
        forall|i: int| 0 <= i < ps.len() ==> alive(#[trigger] ps[i], frame),
    ensures
        living(ps, frame) == ps,
    decreases ps.len(),
{
    reveal(Seq::<_>::filter);
    if ps.len() > 0 {
        lemma_living_all(ps.drop_last(), frame);
        assert(living(ps, frame) =~= ps);
    } else {
        assert(living(ps, frame) =~= ps);
    }
}

/// Law: an update on a pressed-left-button frame adds exactly `SPAWN_COUNT`
/// particles. The surviving old particles keep their order at the front, the
/// batch follows in spawn order, and each is Euler-stepped exactly when time
/// advanced.
pub proof fn lemma_pressed_update_appends(pre: Seq<Particle>, seed: u64, input: InputState)
    requires
        input.mouse.left_button == ButtonState::Pressed,
    ensures
        particles_after(pre, seed, input).len() == living(pre, input.frame).len() + SPAWN_COUNT,
        forall|k: int|
            0 <= k < SPAWN_COUNT ==> #[trigger] particles_after(pre, seed, input)[living(
                pre,
                input.frame,
            ).len() + k] == (if input.dt_positive {
                stepped(spawn_batch(seed, input.frame, input.mouse.position)[k])
            } else {
                spawn_batch(seed, input.frame, input.mouse.position)[k]
            }),
        forall|j: int|
            0 <= j < living(pre, input.frame).len() ==> #[trigger] particles_after(
                pre,
                seed,
                input,
            )[j] == (if input.dt_positive {
                stepped(living(pre, input.frame)[j])
            } else {
                living(pre, input.frame)[j]
            }),
{
    broadcast use vstd::prelude::Seq::filter_distributes_over_add;

    let batch = spawn_batch(seed, input.frame, input.mouse.position);
    lemma_spawn_batch_shape(seed, input.frame, input.mouse.position);
    assert forall|i: int| 0 <= i < batch.len() implies alive(#[trigger] batch[i], input.frame) by {
        assert(is_spawn_of(batch[i], input.frame, input.mouse.position));
    }
    lemma_living_all(batch, input.frame);
    assert(living(with_spawns(pre, seed, input), input.frame) == living(pre, input.frame) + batch);
}

/// Law: the lifetime window is half-open. After an update at some frame, no
/// stored particle's window has closed: a particle spawned at frame `F` with
/// lifetime `L` is gone from every store the updates at frames `F + L` and
/// beyond produce.
pub proof fn lemma_expired_are_removed(pre: Seq<Particle>, seed: u64, input: InputState, j: int)
    requires
        0 <= j < particles_after(pre, seed, input).len(),
    ensures
        alive(particles_after(pre, seed, input)[j], input.frame),
{
    broadcast use vstd::prelude::Seq::lemma_filter_pred;

    let kept = living(with_spawns(pre, seed, input), input.frame);
    if input.dt_positive {
        assert(particles_after(pre, seed, input)[j] == stepped(kept[j]));
    }
}

/// Law: a particle whose lifetime window still contains the update's frame
/// stays in the store, Euler-stepped exactly when time advanced. Together
/// with `lemma_expired_are_removed` this pins the half-open window
/// `[start_frame, start_frame + lifetime)`.
pub proof fn lemma_alive_are_kept(pre: Seq<Particle>, seed: u64, input: InputState, j: int)
    requires
        0 <= j < with_spawns(pre, seed, input).len(),
        alive(with_spawns(pre, seed, input)[j], input.frame),
    ensures
        !input.dt_positive ==> particles_after(pre, seed, input).contains(
            with_spawns(pre, seed, input)[j],
        ),
        input.dt_positive ==> particles_after(pre, seed, input).contains(
            stepped(with_spawns(pre, seed, input)[j]),
        ),
{
    broadcast use vstd::prelude::Seq::lemma_filter_contains;

    let ws = with_spawns(pre, seed, input);
    let kept = living(ws, input.frame);
    assert(kept.contains(ws[j]));
    if input.dt_positive {
        let w = choose|i: int| 0 <= i < kept.len() && kept[i] == ws[j];
        assert(integrated(kept)[w] == stepped(ws[j]));
        assert(particles_after(pre, seed, input).contains(stepped(ws[j])));
    }
}

/// Each living particle of a store is one of the store's particles.
pub proof fn lemma_living_element(ps: Seq<Particle>, frame: u32, j: int)
    requires
        0 <= j < living(ps, frame).len(),
    ensures
        ps.contains(living(ps, frame)[j]),
    decreases ps.len(),
{
    reveal(Seq::<_>::filter);
    let out = living(ps, frame);
    if ps.len() > 0 {
        let prev = living(ps.drop_last(), frame);
        if alive(ps.last(), frame) && j == prev.len() {
            assert(out[j] == ps.last());
            assert(ps[ps.len() - 1] == out[j]);
        } else {
            lemma_living_element(ps.drop_last(), frame, j);
            let w = choose|i: int|
                0 <= i < ps.drop_last().len() && ps.drop_last()[i] == prev[j];
            assert(ps[w] == out[j]);
        }
    }
}

/// Law: when time has not advanced, integration is skipped; every particle
/// the update stores is, position and velocity untouched, one of the
/// particles present after the spawn phase. Spawns still occur.
pub proof fn lemma_no_time_no_motion(pre: Seq<Particle>, seed: u64, input: InputState, j: int)
    requires
        !input.dt_positive,
        0 <= j < particles_after(pre, seed, input).len(),
    ensures
        with_spawns(pre, seed, input).contains(particles_after(pre, seed, input)[j]),
{
    lemma_living_element(with_spawns(pre, seed, input), input.frame, j);
}

/// A particle after `n` consecutive Euler steps.
pub open spec fn step_n(p: Particle, n: nat) -> Particle
    decreases n,
{
    if n == 0 {
        p
    } else {
        stepped(step_n(p, (n - 1) as nat))
    }
}

/// Law: Euler integration accumulates exactly. After `n` integrated frames a
/// particle's velocity is its initial velocity plus `n` times gravity, and
/// its position is the initial position plus the sum of the `n` velocities it
/// moved with. The bounds keep every intermediate value far from the ends of
/// the coordinate range, where sums would saturate.
pub proof fn lemma_euler_integration(p: Particle, n: nat)
    requires
        n <= 0x10000,
        -0x1000_0000 <= p.velocity.x <= 0x1000_0000,
        -0x1000_0000 <= p.velocity.y <= 0x1000_0000,
        -0x1000_0000_0000 <= p.pos.x <= 0x1000_0000_0000,
        -0x1000_0000_0000 <= p.pos.y <= 0x1000_0000_0000,
    ensures
        step_n(p, n).color == p.color,
        step_n(p, n).start_frame == p.start_frame,
        step_n(p, n).lifetime == p.lifetime,
        step_n(p, n).velocity.x == p.velocity.x,
        step_n(p, n).velocity.y == p.velocity.y + n * GRAVITY_Y,
        step_n(p, n).pos.x == p.pos.x + n * p.velocity.x,
        step_n(p, n).pos.y == p.pos.y + n * p.velocity.y + n * (n - 1) * (GRAVITY_Y / 2),
    decreases n,
{
    if n > 0 {
        let m = (n - 1) as nat;
        lemma_euler_integration(p, m);
        let q = step_n(p, m);
        assert(-0x1000_0000_0000_0000 <= m * p.velocity.x <= 0x1000_0000_0000_0000)
            by (nonlinear_arith)
            requires
                0 <= m <= 0x10000,
                -0x1000_0000 <= p.velocity.x <= 0x1000_0000;
        assert(-0x1000_0000_0000_0000 <= m * p.velocity.y <= 0x1000_0000_0000_0000)
            by (nonlinear_arith)
            requires
                0 <= m <= 0x10000,
                -0x1000_0000 <= p.velocity.y <= 0x1000_0000;
        assert(0 <= m * (m - 1) <= 0x1_0000_0000) by (nonlinear_arith)
            requires
                0 <= m <= 0x10000;
        assert(q.velocity == (Vec2 {
            x: p.velocity.x,
            y: (p.velocity.y + m * GRAVITY_Y) as i64,
        }));
        assert(step_n(p, n) == stepped(q));
        assert(n * p.velocity.x == m * p.velocity.x + p.velocity.x) by (nonlinear_arith)
            requires
                n == m + 1;
        assert(n * p.velocity.y == m * p.velocity.y + p.velocity.y) by (nonlinear_arith)
            requires
                n == m + 1;
        assert((m as int) * (m as int - 1) + 2 * (m as int) == (n as int) * (n as int - 1))
            by (nonlinear_arith)
            requires
                n == m + 1;
        assert(step_n(p, n).pos.y == p.pos.y + n * p.velocity.y + n * (n - 1) * (GRAVITY_Y / 2));
    }
}

/// The store and generator a whole input sequence produces, applied in order
/// from the given starting state.
pub open spec fn evolved(pre: Seq<Particle>, seed: u64, inputs: Seq<InputState>) -> (Seq<
    Particle,
>, u64)
    decreases inputs.len(),
{
    if inputs.len() == 0 {
        (pre, seed)
    } else {
        let prior = evolved(pre, seed, inputs.drop_last());
        (
            particles_after(prior.0, prior.1, inputs.last()),
            seed_after(prior.1, inputs.last()),
        )
    }
}

/// Running one more input after a sequence is one more update on the
/// sequence's outcome.
pub proof fn lemma_evolved_step(
    pre: Seq<Particle>,
    seed: u64,
    inputs: Seq<InputState>,
    next: InputState,
)
    ensures
        evolved(pre, seed, inputs.push(next)) == (
            particles_after(evolved(pre, seed, inputs).0, evolved(pre, seed, inputs).1, next),
            seed_after(evolved(pre, seed, inputs).1, next),
        ),
{
    assert(inputs.push(next).drop_last() =~= inputs);
    assert(inputs.push(next).last() == next);
}

/// Law: the simulation is deterministic. From equal starting stores and
/// seeds, two runs over identical input sequences produce identical particle
/// stores and identical rendered frames; there is no other source of state.
pub proof fn lemma_deterministic_replay(
    pre: Seq<Particle>,
    seed: u64,
    a: Seq<InputState>,
    b: Seq<InputState>,
)
    requires
        a == b,
    ensures
        evolved(pre, seed, a) == evolved(pre, seed, b),
        rendered(evolved(pre, seed, a).0) == rendered(evolved(pre, seed, b).0),
{
}

} // verus!
