//! Particles: their motion through the field and the trails they leave.
use vstd::prelude::*;
use crate::color::{color_lerp, color_lerp_spec, Srgba};
use crate::fixed::{lemma_product_bound, lemma_trunc_div_bounds, mul_div, saturate, saturating,
    trunc_div, ONE};
use crate::geometry::rect::Rect;
use crate::geometry::vector::{lemma_clamped_length, Point2};
use crate::random::random_unit;

verus! {

/// The magnitude of the acceleration along the flow, in units.
pub const ACCELERATION: i64 = 10;

/// The part of the acceleration that one update adds to the velocity: one in this many.
pub const RESPONSE_DIVISOR: i64 = 100;

/// The greatest speed of a particle: ten units.
pub const MAX_SPEED: i64 = 10_000_000;

/// The distance travelled per unit of speed and of time.
pub const TRAVEL: i64 = 10;

/// The bound, in units, below which the velocity of a new particle is drawn on each axis.
pub const SPAWN_SPEED: i64 = 400;

/// One point of a trail, with the colour it is drawn in and the time it has left.
#[derive(Clone, Copy, Debug, PartialEq, Eq)]
pub struct ParticleSegment {
    pub position: Point2,
    pub color: Srgba,
    pub time_left: i64,
}

/// A particle and the trail behind it, oldest segment first.
#[derive(Debug)]
pub struct Particle {
    pub pos: Point2,
    pub vel: Point2,
    pub particle_trail: Vec<ParticleSegment>,
}

/// What an update reports: where the particle was, and whether it crossed an edge.
#[derive(Clone, Copy, Debug, PartialEq, Eq)]
pub struct UpdateResult {
    pub previous_position: Point2,
    pub jumped: bool,
}

/// The velocity that one update gains from the component `heading` of the flow's direction.
pub open spec fn kick(heading: int) -> int {
    trunc_div(heading * ACCELERATION, RESPONSE_DIVISOR as int)
}

/// The distance covered at speed `speed` during `delta_time`.
pub open spec fn travel(speed: int, delta_time: int) -> int {
    trunc_div((speed * TRAVEL) * delta_time, ONE as int)
}

/// How far a segment with `time_left` of its `alive_duration` left has faded:
/// zero when fresh, one when it expires.
pub open spec fn fade(time_left: int, alive_duration: int) -> int {
    saturate(ONE - trunc_div(time_left * ONE, alive_duration))
}

/// The test that pruning applies: a segment stays while it has time left.
pub open spec fn live() -> spec_fn(ParticleSegment) -> bool {
    |s: ParticleSegment| s.time_left > 0
}

/// The trail with every segment aged by `delta_time`.
pub open spec fn aged_trail(
    trail: Seq<ParticleSegment>,
    origin: Srgba,
    target: Srgba,
    alive_duration: int,
    delta_time: int,
) -> Seq<ParticleSegment> {
    Seq::new(trail.len(), |i: int| trail[i].aged(origin, target, alive_duration, delta_time))
}

/// The trail after the aging and pruning of one tick.
pub open spec fn decayed(
    trail: Seq<ParticleSegment>,
    origin: Srgba,
    target: Srgba,
    alive_duration: int,
    delta_time: int,
) -> Seq<ParticleSegment> {
    aged_trail(trail, origin, target, alive_duration, delta_time).filter(live())
}

/// The trail that a tick starts to age: the old one with a fresh segment at
/// `position`, or nothing after a jump.
pub open spec fn extended_trail(
    trail: Seq<ParticleSegment>,
    jumped: bool,
    position: Point2,
    color: Srgba,
    alive_duration: int,
    delta_time: int,
) -> Seq<ParticleSegment> {
    if jumped {
        Seq::empty()
    } else {
        trail.push(
            ParticleSegment {
                position,
                color,
                time_left: saturate(alive_duration + delta_time) as i64,
            },
        )
    }
}

impl ParticleSegment {
    /// The segment after `delta_time` has passed: with less time left, and
    /// with the colour that belongs to the time left.
    pub open spec fn aged(
        self,
        origin: Srgba,
        target: Srgba,
        alive_duration: int,
        delta_time: int,
    ) -> ParticleSegment {
        let time_left = saturate(self.time_left - delta_time);
        ParticleSegment {
            position: self.position,
            color: color_lerp_spec(origin, target, fade(time_left, alive_duration)),
            time_left: time_left as i64,
        }
    }

    /// Takes `delta_time` from the time left and recolours the segment
    /// between `origin`, when fresh, and `target`, when it expires.
    pub fn age(&mut self, origin: &Srgba, target: &Srgba, alive_duration: i64, delta_time: i64)
        requires
            alive_duration > 0,
        ensures
            *final(self) == old(self).aged(
                *origin,
                *target,
                alive_duration as int,
                delta_time as int,
            ),
    {
        self.time_left = saturating(self.time_left as i128 - delta_time as i128);
        let gone = mul_div(self.time_left as i128, ONE, alive_duration as i128);
        proof {
            lemma_trunc_div_bounds(self.time_left * ONE, alive_duration as int);
            lemma_product_bound(
                self.time_left as int,
                ONE as int,
                0x8000_0000_0000_0000,
                1_000_000,
            );
        }
        let t = saturating(ONE as i128 - gone);
        self.color = color_lerp(origin, target, t);
    }
}

impl Particle {
    /// The velocity after an update under the flow direction `heading`.
    pub open spec fn next_vel(vel: Point2, heading: Point2) -> Point2 {
        Point2 {
            x: saturate(vel.x + kick(heading.x as int)) as i64,
            y: saturate(vel.y + kick(heading.y as int)) as i64,
        }.clamped(MAX_SPEED as int)
    }

    /// Where a particle at `pos` arrives when it moves at `vel` for `delta_time`.
    pub open spec fn advanced(pos: Point2, vel: Point2, delta_time: int) -> Point2 {
        Point2 {
            x: saturate(pos.x + travel(vel.x as int, delta_time)) as i64,
            y: saturate(pos.y + travel(vel.y as int, delta_time)) as i64,
        }
    }

    /// The point lies beyond an edge of `bounds`.
    pub open spec fn jumps(p: Point2, bounds: Rect) -> bool {
        p.x < bounds.left || p.x > bounds.right || p.y > bounds.top || p.y < bounds.bottom
    }

    /// The point after the one edge crossing that an update applies: the
    /// horizontal edges are looked at first, and the first crossing found
    /// puts the point on the opposite edge.
    pub open spec fn wrapped(p: Point2, bounds: Rect) -> Point2 {
        if p.x < bounds.left {
            Point2 { x: bounds.right, y: p.y }
        } else if p.x > bounds.right {
            Point2 { x: bounds.left, y: p.y }
        } else if p.y > bounds.top {
            Point2 { x: p.x, y: bounds.bottom }
        } else if p.y < bounds.bottom {
            Point2 { x: p.x, y: bounds.top }
        } else {
            p
        }
    }

    /// A particle at `(x, y)` with a velocity drawn at random, on each axis
    /// below [`SPAWN_SPEED`] units, and no trail.
    pub fn new(x: i64, y: i64) -> (p: Particle)
        ensures
            p.pos == (Point2 { x, y }),
            0 <= p.vel.x < SPAWN_SPEED * ONE,
            0 <= p.vel.y < SPAWN_SPEED * ONE,
            p.particle_trail@.len() == 0,
    {
        let draw_x = random_unit();
        let draw_y = random_unit();
        Particle::with_draws(x, y, draw_x, draw_y)
    }

    /// A particle at `(x, y)` without a trail, whose velocity is
    /// [`SPAWN_SPEED`] times the two draws.
    pub fn with_draws(x: i64, y: i64, draw_x: i64, draw_y: i64) -> (p: Particle)
        ensures
            p.pos == (Point2 { x, y }),
            p.vel.x == saturate(draw_x * SPAWN_SPEED),
            p.vel.y == saturate(draw_y * SPAWN_SPEED),
            p.particle_trail@.len() == 0,
    {
        Particle {
            pos: Point2 { x, y },
            vel: Point2 {
                x: saturating(draw_x as i128 * SPAWN_SPEED as i128),
                y: saturating(draw_y as i128 * SPAWN_SPEED as i128),
            },
            particle_trail: Vec::new(),
        }
    }

    /// Moves the particle by one step: the flow direction `heading` pulls
    /// the velocity, whose length is then capped at [`MAX_SPEED`]; the
    /// particle travels at that velocity for `delta_time`; and where it has
    /// crossed an edge of `bounds`, it enters at the opposite edge.
    pub fn update(&mut self, heading: Point2, bounds: &Rect, delta_time: i64) -> (r: UpdateResult)
        ensures
            r.previous_position == old(self).pos,
            final(self).vel == Self::next_vel(old(self).vel, heading),
            r.jumped == Self::jumps(
                Self::advanced(old(self).pos, final(self).vel, delta_time as int),
                *bounds,
            ),
            final(self).pos == Self::wrapped(
                Self::advanced(old(self).pos, final(self).vel, delta_time as int),
                *bounds,
            ),
            final(self).particle_trail == old(self).particle_trail,
            final(self).vel.length_squared() <= MAX_SPEED * MAX_SPEED,
            ({
                let arrived = Self::advanced(old(self).pos, final(self).vel, delta_time as int);
                bounds.wf() && (bounds.left <= arrived.x <= bounds.right || bounds.bottom
                    <= arrived.y <= bounds.top) ==> bounds.contains(final(self).pos)
            }),
    {
        let last_position = self.pos;
        let kick_x = mul_div(heading.x as i128, ACCELERATION, RESPONSE_DIVISOR as i128);
        let kick_y = mul_div(heading.y as i128, ACCELERATION, RESPONSE_DIVISOR as i128);
        proof {
            lemma_trunc_div_bounds(heading.x * ACCELERATION, RESPONSE_DIVISOR as int);
            lemma_trunc_div_bounds(heading.y * ACCELERATION, RESPONSE_DIVISOR as int);
        }
        let pulled = Point2 {
            x: saturating(self.vel.x as i128 + kick_x),
            y: saturating(self.vel.y as i128 + kick_y),
        };
        self.vel = pulled.clamp_length_max(MAX_SPEED);

        let step_x = mul_div(self.vel.x as i128 * TRAVEL as i128, delta_time, ONE as i128);
        let step_y = mul_div(self.vel.y as i128 * TRAVEL as i128, delta_time, ONE as i128);
        proof {
            lemma_product_bound(
                self.vel.x * TRAVEL,
                delta_time as int,
                100_000_000,
                0x8000_0000_0000_0000,
            );
            lemma_product_bound(
                self.vel.y * TRAVEL,
                delta_time as int,
                100_000_000,
                0x8000_0000_0000_0000,
            );
            lemma_trunc_div_bounds((self.vel.x * TRAVEL) * delta_time, ONE as int);
            lemma_trunc_div_bounds((self.vel.y * TRAVEL) * delta_time, ONE as int);
        }
        self.pos = Point2 {
            x: saturating(self.pos.x as i128 + step_x),
            y: saturating(self.pos.y as i128 + step_y),
        };

        let mut jumped = false;
        if self.pos.x < bounds.left {
            self.pos.x = bounds.right;
            jumped = true;
        } else if self.pos.x > bounds.right {
            self.pos.x = bounds.left;
            jumped = true;
        } else if self.pos.y > bounds.top {
            self.pos.y = bounds.bottom;
            jumped = true;
        } else if self.pos.y < bounds.bottom {
            self.pos.y = bounds.top;
            jumped = true;
        }
        UpdateResult { previous_position: last_position, jumped }
    }

    /// Lets the trail follow the update just made: after a jump the whole
    /// trail is dropped, so that none spans the jump; otherwise a segment
    /// at the particle's position is appended, in colour `color` and with
    /// `alive_duration + delta_time` to live.
    pub fn extend_trail(
        &mut self,
        jumped: bool,
        color: &Srgba,
        alive_duration: i64,
        delta_time: i64,
    )
        ensures
            final(self).pos == old(self).pos,
            final(self).vel == old(self).vel,
            final(self).particle_trail@ == extended_trail(
                old(self).particle_trail@,
                jumped,
                old(self).pos,
                *color,
                alive_duration as int,
                delta_time as int,
            ),
    {
        if !jumped {
            self.particle_trail.push(
                ParticleSegment {
                    position: self.pos,
                    color: *color,
                    time_left: saturating(alive_duration as i128 + delta_time as i128),
                },
            );
        } else {
            self.particle_trail.clear();
        }
    }

    /// Ages every segment of the trail by `delta_time`.
    pub fn age_trail(
        &mut self,
        origin: &Srgba,
        target: &Srgba,
        alive_duration: i64,
        delta_time: i64,
    )
        requires
            alive_duration > 0,
        ensures
            final(self).pos == old(self).pos,
            final(self).vel == old(self).vel,
            final(self).particle_trail@ == aged_trail(
                old(self).particle_trail@,
                *origin,
                *target,
                alive_duration as int,
                delta_time as int,
            ),
    {
        let n = self.particle_trail.len();
        let mut i: usize = 0;
        while i < n
            invariant
                alive_duration > 0,
                i <= n,
                n == self.particle_trail@.len(),
                n == old(self).particle_trail@.len(),
                self.pos == old(self).pos,
                self.vel == old(self).vel,
                forall|j: int|
                    0 <= j < i ==> self.particle_trail@[j] == (#[trigger] old(
                        self,
                    ).particle_trail@[j]).aged(
                        *origin,
                        *target,
                        alive_duration as int,
                        delta_time as int,
                    ),
                forall|j: int|
                    i <= j < n ==> self.particle_trail@[j] == #[trigger] old(
                        self,
                    ).particle_trail@[j],
            decreases n - i,
        {
            let segment = &mut self.particle_trail[i];
            segment.age(origin, target, alive_duration, delta_time);
            i += 1;
        }
    }

    /// Drops every segment that has no time left; the others keep their order.
    pub fn prune_trail(&mut self)
        ensures
            final(self).pos == old(self).pos,
            final(self).vel == old(self).vel,
            final(self).particle_trail@ == old(self).particle_trail@.filter(live()),
    {
        let n = self.particle_trail.len();
        let mut kept: Vec<ParticleSegment> = Vec::new();
        let mut i: usize = 0;
        while i < n
            invariant
                i <= n,
                n == self.particle_trail@.len(),
                *self == *old(self),
                kept@ == self.particle_trail@.subrange(0, i as int).filter(live()),
            decreases n - i,
        {
            let segment = self.particle_trail[i];
            proof {
                reveal(Seq::filter);
                let next = self.particle_trail@.subrange(0, i + 1);
                assert(next.drop_last() =~= self.particle_trail@.subrange(0, i as int));
                assert(next.last() == segment);
                assert(next.filter(live()) == if segment.time_left > 0 {
                    next.drop_last().filter(live()).push(segment)
                } else {
                    next.drop_last().filter(live())
                });
            }
            if segment.time_left > 0 {
                kept.push(segment);
            }
            i += 1;
        }
        assert(self.particle_trail@.subrange(0, n as int) =~= self.particle_trail@);
        self.particle_trail = kept;
    }

    /// `after` is what one tick makes of `before`: the particle has moved
    /// as an update moves it, and its trail was extended, or dropped after
    /// a jump, then aged and pruned.
    pub open spec fn ticked(
        before: Particle,
        after: Particle,
        heading: Point2,
        bounds: Rect,
        delta_time: int,
        origin: Srgba,
        target: Srgba,
        alive_duration: int,
    ) -> bool {
        let vel = Self::next_vel(before.vel, heading);
        let arrived = Self::advanced(before.pos, vel, delta_time);
        &&& after.vel == vel
        &&& after.pos == Self::wrapped(arrived, bounds)
        &&& after.particle_trail@ == decayed(
            extended_trail(
                before.particle_trail@,
                Self::jumps(arrived, bounds),
                after.pos,
                origin,
                alive_duration,
                delta_time,
            ),
            origin,
            target,
            alive_duration,
            delta_time,
        )
    }

    /// Runs one tick: the update, then the trail's extension, aging and pruning.
    pub fn tick(
        &mut self,
        heading: Point2,
        bounds: &Rect,
        delta_time: i64,
        origin: &Srgba,
        target: &Srgba,
        alive_duration: i64,
    ) -> (r: UpdateResult)
        requires
            alive_duration > 0,
        ensures
            Self::ticked(
                *old(self),
                *final(self),
                heading,
                *bounds,
                delta_time as int,
                *origin,
                *target,
                alive_duration as int,
            ),
            r.previous_position == old(self).pos,
            r.jumped == Self::jumps(
                Self::advanced(old(self).pos, final(self).vel, delta_time as int),
                *bounds,
            ),
            r.jumped ==> final(self).particle_trail@.len() == 0,
    {
        let result = self.update(heading, bounds, delta_time);
        self.extend_trail(result.jumped, origin, alive_duration, delta_time);
        self.age_trail(origin, target, alive_duration, delta_time);
        self.prune_trail();
        proof {
            if result.jumped {
                lemma_decayed_empty(*origin, *target, alive_duration as int, delta_time as int);
            }
        }
        result
    }
}

/// Nothing comes of an empty trail.
pub proof fn lemma_decayed_empty(origin: Srgba, target: Srgba, alive_duration: int, delta_time: int)
    ensures
        decayed(Seq::empty(), origin, target, alive_duration, delta_time) == Seq::<
            ParticleSegment,
        >::empty(),
{
    reveal(Seq::filter);
    assert(aged_trail(Seq::empty(), origin, target, alive_duration, delta_time) =~= Seq::<
        ParticleSegment,
    >::empty());
}

/// A tick in which the particle jumps leaves it without a trail.
pub proof fn lemma_jump_clears_trail(
    before: Particle,
    after: Particle,
    heading: Point2,
    bounds: Rect,
    delta_time: int,
    origin: Srgba,
    target: Srgba,
    alive_duration: int,
)
    requires
        Particle::ticked(
            before,
            after,
            heading,
            bounds,
            delta_time,
            origin,
            target,
            alive_duration,
        ),
        Particle::jumps(
            Particle::advanced(before.pos, Particle::next_vel(before.vel, heading), delta_time),
            bounds,
        ),
    ensures
        after.particle_trail@.len() == 0,
{
    lemma_decayed_empty(origin, target, alive_duration, delta_time);
}

/// Whatever the velocity was and wherever the flow points, the velocity
/// after an update is no greater than [`MAX_SPEED`].
pub proof fn lemma_speed_capped(vel: Point2, heading: Point2)
    ensures
        Particle::next_vel(vel, heading).length_squared() <= MAX_SPEED * MAX_SPEED,
{
    let pulled = Point2 {
        x: saturate(vel.x + kick(heading.x as int)) as i64,
        y: saturate(vel.y + kick(heading.y as int)) as i64,
    };
    lemma_clamped_length(pulled, MAX_SPEED as int);
}

/// An update leaves the particle inside well-formed bounds, unless the
/// move took it beyond an edge on both axes at once: then only the
/// horizontal crossing is undone.
pub proof fn lemma_wrapped_inside(p: Point2, bounds: Rect)
    requires
        bounds.wf(),
        bounds.left <= p.x <= bounds.right || bounds.bottom <= p.y <= bounds.top,
    ensures
        bounds.contains(Particle::wrapped(p, bounds)),
{
}

/// The time that a sequence of ticks takes in all.
pub open spec fn elapsed(ticks: Seq<int>) -> int
    decreases ticks.len(),
{
    if ticks.len() == 0 {
        0
    } else {
        elapsed(ticks.drop_last()) + ticks.last()
    }
}

/// The trail after ticks of the given lengths, each of which ages and prunes it.
pub open spec fn decayed_through(
    trail: Seq<ParticleSegment>,
    origin: Srgba,
    target: Srgba,
    alive_duration: int,
    ticks: Seq<int>,
) -> Seq<ParticleSegment>
    decreases ticks.len(),
{
    if ticks.len() == 0 {
        trail
    } else {
        decayed(
            decayed_through(trail, origin, target, alive_duration, ticks.drop_last()),
            origin,
            target,
            alive_duration,
            ticks.last(),
        )
    }
}

/// A segment stays in its trail, at its place and with its time running
/// down, exactly as long as the ticks since have taken less time than it
/// had left: once they add up to that time or more, it is gone.
pub proof fn lemma_segment_lifetime(
    segment: ParticleSegment,
    origin: Srgba,
    target: Srgba,
    alive_duration: int,
    ticks: Seq<int>,
)
    requires
        segment.time_left > 0,
        forall|i: int| 0 <= i < ticks.len() ==> 0 <= #[trigger] ticks[i] <= i64::MAX,
    ensures
        elapsed(ticks) >= 0,
        ({
            let trail = decayed_through(seq![segment], origin, target, alive_duration, ticks);
            if elapsed(ticks) < segment.time_left {
                &&& trail.len() == 1
                &&& trail[0].position == segment.position
                &&& trail[0].time_left == segment.time_left - elapsed(ticks)
            } else {
                trail.len() == 0
            }
        }),
    decreases ticks.len(),
{
    if ticks.len() > 0 {
        let earlier = ticks.drop_last();
        let delta_time = ticks.last();
        lemma_segment_lifetime(segment, origin, target, alive_duration, earlier);
        let before = decayed_through(seq![segment], origin, target, alive_duration, earlier);
        let aged = aged_trail(before, origin, target, alive_duration, delta_time);
        if elapsed(earlier) < segment.time_left {
            reveal(Seq::filter);
            assert(aged.drop_last() =~= Seq::<ParticleSegment>::empty());
            assert(aged.drop_last().filter(live()) =~= Seq::<ParticleSegment>::empty());
            assert(aged.last() == before[0].aged(origin, target, alive_duration, delta_time));
            assert(aged.filter(live()) =~= if aged.last().time_left > 0 {
                seq![aged.last()]
            } else {
                Seq::<ParticleSegment>::empty()
            });
        } else {
            assert(before =~= Seq::<ParticleSegment>::empty());
            lemma_decayed_empty(origin, target, alive_duration, delta_time);
        }
    }
}

/// The segments of a trail age and expire each on its own: what comes of
/// two trails joined is what comes of the first, followed by what comes of
/// the second.
pub proof fn lemma_decay_is_segmentwise(
    first: Seq<ParticleSegment>,
    second: Seq<ParticleSegment>,
    origin: Srgba,
    target: Srgba,
    alive_duration: int,
    ticks: Seq<int>,
)
    ensures
        decayed_through(first + second, origin, target, alive_duration, ticks) == decayed_through(
            first,
            origin,
            target,
            alive_duration,
            ticks,
        ) + decayed_through(second, origin, target, alive_duration, ticks),
    decreases ticks.len(),
{
    if ticks.len() > 0 {
        let earlier = ticks.drop_last();
        let delta_time = ticks.last();
        lemma_decay_is_segmentwise(first, second, origin, target, alive_duration, earlier);
        let a = decayed_through(first, origin, target, alive_duration, earlier);
        let b = decayed_through(second, origin, target, alive_duration, earlier);
        let aged_a = aged_trail(a, origin, target, alive_duration, delta_time);
        let aged_b = aged_trail(b, origin, target, alive_duration, delta_time);
        assert(aged_trail(a + b, origin, target, alive_duration, delta_time) =~= aged_a + aged_b);
        Seq::filter_distributes_over_add(aged_a, aged_b, live());
    }
}

/// A segment has not faded at all while it has its whole life left, and
/// has faded altogether when none is left.
pub proof fn lemma_fade_ends(alive_duration: int)
    requires
        alive_duration > 0,
    ensures
        fade(alive_duration, alive_duration) == 0,
        fade(0, alive_duration) == ONE,
{
    assert((alive_duration * 1_000_000) / alive_duration == 1_000_000) by (nonlinear_arith)
        requires
            alive_duration > 0,
    ;
    assert(0int / alive_duration == 0) by (nonlinear_arith)
        requires
            alive_duration > 0,
    ;
}

/// While a segment has between none and all of its life left, its fading
/// lies between zero and one, and the less time it has left, the further
/// it has faded.
pub proof fn lemma_fade_monotonic(less: int, more: int, alive_duration: int)
    requires
        alive_duration > 0,
        0 <= less <= more <= alive_duration,
    ensures
        0 <= fade(more, alive_duration) <= fade(less, alive_duration) <= ONE,
{
    vstd::arithmetic::div_mod::lemma_div_is_ordered(
        less * 1_000_000,
        more * 1_000_000,
        alive_duration,
    );
    vstd::arithmetic::div_mod::lemma_div_is_ordered(
        more * 1_000_000,
        alive_duration * 1_000_000,
        alive_duration,
    );
    vstd::arithmetic::div_mod::lemma_div_is_ordered(0, less * 1_000_000, alive_duration);
    lemma_fade_ends(alive_duration);
}

/// A segment aged down to its whole life has the origin colour, and one
/// aged down to nothing has the target colour.
pub proof fn lemma_color_at_ends(
    segment: ParticleSegment,
    origin: Srgba,
    target: Srgba,
    alive_duration: int,
    delta_time: int,
)
    requires
        0 < alive_duration <= i64::MAX,
    ensures
        segment.time_left - delta_time == alive_duration ==> segment.aged(
            origin,
            target,
            alive_duration,
            delta_time,
        ).color == origin,
        segment.time_left - delta_time == 0 ==> segment.aged(
            origin,
            target,
            alive_duration,
            delta_time,
        ).color == target,
{
    lemma_fade_ends(alive_duration);
    crate::color::lemma_color_lerp_ends(origin, target);
}

} // verus!
