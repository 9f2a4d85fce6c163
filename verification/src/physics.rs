//! Spaces in which time goes by ticks, and what lies between two ticks.

use vstd::prelude::*;
use std::ops::Add;
use std::ops::Div;
use std::ops::Mul;
use std::ops::Sub;
use vstd::std_specs::convert::FromSpec;
use vstd::std_specs::ops::AddSpec;
use vstd::std_specs::ops::DivSpec;
use vstd::std_specs::ops::MulSpec;
use vstd::std_specs::ops::SubSpec;

verus! {

/// A space: how it measures what is continuous, how it counts ticks, and
/// what a position in it is.
pub trait Space {
    type ContinuousMeasure;

    type DiscreteTimeMeasure;

    type Position;

    /// How long one tick lasts, in seconds.
    fn per_tick() -> Self::ContinuousMeasure;

    /// How many ticks one second holds.
    fn per_second() -> Self::DiscreteTimeMeasure;
}

/// What lies between `v_1` and `v_2` after `dt` of the time `t` between
/// them, as the arithmetic of the types gives it: `v_1 + (v_2 - v_1) * (dt / t)`.
pub open spec fn between<V, M>(v_1: V, v_2: V, t: M, dt: M) -> V where
    M: Div<Output = M>,
    V: Copy + Sub<Output = V> + Add<Output = V> + Mul<M, Output = V>,
 {
    v_1.add_spec(v_2.sub_spec(v_1).mul_spec(dt.div_spec(t)))
}

/// Whether the arithmetic of the types can compute `between`.
pub open spec fn between_req<V, M>(v_1: V, v_2: V, t: M, dt: M) -> bool where
    M: Div<Output = M>,
    V: Copy + Sub<Output = V> + Add<Output = V> + Mul<M, Output = V>,
 {
    &&& <M as DivSpec>::obeys_div_spec()
    &&& <V as SubSpec>::obeys_sub_spec()
    &&& <V as MulSpec<M>>::obeys_mul_spec()
    &&& <V as AddSpec>::obeys_add_spec()
    &&& dt.div_req(t)
    &&& v_2.sub_req(v_1)
    &&& v_2.sub_spec(v_1).mul_req(dt.div_spec(t))
    &&& v_1.add_req(v_2.sub_spec(v_1).mul_spec(dt.div_spec(t)))
}

/// A way to fill in what lies between two values.
pub trait Interpolator {
    /// What lies between `v_1` and `v_2` after `dt` of the time `t` between
    /// them.
    fn interpolate<V, S: Space>(
        v_1: V,
        v_2: V,
        t: S::ContinuousMeasure,
        dt: S::ContinuousMeasure,
    ) -> (r: V) where
        S::ContinuousMeasure: Div<Output = S::ContinuousMeasure>,
        V: Copy + Sub<Output = V> + Add<Output = V> + Mul<S::ContinuousMeasure, Output = V>,

        requires
            between_req(v_1, v_2, t, dt),
        ensures
            r == between(v_1, v_2, t, dt),
    ;
}

/// The interpolator that goes from one value to the next in a straight line.
pub struct LinearInterpolator;

impl Interpolator for LinearInterpolator {
    fn interpolate<V, S: Space>(
        v_1: V,
        v_2: V,
        t: S::ContinuousMeasure,
        dt: S::ContinuousMeasure,
    ) -> (r: V) where
        S::ContinuousMeasure: Div<Output = S::ContinuousMeasure>,
        V: Copy + Sub<Output = V> + Add<Output = V> + Mul<S::ContinuousMeasure, Output = V>,
     {
        (v_1) + ((v_2 - v_1) * (dt / t))
    }
}

/// What moves in a space, tick by tick.
pub trait Object<S: Space> {
    /// The tick that the object is in.
    fn current_tick(&self) -> S::DiscreteTimeMeasure;

    /// Where the object is.
    fn position(&mut self) -> &mut S::Position;

    /// How far the object moves in this tick.
    fn delta_position(&mut self) -> &mut S::Position;

    /// The yaw of the object.
    fn yaw(&mut self) -> &mut S::ContinuousMeasure;

    /// How far the object turns in yaw in this tick.
    fn delta_yaw(&mut self) -> &mut S::ContinuousMeasure;

    /// The pitch of the object.
    fn pitch(&mut self) -> &mut S::ContinuousMeasure;

    /// How far the object turns in pitch in this tick.
    fn delta_pitch(&mut self) -> &mut S::ContinuousMeasure;

    /// Whether the arithmetic of the space can end the tick.
    spec fn can_end_tick(&self) -> bool;

    /// Ends the tick: the object moves, and the next tick begins.
    fn end_previous_tick(&mut self)
        requires
            old(self).can_end_tick(),
    ;
}

/// An entity that moves through a space.
pub struct MovingEntity<S: Space> {
    pub tick: S::DiscreteTimeMeasure,
    pub pos: S::Position,
    pub delta_pos: S::Position,
    pub yaw: S::ContinuousMeasure,
    pub delta_yaw: S::ContinuousMeasure,
    pub pitch: S::ContinuousMeasure,
    pub delta_pitch: S::ContinuousMeasure,
}

impl<S: Space> Default for MovingEntity<S> where
    S::Position: Default,
    S::DiscreteTimeMeasure: Default,
    S::ContinuousMeasure: Default,
 {
    /// The entity whose every measure is the default of its type.
    fn default() -> (e: Self)
        ensures
            call_ensures(S::DiscreteTimeMeasure::default, (), e.tick),
            call_ensures(S::Position::default, (), e.pos),
            call_ensures(S::Position::default, (), e.delta_pos),
            call_ensures(S::ContinuousMeasure::default, (), e.yaw),
            call_ensures(S::ContinuousMeasure::default, (), e.delta_yaw),
            call_ensures(S::ContinuousMeasure::default, (), e.pitch),
            call_ensures(S::ContinuousMeasure::default, (), e.delta_pitch),
    {
        MovingEntity {
            tick: S::DiscreteTimeMeasure::default(),
            pos: S::Position::default(),
            delta_pos: S::Position::default(),
            yaw: S::ContinuousMeasure::default(),
            delta_yaw: S::ContinuousMeasure::default(),
            pitch: S::ContinuousMeasure::default(),
            delta_pitch: S::ContinuousMeasure::default(),
        }
    }
}

impl<S: Space> Object<S> for MovingEntity<S> where
    S::Position: Copy + Default + Add<Output = S::Position>,
    S::DiscreteTimeMeasure: Copy + From<u8> + Add<Output = S::DiscreteTimeMeasure>,
 {
    fn current_tick(&self) -> (t: S::DiscreteTimeMeasure)
        ensures
            t == self.tick,
    {
        self.tick
    }

    fn position(&mut self) -> (p: &mut S::Position)
        ensures
            *p == old(self).pos,
            *final(self) == (MovingEntity { pos: *final(p), ..*old(self) }),
    {
        &mut self.pos
    }

    fn delta_position(&mut self) -> (p: &mut S::Position)
        ensures
            *p == old(self).delta_pos,
            *final(self) == (MovingEntity { delta_pos: *final(p), ..*old(self) }),
    {
        &mut self.delta_pos
    }

    fn yaw(&mut self) -> (p: &mut S::ContinuousMeasure)
        ensures
            *p == old(self).yaw,
            *final(self) == (MovingEntity { yaw: *final(p), ..*old(self) }),
    {
        &mut self.yaw
    }

    fn delta_yaw(&mut self) -> (p: &mut S::ContinuousMeasure)
        ensures
            *p == old(self).delta_yaw,
            *final(self) == (MovingEntity { delta_yaw: *final(p), ..*old(self) }),
    {
        &mut self.delta_yaw
    }

    fn pitch(&mut self) -> (p: &mut S::ContinuousMeasure)
        ensures
            *p == old(self).pitch,
            *final(self) == (MovingEntity { pitch: *final(p), ..*old(self) }),
    {
        &mut self.pitch
    }

    fn delta_pitch(&mut self) -> (p: &mut S::ContinuousMeasure)
        ensures
            *p == old(self).delta_pitch,
            *final(self) == (MovingEntity { delta_pitch: *final(p), ..*old(self) }),
    {
        &mut self.delta_pitch
    }

    open spec fn can_end_tick(&self) -> bool {
        &&& <S::DiscreteTimeMeasure as FromSpec<u8>>::obeys_from_spec()
        &&& self.pos.add_req(self.delta_pos)
        &&& self.tick.add_req(<S::DiscreteTimeMeasure as FromSpec<u8>>::from_spec(1u8))
    }

    fn end_previous_tick(&mut self)
        ensures
            <S::Position as AddSpec>::obeys_add_spec() ==> final(self).pos == old(self).pos.add_spec(
                old(self).delta_pos,
            ),
            <S::DiscreteTimeMeasure as AddSpec>::obeys_add_spec() ==> final(self).tick == old(
                self,
            ).tick.add_spec(<S::DiscreteTimeMeasure as FromSpec<u8>>::from_spec(1u8)),
            call_ensures(S::Position::default, (), final(self).delta_pos),
            final(self).yaw == old(self).yaw,
            final(self).delta_yaw == old(self).delta_yaw,
            final(self).pitch == old(self).pitch,
            final(self).delta_pitch == old(self).delta_pitch,
    {
        self.pos = self.pos + self.delta_pos;
        self.tick = self.tick + S::DiscreteTimeMeasure::from(1u8);
        self.delta_pos = S::Position::default();
    }
}

} // verus!
