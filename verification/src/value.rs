//! The values behind the leaves of the tree: what is stored, who may read
//! or write it, and how a write is held to the value's range.

use vstd::prelude::*;
use core::marker::PhantomData;
use crate::osc::Arg;

verus! {

/// How a write that lies outside the range is treated.
#[derive(Clone, Copy, Debug, PartialEq, Eq, Structural)]
pub enum ClipMode {
    /// The write is stored as it came.
    Off,
    /// A write under the lower bound is stored as the lower bound.
    Low,
    /// A write over the upper bound is stored as the upper bound.
    High,
    /// Both bounds are held.
    Both,
}

/// A type of the value set: it can be held to bounds, and it travels as one
/// OSC argument.
pub trait Scalar: Sized {
    /// `self`, or `min` where `self` lies under it. A type made of several
    /// numbers is raised number by number; a type that is no number is left
    /// as it is.
    spec fn raised(self, min: Self) -> Self;

    /// `self`, or `max` where `self` lies over it.
    spec fn lowered(self, max: Self) -> Self;

    /// The OSC argument that carries `self`.
    spec fn as_arg(self) -> Arg;

    /// The value that `arg` carries, if it is of this type.
    spec fn of_arg(arg: Arg) -> Option<Self>;

    fn raise(self, min: &Self) -> (r: Self)
        ensures
            r == self.raised(*min),
    ;

    fn lower(self, max: &Self) -> (r: Self)
        ensures
            r == self.lowered(*max),
    ;

    fn duplicate(&self) -> (r: Self)
        ensures
            r == *self,
    ;

    fn to_arg(&self) -> (arg: Arg)
        ensures
            arg == self.as_arg(),
    ;

    fn from_arg(arg: &Arg) -> (r: Option<Self>)
        ensures
            r == Self::of_arg(*arg),
    ;

    /// An argument decodes to the value it was encoded from.
    proof fn lemma_arg_round_trip(self)
        ensures
            Self::of_arg(self.as_arg()) == Some(self),
    ;

    /// Only the argument that encodes a value decodes to it.
    proof fn lemma_arg_unique(arg: Arg)
        ensures
            Self::of_arg(arg) matches Some(v) ==> v.as_arg() == arg,
    ;

    /// Holding a value to a bound twice changes nothing more.
    proof fn lemma_bounds_settle(self, min: Self, max: Self)
        ensures
            self.raised(min).raised(min) == self.raised(min),
            self.lowered(max).lowered(max) == self.lowered(max),
            self.lowered(max).raised(min).lowered(max).raised(min) == self.lowered(max).raised(
                min,
            ),
    ;
}

/// `v` held to `range` as `mode` asks. Without a range nothing is clipped.
pub open spec fn clipped<T: Scalar>(v: T, range: Option<(T, T)>, mode: ClipMode) -> T {
    match range {
        None => v,
        Some(bounds) => match mode {
            ClipMode::Off => v,
            ClipMode::Low => v.raised(bounds.0),
            ClipMode::High => v.lowered(bounds.1),
            ClipMode::Both => v.lowered(bounds.1).raised(bounds.0),
        },
    }
}

/// Holds `v` to `range` as `mode` asks.
pub fn clip<T: Scalar>(v: T, range: &Option<(T, T)>, mode: ClipMode) -> (r: T)
    ensures
        r == clipped(v, *range, mode),
{
    match range {
        None => v,
        Some(bounds) => match mode {
            ClipMode::Off => v,
            ClipMode::Low => v.raise(&bounds.0),
            ClipMode::High => v.lower(&bounds.1),
            ClipMode::Both => v.lower(&bounds.1).raise(&bounds.0),
        },
    }
}

/// Clipping a clipped value changes nothing.
pub proof fn lemma_clip_settles<T: Scalar>(v: T, range: Option<(T, T)>, mode: ClipMode)
    ensures
        clipped(clipped(v, range, mode), range, mode) == clipped(v, range, mode),
{
    if let Some(bounds) = range {
        v.lemma_bounds_settle(bounds.0, bounds.1);
    }
}

/// Access mode of a value that can only be read.
#[derive(Clone, Copy, Debug)]
pub struct GetOnly;

/// Access mode of a value that can only be written.
#[derive(Clone, Copy, Debug)]
pub struct SetOnly;

/// Access mode of a value that can be read and written.
#[derive(Clone, Copy, Debug)]
pub struct GetAndSet;

/// An access mode under which a value can be read.
pub trait Readable {

}

/// An access mode under which a value can be written.
pub trait Writable {

}

impl Readable for GetOnly {

}

impl Readable for GetAndSet {

}

impl Writable for SetOnly {

}

impl Writable for GetAndSet {

}

/// A stored value of type `T` under access mode `A`, with its optional
/// range, its clip policy and its optional unit.
#[derive(Debug)]
pub struct Value<A, T> {
    current: T,
    range: Option<(T, T)>,
    clip: ClipMode,
    unit: Option<String>,
    access: PhantomData<A>,
}

/// A value that can only be read.
pub type ValueGet<T> = Value<GetOnly, T>;

/// A value that can only be written.
pub type ValueSet<T> = Value<SetOnly, T>;

/// A value that can be read and written.
pub type ValueGetSet<T> = Value<GetAndSet, T>;

impl<A, T: Scalar> Value<A, T> {
    /// What is stored.
    pub closed spec fn current(self) -> T {
        self.current
    }

    /// The range as `(min, max)`, if the value has one.
    pub closed spec fn bounds(self) -> Option<(T, T)> {
        self.range
    }

    /// The clip policy.
    pub closed spec fn policy(self) -> ClipMode {
        self.clip
    }

    /// The text of the unit, if the value has one.
    pub closed spec fn label(self) -> Option<Seq<char>> {
        match self.unit {
            Some(u) => Some(u@),
            None => None,
        }
    }

    /// This value after `v` was written to it: `v` is clipped and stored,
    /// nothing else changes.
    pub closed spec fn written(self, v: T) -> Self {
        Value { current: clipped(v, self.range, self.clip), ..self }
    }

    /// This value after the OSC argument `arg` was sent to it: written, if
    /// `arg` carries a value of its type, and unchanged otherwise.
    pub open spec fn received(self, arg: Arg) -> Self {
        match T::of_arg(arg) {
            Some(v) => self.written(v),
            None => self,
        }
    }

    /// What a write stores and what it leaves alone.
    pub broadcast proof fn lemma_written(self, v: T)
        ensures
            (#[trigger] self.written(v)).current() == clipped(v, self.bounds(), self.policy()),
            self.written(v).bounds() == self.bounds(),
            self.written(v).policy() == self.policy(),
            self.written(v).label() == self.label(),
    {
    }

    /// Writing what is stored changes nothing, once the stored value lies
    /// within what the clip policy lets through.
    pub proof fn lemma_rewrite(self)
        requires
            clipped(self.current(), self.bounds(), self.policy()) == self.current(),
        ensures
            self.written(self.current()) == self,
    {
    }

    /// What was written, encoded as an argument and decoded again, is the
    /// write as the clip policy let it through.
    pub proof fn lemma_round_trip(self, v: T)
        ensures
            T::of_arg(self.written(v).current().as_arg()) == Some(
                clipped(v, self.bounds(), self.policy()),
            ),
            self.written(v).received(self.written(v).current().as_arg()) == self.written(v),
    {
        let kept = clipped(v, self.bounds(), self.policy());
        kept.lemma_arg_round_trip();
        lemma_clip_settles(v, self.bounds(), self.policy());
    }

    /// The range as `(min, max)`, if the value has one.
    pub fn range(&self) -> (r: &Option<(T, T)>)
        ensures
            *r == self.bounds(),
    {
        &self.range
    }

    /// How a write outside the range is treated.
    pub fn clip_mode(&self) -> (r: ClipMode)
        ensures
            r == self.policy(),
    {
        self.clip
    }

    /// The unit that the value is measured in, if it has one.
    pub fn unit(&self) -> (r: &Option<String>)
        ensures
            r is Some <==> self.label() is Some,
            r matches Some(u) ==> self.label() == Some(u@),
    {
        &self.unit
    }
}

impl<A: Readable, T: Scalar> Value<A, T> {
    /// Reads the stored value.
    pub fn get(&self) -> (v: T)
        ensures
            v == self.current(),
    {
        self.current.duplicate()
    }

    /// Encodes the stored value as an OSC argument.
    pub fn to_arg(&self) -> (arg: Arg)
        ensures
            arg == self.current().as_arg(),
    {
        self.current.to_arg()
    }
}

impl<A: Writable, T: Scalar> Value<A, T> {
    /// Clips `v` as the policy asks and stores it.
    pub fn set(&mut self, v: T)
        ensures
            *final(self) == old(self).written(v),
    {
        self.current = clip(v, &self.range, self.clip);
    }

    /// Decodes `arg` and writes it, if it carries a value of this type; an
    /// argument of another type is refused and changes nothing.
    pub fn receive(&mut self, arg: &Arg) -> (accepted: bool)
        ensures
            accepted == (T::of_arg(*arg) is Some),
            *final(self) == old(self).received(*arg),
    {
        match T::from_arg(arg) {
            Some(v) => {
                self.set(v);
                true
            },
            None => false,
        }
    }
}

/// Collects the parts of a value before it is built.
#[derive(Debug)]
pub struct ValueBuilder<A, T> {
    value: Value<A, T>,
}

impl<A, T: Scalar> ValueBuilder<A, T> {
    /// The value that `build` would return now.
    pub closed spec fn product(self) -> Value<A, T> {
        self.value
    }

    /// Starts from the value to store first: no range, no clipping, no unit.
    pub fn new(initial: T) -> (b: Self)
        ensures
            b.product().current() == initial,
            b.product().bounds() is None,
            b.product().policy() == ClipMode::Off,
            b.product().label() is None,
    {
        ValueBuilder {
            value: Value {
                current: initial,
                range: None,
                clip: ClipMode::Off,
                unit: None,
                access: PhantomData,
            },
        }
    }

    /// Gives the value a unit.
    pub fn with_unit(self, unit: String) -> (b: Self)
        ensures
            b.product().label() == Some(unit@),
            b.product().current() == self.product().current(),
            b.product().bounds() == self.product().bounds(),
            b.product().policy() == self.product().policy(),
    {
        let mut value = self.value;
        value.unit = Some(unit);
        ValueBuilder { value }
    }

    /// Gives the value a range. Writes are held to it as the clip mode
    /// asks.
    pub fn with_range(self, min: T, max: T) -> (b: Self)
        ensures
            b.product().bounds() == Some((min, max)),
            b.product().current() == self.product().current(),
            b.product().policy() == self.product().policy(),
            b.product().label() == self.product().label(),
    {
        let mut value = self.value;
        value.range = Some((min, max));
        ValueBuilder { value }
    }

    /// Says how a write outside the range is treated.
    pub fn with_clip_mode(self, mode: ClipMode) -> (b: Self)
        ensures
            b.product().policy() == mode,
            b.product().current() == self.product().current(),
            b.product().bounds() == self.product().bounds(),
            b.product().label() == self.product().label(),
    {
        let mut value = self.value;
        value.clip = mode;
        ValueBuilder { value }
    }

    /// The value as it was put together. Its first value is stored as
    /// given, whatever the range.
    pub fn build(self) -> (v: Value<A, T>)
        ensures
            v == self.product(),
    {
        self.value
    }
}

} // verus!
