//! The types of the value set: how each is held to bounds and which OSC
//! argument carries it.

use vstd::prelude::*;
use crate::osc::{Arg, TimeTag};
use crate::value::Scalar;

verus! {

/// A single-precision number, held as the bits of its IEEE 754 encoding.
#[derive(Clone, Copy, Debug, PartialEq, Eq, Structural)]
pub struct Single {
    pub bits: u32,
}

/// A double-precision number, held as the bits of its IEEE 754 encoding.
#[derive(Clone, Copy, Debug, PartialEq, Eq, Structural)]
pub struct Double {
    pub bits: u64,
}

/// The four bytes of a MIDI message: port, status, first and second data
/// byte.
pub type Midi = (u8, u8, u8, u8);

impl Single {
    /// The encoding without its sign bit.
    pub open spec fn magnitude(self) -> int {
        if self.bits >= 0x8000_0000 {
            self.bits - 0x8000_0000
        } else {
            self.bits as int
        }
    }

    /// The sign bit is set.
    pub open spec fn negative(self) -> bool {
        self.bits >= 0x8000_0000
    }

    /// The encoding is of no number.
    pub open spec fn is_nan(self) -> bool {
        self.magnitude() > 0x7f80_0000
    }

    /// A number that grows with the encoded one: the magnitude, negated
    /// where the sign bit is set. The two zeros share a rank.
    pub open spec fn rank(self) -> int {
        if self.negative() {
            -self.magnitude()
        } else {
            self.magnitude()
        }
    }

    /// The encoded number is less than the other, as IEEE 754 compares
    /// them: nothing is less than, or greater than, what is no number.
    pub open spec fn less(self, other: Single) -> bool {
        !self.is_nan() && !other.is_nan() && self.rank() < other.rank()
    }

    /// Compares the encoded numbers.
    pub fn lt(&self, other: &Single) -> (r: bool)
        ensures
            r == self.less(*other),
    {
        let a_neg = self.bits >= 0x8000_0000;
        let b_neg = other.bits >= 0x8000_0000;
        let a: u32 = if a_neg {
            self.bits - 0x8000_0000
        } else {
            self.bits
        };
        let b: u32 = if b_neg {
            other.bits - 0x8000_0000
        } else {
            other.bits
        };
        if a > 0x7f80_0000 || b > 0x7f80_0000 {
            false
        } else if a_neg {
            if b_neg {
                a > b
            } else {
                a > 0 || b > 0
            }
        } else {
            !b_neg && a < b
        }
    }
}

impl Double {
    /// The encoding without its sign bit.
    pub open spec fn magnitude(self) -> int {
        if self.bits >= 0x8000_0000_0000_0000 {
            self.bits - 0x8000_0000_0000_0000
        } else {
            self.bits as int
        }
    }

    /// The sign bit is set.
    pub open spec fn negative(self) -> bool {
        self.bits >= 0x8000_0000_0000_0000
    }

    /// The encoding is of no number.
    pub open spec fn is_nan(self) -> bool {
        self.magnitude() > 0x7ff0_0000_0000_0000
    }

    /// A number that grows with the encoded one: the magnitude, negated
    /// where the sign bit is set. The two zeros share a rank.
    pub open spec fn rank(self) -> int {
        if self.negative() {
            -self.magnitude()
        } else {
            self.magnitude()
        }
    }

    /// The encoded number is less than the other, as IEEE 754 compares
    /// them: nothing is less than, or greater than, what is no number.
    pub open spec fn less(self, other: Double) -> bool {
        !self.is_nan() && !other.is_nan() && self.rank() < other.rank()
    }

    /// Compares the encoded numbers.
    pub fn lt(&self, other: &Double) -> (r: bool)
        ensures
            r == self.less(*other),
    {
        let a_neg = self.bits >= 0x8000_0000_0000_0000;
        let b_neg = other.bits >= 0x8000_0000_0000_0000;
        let a: u64 = if a_neg {
            self.bits - 0x8000_0000_0000_0000
        } else {
            self.bits
        };
        let b: u64 = if b_neg {
            other.bits - 0x8000_0000_0000_0000
        } else {
            other.bits
        };
        if a > 0x7ff0_0000_0000_0000 || b > 0x7ff0_0000_0000_0000 {
            false
        } else if a_neg {
            if b_neg {
                a > b
            } else {
                a > 0 || b > 0
            }
        } else {
            !b_neg && a < b
        }
    }
}

impl Scalar for i32 {
    open spec fn raised(self, min: i32) -> i32 {
        if self < min {
            min
        } else {
            self
        }
    }

    open spec fn lowered(self, max: i32) -> i32 {
        if self > max {
            max
        } else {
            self
        }
    }

    open spec fn as_arg(self) -> Arg {
        Arg::Int(self)
    }

    open spec fn of_arg(arg: Arg) -> Option<i32> {
        match arg {
            Arg::Int(v) => Some(v),
            _ => None,
        }
    }

    fn raise(self, min: &i32) -> i32 {
        if self < *min {
            *min
        } else {
            self
        }
    }

    fn lower(self, max: &i32) -> i32 {
        if self > *max {
            *max
        } else {
            self
        }
    }

    fn duplicate(&self) -> i32 {
        *self
    }

    fn to_arg(&self) -> Arg {
        Arg::Int(*self)
    }

    fn from_arg(arg: &Arg) -> Option<i32> {
        match arg {
            Arg::Int(v) => Some(*v),
            _ => None,
        }
    }

    proof fn lemma_arg_round_trip(self) {
    }

    proof fn lemma_arg_unique(arg: Arg) {
    }

    proof fn lemma_bounds_settle(self, min: i32, max: i32) {
    }
}

impl Scalar for i64 {
    open spec fn raised(self, min: i64) -> i64 {
        if self < min {
            min
        } else {
            self
        }
    }

    open spec fn lowered(self, max: i64) -> i64 {
        if self > max {
            max
        } else {
            self
        }
    }

    open spec fn as_arg(self) -> Arg {
        Arg::Long(self)
    }

    open spec fn of_arg(arg: Arg) -> Option<i64> {
        match arg {
            Arg::Long(v) => Some(v),
            _ => None,
        }
    }

    fn raise(self, min: &i64) -> i64 {
        if self < *min {
            *min
        } else {
            self
        }
    }

    fn lower(self, max: &i64) -> i64 {
        if self > *max {
            *max
        } else {
            self
        }
    }

    fn duplicate(&self) -> i64 {
        *self
    }

    fn to_arg(&self) -> Arg {
        Arg::Long(*self)
    }

    fn from_arg(arg: &Arg) -> Option<i64> {
        match arg {
            Arg::Long(v) => Some(*v),
            _ => None,
        }
    }

    proof fn lemma_arg_round_trip(self) {
    }

    proof fn lemma_arg_unique(arg: Arg) {
    }

    proof fn lemma_bounds_settle(self, min: i64, max: i64) {
    }
}

impl Scalar for Single {
    open spec fn raised(self, min: Single) -> Single {
        if self.less(min) {
            min
        } else {
            self
        }
    }

    open spec fn lowered(self, max: Single) -> Single {
        if max.less(self) {
            max
        } else {
            self
        }
    }

    open spec fn as_arg(self) -> Arg {
        Arg::Float(self.bits)
    }

    open spec fn of_arg(arg: Arg) -> Option<Single> {
        match arg {
            Arg::Float(bits) => Some(Single { bits }),
            _ => None,
        }
    }

    fn raise(self, min: &Single) -> Single {
        if self.lt(min) {
            *min
        } else {
            self
        }
    }

    fn lower(self, max: &Single) -> Single {
        if max.lt(&self) {
            *max
        } else {
            self
        }
    }

    fn duplicate(&self) -> Single {
        *self
    }

    fn to_arg(&self) -> Arg {
        Arg::Float(self.bits)
    }

    fn from_arg(arg: &Arg) -> Option<Single> {
        match arg {
            Arg::Float(bits) => Some(Single { bits: *bits }),
            _ => None,
        }
    }

    proof fn lemma_arg_round_trip(self) {
    }

    proof fn lemma_arg_unique(arg: Arg) {
    }

    proof fn lemma_bounds_settle(self, min: Single, max: Single) {
    }
}

impl Scalar for Double {
    open spec fn raised(self, min: Double) -> Double {
        if self.less(min) {
            min
        } else {
            self
        }
    }

    open spec fn lowered(self, max: Double) -> Double {
        if max.less(self) {
            max
        } else {
            self
        }
    }

    open spec fn as_arg(self) -> Arg {
        Arg::Double(self.bits)
    }

    open spec fn of_arg(arg: Arg) -> Option<Double> {
        match arg {
            Arg::Double(bits) => Some(Double { bits }),
            _ => None,
        }
    }

    fn raise(self, min: &Double) -> Double {
        if self.lt(min) {
            *min
        } else {
            self
        }
    }

    fn lower(self, max: &Double) -> Double {
        if max.lt(&self) {
            *max
        } else {
            self
        }
    }

    fn duplicate(&self) -> Double {
        *self
    }

    fn to_arg(&self) -> Arg {
        Arg::Double(self.bits)
    }

    fn from_arg(arg: &Arg) -> Option<Double> {
        match arg {
            Arg::Double(bits) => Some(Double { bits: *bits }),
            _ => None,
        }
    }

    proof fn lemma_arg_round_trip(self) {
    }

    proof fn lemma_arg_unique(arg: Arg) {
    }

    proof fn lemma_bounds_settle(self, min: Double, max: Double) {
    }
}

impl Scalar for String {
    open spec fn raised(self, min: String) -> String {
        self
    }

    open spec fn lowered(self, max: String) -> String {
        self
    }

    open spec fn as_arg(self) -> Arg {
        Arg::String(self)
    }

    open spec fn of_arg(arg: Arg) -> Option<String> {
        match arg {
            Arg::String(s) => Some(s),
            _ => None,
        }
    }

    fn raise(self, min: &String) -> String {
        self
    }

    fn lower(self, max: &String) -> String {
        self
    }

    fn duplicate(&self) -> String {
        self.clone()
    }

    fn to_arg(&self) -> Arg {
        Arg::String(self.clone())
    }

    fn from_arg(arg: &Arg) -> Option<String> {
        match arg {
            Arg::String(s) => Some(s.clone()),
            _ => None,
        }
    }

    proof fn lemma_arg_round_trip(self) {
    }

    proof fn lemma_arg_unique(arg: Arg) {
    }

    proof fn lemma_bounds_settle(self, min: String, max: String) {
    }
}

impl Scalar for char {
    open spec fn raised(self, min: char) -> char {
        self
    }

    open spec fn lowered(self, max: char) -> char {
        self
    }

    open spec fn as_arg(self) -> Arg {
        Arg::Char(self)
    }

    open spec fn of_arg(arg: Arg) -> Option<char> {
        match arg {
            Arg::Char(c) => Some(c),
            _ => None,
        }
    }

    fn raise(self, min: &char) -> char {
        self
    }

    fn lower(self, max: &char) -> char {
        self
    }

    fn duplicate(&self) -> char {
        *self
    }

    fn to_arg(&self) -> Arg {
        Arg::Char(*self)
    }

    fn from_arg(arg: &Arg) -> Option<char> {
        match arg {
            Arg::Char(c) => Some(*c),
            _ => None,
        }
    }

    proof fn lemma_arg_round_trip(self) {
    }

    proof fn lemma_arg_unique(arg: Arg) {
    }

    proof fn lemma_bounds_settle(self, min: char, max: char) {
    }
}

impl Scalar for bool {
    open spec fn raised(self, min: bool) -> bool {
        self
    }

    open spec fn lowered(self, max: bool) -> bool {
        self
    }

    open spec fn as_arg(self) -> Arg {
        Arg::Bool(self)
    }

    open spec fn of_arg(arg: Arg) -> Option<bool> {
        match arg {
            Arg::Bool(b) => Some(b),
            _ => None,
        }
    }

    fn raise(self, min: &bool) -> bool {
        self
    }

    fn lower(self, max: &bool) -> bool {
        self
    }

    fn duplicate(&self) -> bool {
        *self
    }

    fn to_arg(&self) -> Arg {
        Arg::Bool(*self)
    }

    fn from_arg(arg: &Arg) -> Option<bool> {
        match arg {
            Arg::Bool(b) => Some(*b),
            _ => None,
        }
    }

    proof fn lemma_arg_round_trip(self) {
    }

    proof fn lemma_arg_unique(arg: Arg) {
    }

    proof fn lemma_bounds_settle(self, min: bool, max: bool) {
    }
}

/// The larger of two numbers.
pub open spec fn upper(a: int, b: int) -> int {
    if a < b {
        b
    } else {
        a
    }
}

/// The smaller of two numbers.
pub open spec fn under(a: int, b: int) -> int {
    if a > b {
        b
    } else {
        a
    }
}

fn upper_u32(a: u32, b: u32) -> (r: u32)
    ensures
        r == upper(a as int, b as int),
{
    if a < b {
        b
    } else {
        a
    }
}

fn under_u32(a: u32, b: u32) -> (r: u32)
    ensures
        r == under(a as int, b as int),
{
    if a > b {
        b
    } else {
        a
    }
}

fn upper_u8(a: u8, b: u8) -> (r: u8)
    ensures
        r == upper(a as int, b as int),
{
    if a < b {
        b
    } else {
        a
    }
}

fn under_u8(a: u8, b: u8) -> (r: u8)
    ensures
        r == under(a as int, b as int),
{
    if a > b {
        b
    } else {
        a
    }
}

impl Scalar for TimeTag {
    open spec fn raised(self, min: TimeTag) -> TimeTag {
        (upper(self.0 as int, min.0 as int) as u32, upper(self.1 as int, min.1 as int) as u32)
    }

    open spec fn lowered(self, max: TimeTag) -> TimeTag {
        (under(self.0 as int, max.0 as int) as u32, under(self.1 as int, max.1 as int) as u32)
    }

    open spec fn as_arg(self) -> Arg {
        Arg::Time(self.0, self.1)
    }

    open spec fn of_arg(arg: Arg) -> Option<TimeTag> {
        match arg {
            Arg::Time(seconds, fraction) => Some((seconds, fraction)),
            _ => None,
        }
    }

    fn raise(self, min: &TimeTag) -> TimeTag {
        (upper_u32(self.0, min.0), upper_u32(self.1, min.1))
    }

    fn lower(self, max: &TimeTag) -> TimeTag {
        (under_u32(self.0, max.0), under_u32(self.1, max.1))
    }

    fn duplicate(&self) -> TimeTag {
        (self.0, self.1)
    }

    fn to_arg(&self) -> Arg {
        Arg::Time(self.0, self.1)
    }

    fn from_arg(arg: &Arg) -> Option<TimeTag> {
        match arg {
            Arg::Time(seconds, fraction) => Some((*seconds, *fraction)),
            _ => None,
        }
    }

    proof fn lemma_arg_round_trip(self) {
    }

    proof fn lemma_arg_unique(arg: Arg) {
    }

    proof fn lemma_bounds_settle(self, min: TimeTag, max: TimeTag) {
    }
}

impl Scalar for Midi {
    open spec fn raised(self, min: Midi) -> Midi {
        (
            upper(self.0 as int, min.0 as int) as u8,
            upper(self.1 as int, min.1 as int) as u8,
            upper(self.2 as int, min.2 as int) as u8,
            upper(self.3 as int, min.3 as int) as u8,
        )
    }

    open spec fn lowered(self, max: Midi) -> Midi {
        (
            under(self.0 as int, max.0 as int) as u8,
            under(self.1 as int, max.1 as int) as u8,
            under(self.2 as int, max.2 as int) as u8,
            under(self.3 as int, max.3 as int) as u8,
        )
    }

    open spec fn as_arg(self) -> Arg {
        Arg::Midi(self.0, self.1, self.2, self.3)
    }

    open spec fn of_arg(arg: Arg) -> Option<Midi> {
        match arg {
            Arg::Midi(port, status, data1, data2) => Some((port, status, data1, data2)),
            _ => None,
        }
    }

    fn raise(self, min: &Midi) -> Midi {
        (
            upper_u8(self.0, min.0),
            upper_u8(self.1, min.1),
            upper_u8(self.2, min.2),
            upper_u8(self.3, min.3),
        )
    }

    fn lower(self, max: &Midi) -> Midi {
        (
            under_u8(self.0, max.0),
            under_u8(self.1, max.1),
            under_u8(self.2, max.2),
            under_u8(self.3, max.3),
        )
    }

    fn duplicate(&self) -> Midi {
        (self.0, self.1, self.2, self.3)
    }

    fn to_arg(&self) -> Arg {
        Arg::Midi(self.0, self.1, self.2, self.3)
    }

    fn from_arg(arg: &Arg) -> Option<Midi> {
        match arg {
            Arg::Midi(port, status, data1, data2) => Some((*port, *status, *data1, *data2)),
            _ => None,
        }
    }

    proof fn lemma_arg_round_trip(self) {
    }

    proof fn lemma_arg_unique(arg: Arg) {
    }

    proof fn lemma_bounds_settle(self, min: Midi, max: Midi) {
    }
}

} // verus!
