//! The parameters of a leaf: one value of one type of the value set, under
//! one access mode.

use vstd::prelude::*;
use crate::osc::{Arg, TimeTag};
use crate::scalar::{Double, Midi, Single};
use crate::value::{ValueGet, ValueGetSet, ValueSet};

verus! {

/// A parameter that can only be read.
#[derive(Debug)]
pub enum ParamGet {
    Int(ValueGet<i32>),
    Float(ValueGet<Single>),
    String(ValueGet<String>),
    Time(ValueGet<TimeTag>),
    Long(ValueGet<i64>),
    Double(ValueGet<Double>),
    Char(ValueGet<char>),
    Midi(ValueGet<Midi>),
    Bool(ValueGet<bool>),
}

/// A parameter that can only be written.
#[derive(Debug)]
pub enum ParamSet {
    Int(ValueSet<i32>),
    Float(ValueSet<Single>),
    String(ValueSet<String>),
    Time(ValueSet<TimeTag>),
    Long(ValueSet<i64>),
    Double(ValueSet<Double>),
    Char(ValueSet<char>),
    Midi(ValueSet<Midi>),
    Bool(ValueSet<bool>),
}

/// A parameter that can be read and written.
#[derive(Debug)]
pub enum ParamGetSet {
    Int(ValueGetSet<i32>),
    Float(ValueGetSet<Single>),
    String(ValueGetSet<String>),
    Time(ValueGetSet<TimeTag>),
    Long(ValueGetSet<i64>),
    Double(ValueGetSet<Double>),
    Char(ValueGetSet<char>),
    Midi(ValueGetSet<Midi>),
    Bool(ValueGetSet<bool>),
}

impl ParamGet {
    /// The OSC argument that carries the stored value.
    pub open spec fn arg(self) -> Arg {
        match self {
            ParamGet::Int(v) => Arg::Int(v.current()),
            ParamGet::Float(v) => Arg::Float(v.current().bits),
            ParamGet::String(v) => Arg::String(v.current()),
            ParamGet::Time(v) => Arg::Time(v.current().0, v.current().1),
            ParamGet::Long(v) => Arg::Long(v.current()),
            ParamGet::Double(v) => Arg::Double(v.current().bits),
            ParamGet::Char(v) => Arg::Char(v.current()),
            ParamGet::Midi(v) => Arg::Midi(
                v.current().0,
                v.current().1,
                v.current().2,
                v.current().3,
            ),
            ParamGet::Bool(v) => Arg::Bool(v.current()),
        }
    }

    /// Encodes the stored value as an OSC argument.
    pub fn to_arg(&self) -> (arg: Arg)
        ensures
            arg == self.arg(),
    {
        match self {
            ParamGet::Int(v) => v.to_arg(),
            ParamGet::Float(v) => v.to_arg(),
            ParamGet::String(v) => v.to_arg(),
            ParamGet::Time(v) => v.to_arg(),
            ParamGet::Long(v) => v.to_arg(),
            ParamGet::Double(v) => v.to_arg(),
            ParamGet::Char(v) => v.to_arg(),
            ParamGet::Midi(v) => v.to_arg(),
            ParamGet::Bool(v) => v.to_arg(),
        }
    }
}

impl ParamSet {
    /// `arg` is of the type that this parameter holds.
    pub open spec fn accepts(self, arg: Arg) -> bool {
        match self {
            ParamSet::Int(_) => arg is Int,
            ParamSet::Float(_) => arg is Float,
            ParamSet::String(_) => arg is String,
            ParamSet::Time(_) => arg is Time,
            ParamSet::Long(_) => arg is Long,
            ParamSet::Double(_) => arg is Double,
            ParamSet::Char(_) => arg is Char,
            ParamSet::Midi(_) => arg is Midi,
            ParamSet::Bool(_) => arg is Bool,
        }
    }

    /// This parameter after `arg` was sent to it: the value that `arg`
    /// carries is clipped and stored, if it is of the parameter's type.
    pub open spec fn applied(self, arg: Arg) -> ParamSet {
        match self {
            ParamSet::Int(v) => ParamSet::Int(v.received(arg)),
            ParamSet::Float(v) => ParamSet::Float(v.received(arg)),
            ParamSet::String(v) => ParamSet::String(v.received(arg)),
            ParamSet::Time(v) => ParamSet::Time(v.received(arg)),
            ParamSet::Long(v) => ParamSet::Long(v.received(arg)),
            ParamSet::Double(v) => ParamSet::Double(v.received(arg)),
            ParamSet::Char(v) => ParamSet::Char(v.received(arg)),
            ParamSet::Midi(v) => ParamSet::Midi(v.received(arg)),
            ParamSet::Bool(v) => ParamSet::Bool(v.received(arg)),
        }
    }

    /// Writes what `arg` carries, clipped as the value's policy asks. An
    /// argument of another type is refused and changes nothing.
    pub fn apply(&mut self, arg: &Arg) -> (accepted: bool)
        ensures
            accepted == old(self).accepts(*arg),
            *final(self) == old(self).applied(*arg),
    {
        match self {
            ParamSet::Int(v) => v.receive(arg),
            ParamSet::Float(v) => v.receive(arg),
            ParamSet::String(v) => v.receive(arg),
            ParamSet::Time(v) => v.receive(arg),
            ParamSet::Long(v) => v.receive(arg),
            ParamSet::Double(v) => v.receive(arg),
            ParamSet::Char(v) => v.receive(arg),
            ParamSet::Midi(v) => v.receive(arg),
            ParamSet::Bool(v) => v.receive(arg),
        }
    }

    /// An argument that is refused changes nothing.
    pub proof fn lemma_refused(self, arg: Arg)
        requires
            !self.accepts(arg),
        ensures
            self.applied(arg) == self,
    {
    }
}

impl ParamGetSet {
    /// The OSC argument that carries the stored value.
    pub open spec fn arg(self) -> Arg {
        match self {
            ParamGetSet::Int(v) => Arg::Int(v.current()),
            ParamGetSet::Float(v) => Arg::Float(v.current().bits),
            ParamGetSet::String(v) => Arg::String(v.current()),
            ParamGetSet::Time(v) => Arg::Time(v.current().0, v.current().1),
            ParamGetSet::Long(v) => Arg::Long(v.current()),
            ParamGetSet::Double(v) => Arg::Double(v.current().bits),
            ParamGetSet::Char(v) => Arg::Char(v.current()),
            ParamGetSet::Midi(v) => Arg::Midi(
                v.current().0,
                v.current().1,
                v.current().2,
                v.current().3,
            ),
            ParamGetSet::Bool(v) => Arg::Bool(v.current()),
        }
    }

    /// `arg` is of the type that this parameter holds.
    pub open spec fn accepts(self, arg: Arg) -> bool {
        match self {
            ParamGetSet::Int(_) => arg is Int,
            ParamGetSet::Float(_) => arg is Float,
            ParamGetSet::String(_) => arg is String,
            ParamGetSet::Time(_) => arg is Time,
            ParamGetSet::Long(_) => arg is Long,
            ParamGetSet::Double(_) => arg is Double,
            ParamGetSet::Char(_) => arg is Char,
            ParamGetSet::Midi(_) => arg is Midi,
            ParamGetSet::Bool(_) => arg is Bool,
        }
    }

    /// This parameter after `arg` was sent to it: the value that `arg`
    /// carries is clipped and stored, if it is of the parameter's type.
    pub open spec fn applied(self, arg: Arg) -> ParamGetSet {
        match self {
            ParamGetSet::Int(v) => ParamGetSet::Int(v.received(arg)),
            ParamGetSet::Float(v) => ParamGetSet::Float(v.received(arg)),
            ParamGetSet::String(v) => ParamGetSet::String(v.received(arg)),
            ParamGetSet::Time(v) => ParamGetSet::Time(v.received(arg)),
            ParamGetSet::Long(v) => ParamGetSet::Long(v.received(arg)),
            ParamGetSet::Double(v) => ParamGetSet::Double(v.received(arg)),
            ParamGetSet::Char(v) => ParamGetSet::Char(v.received(arg)),
            ParamGetSet::Midi(v) => ParamGetSet::Midi(v.received(arg)),
            ParamGetSet::Bool(v) => ParamGetSet::Bool(v.received(arg)),
        }
    }

    /// Encodes the stored value as an OSC argument.
    pub fn to_arg(&self) -> (arg: Arg)
        ensures
            arg == self.arg(),
    {
        match self {
            ParamGetSet::Int(v) => v.to_arg(),
            ParamGetSet::Float(v) => v.to_arg(),
            ParamGetSet::String(v) => v.to_arg(),
            ParamGetSet::Time(v) => v.to_arg(),
            ParamGetSet::Long(v) => v.to_arg(),
            ParamGetSet::Double(v) => v.to_arg(),
            ParamGetSet::Char(v) => v.to_arg(),
            ParamGetSet::Midi(v) => v.to_arg(),
            ParamGetSet::Bool(v) => v.to_arg(),
        }
    }

    /// Writes what `arg` carries, clipped as the value's policy asks. An
    /// argument of another type is refused and changes nothing.
    pub fn apply(&mut self, arg: &Arg) -> (accepted: bool)
        ensures
            accepted == old(self).accepts(*arg),
            *final(self) == old(self).applied(*arg),
    {
        match self {
            ParamGetSet::Int(v) => v.receive(arg),
            ParamGetSet::Float(v) => v.receive(arg),
            ParamGetSet::String(v) => v.receive(arg),
            ParamGetSet::Time(v) => v.receive(arg),
            ParamGetSet::Long(v) => v.receive(arg),
            ParamGetSet::Double(v) => v.receive(arg),
            ParamGetSet::Char(v) => v.receive(arg),
            ParamGetSet::Midi(v) => v.receive(arg),
            ParamGetSet::Bool(v) => v.receive(arg),
        }
    }

    /// An argument that is refused changes nothing.
    pub proof fn lemma_refused(self, arg: Arg)
        requires
            !self.accepts(arg),
        ensures
            self.applied(arg) == self,
    {
    }

    /// Encoding and decoding lose nothing: once a write was accepted, the
    /// parameter's own argument is accepted too, and sending it back leaves
    /// the parameter as it is. What is read back after a write is the
    /// written value as the clip policy let it through.
    pub proof fn lemma_round_trip(self, arg: Arg)
        requires
            self.accepts(arg),
        ensures
            self.applied(arg).accepts(self.applied(arg).arg()),
            self.applied(arg).applied(self.applied(arg).arg()) == self.applied(arg),
    {
        match self {
            ParamGetSet::Int(v) => v.lemma_round_trip(arg->Int_0),
            ParamGetSet::Float(v) => v.lemma_round_trip(Single { bits: arg->Float_0 }),
            ParamGetSet::String(v) => v.lemma_round_trip(arg->String_0),
            ParamGetSet::Time(v) => v.lemma_round_trip((arg->Time_0, arg->Time_1)),
            ParamGetSet::Long(v) => v.lemma_round_trip(arg->Long_0),
            ParamGetSet::Double(v) => v.lemma_round_trip(Double { bits: arg->Double_0 }),
            ParamGetSet::Char(v) => v.lemma_round_trip(arg->Char_0),
            ParamGetSet::Midi(v) => v.lemma_round_trip(
                (arg->Midi_0, arg->Midi_1, arg->Midi_2, arg->Midi_3),
            ),
            ParamGetSet::Bool(v) => v.lemma_round_trip(arg->Bool_0),
        }
    }
}

} // verus!
