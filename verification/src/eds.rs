//! The object dictionary of a node, as its electronic data sheet lays it down.

use std::collections::HashMap;
use std::collections::hash_map::Entry;

use vstd::prelude::*;

use crate::le::{le_bytes, signed_value, unsigned_value};

verus! {

broadcast use vstd::std_specs::hash::group_hash_axioms;

/// The value of one object, with its data type.
#[derive(Debug, Clone, PartialEq, Eq)]
pub enum DataValue {
    Integer8(i8),
    Unsigned8(u8),
    Integer16(i16),
    Unsigned16(u16),
    Integer32(i32),
    Unsigned32(u32),
    /// A value of a type that none of the services transfers, as its raw bytes.
    Other(Vec<u8>),
}

impl DataValue {
    /// How many bytes the value takes in a transfer; none for a type that is not transferred.
    pub open spec fn size(self) -> nat {
        match self {
            DataValue::Integer8(_) | DataValue::Unsigned8(_) => 1,
            DataValue::Integer16(_) | DataValue::Unsigned16(_) => 2,
            DataValue::Integer32(_) | DataValue::Unsigned32(_) => 4,
            DataValue::Other(_) => 0,
        }
    }

    /// The bytes that stand for the value in a transfer.
    pub open spec fn bytes(self) -> Seq<u8> {
        match self {
            DataValue::Integer8(v) => le_bytes(v as int, 1),
            DataValue::Unsigned8(v) => le_bytes(v as int, 1),
            DataValue::Integer16(v) => le_bytes(v as int, 2),
            DataValue::Unsigned16(v) => le_bytes(v as int, 2),
            DataValue::Integer32(v) => le_bytes(v as int, 4),
            DataValue::Unsigned32(v) => le_bytes(v as int, 4),
            DataValue::Other(_) => Seq::empty(),
        }
    }

    /// The value of the same type that the first bytes of `data` stand for. A value of a
    /// type that is not transferred stays what it is.
    pub open spec fn replaced_by(self, data: Seq<u8>) -> DataValue {
        match self {
            DataValue::Integer8(_) => DataValue::Integer8(signed_value(data.take(1)) as i8),
            DataValue::Unsigned8(_) => DataValue::Unsigned8(data[0]),
            DataValue::Integer16(_) => DataValue::Integer16(signed_value(data.take(2)) as i16),
            DataValue::Unsigned16(_) => DataValue::Unsigned16(unsigned_value(data.take(2)) as u16),
            DataValue::Integer32(_) => DataValue::Integer32(signed_value(data.take(4)) as i32),
            DataValue::Unsigned32(_) => DataValue::Unsigned32(unsigned_value(data.take(4)) as u32),
            DataValue::Other(_) => self,
        }
    }

    /// Both values have the same data type.
    pub open spec fn same_type(self, other: DataValue) -> bool {
        match (self, other) {
            (DataValue::Integer8(_), DataValue::Integer8(_)) => true,
            (DataValue::Unsigned8(_), DataValue::Unsigned8(_)) => true,
            (DataValue::Integer16(_), DataValue::Integer16(_)) => true,
            (DataValue::Unsigned16(_), DataValue::Unsigned16(_)) => true,
            (DataValue::Integer32(_), DataValue::Integer32(_)) => true,
            (DataValue::Unsigned32(_), DataValue::Unsigned32(_)) => true,
            (DataValue::Other(_), DataValue::Other(_)) => true,
            _ => false,
        }
    }
}

/// One entry of the object dictionary.
#[derive(Debug, Clone, PartialEq, Eq)]
pub struct Variable {
    pub value: DataValue,
}

/// The object dictionary: variables by index, and under it by subindex.
#[derive(Debug, Clone)]
pub struct EDSData {
    pub od: HashMap<u16, HashMap<u8, Variable>>,
}

/// The object dictionary as a map from index and subindex to value.
pub type Objects = Map<(u16, u8), DataValue>;

impl View for EDSData {
    type V = Objects;

    open spec fn view(&self) -> Objects {
        Map::new(
            |key: (u16, u8)| self.od@.contains_key(key.0) && self.od@[key.0]@.contains_key(key.1),
            |key: (u16, u8)| self.od@[key.0]@[key.1].value,
        )
    }
}

/// The dictionaries hold the same objects, each with the data type that it had.
pub open spec fn same_layout(before: Objects, after: Objects) -> bool {
    &&& before.dom() == after.dom()
    &&& forall|key: (u16, u8)| #[trigger]
        before.contains_key(key) ==> before[key].same_type(after[key])
}

impl EDSData {
    /// The value of an object, if the dictionary has it.
    pub fn get(&self, index: u16, sub_index: u8) -> (value: Option<&DataValue>)
        ensures
            match value {
                Some(v) => self@.contains_key((index, sub_index)) && *v == self@[(index, sub_index)],
                None => !self@.contains_key((index, sub_index)),
            },
    {
        match self.od.get(&index) {
            Some(vars) => match vars.get(&sub_index) {
                Some(var) => Some(&var.value),
                None => None,
            },
            None => None,
        }
    }

    /// The value of an object for writing, if the dictionary has it. What is written through
    /// the reference takes the value's place; the rest of the dictionary stays as it is, and so do
    /// its indices, those without a variable too.
    pub fn get_mut(&mut self, index: u16, sub_index: u8) -> (value: Option<&mut DataValue>)
        ensures
            match value {
                Some(v) => {
                    &&& old(self)@.contains_key((index, sub_index))
                    &&& *v == old(self)@[(index, sub_index)]
                    &&& final(self)@ == old(self)@.insert((index, sub_index), *final(v))
                },
                None => !old(self)@.contains_key((index, sub_index)) && final(self)@ == old(self)@,
            },
            final(self).od@.dom() == old(self).od@.dom(),
    {
        match self.od.entry(index) {
            Entry::Occupied(vars) => match vars.into_mut().entry(sub_index) {
                Entry::Occupied(var) => Some(&mut var.into_mut().value),
                Entry::Vacant(_) => None,
            },
            Entry::Vacant(_) => None,
        }
    }
}

} // verus!
