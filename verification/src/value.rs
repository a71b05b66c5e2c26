//! Values of settings: a fixed number, or whatever a parameter holds at the
//! moment.

use crate::id::ParameterId;
use crate::parameter::Parameter;
use crate::pool::Pool;
use vstd::prelude::*;

verus! {

/// A value that a setting can be given.
#[derive(Debug, Clone, Copy, PartialEq, Eq, Structural)]
pub enum Value {
    /// A fixed number.
    Fixed(i32),
    /// The current value of a parameter.
    Parameter(ParameterId),
}

impl Value {
    /// The number that the value stands for, given the parameters that there
    /// are. A value that names a parameter that is not there stands for zero.
    pub open spec fn resolved(self, parameters: Map<u64, Parameter>) -> i32 {
        match self {
            Value::Fixed(number) => number,
            Value::Parameter(id) => if parameters.contains_key(id@) {
                parameters[id@].value
            } else {
                0
            },
        }
    }

    /// Looks up the number that the value stands for.
    pub fn resolve(&self, parameters: &Pool<Parameter>) -> (number: i32)
        requires
            parameters.wf(),
        ensures
            number == self.resolved(parameters@),
    {
        match self {
            Value::Fixed(number) => *number,
            Value::Parameter(id) => match parameters.get(id.index()) {
                Some(parameter) => parameter.value(),
                None => 0,
            },
        }
    }
}

impl From<i32> for Value {
    fn from(number: i32) -> (value: Self) {
        Value::Fixed(number)
    }
}

impl vstd::std_specs::convert::FromSpecImpl<i32> for Value {
    open spec fn obeys_from_spec() -> bool {
        true
    }

    open spec fn from_spec(number: i32) -> Self {
        Value::Fixed(number)
    }
}

impl From<ParameterId> for Value {
    fn from(id: ParameterId) -> (value: Self) {
        Value::Parameter(id)
    }
}

impl vstd::std_specs::convert::FromSpecImpl<ParameterId> for Value {
    open spec fn obeys_from_spec() -> bool {
        true
    }

    open spec fn from_spec(id: ParameterId) -> Self {
        Value::Parameter(id)
    }
}

} // verus!
