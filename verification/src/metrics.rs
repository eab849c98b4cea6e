//! Component-owned gauges. Each component holds its own gauges and exposes
//! them for registration into a process-wide collector; nothing here is
//! global state.

use vstd::prelude::*;

verus! {

/// A named gauge holding one signed 64-bit value.
#[derive(Clone, Debug)]
pub struct IntGauge {
    name: String,
    value: i64,
}

impl IntGauge {
    /// The gauge's name, for specifications.
    pub closed spec fn spec_name(&self) -> Seq<char> {
        self.name@
    }

    /// The gauge's value, for specifications.
    pub closed spec fn spec_get(&self) -> i64 {
        self.value
    }

    /// A fresh gauge starts at zero.
    pub fn new(name: String) -> (r: IntGauge)
        ensures
            r.spec_name() == name@,
            r.spec_get() == 0,
    {
        IntGauge { name, value: 0i64 }
    }

    pub fn name(&self) -> (r: &str)
        ensures
            r@ == self.spec_name(),
    {
        self.name.as_str()
    }

    pub fn get(&self) -> (r: i64)
        ensures
            r == self.spec_get(),
    {
        self.value
    }

    pub fn set(&mut self, value: i64)
        ensures
            final(self).spec_get() == value,
            final(self).spec_name() == old(self).spec_name(),
    {
        self.value = value;
    }
}

} // verus!
