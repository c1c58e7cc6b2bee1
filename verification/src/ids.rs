//! Integer identifiers of decision variables, constraints, hints and samples.
use vstd::prelude::*;
use vstd::std_specs::cmp::PartialOrdSpecImpl;

verus! {

/// Shape shared by every identifier newtype: a copyable wrapper around a raw `u64`.
///
/// Collections in this crate store rows under the raw value; the identifier type
/// only fixes which family an ID belongs to.
pub trait IDType: Copy + Sized {
    /// The raw integer carried by the identifier.
    spec fn raw(&self) -> u64;

    /// Returns the raw integer carried by the identifier.
    fn into_inner(&self) -> (r: u64)
        ensures
            r == self.raw(),
    ;

    /// Builds the identifier that carries `value`.
    fn from_raw(value: u64) -> (r: Self)
        ensures
            r.raw() == value,
    ;
}

/// ID for a regular constraint, ordered by its raw value.
#[derive(Clone, Copy, PartialEq, Eq, Structural, Ord, Hash, Debug)]
pub struct ConstraintID(pub u64);

/// ID for a decision variable, ordered by its raw value.
#[derive(Clone, Copy, PartialEq, Eq, Structural, Ord, Hash, Debug)]
pub struct VariableID(pub u64);

/// ID for an indicator constraint.
#[derive(Clone, Copy, PartialEq, Eq, Structural, Hash, Debug)]
pub struct IndicatorConstraintID(pub u64);

/// ID for a one-hot constraint.
#[derive(Clone, Copy, PartialEq, Eq, Structural, Hash, Debug)]
pub struct OneHotConstraintID(pub u64);

/// ID for an SOS1 constraint.
#[derive(Clone, Copy, PartialEq, Eq, Structural, Hash, Debug)]
pub struct Sos1ConstraintID(pub u64);

/// ID of one sample in a sample set.
#[derive(Clone, Copy, PartialEq, Eq, Structural, Hash, Debug)]
pub struct SampleID(pub u64);

impl ConstraintID {
    /// The raw integer of the ID.
    pub fn into_inner(self) -> (r: u64)
        ensures
            r == self.0,
    {
        self.0
    }
}

impl VariableID {
    /// The raw integer of the ID.
    pub fn into_inner(&self) -> (r: u64)
        ensures
            r == self.0,
    {
        self.0
    }
}

impl IDType for ConstraintID {
    open spec fn raw(&self) -> u64 {
        self.0
    }

    fn into_inner(&self) -> (r: u64) {
        self.0
    }

    fn from_raw(value: u64) -> (r: Self) {
        ConstraintID(value)
    }
}

impl IDType for VariableID {
    open spec fn raw(&self) -> u64 {
        self.0
    }

    fn into_inner(&self) -> (r: u64) {
        self.0
    }

    fn from_raw(value: u64) -> (r: Self) {
        VariableID(value)
    }
}

impl IDType for IndicatorConstraintID {
    open spec fn raw(&self) -> u64 {
        self.0
    }

    fn into_inner(&self) -> (r: u64) {
        self.0
    }

    fn from_raw(value: u64) -> (r: Self) {
        IndicatorConstraintID(value)
    }
}

impl IDType for OneHotConstraintID {
    open spec fn raw(&self) -> u64 {
        self.0
    }

    fn into_inner(&self) -> (r: u64) {
        self.0
    }

    fn from_raw(value: u64) -> (r: Self) {
        OneHotConstraintID(value)
    }
}

impl IDType for Sos1ConstraintID {
    open spec fn raw(&self) -> u64 {
        self.0
    }

    fn into_inner(&self) -> (r: u64) {
        self.0
    }

    fn from_raw(value: u64) -> (r: Self) {
        Sos1ConstraintID(value)
    }
}

impl IDType for SampleID {
    open spec fn raw(&self) -> u64 {
        self.0
    }

    fn into_inner(&self) -> (r: u64) {
        self.0
    }

    fn from_raw(value: u64) -> (r: Self) {
        SampleID(value)
    }
}

impl From<u64> for ConstraintID {
    fn from(value: u64) -> (r: Self) {
        ConstraintID(value)
    }
}

impl vstd::std_specs::convert::FromSpecImpl<u64> for ConstraintID {
    open spec fn obeys_from_spec() -> bool {
        true
    }

    open spec fn from_spec(value: u64) -> Self {
        ConstraintID(value)
    }
}

impl From<u64> for VariableID {
    fn from(value: u64) -> (r: Self) {
        VariableID(value)
    }
}

impl vstd::std_specs::convert::FromSpecImpl<u64> for VariableID {
    open spec fn obeys_from_spec() -> bool {
        true
    }

    open spec fn from_spec(value: u64) -> Self {
        VariableID(value)
    }
}

impl From<u64> for IndicatorConstraintID {
    fn from(value: u64) -> (r: Self) {
        IndicatorConstraintID(value)
    }
}

impl vstd::std_specs::convert::FromSpecImpl<u64> for IndicatorConstraintID {
    open spec fn obeys_from_spec() -> bool {
        true
    }

    open spec fn from_spec(value: u64) -> Self {
        IndicatorConstraintID(value)
    }
}

impl From<u64> for OneHotConstraintID {
    fn from(value: u64) -> (r: Self) {
        OneHotConstraintID(value)
    }
}

impl vstd::std_specs::convert::FromSpecImpl<u64> for OneHotConstraintID {
    open spec fn obeys_from_spec() -> bool {
        true
    }

    open spec fn from_spec(value: u64) -> Self {
        OneHotConstraintID(value)
    }
}

impl From<u64> for Sos1ConstraintID {
    fn from(value: u64) -> (r: Self) {
        Sos1ConstraintID(value)
    }
}

impl vstd::std_specs::convert::FromSpecImpl<u64> for Sos1ConstraintID {
    open spec fn obeys_from_spec() -> bool {
        true
    }

    open spec fn from_spec(value: u64) -> Self {
        Sos1ConstraintID(value)
    }
}

impl From<u64> for SampleID {
    fn from(value: u64) -> (r: Self) {
        SampleID(value)
    }
}

impl vstd::std_specs::convert::FromSpecImpl<u64> for SampleID {
    open spec fn obeys_from_spec() -> bool {
        true
    }

    open spec fn from_spec(value: u64) -> Self {
        SampleID(value)
    }
}

impl From<ConstraintID> for u64 {
    fn from(id: ConstraintID) -> (r: u64) {
        id.0
    }
}

impl vstd::std_specs::convert::FromSpecImpl<ConstraintID> for u64 {
    open spec fn obeys_from_spec() -> bool {
        true
    }

    open spec fn from_spec(id: ConstraintID) -> u64 {
        id.0
    }
}

impl From<VariableID> for u64 {
    fn from(id: VariableID) -> (r: u64) {
        id.0
    }
}

impl vstd::std_specs::convert::FromSpecImpl<VariableID> for u64 {
    open spec fn obeys_from_spec() -> bool {
        true
    }

    open spec fn from_spec(id: VariableID) -> u64 {
        id.0
    }
}

/// The order of two raw values.
pub open spec fn raw_order(a: u64, b: u64) -> core::cmp::Ordering {
    if a < b {
        core::cmp::Ordering::Less
    } else if a == b {
        core::cmp::Ordering::Equal
    } else {
        core::cmp::Ordering::Greater
    }
}

/// The order of two raw values, computed.
fn order_raw(a: u64, b: u64) -> (r: core::cmp::Ordering)
    ensures
        r == raw_order(a, b),
{
    if a < b {
        core::cmp::Ordering::Less
    } else if a == b {
        core::cmp::Ordering::Equal
    } else {
        core::cmp::Ordering::Greater
    }
}

impl PartialOrd for ConstraintID {
    fn partial_cmp(&self, other: &Self) -> (r: Option<core::cmp::Ordering>) {
        Some(order_raw(self.0, other.0))
    }
}

impl PartialOrdSpecImpl for ConstraintID {
    open spec fn obeys_partial_cmp_spec() -> bool {
        true
    }

    open spec fn partial_cmp_spec(&self, other: &Self) -> Option<core::cmp::Ordering> {
        Some(raw_order(self.0, other.0))
    }
}

impl PartialOrd for VariableID {
    fn partial_cmp(&self, other: &Self) -> (r: Option<core::cmp::Ordering>) {
        Some(order_raw(self.0, other.0))
    }
}

impl PartialOrdSpecImpl for VariableID {
    open spec fn obeys_partial_cmp_spec() -> bool {
        true
    }

    open spec fn partial_cmp_spec(&self, other: &Self) -> Option<core::cmp::Ordering> {
        Some(raw_order(self.0, other.0))
    }
}

} // verus!
