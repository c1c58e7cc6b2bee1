//! Kinds of decision variables, their serialized numbers, and when two
//! variables of different kinds over the same bound describe the same set.
use vstd::prelude::*;

verus! {

/// The kind of a decision variable.
#[derive(Clone, Copy, PartialEq, Eq, Structural, Debug, Hash)]
pub enum Kind {
    Continuous,
    Integer,
    Binary,
    SemiContinuous,
    SemiInteger,
    /// A decision variable whose domain is an explicitly enumerated finite set.
    FiniteDomain,
}

/// A serialized kind number that names no kind.
#[derive(Clone, Copy, PartialEq, Eq, Structural, Debug)]
pub struct UnknownKind {
    pub value: i32,
}

/// The kind a serialized number names: 1 to 5 in the order continuous,
/// integer, binary, semi-continuous, semi-integer; other numbers name none.
pub open spec fn kind_of_number(value: i32) -> Option<Kind> {
    if value == 1 {
        Some(Kind::Continuous)
    } else if value == 2 {
        Some(Kind::Integer)
    } else if value == 3 {
        Some(Kind::Binary)
    } else if value == 4 {
        Some(Kind::SemiContinuous)
    } else if value == 5 {
        Some(Kind::SemiInteger)
    } else {
        None
    }
}

impl Kind {
    /// Reads a serialized kind number.
    pub fn parse(value: i32) -> (r: Result<Kind, UnknownKind>)
        ensures
            match kind_of_number(value) {
                Some(k) => r == Ok::<Kind, UnknownKind>(k),
                None => r == Err::<Kind, UnknownKind>(UnknownKind { value }),
            },
    {
        if value == 1 {
            Ok(Kind::Continuous)
        } else if value == 2 {
            Ok(Kind::Integer)
        } else if value == 3 {
            Ok(Kind::Binary)
        } else if value == 4 {
            Ok(Kind::SemiContinuous)
        } else if value == 5 {
            Ok(Kind::SemiInteger)
        } else {
            Err(UnknownKind { value })
        }
    }
}

/// What two variables with the same bound share about it, as far as the
/// comparison of their kinds needs: the bound is a single point (zero or
/// not), or it is wider and contains zero, or neither.
#[derive(Clone, Copy, PartialEq, Eq, Structural, Debug)]
pub enum BoundShape {
    Point { at_zero: bool },
    ContainsZero,
    AwayFromZero,
}

pub open spec fn in_class(k: Kind, class: Seq<Kind>) -> bool {
    class.contains(k)
}

/// Both kinds lie in one of the two classes.
pub open spec fn same_kind_class(a: Kind, b: Kind, class1: Seq<Kind>, class2: Seq<Kind>) -> bool {
    (in_class(a, class1) && in_class(b, class1)) || (in_class(a, class2) && in_class(b, class2))
}

/// Whether two variables with the same ID and the same bound of the given
/// shape describe the same set of values although their kinds may differ.
pub open spec fn kinds_equivalent_spec(a: Kind, b: Kind, shape: BoundShape) -> bool {
    if a == b {
        true
    } else {
        match shape {
            BoundShape::Point { at_zero } => at_zero || same_kind_class(
                a,
                b,
                seq![Kind::Binary, Kind::Integer, Kind::Continuous],
                seq![Kind::SemiContinuous, Kind::SemiInteger],
            ),
            BoundShape::ContainsZero => same_kind_class(
                a,
                b,
                seq![Kind::Binary, Kind::Integer, Kind::SemiInteger],
                seq![Kind::Continuous, Kind::SemiContinuous],
            ),
            BoundShape::AwayFromZero => (a == Kind::Binary && b == Kind::Integer) || (a == Kind::Integer && b
                == Kind::Binary),
        }
    }
}

fn contains_kind(class: &[Kind], k: Kind) -> (r: bool)
    ensures
        r == in_class(k, class@),
{
    let mut i: usize = 0;
    while i < class.len()
        invariant
            i <= class@.len(),
            forall|j: int| 0 <= j < i ==> class@[j] != k,
        decreases class@.len() - i,
    {
        if class[i] == k {
            assert(class@[i as int] == k);
            return true;
        }
        i = i + 1;
    }
    false
}

fn in_same_class(a: Kind, b: Kind, class1: &[Kind], class2: &[Kind]) -> (r: bool)
    ensures
        r == same_kind_class(a, b, class1@, class2@),
{
    (contains_kind(class1, a) && contains_kind(class1, b)) || (contains_kind(class2, a) && contains_kind(class2, b))
}

/// Whether two variables with the same ID and the same bound of the given
/// shape describe the same set of values although their kinds may differ.
/// A point bound at zero makes every pair of kinds equal; a point elsewhere
/// keeps binary, integer and continuous apart from the semi kinds; a bound
/// around zero groups the integral kinds and the continuous ones; otherwise
/// only binary and integer agree.
pub fn kinds_equivalent(a: Kind, b: Kind, shape: BoundShape) -> (r: bool)
    ensures
        r == kinds_equivalent_spec(a, b, shape),
{
    if a == b {
        return true;
    }
    match shape {
        BoundShape::Point { at_zero } => {
            if at_zero {
                return true;
            }
            let c1 = [Kind::Binary, Kind::Integer, Kind::Continuous];
            let c2 = [Kind::SemiContinuous, Kind::SemiInteger];
            assert(c1@ =~= seq![Kind::Binary, Kind::Integer, Kind::Continuous]);
            assert(c2@ =~= seq![Kind::SemiContinuous, Kind::SemiInteger]);
            in_same_class(a, b, &c1, &c2)
        },
        BoundShape::ContainsZero => {
            let c1 = [Kind::Binary, Kind::Integer, Kind::SemiInteger];
            let c2 = [Kind::Continuous, Kind::SemiContinuous];
            assert(c1@ =~= seq![Kind::Binary, Kind::Integer, Kind::SemiInteger]);
            assert(c2@ =~= seq![Kind::Continuous, Kind::SemiContinuous]);
            in_same_class(a, b, &c1, &c2)
        },
        BoundShape::AwayFromZero => (a == Kind::Binary && b == Kind::Integer) || (a == Kind::Integer && b == Kind::Binary),
    }
}

/// Whether two decision variables are equal up to the tolerance: they have
/// the same ID, their bounds agree within the tolerance (as the caller
/// found), and their kinds describe the same set over a bound of that shape.
pub fn decision_variables_equivalent(
    id_a: crate::ids::VariableID,
    id_b: crate::ids::VariableID,
    bounds_close: bool,
    kind_a: Kind,
    kind_b: Kind,
    shape: BoundShape,
) -> (r: bool)
    ensures
        r == (id_a == id_b && bounds_close && kinds_equivalent_spec(kind_a, kind_b, shape)),
{
    if id_a.0 != id_b.0 || !bounds_close {
        return false;
    }
    kinds_equivalent(kind_a, kind_b, shape)
}

/// The comparison of kinds is symmetric.
pub proof fn lemma_kinds_equivalent_symmetric(a: Kind, b: Kind, shape: BoundShape)
    ensures
        kinds_equivalent_spec(a, b, shape) == kinds_equivalent_spec(b, a, shape),
{
}

} // verus!
