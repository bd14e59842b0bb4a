use crate::varint::VarInt;
use core::cmp::Ordering;
use vstd::prelude::*;
use vstd::std_specs::cmp::PartialOrdSpecImpl;

verus! {

/// How two numbers compare.
pub open spec fn compare_values(a: nat, b: nat) -> Ordering {
    if a < b {
        Ordering::Less
    } else if a == b {
        Ordering::Equal
    } else {
        Ordering::Greater
    }
}

/// The order is the order of the numbers: the smaller number comes first.
pub proof fn law_order_follows_numbers(a: nat, b: nat)
    ensures
        (compare_values(a, b) == Ordering::Less) == (a < b),
        (compare_values(a, b) == Ordering::Equal) == (a == b),
        (compare_values(a, b) == Ordering::Greater) == (a > b),
{
}

/// The order agrees with equality and turns around when the sides are swapped.
pub proof fn law_order_consistent(a: nat, b: nat)
    ensures
        (compare_values(a, b) == Ordering::Equal) == (a == b),
        compare_values(a, b) == Ordering::Less <==> compare_values(b, a) == Ordering::Greater,
{
}

/// The order is transitive.
pub proof fn law_order_transitive(a: nat, b: nat, c: nat)
    ensures
        compare_values(a, b) == Ordering::Less && compare_values(b, c) == Ordering::Less
            ==> compare_values(a, c) == Ordering::Less,
{
}

impl VarInt {
    /// Total order by value.
    pub fn cmp(&self, other: &Self) -> (r: Ordering)
        ensures
            r == compare_values(self@, other@),
    {
        let a = self.as_u128();
        let b = other.as_u128();
        if a < b {
            Ordering::Less
        } else if a == b {
            Ordering::Equal
        } else {
            Ordering::Greater
        }
    }
}

/// Varints are ordered by the numbers they stand for.
impl PartialOrd for VarInt {
    fn partial_cmp(&self, other: &Self) -> (r: Option<Ordering>) {
        Some(self.cmp(other))
    }
}

impl PartialOrdSpecImpl for VarInt {
    open spec fn obeys_partial_cmp_spec() -> bool {
        true
    }

    open spec fn partial_cmp_spec(&self, other: &VarInt) -> Option<Ordering> {
        Some(compare_values(self@, other@))
    }
}

} // verus!
