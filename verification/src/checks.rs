//! The first of several checks that fails.

use vstd::prelude::*;

verus! {

/// The first fault, if there is one.
pub open spec fn either(first: Option<Seq<char>>, second: Option<Seq<char>>) -> Option<Seq<char>> {
    match first {
        Some(reason) => Some(reason),
        None => second,
    }
}

/// The fault, where the condition fails.
pub open spec fn unless(holds: bool, reason: Seq<char>) -> Option<Seq<char>> {
    if holds {
        None
    } else {
        Some(reason)
    }
}

/// The fault of the first item from `at` on that has one.
pub open spec fn fault_from(at: int, count: int, fault: spec_fn(int) -> Option<Seq<char>>) -> Option<
    Seq<char>,
>
    decreases count - at,
{
    if at >= count {
        None
    } else {
        either(fault(at), fault_from(at + 1, count, fault))
    }
}

/// The fault of the first item that has one.
pub open spec fn first_fault(count: int, fault: spec_fn(int) -> Option<Seq<char>>) -> Option<Seq<char>> {
    fault_from(0, count, fault)
}

/// There is no fault exactly where no item has one.
pub proof fn lemma_first_fault(at: int, count: int, fault: spec_fn(int) -> Option<Seq<char>>)
    requires
        0 <= at <= count,
    ensures
        fault_from(at, count, fault) is None <==> forall|i: int|
            at <= i < count ==> #[trigger] fault(i) is None,
    decreases count - at,
{
    if at < count {
        lemma_first_fault(at + 1, count, fault);
        if fault_from(at, count, fault) is None {
            assert forall|i: int| at <= i < count implies #[trigger] fault(i) is None by {
                if i > at {
                    assert(fault_from(at + 1, count, fault) is None);
                }
            }
        } else if forall|i: int| at <= i < count ==> #[trigger] fault(i) is None {
            assert(fault(at) is None);
        }
    }
}

/// Whether a checked result tells the fault.
pub open spec fn tells(result: Result<(), String>, fault: Option<Seq<char>>) -> bool {
    match result {
        Ok(()) => fault is None,
        Err(reason) => fault == Some(reason@),
    }
}

} // verus!
