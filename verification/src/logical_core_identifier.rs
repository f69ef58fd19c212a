use vstd::prelude::*;

verus! {

/// Logical core identifier: the zero-based number of one logical core.
pub type LogicalCoreIdentifier = u16;

/// The number of logical cores that can be told apart: one for each value of [`LogicalCoreIdentifier`].
pub const MAXIMUM_NUMBER_OF_LOGICAL_CORES: usize = 65536;

/// A set of logical cores is finite and holds at most one of each.
pub proof fn lemma_at_most_every_logical_core(logical_cores: Set<LogicalCoreIdentifier>)
    ensures
        logical_cores.finite(),
        logical_cores.len() <= MAXIMUM_NUMBER_OF_LOGICAL_CORES,
{
    let every = Set::<LogicalCoreIdentifier>::full();
    let all_but_highest = Set::<LogicalCoreIdentifier>::range(0, u16::MAX);
    vstd::set_lib::range_set_properties::<LogicalCoreIdentifier>(0, u16::MAX);
    assert(every =~= all_but_highest.insert(u16::MAX));
    assert(every.finite() && every.len() == 65536);
    assert(logical_cores.subset_of(every));
    vstd::set_lib::lemma_len_subset(logical_cores, every);
}

} // verus!
