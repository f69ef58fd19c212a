use crate::logical_core_identifier::LogicalCoreIdentifier;
use vstd::prelude::*;

verus! {

/// The logical core that the calling thread runs on, given what the operating system answered when asked for it.
///
/// The operating system answers with the number of the logical core, or with `-1` where it cannot tell; that is `None`.
/// Only the low 16 bits of the number are kept.
pub fn current_logical_core(result: i32) -> (logical_core: Option<LogicalCoreIdentifier>)
    ensures
        logical_core is None <==> result == -1,
        logical_core matches Some(logical_core_identifier) ==> logical_core_identifier == result as int % 0x1_0000,
{
    if result != -1 {
        let logical_core_identifier: LogicalCoreIdentifier = result as u32 as LogicalCoreIdentifier;
        assert(logical_core_identifier == result as int % 0x1_0000) by (bit_vector)
            requires
                logical_core_identifier == result as u32 as u16,
        ;
        Some(logical_core_identifier)
    } else {
        None
    }
}

} // verus!
