use crate::affinity::AffinityCall;
use crate::affinity::AffinityError;
use crate::affinity::Platform;
use crate::cpu_mask::CpuMask;
use crate::logical_core_identifier::LogicalCoreIdentifier;
use crate::logical_core_identifier::MAXIMUM_NUMBER_OF_LOGICAL_CORES;
use crate::number_of_cpus_to_utilize::number_of_cpus;
use crate::per_logical_core_data::is_constructed;
use crate::per_logical_core_data::reaches_highest;
use crate::per_logical_core_data::PerLogicalCoreData;
use std::collections::btree_set::Iter;
use std::collections::BTreeSet;
use vstd::prelude::*;
use vstd::std_specs::btree::increasing_seq;
use vstd::std_specs::btree::into_iter_btree_keys;
use vstd::std_specs::btree::spec_btree_keys_iter;
use vstd::std_specs::cmp::OrdSpec;
use vstd::std_specs::iter::IteratorSpec;

verus! {

/// Logical cores to use for process and thread affinity.
///
/// A set: no logical core is held twice, and the order in which they were given is not kept.
/// The empty set is the one invalid value; setting an affinity turns it down.
#[derive(Debug, PartialEq, Eq)]
pub struct LogicalCores(BTreeSet<LogicalCoreIdentifier>);

impl View for LogicalCores {
    type V = Set<LogicalCoreIdentifier>;

    closed spec fn view(&self) -> Set<LogicalCoreIdentifier> {
        self.0@
    }
}

/// Whether `identifiers` rise strictly from each to the next.
pub open spec fn is_ascending(identifiers: Seq<LogicalCoreIdentifier>) -> bool {
    forall|i: int, j: int| 0 <= i < j < identifiers.len() ==> identifiers[i] < identifiers[j]
}

/// Every logical core of a machine with `number_of_cpus` logical CPUs: the logical cores `0` to `number_of_cpus - 1`.
pub open spec fn every_logical_core(number_of_cpus: nat) -> Set<LogicalCoreIdentifier> {
    Set::new(|logical_core_identifier: LogicalCoreIdentifier| logical_core_identifier < number_of_cpus)
}

/// The bits of an affinity mask that stand for `logical_cores`: bit `i` for logical core `i`.
pub open spec fn mask_bits(logical_cores: Set<LogicalCoreIdentifier>) -> Set<int> {
    Set::new(|bit: int| 0 <= bit <= u16::MAX && logical_cores.contains(bit as LogicalCoreIdentifier))
}

/// Whether `logical_core_identifier` is the smallest of `logical_cores` that a mask of `maximum_logical_cores` bits has no bit for.
pub open spec fn is_smallest_out_of_range(
    logical_cores: Set<LogicalCoreIdentifier>,
    maximum_logical_cores: usize,
    logical_core_identifier: LogicalCoreIdentifier,
) -> bool {
    &&& logical_cores.contains(logical_core_identifier)
    &&& logical_core_identifier >= maximum_logical_cores
    &&& forall|other: LogicalCoreIdentifier|
        logical_cores.contains(other) && other >= maximum_logical_cores ==> logical_core_identifier <= other
}

/// Whether `result` is the affinity mask of `logical_cores` on a platform whose mask has `maximum_logical_cores` bits:
/// the mask with just the bits of the logical cores set, or, where a logical core has no bit, the smallest such.
pub open spec fn is_platform_mask(
    logical_cores: Set<LogicalCoreIdentifier>,
    maximum_logical_cores: usize,
    result: Result<CpuMask, AffinityError>,
) -> bool {
    match result {
        Ok(mask) => {
            &&& forall|logical_core_identifier: LogicalCoreIdentifier|
                logical_cores.contains(logical_core_identifier) ==> logical_core_identifier < maximum_logical_cores
            &&& mask@ == mask_bits(logical_cores)
            &&& mask.number_of_bits() == if maximum_logical_cores <= 65536 {
                maximum_logical_cores as nat
            } else {
                65536
            }
        },
        Err(AffinityError::LogicalCoreOutOfRange { logical_core_identifier, maximum_logical_cores: maximum }) => {
            &&& maximum == maximum_logical_cores
            &&& is_smallest_out_of_range(logical_cores, maximum_logical_cores, logical_core_identifier)
        },
        Err(_) => false,
    }
}

/// Whether `result` is what is decided when the affinity of a process or thread is to be set to `logical_cores`,
/// on a platform that has a way to set it if `supported`, with a mask of `maximum_logical_cores` bits.
///
/// An empty set is turned down whatever the platform. A platform without a way to set the affinity is asked nothing.
/// Any other platform is handed the mask of the logical cores, if each of them has a bit in it.
pub open spec fn is_affinity_decision(
    logical_cores: Set<LogicalCoreIdentifier>,
    supported: bool,
    maximum_logical_cores: usize,
    result: Result<AffinityCall, AffinityError>,
) -> bool {
    if logical_cores.is_empty() {
        result == Err::<AffinityCall, AffinityError>(AffinityError::NoLogicalCores)
    } else if !supported {
        result == Ok::<AffinityCall, AffinityError>(AffinityCall::Nothing)
    } else {
        match result {
            Ok(AffinityCall::SetAffinity(mask)) => is_platform_mask(
                logical_cores,
                maximum_logical_cores,
                Ok(mask),
            ),
            Ok(AffinityCall::Nothing) => false,
            Err(error) => is_platform_mask(logical_cores, maximum_logical_cores, Err(error)),
        }
    }
}

impl LogicalCores {
    /// The logical cores of this set, from the lowest to the highest.
    pub(crate) closed spec fn ascending(&self) -> Seq<LogicalCoreIdentifier> {
        into_iter_btree_keys(spec_btree_keys_iter(&self.0))
    }

    /// Walks the logical cores from the lowest to the highest.
    pub(crate) fn iter_ascending(&self) -> (iter: Iter<'_, LogicalCoreIdentifier>)
        ensures
            iter.remaining().unref() == self.ascending(),
            iter.initial_value_relation(&iter),
            iter.obeys_prophetic_iter_laws(),
            iter.decrease() is Some,
            is_ascending(self.ascending()),
            self.ascending().to_set() == self@,
            self.ascending().len() == self@.len(),
            self@.finite(),
    {
        broadcast use vstd::std_specs::btree::group_btree_axioms;

        let iter = self.0.iter();
        proof {
            let remaining = spec_btree_keys_iter(&self.0).remaining();
            assert(increasing_seq(remaining));
            assert forall|i: int, j: int| 0 <= i < j < self.ascending().len() implies self.ascending()[i]
                < self.ascending()[j] by {
                assert(OrdSpec::cmp_spec(&remaining[i], &remaining[j]) is Less);
            }
            assert(remaining.unref().to_set() == self@);
        }
        iter
    }

    /// The set of the logical cores in `logical_core_identifiers`, however often and in whatever order each is given.
    ///
    /// An empty collection is turned down: no default core is put in its place.
    pub fn from_identifiers(logical_core_identifiers: &[LogicalCoreIdentifier]) -> (result: Result<Self, AffinityError>)
        ensures
            logical_core_identifiers@.len() == 0 ==> result == Err::<Self, AffinityError>(AffinityError::NoLogicalCores),
            logical_core_identifiers@.len() > 0 ==> (result matches Ok(logical_cores) && logical_cores@
                == logical_core_identifiers@.to_set()),
    {
        broadcast use vstd::std_specs::btree::group_btree_axioms;

        if logical_core_identifiers.len() == 0 {
            return Err(AffinityError::NoLogicalCores);
        }
        let mut logical_cores: BTreeSet<LogicalCoreIdentifier> = BTreeSet::new();
        let mut index: usize = 0;
        while index < logical_core_identifiers.len()
            invariant
                index <= logical_core_identifiers@.len(),
                logical_cores@ == logical_core_identifiers@.take(index as int).to_set(),
            decreases logical_core_identifiers@.len() - index,
        {
            logical_cores.insert(logical_core_identifiers[index]);
            proof {
                let before = logical_core_identifiers@.take(index as int);
                let after = logical_core_identifiers@.take(index + 1);
                assert(after == before.push(logical_core_identifiers@[index as int]));
                assert(after.to_set() =~= before.to_set().insert(logical_core_identifiers@[index as int])) by {
                    assert forall|id: LogicalCoreIdentifier| after.to_set().contains(id) implies before.to_set().insert(
                        logical_core_identifiers@[index as int],
                    ).contains(id) by {
                        let k = choose|k: int| 0 <= k < after.len() && after[k] == id;
                        if k < before.len() {
                            assert(before[k] == id);
                        }
                    }
                    assert forall|id: LogicalCoreIdentifier|
                        before.to_set().insert(logical_core_identifiers@[index as int]).contains(id) implies after.to_set().contains(
                        id,
                    ) by {
                        if before.to_set().contains(id) {
                            let k = choose|k: int| 0 <= k < before.len() && before[k] == id;
                            assert(after[k] == id);
                        } else {
                            assert(after[index as int] == id);
                        }
                    }
                }
            }
            index += 1;
        }
        assert(logical_core_identifiers@.take(index as int) == logical_core_identifiers@);
        Ok(LogicalCores(logical_cores))
    }

    /// The logical cores `0` to `number_of_cpus - 1`: every logical core of a machine with `number_of_cpus` of them.
    pub fn for_number_of_cpus(number_of_cpus: usize) -> (logical_cores: Self)
        ensures
            logical_cores@ == every_logical_core(number_of_cpus as nat),
    {
        broadcast use vstd::std_specs::btree::group_btree_axioms;

        let mut logical_cores: BTreeSet<LogicalCoreIdentifier> = BTreeSet::new();
        let mut logical_core_index: usize = 0;
        while logical_core_index < number_of_cpus && logical_core_index < MAXIMUM_NUMBER_OF_LOGICAL_CORES
            invariant
                logical_core_index <= MAXIMUM_NUMBER_OF_LOGICAL_CORES,
                logical_core_index <= number_of_cpus,
                logical_cores@ =~= Set::new(
                    |logical_core_identifier: LogicalCoreIdentifier| logical_core_identifier < logical_core_index,
                ),
            decreases MAXIMUM_NUMBER_OF_LOGICAL_CORES - logical_core_index,
        {
            logical_cores.insert(logical_core_index as LogicalCoreIdentifier);
            logical_core_index += 1;
        }
        assert(logical_cores@ =~= every_logical_core(number_of_cpus as nat));
        LogicalCores(logical_cores)
    }

    /// Valid logical cores for the current process.
    ///
    /// `permitted` is what the operating system reports as the logical cores that the process may run on;
    /// it is `None` on a platform that has no way to tell, and then every logical core of the machine is taken to be valid.
    ///
    /// Only valid at start up, before an affinity has been set.
    pub fn valid_logical_cores_for_the_current_process(permitted: Option<BTreeSet<LogicalCoreIdentifier>>) -> (logical_cores:
        Self)
        ensures
            match permitted {
                Some(permitted) => logical_cores@ == permitted@,
                None => exists|number_of_cpus: nat| logical_cores@ == #[trigger] every_logical_core(number_of_cpus),
            },
    {
        match permitted {
            Some(permitted) => LogicalCores(permitted),
            None => {
                let number_of_cpus: usize = number_of_cpus();
                let logical_cores = Self::for_number_of_cpus(number_of_cpus);
                assert(logical_cores@ == every_logical_core(number_of_cpus as nat));
                logical_cores
            },
        }
    }

    /// Creates an empty set of per logical core data.
    pub fn empty_per_logical_core_data<PerLogicalCore>(&self) -> (data: PerLogicalCoreData<PerLogicalCore>)
        requires
            !self@.is_empty(),
        ensures
            data@ == Seq::new(self@.len(), |i: int| None::<PerLogicalCore>),
    {
        PerLogicalCoreData::empty(self)
    }

    /// Creates a populated set of per logical core data.
    pub fn populate_per_logical_core_data<PerLogicalCore, Constructor: FnMut(LogicalCoreIdentifier) -> PerLogicalCore>(
        &self,
        constructor: Constructor,
    ) -> (data: PerLogicalCoreData<PerLogicalCore>)
        requires
            !self@.is_empty(),
            forall|logical_core_identifier: LogicalCoreIdentifier|
                self@.contains(logical_core_identifier) ==> call_requires(constructor, (logical_core_identifier,)),
        ensures
            reaches_highest(self@, data@.len()),
            forall|logical_core_identifier: LogicalCoreIdentifier|
                logical_core_identifier < data@.len() ==> is_constructed(
                    constructor,
                    self@,
                    logical_core_identifier,
                    #[trigger] data@[logical_core_identifier as int],
                ),
    {
        PerLogicalCoreData::new(self, constructor)
    }

    /// Folds the logical cores into the affinity mask of a platform whose mask has `maximum_logical_cores` bits.
    ///
    /// A logical core that the mask has no bit for is not dropped: the set is turned down, and the smallest such logical core named.
    pub fn to_platform_mask(&self, maximum_logical_cores: usize) -> (result: Result<CpuMask, AffinityError>)
        ensures
            is_platform_mask(self@, maximum_logical_cores, result),
    {
        let number_of_bits: usize = if maximum_logical_cores <= MAXIMUM_NUMBER_OF_LOGICAL_CORES {
            maximum_logical_cores
        } else {
            MAXIMUM_NUMBER_OF_LOGICAL_CORES
        };
        let mut mask = CpuMask::new(number_of_bits);
        let ghost ascending = self.ascending();
        let iter = self.iter_ascending();
        for logical_core in it: iter
            invariant
                it.seq().unref() == ascending,
                is_ascending(ascending),
                ascending.to_set() == self@,
                number_of_bits <= maximum_logical_cores,
                number_of_bits == maximum_logical_cores || number_of_bits == 65536,
                mask.number_of_bits() == number_of_bits,
                forall|at: int| 0 <= at < it.index() ==> ascending[at] < number_of_bits,
                mask@ =~= Set::new(
                    |bit: int| exists|at: int| 0 <= at < it.index() && #[trigger] ascending[at] == bit,
                ),
        {
            let logical_core_identifier: LogicalCoreIdentifier = *logical_core;
            assert(logical_core_identifier == ascending[it.index()]);
            if logical_core_identifier as usize >= number_of_bits {
                proof {
                    assert(ascending.contains(logical_core_identifier));
                    assert forall|other: LogicalCoreIdentifier|
                        self@.contains(other) && other >= maximum_logical_cores implies logical_core_identifier
                        <= other by {
                        assert(ascending.contains(other));
                        let at = choose|at: int| 0 <= at < ascending.len() && ascending[at] == other;
                        if at < it.index() {
                            assert(ascending[at] < number_of_bits);
                        } else {
                            assert(ascending[it.index()] <= ascending[at]);
                        }
                    }
                }
                return Err(
                    AffinityError::LogicalCoreOutOfRange { logical_core_identifier, maximum_logical_cores },
                );
            }
            let ghost before = mask@;
            mask.set(logical_core_identifier as usize);
            proof {
                assert(mask@ =~= Set::new(
                    |bit: int| exists|at: int| 0 <= at < it.index() + 1 && #[trigger] ascending[at] == bit,
                )) by {
                    assert forall|bit: int| mask@.contains(bit) implies exists|at: int|
                        0 <= at < it.index() + 1 && #[trigger] ascending[at] == bit by {
                        if bit == logical_core_identifier {
                            assert(ascending[it.index()] == bit);
                        } else {
                            assert(before.contains(bit));
                            let at = choose|at: int| 0 <= at < it.index() && #[trigger] ascending[at] == bit;
                            assert(ascending[at] == bit);
                        }
                    }
                    assert forall|bit: int|
                        (exists|at: int| 0 <= at < it.index() + 1 && #[trigger] ascending[at] == bit) implies mask@.contains(
                        bit,
                    ) by {
                        let at = choose|at: int| 0 <= at < it.index() + 1 && #[trigger] ascending[at] == bit;
                        if at < it.index() {
                            assert(before.contains(bit));
                        }
                    }
                }
            }
        }
        proof {
            assert forall|logical_core_identifier: LogicalCoreIdentifier|
                self@.contains(logical_core_identifier) implies logical_core_identifier < maximum_logical_cores by {
                assert(ascending.contains(logical_core_identifier));
            }
            assert(mask@ =~= mask_bits(self@)) by {
                assert forall|bit: int| mask@.contains(bit) implies mask_bits(self@).contains(bit) by {
                    let at = choose|at: int| 0 <= at < ascending.len() && #[trigger] ascending[at] == bit;
                    assert(ascending.contains(ascending[at]));
                }
                assert forall|bit: int| mask_bits(self@).contains(bit) implies mask@.contains(bit) by {
                    assert(ascending.contains(bit as LogicalCoreIdentifier));
                    let at = choose|at: int|
                        0 <= at < ascending.len() && ascending[at] == bit as LogicalCoreIdentifier;
                    assert(ascending[at] == bit);
                }
            }
        }
        Ok(mask)
    }

    /// Decides what setting an affinity to these logical cores comes to.
    fn affinity_call(&self, supported: bool, maximum_logical_cores: usize) -> (result: Result<AffinityCall, AffinityError>)
        ensures
            is_affinity_decision(self@, supported, maximum_logical_cores, result),
    {
        if self.is_empty() {
            return Err(AffinityError::NoLogicalCores);
        }
        if !supported {
            return Ok(AffinityCall::Nothing);
        }
        match self.to_platform_mask(maximum_logical_cores) {
            Ok(mask) => Ok(AffinityCall::SetAffinity(mask)),
            Err(error) => Err(error),
        }
    }

    /// Sets a process' logical core affinity, as far as that can be done without the operating system:
    /// says what is to be asked of `platform`, or why nothing can be.
    ///
    /// An empty set is turned down before anything is asked of the platform.
    /// On a platform that cannot pin a process, nothing is asked and that is success.
    /// What the operating system answers to the call is the caller's to hand on as it is.
    pub fn set_process_affinity(&self, platform: &Platform) -> (result: Result<AffinityCall, AffinityError>)
        ensures
            is_affinity_decision(
                self@,
                platform.is_setting_process_affinity_supported,
                platform.maximum_logical_cores,
                result,
            ),
            self@.is_empty() ==> result == Err::<AffinityCall, AffinityError>(AffinityError::NoLogicalCores),
            !self@.is_empty() && !platform.is_setting_process_affinity_supported ==> result == Ok::<
                AffinityCall,
                AffinityError,
            >(AffinityCall::Nothing),
            result matches Ok(AffinityCall::SetAffinity(mask)) ==> !self@.is_empty() && mask@ == mask_bits(self@),
    {
        self.affinity_call(platform.is_setting_process_affinity_supported, platform.maximum_logical_cores)
    }

    /// Sets a thread's logical core affinity, as far as that can be done without the operating system:
    /// says what is to be asked of `platform`, or why nothing can be.
    ///
    /// An empty set is turned down before anything is asked of the platform.
    /// On a platform that cannot pin a thread, nothing is asked and that is success.
    /// What the operating system answers to the call is the caller's to hand on as it is.
    pub fn set_thread_affinity(&self, platform: &Platform) -> (result: Result<AffinityCall, AffinityError>)
        ensures
            is_affinity_decision(
                self@,
                platform.is_setting_thread_affinity_supported,
                platform.maximum_logical_cores,
                result,
            ),
            self@.is_empty() ==> result == Err::<AffinityCall, AffinityError>(AffinityError::NoLogicalCores),
            !self@.is_empty() && !platform.is_setting_thread_affinity_supported ==> result == Ok::<
                AffinityCall,
                AffinityError,
            >(AffinityCall::Nothing),
            result matches Ok(AffinityCall::SetAffinity(mask)) ==> !self@.is_empty() && mask@ == mask_bits(self@),
    {
        self.affinity_call(platform.is_setting_thread_affinity_supported, platform.maximum_logical_cores)
    }

    /// Sets thread affinity to just the `logical_core_identifier`, as far as that can be done without the operating system:
    /// says what is to be asked of `platform`, or why nothing can be.
    pub fn set_current_thread_affinity_for_only_logical_core(
        logical_core_identifier: LogicalCoreIdentifier,
        platform: &Platform,
    ) -> (result: Result<AffinityCall, AffinityError>)
        ensures
            is_affinity_decision(
                set![logical_core_identifier],
                platform.is_setting_thread_affinity_supported,
                platform.maximum_logical_cores,
                result,
            ),
            !(result matches Err(AffinityError::NoLogicalCores)),
    {
        let logical_cores = Self::from(logical_core_identifier);
        assert(logical_cores@.contains(logical_core_identifier));
        logical_cores.set_thread_affinity(platform)
    }

    /// The number of logical cores in this set.
    pub fn len(&self) -> (len: usize)
        ensures
            len == self@.len(),
            self@.finite(),
    {
        broadcast use vstd::std_specs::btree::group_btree_axioms;

        assert(self@.finite()) by {
            assert(spec_btree_keys_iter(&self.0).remaining().unref().to_set() == self@);
        }
        self.0.len()
    }

    /// Whether this set holds no logical core at all.
    pub fn is_empty(&self) -> (empty: bool)
        ensures
            empty == self@.is_empty(),
    {
        self.0.is_empty()
    }

    /// Whether `logical_core_identifier` is in this set.
    pub fn contains(&self, logical_core_identifier: &LogicalCoreIdentifier) -> (found: bool)
        ensures
            found == self@.contains(*logical_core_identifier),
    {
        broadcast use vstd::std_specs::btree::group_btree_axioms;

        self.0.contains(logical_core_identifier)
    }
}

/// The affinity mask of the set of some logical cores has bit `bit` set just where `bit` is one of the logical cores,
/// whichever bit of the mask is looked at.
pub proof fn lemma_mask_bit_is_set_just_for_logical_cores(
    logical_core_identifiers: Seq<LogicalCoreIdentifier>,
    logical_cores: Set<LogicalCoreIdentifier>,
    maximum_logical_cores: usize,
    mask: CpuMask,
    bit: int,
)
    requires
        logical_core_identifiers.len() > 0,
        logical_cores == logical_core_identifiers.to_set(),
        is_platform_mask(logical_cores, maximum_logical_cores, Ok(mask)),
        0 <= bit < maximum_logical_cores,
    ensures
        mask.has_bit(bit) <==> exists|at: int|
            0 <= at < logical_core_identifiers.len() && #[trigger] logical_core_identifiers[at] == bit,
{
    assert(mask.has_bit(bit) <==> mask@.contains(bit));
    if mask.has_bit(bit) {
        assert(mask_bits(logical_cores).contains(bit));
        assert(logical_core_identifiers.contains(bit as LogicalCoreIdentifier));
        let at = choose|at: int|
            0 <= at < logical_core_identifiers.len() && logical_core_identifiers[at] == bit as LogicalCoreIdentifier;
        assert(logical_core_identifiers[at] == bit);
    }
    if exists|at: int| 0 <= at < logical_core_identifiers.len() && #[trigger] logical_core_identifiers[at] == bit {
        let at = choose|at: int| 0 <= at < logical_core_identifiers.len() && #[trigger] logical_core_identifiers[at] == bit;
        assert(logical_core_identifiers.contains(logical_core_identifiers[at]));
        assert(mask_bits(logical_cores).contains(bit));
    }
}

/// A set of logical cores has an affinity mask on a platform just where each of them has a bit in the platform's mask.
pub proof fn lemma_platform_mask_is_owed(
    logical_cores: Set<LogicalCoreIdentifier>,
    maximum_logical_cores: usize,
    result: Result<CpuMask, AffinityError>,
)
    requires
        is_platform_mask(logical_cores, maximum_logical_cores, result),
    ensures
        result is Ok <==> forall|logical_core_identifier: LogicalCoreIdentifier|
            logical_cores.contains(logical_core_identifier) ==> logical_core_identifier < maximum_logical_cores,
{
}

impl Clone for LogicalCores {
    fn clone(&self) -> (logical_cores: Self)
        ensures
            logical_cores@ == self@,
    {
        LogicalCores(self.0.clone())
    }
}

impl std::ops::Deref for LogicalCores {
    type Target = BTreeSet<LogicalCoreIdentifier>;

    fn deref(&self) -> (logical_cores: &BTreeSet<LogicalCoreIdentifier>)
        ensures
            logical_cores@ == self@,
    {
        &self.0
    }
}

impl std::ops::DerefMut for LogicalCores {
    fn deref_mut(&mut self) -> (logical_cores: &mut BTreeSet<LogicalCoreIdentifier>)
        ensures
            logical_cores@ == old(self)@,
            final(self)@ == final(logical_cores)@,
    {
        &mut self.0
    }
}

impl AsRef<BTreeSet<LogicalCoreIdentifier>> for LogicalCores {
    fn as_ref(&self) -> (logical_cores: &BTreeSet<LogicalCoreIdentifier>)
        ensures
            logical_cores@ == self@,
    {
        &self.0
    }
}

impl AsMut<BTreeSet<LogicalCoreIdentifier>> for LogicalCores {
    fn as_mut(&mut self) -> (logical_cores: &mut BTreeSet<LogicalCoreIdentifier>)
        ensures
            logical_cores@ == old(self)@,
            final(self)@ == final(logical_cores)@,
    {
        &mut self.0
    }
}

impl std::borrow::Borrow<BTreeSet<LogicalCoreIdentifier>> for LogicalCores {
    fn borrow(&self) -> (logical_cores: &BTreeSet<LogicalCoreIdentifier>)
        ensures
            ({
                let borrowed: &BTreeSet<LogicalCoreIdentifier> = logical_cores;
                borrowed@ == self@
            }),
    {
        &self.0
    }
}

impl std::borrow::BorrowMut<BTreeSet<LogicalCoreIdentifier>> for LogicalCores {
    fn borrow_mut(&mut self) -> (logical_cores: &mut BTreeSet<LogicalCoreIdentifier>)
        ensures
            ({
                let borrowed: &mut BTreeSet<LogicalCoreIdentifier> = logical_cores;
                borrowed@ == old(self)@ && final(self)@ == final(borrowed)@
            }),
    {
        &mut self.0
    }
}

impl vstd::std_specs::convert::IntoSpecImpl<BTreeSet<LogicalCoreIdentifier>> for LogicalCores {
    open spec fn obeys_into_spec() -> bool {
        true
    }

    closed spec fn into_spec(self) -> BTreeSet<LogicalCoreIdentifier> {
        self.0
    }
}

impl Into<BTreeSet<LogicalCoreIdentifier>> for LogicalCores {
    fn into(self) -> (logical_cores: BTreeSet<LogicalCoreIdentifier>)
        ensures
            ({
                let converted: BTreeSet<LogicalCoreIdentifier> = logical_cores;
                converted@ == self@
            }),
    {
        self.0
    }
}

impl vstd::std_specs::convert::FromSpecImpl<LogicalCoreIdentifier> for LogicalCores {
    open spec fn obeys_from_spec() -> bool {
        false
    }

    open spec fn from_spec(core_index: LogicalCoreIdentifier) -> Self {
        arbitrary()
    }
}

impl From<LogicalCoreIdentifier> for LogicalCores {
    /// The set of the one logical core `core_index`.
    fn from(core_index: LogicalCoreIdentifier) -> (logical_cores: Self)
        ensures
            logical_cores@ == set![core_index],
    {
        broadcast use vstd::std_specs::btree::group_btree_axioms;

        let mut logical_cores = BTreeSet::new();
        logical_cores.insert(core_index);
        LogicalCores(logical_cores)
    }
}

impl vstd::std_specs::convert::FromSpecImpl<BTreeSet<LogicalCoreIdentifier>> for LogicalCores {
    open spec fn obeys_from_spec() -> bool {
        true
    }

    closed spec fn from_spec(logical_cores: BTreeSet<LogicalCoreIdentifier>) -> Self {
        LogicalCores(logical_cores)
    }
}

impl From<BTreeSet<LogicalCoreIdentifier>> for LogicalCores {
    /// The set of the logical cores in `logical_cores`, which may be empty.
    fn from(logical_cores: BTreeSet<LogicalCoreIdentifier>) -> (result: Self)
        ensures
            result@ == logical_cores@,
    {
        LogicalCores(logical_cores)
    }
}

} // verus!
