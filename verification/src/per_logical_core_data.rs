use crate::logical_core_identifier::lemma_at_most_every_logical_core;
use crate::logical_core_identifier::LogicalCoreIdentifier;
use crate::logical_core_identifier::MAXIMUM_NUMBER_OF_LOGICAL_CORES;
use crate::logical_cores::is_ascending;
use crate::logical_cores::LogicalCores;
use vstd::prelude::*;

verus! {

/// What `slots` hold for the logical core `logical_core_identifier`; nothing where there is no slot for it.
pub open spec fn slot<PerLogicalCore>(
    slots: Seq<Option<PerLogicalCore>>,
    logical_core_identifier: LogicalCoreIdentifier,
) -> Option<PerLogicalCore> {
    if logical_core_identifier < slots.len() {
        slots[logical_core_identifier as int]
    } else {
        None
    }
}

/// The slots once the logical core `logical_core_identifier` has been given `value`; it must have a slot.
pub open spec fn after_set<PerLogicalCore>(
    slots: Seq<Option<PerLogicalCore>>,
    logical_core_identifier: LogicalCoreIdentifier,
    value: PerLogicalCore,
) -> Seq<Option<PerLogicalCore>> {
    slots.update(logical_core_identifier as int, Some(value))
}

/// The slots once the data of the logical core `logical_core_identifier` has been taken out: its slot, if it has one, is empty.
pub open spec fn after_take<PerLogicalCore>(
    slots: Seq<Option<PerLogicalCore>>,
    logical_core_identifier: LogicalCoreIdentifier,
) -> Seq<Option<PerLogicalCore>> {
    if logical_core_identifier < slots.len() {
        slots.update(logical_core_identifier as int, None)
    } else {
        slots
    }
}

/// The slots once each of `logical_core_identifiers` in turn has been given what `value` holds for it.
pub open spec fn after_set_each<PerLogicalCore>(
    slots: Seq<Option<PerLogicalCore>>,
    logical_core_identifiers: Seq<LogicalCoreIdentifier>,
    value: spec_fn(LogicalCoreIdentifier) -> PerLogicalCore,
) -> Seq<Option<PerLogicalCore>>
    decreases logical_core_identifiers.len(),
{
    if logical_core_identifiers.len() == 0 {
        slots
    } else {
        after_set(
            after_set_each(slots, logical_core_identifiers.drop_last(), value),
            logical_core_identifiers.last(),
            value(logical_core_identifiers.last()),
        )
    }
}

/// Whether `length` slots reach just as far as the highest logical core of `logical_cores`:
/// every logical core has a slot, and the last slot is a logical core's.
pub open spec fn reaches_highest(logical_cores: Set<LogicalCoreIdentifier>, length: nat) -> bool {
    &&& forall|logical_core_identifier: LogicalCoreIdentifier|
        logical_cores.contains(logical_core_identifier) ==> logical_core_identifier < length
    &&& length > 0 ==> length <= 65536 && logical_cores.contains((length - 1) as LogicalCoreIdentifier)
}

/// Whether `slot` is what `constructor` makes of the slot of `logical_core_identifier`, given the `logical_cores` to make data for:
/// a value that `constructor` can return for a logical core among them, and nothing for any other.
pub open spec fn is_constructed<PerLogicalCore, Constructor: FnMut(LogicalCoreIdentifier) -> PerLogicalCore>(
    constructor: Constructor,
    logical_cores: Set<LogicalCoreIdentifier>,
    logical_core_identifier: LogicalCoreIdentifier,
    slot: Option<PerLogicalCore>,
) -> bool {
    if logical_cores.contains(logical_core_identifier) {
        slot matches Some(value) && call_ensures(constructor, (logical_core_identifier,), value)
    } else {
        slot is None
    }
}

/// Whether `indices` are the logical cores that `slots` hold data for, from the lowest to the highest.
///
/// There is one such sequence for any slots.
pub open spec fn is_populated_indices<PerLogicalCore>(
    slots: Seq<Option<PerLogicalCore>>,
    indices: Seq<LogicalCoreIdentifier>,
) -> bool {
    &&& is_ascending(indices)
    &&& forall|logical_core_identifier: LogicalCoreIdentifier|
        indices.contains(logical_core_identifier) <==> slot(slots, logical_core_identifier) is Some
}

/// Whether `after` is what `mapper` makes of the slot `before` of `logical_core_identifier`:
/// nothing of an empty slot, and of data a value that `mapper` can return for the logical core and the data.
pub open spec fn is_mapped<PerLogicalCore, V, Mapper: FnMut(LogicalCoreIdentifier, PerLogicalCore) -> V>(
    mapper: Mapper,
    logical_core_identifier: LogicalCoreIdentifier,
    before: Option<PerLogicalCore>,
    after: Option<V>,
) -> bool {
    match before {
        None => after is None,
        Some(value) => after matches Some(mapped) && call_ensures(mapper, (logical_core_identifier, value), mapped),
    }
}

/// Data with an item per logical core in use by the process.
///
/// The slot at index `i` is that of logical core `i`; a slot may be empty.
#[derive(Debug, PartialEq, Eq, PartialOrd, Ord, Hash)]
pub struct PerLogicalCoreData<PerLogicalCore> {
    logical_cores_data: Vec<Option<PerLogicalCore>>,
}

impl<PerLogicalCore> View for PerLogicalCoreData<PerLogicalCore> {
    type V = Seq<Option<PerLogicalCore>>;

    /// The slots, that of logical core 0 first.
    closed spec fn view(&self) -> Seq<Option<PerLogicalCore>> {
        self.logical_cores_data@
    }
}

impl<PerLogicalCore: Clone> Clone for PerLogicalCoreData<PerLogicalCore> {
    /// A copy with as many slots, each a clone of the slot it stands for.
    fn clone(&self) -> (data: Self)
        ensures
            data@.len() == self@.len(),
            forall|i: int| 0 <= i < self@.len() ==> cloned(self@[i], #[trigger] data@[i]),
    {
        proof {
            use_type_invariant(self);
        }
        PerLogicalCoreData { logical_cores_data: self.logical_cores_data.clone() }
    }
}

impl<PerLogicalCore> std::ops::Deref for PerLogicalCoreData<PerLogicalCore> {
    type Target = [Option<PerLogicalCore>];

    fn deref(&self) -> (slots: &[Option<PerLogicalCore>])
        ensures
            slots@ == self@,
    {
        self.logical_cores_data.as_slice()
    }
}

impl<PerLogicalCore> vstd::std_specs::core::IndexSpecImpl<LogicalCoreIdentifier> for PerLogicalCoreData<PerLogicalCore> {
    open spec fn index_req(&self, index: &LogicalCoreIdentifier) -> bool {
        *index < self@.len()
    }
}

impl<PerLogicalCore> std::ops::Index<LogicalCoreIdentifier> for PerLogicalCoreData<PerLogicalCore> {
    type Output = Option<PerLogicalCore>;

    fn index(&self, index: LogicalCoreIdentifier) -> (data: &Option<PerLogicalCore>)
        ensures
            *data == self@[index as int],
    {
        &self.logical_cores_data[index as usize]
    }
}

impl<PerLogicalCore> PerLogicalCoreData<PerLogicalCore> {
    #[verifier::type_invariant]
    spec fn well_formed(&self) -> bool {
        self.logical_cores_data@.len() <= MAXIMUM_NUMBER_OF_LOGICAL_CORES
    }

    /// The number of slots. No slot is beyond the reach of a [`LogicalCoreIdentifier`].
    pub fn len(&self) -> (len: usize)
        ensures
            len == self@.len(),
            len <= MAXIMUM_NUMBER_OF_LOGICAL_CORES,
    {
        proof {
            use_type_invariant(self);
        }
        self.logical_cores_data.len()
    }

    /// Creates an empty set of logical core data: as many slots as there are logical cores in `logical_cores`, all empty.
    pub fn empty(logical_cores: &LogicalCores) -> (data: Self)
        requires
            !logical_cores@.is_empty(),
        ensures
            data@ == Seq::new(logical_cores@.len(), |i: int| None::<PerLogicalCore>),
    {
        let number_of_logical_cores: usize = logical_cores.len();
        proof {
            lemma_at_most_every_logical_core(logical_cores@);
        }

        let mut logical_cores_data: Vec<Option<PerLogicalCore>> = Vec::with_capacity(number_of_logical_cores);
        let mut logical_core_index: usize = 0;
        while logical_core_index < number_of_logical_cores
            invariant
                logical_core_index <= number_of_logical_cores,
                logical_cores_data@.len() == logical_core_index,
                forall|i: int| 0 <= i < logical_core_index ==> logical_cores_data@[i] is None,
            decreases number_of_logical_cores - logical_core_index,
        {
            logical_cores_data.push(None);
            logical_core_index += 1;
        }

        assert(logical_cores_data@ =~= Seq::new(logical_cores@.len(), |i: int| None::<PerLogicalCore>));
        PerLogicalCoreData { logical_cores_data }
    }

    /// Creates logical core data with a slot for every logical core up to the highest of `logical_cores`.
    ///
    /// `constructor` is called for each logical core in `logical_cores`, in ascending order; it is passed the logical core's identifier.
    /// The slot of a logical core that is not in `logical_cores` is left empty.
    pub fn new<Constructor: FnMut(LogicalCoreIdentifier) -> PerLogicalCore>(
        logical_cores: &LogicalCores,
        constructor: Constructor,
    ) -> (data: Self)
        requires
            !logical_cores@.is_empty(),
            forall|logical_core_identifier: LogicalCoreIdentifier|
                logical_cores@.contains(logical_core_identifier) ==> call_requires(
                    constructor,
                    (logical_core_identifier,),
                ),
        ensures
            reaches_highest(logical_cores@, data@.len()),
            forall|logical_core_identifier: LogicalCoreIdentifier|
                logical_core_identifier < data@.len() ==> is_constructed(
                    constructor,
                    logical_cores@,
                    logical_core_identifier,
                    #[trigger] data@[logical_core_identifier as int],
                ),
    {
        Self::new_internal(logical_cores, constructor)
    }

    fn new_internal<Constructor: FnMut(LogicalCoreIdentifier) -> PerLogicalCore>(
        logical_cores: &LogicalCores,
        mut constructor: Constructor,
    ) -> (data: Self)
        requires
            !logical_cores@.is_empty(),
            forall|logical_core_identifier: LogicalCoreIdentifier|
                logical_cores@.contains(logical_core_identifier) ==> call_requires(
                    constructor,
                    (logical_core_identifier,),
                ),
        ensures
            reaches_highest(logical_cores@, data@.len()),
            forall|logical_core_identifier: LogicalCoreIdentifier|
                logical_core_identifier < data@.len() ==> is_constructed(
                    constructor,
                    logical_cores@,
                    logical_core_identifier,
                    #[trigger] data@[logical_core_identifier as int],
                ),
    {
        let number_of_logical_cores: usize = logical_cores.len();

        // The highest logical core may lie beyond the number of logical cores, so the data may still grow past this capacity.
        let mut logical_cores_data: Vec<Option<PerLogicalCore>> = Vec::with_capacity(number_of_logical_cores);
        let mut current_logical_core: usize = 0;
        let ghost initial_constructor = constructor;
        let ghost ascending = logical_cores.ascending();
        let iter = logical_cores.iter_ascending();
        for logical_core_identifier_reference in it: iter
            invariant
                it.seq().unref() == ascending,
                is_ascending(ascending),
                ascending.to_set() == logical_cores@,
                constructor == initial_constructor,
                forall|logical_core_identifier: LogicalCoreIdentifier|
                    logical_cores@.contains(logical_core_identifier) ==> call_requires(
                        constructor,
                        (logical_core_identifier,),
                    ),
                logical_cores_data@.len() == current_logical_core,
                it.index() == 0 ==> current_logical_core == 0,
                it.index() > 0 ==> current_logical_core == ascending[it.index() - 1] + 1,
                forall|logical_core_identifier: LogicalCoreIdentifier|
                    logical_core_identifier < current_logical_core ==> is_constructed(
                        constructor,
                        logical_cores@,
                        logical_core_identifier,
                        #[trigger] logical_cores_data@[logical_core_identifier as int],
                    ),
        {
            let logical_core_identifier: LogicalCoreIdentifier = *logical_core_identifier_reference;
            assert(logical_core_identifier == ascending[it.index()]);
            assert(ascending.contains(logical_core_identifier));
            assert(logical_cores@.contains(logical_core_identifier));
            assert(current_logical_core <= logical_core_identifier);
            assert forall|skipped: LogicalCoreIdentifier|
                current_logical_core <= skipped < logical_core_identifier implies !logical_cores@.contains(skipped) by {
                if logical_cores@.contains(skipped) {
                    let at = choose|at: int| 0 <= at < ascending.len() && ascending[at] == skipped;
                    if at < it.index() {
                        assert(ascending[at] <= ascending[it.index() - 1]);
                    } else {
                        assert(ascending[it.index()] <= ascending[at]);
                    }
                }
            }

            while current_logical_core < logical_core_identifier as usize
                invariant
                    current_logical_core <= logical_core_identifier,
                    logical_cores_data@.len() == current_logical_core,
                    forall|skipped: LogicalCoreIdentifier|
                        current_logical_core <= skipped < logical_core_identifier ==> !logical_cores@.contains(skipped),
                    forall|logical_core_identifier: LogicalCoreIdentifier|
                        logical_core_identifier < current_logical_core ==> is_constructed(
                            constructor,
                            logical_cores@,
                            logical_core_identifier,
                            #[trigger] logical_cores_data@[logical_core_identifier as int],
                        ),
                decreases logical_core_identifier - current_logical_core,
            {
                logical_cores_data.push(None);
                current_logical_core += 1;
            }
            let value = constructor(logical_core_identifier);
            logical_cores_data.push(Some(value));

            current_logical_core = logical_core_identifier as usize + 1;
        }

        proof {
            assert(ascending.len() > 0) by {
                if ascending.len() == 0 {
                    assert(logical_cores@ =~= Set::empty());
                }
            }
            let highest = ascending[ascending.len() - 1];
            assert(ascending.contains(highest));
            assert forall|logical_core_identifier: LogicalCoreIdentifier|
                logical_cores@.contains(logical_core_identifier) implies logical_core_identifier
                < current_logical_core by {
                assert(ascending.contains(logical_core_identifier));
            }
        }
        PerLogicalCoreData { logical_cores_data }
    }

    /// Gets the data for a particular logical core.
    ///
    /// If the logical core has no slot, or its slot is empty, returns `None`; this is no error.
    pub fn get(&self, logical_core_identifier: LogicalCoreIdentifier) -> (data: Option<&PerLogicalCore>)
        ensures
            data == match slot(self@, logical_core_identifier) {
                Some(value) => Some(&value),
                None => None,
            },
    {
        let logical_core_identifier: usize = logical_core_identifier as usize;
        if logical_core_identifier >= self.logical_cores_data.len() {
            return None;
        }
        self.logical_cores_data[logical_core_identifier].as_ref()
    }

    /// Gets the data for a particular logical core; if there is no data for that core, gets it for the logical core that `default_logical_core_identifier` returns.
    ///
    /// `default_logical_core_identifier` is called only if there is no data for `logical_core_identifier`.
    /// The logical core it returns must have data.
    pub fn get_or<Default: FnOnce() -> LogicalCoreIdentifier>(
        &self,
        logical_core_identifier: LogicalCoreIdentifier,
        default_logical_core_identifier: Default,
    ) -> (data: &PerLogicalCore)
        requires
            slot(self@, logical_core_identifier) is None ==> call_requires(default_logical_core_identifier, ()),
            slot(self@, logical_core_identifier) is None ==> forall|default: LogicalCoreIdentifier|
                #[trigger] call_ensures(default_logical_core_identifier, (), default) ==> slot(self@, default) is Some,
        ensures
            slot(self@, logical_core_identifier) is Some ==> slot(self@, logical_core_identifier) == Some(*data),
            slot(self@, logical_core_identifier) is None ==> exists|default: LogicalCoreIdentifier|
                #[trigger] call_ensures(default_logical_core_identifier, (), default) && slot(self@, default) == Some(
                    *data,
                ),
    {
        let logical_core_identifier: LogicalCoreIdentifier = if self.get(logical_core_identifier).is_none() {
            default_logical_core_identifier()
        } else {
            logical_core_identifier
        };

        self.logical_cores_data[logical_core_identifier as usize].as_ref().unwrap()
    }

    /// Gets the data for a particular logical core; if there is no data for that core, gets it for `current_logical_core`,
    /// the logical core that the calling thread runs on.
    ///
    /// One of the two must have data.
    pub fn get_or_current(
        &self,
        logical_core_identifier: LogicalCoreIdentifier,
        current_logical_core: LogicalCoreIdentifier,
    ) -> (data: &PerLogicalCore)
        requires
            slot(self@, logical_core_identifier) is Some || slot(self@, current_logical_core) is Some,
        ensures
            Some(*data) == if slot(self@, logical_core_identifier) is Some {
                slot(self@, logical_core_identifier)
            } else {
                slot(self@, current_logical_core)
            },
    {
        let default_logical_core_identifier = || -> (default: LogicalCoreIdentifier)
            ensures
                default == current_logical_core,
            { current_logical_core };
        self.get_or(logical_core_identifier, default_logical_core_identifier)
    }

    /// Gets the mutable data for a particular logical core.
    ///
    /// If the logical core has no slot, or its slot is empty, returns `None`; this is no error.
    /// What is written through the reference becomes the data of the logical core; nothing else changes.
    pub fn get_mut(&mut self, logical_core_identifier: LogicalCoreIdentifier) -> (data: Option<&mut PerLogicalCore>)
        ensures
            match data {
                Some(value) => {
                    &&& slot(old(self)@, logical_core_identifier) == Some(*value)
                    &&& final(self)@ == old(self)@.update(logical_core_identifier as int, Some(*final(value)))
                },
                None => {
                    &&& slot(old(self)@, logical_core_identifier) is None
                    &&& final(self)@ == old(self)@
                },
            },
    {
        proof {
            use_type_invariant(&*self);
        }
        let logical_core_identifier: usize = logical_core_identifier as usize;
        if logical_core_identifier >= self.logical_cores_data.len() {
            return None;
        }
        self.logical_cores_data[logical_core_identifier].as_mut()
    }

    /// Gets the mutable data for a particular logical core; if there is no data for that core, gets it for the logical core that `default_logical_core_identifier` returns.
    ///
    /// `default_logical_core_identifier` is called only if there is no data for `logical_core_identifier`.
    /// The logical core it returns must have data.
    /// What is written through the reference becomes the data of the logical core that was settled on; nothing else changes.
    pub fn get_mut_or<Default: FnOnce() -> LogicalCoreIdentifier>(
        &mut self,
        logical_core_identifier: LogicalCoreIdentifier,
        default_logical_core_identifier: Default,
    ) -> (data: &mut PerLogicalCore)
        requires
            slot(old(self)@, logical_core_identifier) is None ==> call_requires(default_logical_core_identifier, ()),
            slot(old(self)@, logical_core_identifier) is None ==> forall|default: LogicalCoreIdentifier|
                #[trigger] call_ensures(default_logical_core_identifier, (), default) ==> slot(old(self)@, default) is Some,
        ensures
            slot(old(self)@, logical_core_identifier) is Some ==> {
                &&& slot(old(self)@, logical_core_identifier) == Some(*data)
                &&& final(self)@ == old(self)@.update(logical_core_identifier as int, Some(*final(data)))
            },
            slot(old(self)@, logical_core_identifier) is None ==> exists|default: LogicalCoreIdentifier|
                {
                    &&& #[trigger] call_ensures(default_logical_core_identifier, (), default)
                    &&& slot(old(self)@, default) == Some(*data)
                    &&& final(self)@ == old(self)@.update(default as int, Some(*final(data)))
                },
    {
        proof {
            use_type_invariant(&*self);
        }
        let logical_core_identifier: LogicalCoreIdentifier = if self.get(logical_core_identifier).is_none() {
            default_logical_core_identifier()
        } else {
            logical_core_identifier
        };

        self.logical_cores_data[logical_core_identifier as usize].as_mut().unwrap()
    }

    /// Gets the mutable data for a particular logical core; if there is no data for that core, gets it for `current_logical_core`,
    /// the logical core that the calling thread runs on.
    ///
    /// One of the two must have data.
    /// What is written through the reference becomes the data of the logical core that was settled on; nothing else changes.
    pub fn get_mut_or_current(
        &mut self,
        logical_core_identifier: LogicalCoreIdentifier,
        current_logical_core: LogicalCoreIdentifier,
    ) -> (data: &mut PerLogicalCore)
        requires
            slot(old(self)@, logical_core_identifier) is Some || slot(old(self)@, current_logical_core) is Some,
        ensures
            ({
                let settled = if slot(old(self)@, logical_core_identifier) is Some {
                    logical_core_identifier
                } else {
                    current_logical_core
                };
                &&& slot(old(self)@, settled) == Some(*data)
                &&& final(self)@ == old(self)@.update(settled as int, Some(*final(data)))
            }),
    {
        let default_logical_core_identifier = || -> (default: LogicalCoreIdentifier)
            ensures
                default == current_logical_core,
            { current_logical_core };
        self.get_mut_or(logical_core_identifier, default_logical_core_identifier)
    }

    /// Sets the current value, discarding the old one.
    ///
    /// The logical core must have a slot.
    pub fn set(&mut self, logical_core_identifier: LogicalCoreIdentifier, value: PerLogicalCore)
        requires
            logical_core_identifier < old(self)@.len(),
        ensures
            final(self)@ == after_set(old(self)@, logical_core_identifier, value),
    {
        proof {
            use_type_invariant(&*self);
        }
        self.logical_cores_data[logical_core_identifier as usize] = Some(value)
    }

    /// Takes the data for a particular logical core, leaving its slot empty.
    ///
    /// If the logical core has no slot, or its slot is empty, returns `None` and changes nothing.
    pub fn take(&mut self, logical_core_identifier: LogicalCoreIdentifier) -> (data: Option<PerLogicalCore>)
        ensures
            data == slot(old(self)@, logical_core_identifier),
            final(self)@ == after_take(old(self)@, logical_core_identifier),
    {
        proof {
            use_type_invariant(&*self);
        }
        if logical_core_identifier as usize >= self.logical_cores_data.len() {
            return None;
        }
        self.logical_cores_data[logical_core_identifier as usize].take()
    }

    /// Replaces the current value, returning the old one.
    ///
    /// The logical core must have a slot.
    pub fn replace(&mut self, logical_core_identifier: LogicalCoreIdentifier, value: PerLogicalCore) -> (data: Option<
        PerLogicalCore,
    >)
        requires
            logical_core_identifier < old(self)@.len(),
        ensures
            data == slot(old(self)@, logical_core_identifier),
            final(self)@ == after_set(old(self)@, logical_core_identifier, value),
    {
        proof {
            use_type_invariant(&*self);
        }
        let data = self.logical_cores_data[logical_core_identifier as usize].take();
        self.logical_cores_data[logical_core_identifier as usize] = Some(value);
        data
    }

    /// The logical cores that have data, from the lowest to the highest.
    pub fn logical_core_indices(&self) -> (indices: Vec<LogicalCoreIdentifier>)
        ensures
            is_populated_indices(self@, indices@),
    {
        proof {
            use_type_invariant(self);
        }
        let number_of_logical_cores: usize = self.logical_cores_data.len();
        let mut indices: Vec<LogicalCoreIdentifier> = Vec::new();
        let mut potential_logical_core_index: usize = 0;
        while potential_logical_core_index < number_of_logical_cores
            invariant
                number_of_logical_cores == self@.len(),
                number_of_logical_cores <= MAXIMUM_NUMBER_OF_LOGICAL_CORES,
                potential_logical_core_index <= number_of_logical_cores,
                is_ascending(indices@),
                forall|at: int| 0 <= at < indices@.len() ==> indices@[at] < potential_logical_core_index,
                forall|logical_core_identifier: LogicalCoreIdentifier|
                    indices@.contains(logical_core_identifier) <==> logical_core_identifier
                        < potential_logical_core_index && slot(self@, logical_core_identifier) is Some,
            decreases number_of_logical_cores - potential_logical_core_index,
        {
            if self.logical_cores_data[potential_logical_core_index].is_some() {
                let ghost before = indices@;
                indices.push(potential_logical_core_index as LogicalCoreIdentifier);
                proof {
                    let pushed = potential_logical_core_index as LogicalCoreIdentifier;
                    assert(indices@[before.len() as int] == pushed);
                    assert forall|logical_core_identifier: LogicalCoreIdentifier|
                        indices@.contains(logical_core_identifier) <==> logical_core_identifier
                            < potential_logical_core_index + 1 && slot(self@, logical_core_identifier) is Some by {
                        if indices@.contains(logical_core_identifier) {
                            let at = choose|at: int| 0 <= at < indices@.len() && indices@[at] == logical_core_identifier;
                            if at < before.len() {
                                assert(before[at] == logical_core_identifier);
                                assert(before.contains(logical_core_identifier));
                            }
                        }
                        if logical_core_identifier < potential_logical_core_index && slot(
                            self@,
                            logical_core_identifier,
                        ) is Some {
                            assert(before.contains(logical_core_identifier));
                            let at = choose|at: int| 0 <= at < before.len() && before[at] == logical_core_identifier;
                            assert(indices@[at] == logical_core_identifier);
                        }
                    }
                }
            }
            potential_logical_core_index += 1;
        }
        indices
    }

    /// Maps the data of every logical core that has any, and leaves the empty slots empty.
    ///
    /// `mapper` is called for each logical core that has data, in ascending order; it is passed the logical core's identifier and the old value.
    pub fn map<V, Mapper: FnMut(LogicalCoreIdentifier, PerLogicalCore) -> V>(self, mut mapper: Mapper) -> (mapped:
        PerLogicalCoreData<V>)
        requires
            forall|logical_core_identifier: LogicalCoreIdentifier, value: PerLogicalCore|
                slot(self@, logical_core_identifier) == Some(value) ==> call_requires(
                    mapper,
                    (logical_core_identifier, value),
                ),
        ensures
            mapped@.len() == self@.len(),
            forall|logical_core_identifier: LogicalCoreIdentifier|
                logical_core_identifier < self@.len() ==> is_mapped(
                    mapper,
                    logical_core_identifier,
                    self@[logical_core_identifier as int],
                    #[trigger] mapped@[logical_core_identifier as int],
                ),
    {
        let number_of_logical_cores: usize = self.len();
        let ghost initial_mapper = mapper;
        let ghost slots = self@;
        let mut remaining = self;

        let mut mapped_logical_cores_data: Vec<Option<V>> = Vec::with_capacity(number_of_logical_cores);

        let mut logical_core_index: usize = 0;
        while logical_core_index < number_of_logical_cores
            invariant
                mapper == initial_mapper,
                number_of_logical_cores == slots.len(),
                number_of_logical_cores <= MAXIMUM_NUMBER_OF_LOGICAL_CORES,
                logical_core_index <= number_of_logical_cores,
                remaining@.len() == slots.len(),
                forall|at: int| logical_core_index <= at < slots.len() ==> remaining@[at] == slots[at],
                forall|logical_core_identifier: LogicalCoreIdentifier, value: PerLogicalCore|
                    slot(slots, logical_core_identifier) == Some(value) ==> call_requires(
                        mapper,
                        (logical_core_identifier, value),
                    ),
                mapped_logical_cores_data@.len() == logical_core_index,
                forall|logical_core_identifier: LogicalCoreIdentifier|
                    logical_core_identifier < logical_core_index ==> is_mapped(
                        mapper,
                        logical_core_identifier,
                        slots[logical_core_identifier as int],
                        #[trigger] mapped_logical_cores_data@[logical_core_identifier as int],
                    ),
            decreases number_of_logical_cores - logical_core_index,
        {
            let v_option: Option<V> = match remaining.take(logical_core_index as LogicalCoreIdentifier) {
                None => None,
                Some(t) => {
                    assert(slot(slots, logical_core_index as LogicalCoreIdentifier) == Some(t));
                    Some(mapper(logical_core_index as LogicalCoreIdentifier, t))
                },
            };
            mapped_logical_cores_data.push(v_option);
            logical_core_index += 1;
        }

        PerLogicalCoreData { logical_cores_data: mapped_logical_cores_data }
    }
}

/// Once the data of a logical core has been taken, there is none to get for it.
pub proof fn lemma_nothing_to_get_after_take<PerLogicalCore>(
    slots: Seq<Option<PerLogicalCore>>,
    logical_core_identifier: LogicalCoreIdentifier,
)
    ensures
        slot(after_take(slots, logical_core_identifier), logical_core_identifier) is None,
{
}

/// Replacing what was set returns it, and leaves the replacement to get:
/// after the logical core was given `first`, replacing its data with `second` returns `first`, and then `second` is what is got for it.
pub proof fn lemma_replace_returns_what_was_set<PerLogicalCore>(
    slots: Seq<Option<PerLogicalCore>>,
    logical_core_identifier: LogicalCoreIdentifier,
    first: PerLogicalCore,
    second: PerLogicalCore,
)
    requires
        logical_core_identifier < slots.len(),
    ensures
        slot(after_set(slots, logical_core_identifier, first), logical_core_identifier) == Some(first),
        slot(
            after_set(after_set(slots, logical_core_identifier, first), logical_core_identifier, second),
            logical_core_identifier,
        ) == Some(second),
{
}

/// Giving data to some logical cores, each of which has a slot, leaves just them with that data:
/// each of them holds what it was given, and every other logical core holds what it held before.
pub proof fn lemma_set_each<PerLogicalCore>(
    slots: Seq<Option<PerLogicalCore>>,
    logical_core_identifiers: Seq<LogicalCoreIdentifier>,
    value: spec_fn(LogicalCoreIdentifier) -> PerLogicalCore,
    logical_core_identifier: LogicalCoreIdentifier,
)
    requires
        forall|at: int| 0 <= at < logical_core_identifiers.len() ==> logical_core_identifiers[at] < slots.len(),
    ensures
        after_set_each(slots, logical_core_identifiers, value).len() == slots.len(),
        slot(after_set_each(slots, logical_core_identifiers, value), logical_core_identifier)
            == if logical_core_identifiers.contains(logical_core_identifier) {
            Some(value(logical_core_identifier))
        } else {
            slot(slots, logical_core_identifier)
        },
    decreases logical_core_identifiers.len(),
{
    if logical_core_identifiers.len() > 0 {
        let earlier = logical_core_identifiers.drop_last();
        let last = logical_core_identifiers.last();
        lemma_set_each(slots, earlier, value, logical_core_identifier);
        if logical_core_identifier != last {
            if logical_core_identifiers.contains(logical_core_identifier) {
                let at = choose|at: int|
                    0 <= at < logical_core_identifiers.len() && logical_core_identifiers[at] == logical_core_identifier;
                assert(earlier[at] == logical_core_identifier);
            }
            if earlier.contains(logical_core_identifier) {
                let at = choose|at: int| 0 <= at < earlier.len() && earlier[at] == logical_core_identifier;
                assert(logical_core_identifiers[at] == logical_core_identifier);
            }
        } else {
            assert(logical_core_identifiers[logical_core_identifiers.len() - 1] == last);
        }
    }
}

/// Empty data for some logical cores, once every one of them has been given its data, holds that data for each of them
/// and nothing for any other logical core.
///
/// This is so where each of the logical cores has a slot in the empty data, which has as many slots as there are logical cores:
/// the logical cores are then `0`, `1`, and so on without a gap.
pub proof fn lemma_empty_then_set_each<PerLogicalCore>(
    logical_cores: Set<LogicalCoreIdentifier>,
    logical_core_identifiers: Seq<LogicalCoreIdentifier>,
    value: spec_fn(LogicalCoreIdentifier) -> PerLogicalCore,
    logical_core_identifier: LogicalCoreIdentifier,
)
    requires
        !logical_cores.is_empty(),
        logical_core_identifiers.to_set() == logical_cores,
        forall|each: LogicalCoreIdentifier| logical_cores.contains(each) ==> each < logical_cores.len(),
    ensures
        slot(
            after_set_each(
                Seq::new(logical_cores.len(), |i: int| None::<PerLogicalCore>),
                logical_core_identifiers,
                value,
            ),
            logical_core_identifier,
        ) == if logical_cores.contains(logical_core_identifier) {
            Some(value(logical_core_identifier))
        } else {
            None
        },
{
    let empty = Seq::new(logical_cores.len(), |i: int| None::<PerLogicalCore>);
    assert forall|at: int| 0 <= at < logical_core_identifiers.len() implies logical_core_identifiers[at]
        < empty.len() by {
        assert(logical_core_identifiers.contains(logical_core_identifiers[at]));
        assert(logical_cores.contains(logical_core_identifiers[at]));
    }
    lemma_set_each(empty, logical_core_identifiers, value, logical_core_identifier);
}

/// Data that is empty in every slot has no logical core with data.
pub proof fn lemma_empty_has_no_populated_indices<PerLogicalCore>(
    number_of_logical_cores: nat,
    indices: Seq<LogicalCoreIdentifier>,
)
    requires
        is_populated_indices(Seq::new(number_of_logical_cores, |i: int| None::<PerLogicalCore>), indices),
    ensures
        indices.len() == 0,
{
    if indices.len() > 0 {
        assert(indices.contains(indices[0]));
    }
}

/// Slots have but one sequence of the logical cores with data, from the lowest to the highest.
pub proof fn lemma_populated_indices_are_unique<PerLogicalCore>(
    slots: Seq<Option<PerLogicalCore>>,
    indices: Seq<LogicalCoreIdentifier>,
    other_indices: Seq<LogicalCoreIdentifier>,
)
    requires
        is_populated_indices(slots, indices),
        is_populated_indices(slots, other_indices),
    ensures
        indices == other_indices,
{
    lemma_ascending_with_same_elements_are_equal(indices, other_indices);
}

proof fn lemma_ascending_with_same_elements_are_equal(
    left: Seq<LogicalCoreIdentifier>,
    right: Seq<LogicalCoreIdentifier>,
)
    requires
        is_ascending(left),
        is_ascending(right),
        forall|logical_core_identifier: LogicalCoreIdentifier|
            left.contains(logical_core_identifier) <==> right.contains(logical_core_identifier),
    ensures
        left == right,
    decreases left.len(),
{
    if left.len() == 0 {
        if right.len() > 0 {
            assert(right.contains(right[0]));
        }
        assert(left =~= right);
    } else {
        let highest = left.last();
        assert(left.contains(highest));
        assert(right.len() > 0);
        let at = choose|at: int| 0 <= at < right.len() && right[at] == highest;
        assert(right.contains(right.last()));
        let back = choose|back: int| 0 <= back < left.len() && left[back] == right.last();
        assert(right.last() == highest);
        assert(at == right.len() - 1);
        let left_rest = left.drop_last();
        let right_rest = right.drop_last();
        assert forall|logical_core_identifier: LogicalCoreIdentifier|
            left_rest.contains(logical_core_identifier) <==> right_rest.contains(logical_core_identifier) by {
            if left_rest.contains(logical_core_identifier) {
                let i = choose|i: int| 0 <= i < left_rest.len() && left_rest[i] == logical_core_identifier;
                assert(left[i] == logical_core_identifier);
                assert(left.contains(logical_core_identifier));
                let j = choose|j: int| 0 <= j < right.len() && right[j] == logical_core_identifier;
                assert(right_rest[j] == logical_core_identifier);
            }
            if right_rest.contains(logical_core_identifier) {
                let j = choose|j: int| 0 <= j < right_rest.len() && right_rest[j] == logical_core_identifier;
                assert(right[j] == logical_core_identifier);
                assert(right.contains(logical_core_identifier));
                let i = choose|i: int| 0 <= i < left.len() && left[i] == logical_core_identifier;
                assert(left_rest[i] == logical_core_identifier);
            }
        }
        lemma_ascending_with_same_elements_are_equal(left_rest, right_rest);
        assert(left =~= left_rest.push(highest));
        assert(right =~= right_rest.push(highest));
    }
}

} // verus!
