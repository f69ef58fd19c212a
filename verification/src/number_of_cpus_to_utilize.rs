use vstd::prelude::*;

verus! {

/// Number of logical CPUs to utilize (counting simultaneous multi-threads, also known as hyper-threads).
///
/// `None` asks for as many as the machine allows.
/// `Some(0)` asks for exactly one.
#[derive(Debug, Copy, Clone, PartialEq, Eq, PartialOrd, Ord, Hash)]
pub struct NumberOfCpusToUtilize(pub Option<usize>);

impl Default for NumberOfCpusToUtilize {
    /// The default asks for as many CPUs as the machine allows.
    fn default() -> (request: Self)
        ensures
            request.0 is None,
    {
        NumberOfCpusToUtilize(None)
    }
}

impl NumberOfCpusToUtilize {
    /// The most worker threads that a machine with `number_of_cpus` logical CPUs is given.
    ///
    /// One CPU is held back for work other than the workers', unless the machine reports only one CPU or none at all.
    pub open spec fn number_of_cpus_cap(number_of_cpus: nat) -> nat {
        if number_of_cpus <= 1 {
            1
        } else {
            (number_of_cpus - 1) as nat
        }
    }

    /// The number of worker threads that this request is granted on a machine with `number_of_cpus` logical CPUs.
    pub open spec fn number_of_worker_threads(self, number_of_cpus: nat) -> nat {
        let cap = Self::number_of_cpus_cap(number_of_cpus);
        match self.0 {
            None => cap,
            Some(requested) => if requested == 0 {
                1
            } else if requested <= cap {
                requested as nat
            } else {
                cap
            },
        }
    }

    /// The index of the first core that a worker thread is pinned to.
    ///
    /// A lone worker starts at core 0; several workers start at core 1 and leave core 0 free.
    pub open spec fn first_core_index(self, number_of_cpus: nat) -> nat {
        if self.number_of_worker_threads(number_of_cpus) == 1 {
            0
        } else {
            1
        }
    }

    /// The number of worker threads and the first core index, as a pair.
    pub open spec fn worker_plan(self, number_of_cpus: nat) -> (nat, nat) {
        (self.number_of_worker_threads(number_of_cpus), self.first_core_index(number_of_cpus))
    }

    /// Number of worker threads to start, and the index of the first core to pin them to, on a machine with `number_of_cpus` logical CPUs.
    ///
    /// Every input is answered: a machine that reports no CPU at all is treated as having one.
    pub fn number_of_worker_threads_and_first_core_index_for(&self, number_of_cpus: usize) -> (plan: (usize, usize))
        ensures
            (plan.0 as nat, plan.1 as nat) == self.worker_plan(number_of_cpus as nat),
            plan.0 >= 1,
            plan.1 == 0 || plan.1 == 1,
    {
        let number_of_cpus_cap: usize = if number_of_cpus <= 1 {
            1
        } else {
            number_of_cpus - 1
        };

        let number_of_worker_threads: usize = match self.0 {
            Some(0) => 1,
            Some(maximum) => if maximum <= number_of_cpus_cap {
                maximum
            } else {
                number_of_cpus_cap
            },
            None => number_of_cpus_cap,
        };

        if number_of_worker_threads == 1 {
            (1, 0)
        } else {
            (number_of_worker_threads, 1)
        }
    }

    /// Number of worker threads to start, and the index of the first core to pin them to, on this machine.
    ///
    /// The machine's CPU count is asked for once; whatever it is, the answer is the plan for that count.
    pub fn number_of_worker_threads_and_first_core_index(&self) -> (plan: (usize, usize))
        ensures
            exists|number_of_cpus: nat| (plan.0 as nat, plan.1 as nat) == #[trigger] self.worker_plan(number_of_cpus),
            plan.0 >= 1,
            plan.1 == 0 || plan.1 == 1,
            plan.0 == 1 <==> plan.1 == 0,
            self.0 == Some(0usize) ==> plan == (1usize, 0usize),
            self.0 matches Some(requested) ==> (requested > 0 ==> plan.0 <= requested),
    {
        let number_of_cpus: usize = number_of_cpus();
        let plan = self.number_of_worker_threads_and_first_core_index_for(number_of_cpus);
        assert((plan.0 as nat, plan.1 as nat) == self.worker_plan(number_of_cpus as nat));
        plan
    }
}

/// Asks `num_cpus::get` for the number of logical CPUs available to this process.
///
/// The number depends on the machine, so nothing is claimed of it.
#[verifier::external_body]
pub(crate) fn number_of_cpus() -> (count: usize) {
    num_cpus::get()
}

/// A machine with one logical CPU, or one that reports none, runs a single worker on core 0, whatever was requested.
pub proof fn lemma_single_cpu_runs_one_worker_on_core_zero(request: NumberOfCpusToUtilize, number_of_cpus: nat)
    requires
        number_of_cpus <= 1,
    ensures
        request.worker_plan(number_of_cpus) == (1nat, 0nat),
{
}

/// Whatever is requested of whatever machine, at least one worker runs and never more than the machine's cap;
/// the first core index is 0 for a lone worker and 1 otherwise.
pub proof fn lemma_worker_plan_bounds(request: NumberOfCpusToUtilize, number_of_cpus: nat)
    ensures
        1 <= request.number_of_worker_threads(number_of_cpus) <= NumberOfCpusToUtilize::number_of_cpus_cap(number_of_cpus),
        request.first_core_index(number_of_cpus) == 0 <==> request.number_of_worker_threads(number_of_cpus) == 1,
        request.first_core_index(number_of_cpus) <= 1,
{
}

} // verus!
