//! Sets of CPUs.
use vstd::prelude::*;

verus! {

/// The largest number of CPUs that the scheduler can manage.
pub const CPU_CAPACITY: usize = 64;

/// A set of CPUs, one bit for each of the [`CPU_CAPACITY`] CPUs.
#[derive(Clone, Copy, Debug, PartialEq, Eq, Structural)]
pub struct AxCpuMask {
    bits: u64,
}

impl AxCpuMask {
    /// Whether `cpu_id` is in the set. No CPU beyond the capacity ever is.
    pub closed spec fn has(self, cpu_id: usize) -> bool {
        cpu_id < CPU_CAPACITY && (self.bits >> (cpu_id as u64)) & 1 == 1
    }

    /// The set of all CPUs within the capacity.
    pub closed spec fn all() -> Self {
        AxCpuMask { bits: u64::MAX }
    }

    /// The set that holds `cpu_id` alone.
    pub closed spec fn only(cpu_id: usize) -> Self {
        AxCpuMask { bits: 1u64 << (cpu_id as u64) }
    }

    /// The set without any CPU.
    pub fn new() -> (mask: Self)
        ensures
            forall|cpu_id: usize| !mask.has(cpu_id),
    {
        let mask = AxCpuMask { bits: 0 };
        assert forall|cpu_id: usize| !mask.has(cpu_id) by {
            let i: u64 = cpu_id as u64;
            assert(i < 64 ==> (0u64 >> i) & 1 == 0) by (bit_vector);
        }
        mask
    }

    /// The set of all CPUs within the capacity.
    pub fn full() -> (mask: Self)
        ensures
            mask == AxCpuMask::all(),
            forall|cpu_id: usize| mask.has(cpu_id) <==> cpu_id < CPU_CAPACITY,
    {
        let mask = AxCpuMask { bits: u64::MAX };
        proof {
            all_holds_every_cpu();
            assert forall|cpu_id: usize| mask.has(cpu_id) <==> cpu_id < CPU_CAPACITY by {
                assert(AxCpuMask::all().has(cpu_id) <==> cpu_id < CPU_CAPACITY);
            }
        }
        mask
    }

    /// The set that holds `cpu_id` alone.
    pub fn one_shot(cpu_id: usize) -> (mask: Self)
        requires
            cpu_id < CPU_CAPACITY,
        ensures
            mask == AxCpuMask::only(cpu_id),
            forall|other: usize| mask.has(other) <==> other == cpu_id,
    {
        proof {
            only_holds_its_cpu(cpu_id);
        }
        AxCpuMask { bits: 1u64 << (cpu_id as u64) }
    }

    /// Whether `cpu_id` is in the set.
    pub fn get(&self, cpu_id: usize) -> (present: bool)
        ensures
            present == self.has(cpu_id),
    {
        cpu_id < CPU_CAPACITY && (self.bits >> (cpu_id as u64)) & 1 == 1
    }

    /// Puts `cpu_id` into the set or takes it out.
    pub fn set(&mut self, cpu_id: usize, value: bool)
        requires
            cpu_id < CPU_CAPACITY,
        ensures
            final(self).has(cpu_id) == value,
            forall|other: usize| other != cpu_id ==> final(self).has(other) == old(self).has(other),
    {
        let ghost before = self.bits;
        let bit: u64 = 1u64 << (cpu_id as u64);
        if value {
            self.bits = self.bits | bit;
        } else {
            self.bits = self.bits & !bit;
        }
        let ghost i: u64 = cpu_id as u64;
        assert(((before | (1u64 << i)) >> i) & 1 == 1) by (bit_vector)
            requires
                i < 64,
        ;
        assert(((before & !(1u64 << i)) >> i) & 1 == 0) by (bit_vector)
            requires
                i < 64,
        ;
        assert forall|other: usize| other != cpu_id implies self.has(other) == old(self).has(
            other,
        ) by {
            let j: u64 = other as u64;
            if other < CPU_CAPACITY {
                assert(((before | (1u64 << i)) >> j) & 1 == (before >> j) & 1) by (bit_vector)
                    requires
                        i < 64,
                        j < 64,
                        i != j,
                ;
                assert(((before & !(1u64 << i)) >> j) & 1 == (before >> j) & 1) by (bit_vector)
                    requires
                        i < 64,
                        j < 64,
                        i != j,
                ;
            }
        }
    }

    /// Whether no CPU is in the set.
    pub fn is_empty(&self) -> (empty: bool)
        ensures
            empty <==> (forall|cpu_id: usize| !self.has(cpu_id)),
    {
        let mut cpu_id: usize = 0;
        while cpu_id < CPU_CAPACITY
            invariant
                cpu_id <= CPU_CAPACITY,
                forall|lower: usize| lower < cpu_id ==> !self.has(lower),
            decreases CPU_CAPACITY - cpu_id,
        {
            if self.get(cpu_id) {
                return false;
            }
            cpu_id = cpu_id + 1;
        }
        true
    }
}

/// The full set holds every CPU within the capacity.
pub proof fn all_holds_every_cpu()
    ensures
        forall|cpu_id: usize| AxCpuMask::all().has(cpu_id) <==> cpu_id < CPU_CAPACITY,
{
    assert forall|cpu_id: usize| AxCpuMask::all().has(cpu_id) <==> cpu_id < CPU_CAPACITY by {
        let i: u64 = cpu_id as u64;
        assert(i < 64 ==> (0xffff_ffff_ffff_ffffu64 >> i) & 1 == 1) by (bit_vector);
    }
}

/// The set of one CPU holds that CPU and no other.
pub proof fn only_holds_its_cpu(cpu_id: usize)
    requires
        cpu_id < CPU_CAPACITY,
    ensures
        forall|other: usize| AxCpuMask::only(cpu_id).has(other) <==> other == cpu_id,
{
    assert forall|other: usize| AxCpuMask::only(cpu_id).has(other) <==> other == cpu_id by {
        let i: u64 = cpu_id as u64;
        let j: u64 = other as u64;
        assert(j < 64 ==> (((1u64 << i) >> j) & 1 == 1 <==> i == j)) by (bit_vector)
            requires
                i < 64,
        ;
    }
}

} // verus!
