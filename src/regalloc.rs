use vstd::prelude::*;
use std::collections::HashSet;
use crate::error::{Error, ErrorKind};
use crate::host::{HostReg, Width, GPR_COUNT, RAX, RCX, RDX, RSI, RDI, R8, R9, R10, R11};

verus! {

broadcast use vstd::std_specs::hash::group_hash_axioms;

/// Number of registers in the scratch pool.
pub const POOL_SIZE: usize = 9;

/// The caller-saved registers that the allocator hands out, in order of preference.
pub open spec fn pool() -> Seq<u8> {
    seq![RAX, RCX, RDX, RSI, RDI, R8, R9, R10, R11]
}

/// The first register of the pool, from position `i` on, that is not in `used`.
pub open spec fn first_free_from(used: Set<u8>, i: nat) -> Option<u8>
    decreases POOL_SIZE - i,
{
    if i >= POOL_SIZE {
        None
    } else if !used.contains(pool()[i as int]) {
        Some(pool()[i as int])
    } else {
        first_free_from(used, i + 1)
    }
}

/// The register that `get_free` hands out when the registers in `used` are taken.
pub open spec fn first_free(used: Set<u8>) -> Option<u8> {
    first_free_from(used, 0)
}

/// The set of taken registers after `k` successive requests starting from `used`,
/// or `None` if one of them fails.
pub open spec fn after_requests(used: Set<u8>, k: nat) -> Option<Set<u8>>
    decreases k,
{
    if k == 0 {
        Some(used)
    } else {
        match first_free(used) {
            None => None,
            Some(r) => after_requests(used.insert(r), (k - 1) as nat),
        }
    }
}

/// Number of pool registers from position `i` on that are not in `used`.
pub open spec fn free_count_from(used: Set<u8>, i: nat) -> nat
    decreases POOL_SIZE - i,
{
    if i >= POOL_SIZE {
        0
    } else {
        (if used.contains(pool()[i as int]) { 0nat } else { 1nat }) + free_count_from(used, i + 1)
    }
}

fn pool_at(i: usize) -> (r: u8)
    requires
        i < POOL_SIZE,
    ensures
        r == pool()[i as int],
        r < GPR_COUNT,
{
    match i {
        0 => RAX,
        1 => RCX,
        2 => RDX,
        3 => RSI,
        4 => RDI,
        5 => R8,
        6 => R9,
        7 => R10,
        _ => R11,
    }
}

/// The scratch registers taken during the emission of one guest instruction, by
/// physical register number.
pub struct RegistersHandler {
    used_registers: HashSet<u8>,
}

impl View for RegistersHandler {
    type V = Set<u8>;

    /// The physical registers that are taken.
    closed spec fn view(&self) -> Set<u8> {
        self.used_registers@
    }
}

impl RegistersHandler {
    /// A handler with every register free.
    pub fn new() -> (r: RegistersHandler)
        ensures
            r@ == Set::<u8>::empty(),
    {
        RegistersHandler { used_registers: HashSet::new() }
    }

    /// Marks the physical register of `reg`, at every width, as taken.
    pub fn reserve(&mut self, reg: HostReg)
        ensures
            final(self)@ == old(self)@.insert(reg.num),
    {
        let full = reg.full_register();
        self.used_registers.insert(full.num);
    }

    /// Takes the first free register of the pool where one is known to be free.
    pub fn take(&mut self) -> (r: HostReg)
        requires
            first_free(old(self)@) is Some,
        ensures
            r == HostReg::full_of(first_free(old(self)@)->Some_0),
            final(self)@ == old(self)@.insert(r.num),
            r.wf(),
    {
        proof {
            lemma_handed_out_was_free(old(self)@);
            lemma_pool_distinct();
        }
        match self.get_free() {
            Ok(r) => r,
            Err(_) => vstd::pervasive::unreached(),
        }
    }

    /// Takes the first free register of the pool, in its 64-bit view.
    pub fn get_free(&mut self) -> (r: Result<HostReg, Error>)
        ensures
            match first_free(old(self)@) {
                Some(n) => r == Ok::<HostReg, Error>(HostReg::full_of(n))
                    && final(self)@ == old(self)@.insert(n),
                None => r is Err && r->Err_0.kind == ErrorKind::Exhausted
                    && final(self)@ == old(self)@,
            },
    {
        let mut i: usize = 0;
        while i < POOL_SIZE
            invariant
                self@ == old(self)@,
                i <= POOL_SIZE,
                first_free(self@) == first_free_from(self@, i as nat),
            decreases POOL_SIZE - i,
        {
            let register = pool_at(i);
            if !self.used_registers.contains(&register) {
                self.used_registers.insert(register);
                return Ok(HostReg::gpr64(register));
            }
            i = i + 1;
        }
        Err(Error::with_kind(ErrorKind::Exhausted, "No free registers remaining".to_owned()))
    }
}

proof fn lemma_pool_distinct()
    ensures
        forall|j: int, k: int| 0 <= j < k < POOL_SIZE ==> pool()[j] != pool()[k],
        forall|j: int| 0 <= j < POOL_SIZE ==> pool()[j] < GPR_COUNT,
{
    assert(pool()[0] == RAX && pool()[1] == RCX && pool()[2] == RDX && pool()[3] == RSI);
    assert(pool()[4] == RDI && pool()[5] == R8 && pool()[6] == R9 && pool()[7] == R10);
    assert(pool()[8] == R11);
}

proof fn lemma_count_insert_other(used: Set<u8>, r: u8, i: nat)
    requires
        i <= POOL_SIZE,
        forall|j: int| i <= j < POOL_SIZE ==> pool()[j] != r,
    ensures
        free_count_from(used.insert(r), i) == free_count_from(used, i),
    decreases POOL_SIZE - i,
{
    if i < POOL_SIZE {
        lemma_count_insert_other(used, r, i + 1);
    }
}

proof fn lemma_first_free_from(used: Set<u8>, i: nat)
    requires
        i <= POOL_SIZE,
    ensures
        first_free_from(used, i) is None <==> free_count_from(used, i) == 0,
        free_count_from(used, i) <= POOL_SIZE - i,
        first_free_from(used, i) matches Some(r) ==> {
            &&& !used.contains(r)
            &&& free_count_from(used.insert(r), i) + 1 == free_count_from(used, i)
        },
    decreases POOL_SIZE - i,
{
    lemma_pool_distinct();
    if i < POOL_SIZE {
        lemma_first_free_from(used, i + 1);
        let p = pool()[i as int];
        if !used.contains(p) {
            lemma_count_insert_other(used, p, i + 1);
            assert(used.insert(p).contains(p));
        } else if let Some(r) = first_free_from(used, i + 1) {
            assert(used.insert(r).contains(p));
        }
    }
}

/// The first requests of an emission, for the registers that come first in the pool.
pub proof fn lemma_first_free_small(used: Set<u8>)
    ensures
        !used.contains(RAX) ==> first_free(used) == Some(RAX),
        used.contains(RAX) && !used.contains(RCX) ==> first_free(used) == Some(RCX),
        used.contains(RAX) && used.contains(RCX) && !used.contains(RDX) ==> first_free(used)
            == Some(RDX),
{
    lemma_pool_distinct();
    reveal_with_fuel(first_free_from, 4);
}

/// A register handed out by a request is one that was free before it.
pub proof fn lemma_handed_out_was_free(used: Set<u8>)
    ensures
        first_free(used) matches Some(r) ==> !used.contains(r) && pool().contains(r),
{
    lemma_first_free_from(used, 0);
    lemma_first_free_in_pool(used, 0);
}

proof fn lemma_first_free_in_pool(used: Set<u8>, i: nat)
    requires
        i <= POOL_SIZE,
    ensures
        first_free_from(used, i) matches Some(r) ==> pool().contains(r),
    decreases POOL_SIZE - i,
{
    if i < POOL_SIZE {
        lemma_first_free_in_pool(used, i + 1);
        if !used.contains(pool()[i as int]) {
            assert(pool()[i as int] == pool()[i as int]);
        }
    }
}

/// Requests beyond the number of free pool registers fail: in particular, from any
/// state, more than `POOL_SIZE` successive requests never all succeed.
pub proof fn lemma_requests_beyond_pool_fail(used: Set<u8>, k: nat)
    requires
        k > POOL_SIZE,
    ensures
        after_requests(used, k) is None,
{
    lemma_requests_beyond_free_fail(used, k);
    lemma_first_free_from(used, 0);
}

proof fn lemma_requests_beyond_free_fail(used: Set<u8>, k: nat)
    ensures
        k > free_count_from(used, 0) ==> after_requests(used, k) is None,
    decreases k,
{
    lemma_first_free_from(used, 0);
    if k > 0 {
        if let Some(r) = first_free(used) {
            lemma_requests_beyond_free_fail(used.insert(r), (k - 1) as nat);
        }
    }
}

/// From a fresh handler exactly `POOL_SIZE` requests succeed.
pub proof fn lemma_fresh_pool_serves_pool_size()
    ensures
        after_requests(Set::<u8>::empty(), POOL_SIZE as nat) is Some,
        after_requests(Set::<u8>::empty(), (POOL_SIZE + 1) as nat) is None,
{
    lemma_pool_distinct();
    let mut s = Set::<u8>::empty();
    assert(free_count_from(s, 0) == 9) by {
        reveal_with_fuel(free_count_from, 10);
    }
    lemma_requests_succeed_while_free(s, 9);
    lemma_requests_beyond_pool_fail(s, 10);
}

proof fn lemma_requests_succeed_while_free(used: Set<u8>, k: nat)
    ensures
        k <= free_count_from(used, 0) ==> after_requests(used, k) is Some,
    decreases k,
{
    lemma_first_free_from(used, 0);
    if k > 0 && k <= free_count_from(used, 0) {
        let r = first_free(used)->Some_0;
        lemma_requests_succeed_while_free(used.insert(r), (k - 1) as nat);
    }
}

/// A register that was reserved is never handed out by the next request.
pub proof fn lemma_reserved_never_handed_out(used: Set<u8>, reg: HostReg)
    ensures
        first_free(used.insert(reg.num)) matches Some(r) ==> r != reg.num,
{
    lemma_handed_out_was_free(used.insert(reg.num));
}

/// Two successive requests in one emission hand out different registers.
pub proof fn lemma_successive_requests_differ(used: Set<u8>)
    ensures
        first_free(used) matches Some(r1) ==> (first_free(used.insert(r1)) matches Some(r2)
            ==> r1 != r2),
{
    lemma_handed_out_was_free(used);
    if let Some(r1) = first_free(used) {
        lemma_handed_out_was_free(used.insert(r1));
    }
}

} // verus!
