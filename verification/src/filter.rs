//! The flow-classification filter table: a fixed array of 128 optional
//! filter entries, with duplicate-safe insertion. Two entries are duplicates
//! when their flow identity — addresses, ports, protocol and priority —
//! matches; the target queue is not part of the identity.

use vstd::prelude::*;

verus! {

/// A handle to an installed filter: the index of its table slot.
#[derive(Debug)]
pub struct EnableFilter(usize);

impl EnableFilter {
    pub closed spec fn spec_value(&self) -> usize {
        self.0
    }

    #[verifier::when_used_as_spec(spec_value)]
    pub fn value(&self) -> (r: usize)
        ensures
            r == self.spec_value(),
    {
        self.0
    }
}

#[derive(PartialEq, Eq, Structural, Clone, Copy, Debug)]
pub enum FilterProtocol {
    Tcp,
    Udp,
    Sctp,
    Other,
}

#[derive(PartialEq, Eq, Structural, Clone, Copy, Debug)]
pub enum L5FilterPriority {
    P0,
    P1,
    P2,
    P3,
    P4,
    P5,
    P6,
    P7,
}

#[derive(PartialEq, Eq, Structural, Clone, Copy, Debug)]
pub enum QueueID {
    Q0,
    Q1,
    Q2,
    Q3,
    Q4,
    Q5,
    Q6,
    Q7,
    Q8,
    Q9,
    Q10,
    Q11,
    Q12,
    Q13,
    Q14,
    Q15,
    Q16,
    Q17,
    Q18,
    Q19,
    Q20,
    Q21,
    Q22,
    Q23,
    Q24,
    Q25,
    Q26,
    Q27,
    Q28,
    Q29,
    Q30,
    Q31,
    Q32,
    Q33,
    Q34,
    Q35,
    Q36,
    Q37,
    Q38,
    Q39,
    Q40,
    Q41,
    Q42,
    Q43,
    Q44,
    Q45,
    Q46,
    Q47,
    Q48,
    Q49,
    Q50,
    Q51,
    Q52,
    Q53,
    Q54,
    Q55,
    Q56,
    Q57,
    Q58,
    Q59,
    Q60,
    Q61,
    Q62,
    Q63,
    Q64,
}

/// One flow filter: the 5-tuple of the flow, its priority, and the hardware
/// queue that matching packets are steered to.
#[derive(PartialEq, Eq, Clone, Copy, Debug)]
pub struct FilterParameters {
    pub source_ip: [u8; 4],
    pub dest_ip: [u8; 4],
    pub source_port: u16,
    pub dest_port: u16,
    pub protocol: FilterProtocol,
    pub priority: L5FilterPriority,
    pub qid: QueueID,
}

/// The identity of a filter: everything but the target queue. Two coexisting
/// entries may never share an identity.
pub open spec fn spec_parameters_equal(a: FilterParameters, b: FilterParameters) -> bool {
    &&& a.source_ip == b.source_ip
    &&& a.dest_ip == b.dest_ip
    &&& a.source_port == b.source_port
    &&& a.dest_port == b.dest_port
    &&& a.protocol == b.protocol
    &&& a.priority == b.priority
}

impl FilterParameters {
    pub fn parameters_equal(&self, other: &Self) -> (r: bool)
        ensures
            r == spec_parameters_equal(*self, *other),
    {
        let ips_equal = self.source_ip[0] == other.source_ip[0]
            && self.source_ip[1] == other.source_ip[1]
            && self.source_ip[2] == other.source_ip[2]
            && self.source_ip[3] == other.source_ip[3]
            && self.dest_ip[0] == other.dest_ip[0]
            && self.dest_ip[1] == other.dest_ip[1]
            && self.dest_ip[2] == other.dest_ip[2]
            && self.dest_ip[3] == other.dest_ip[3];
        proof {
            if ips_equal {
                assert(self.source_ip =~= other.source_ip);
                assert(self.dest_ip =~= other.dest_ip);
            }
        }
        ips_equal && self.source_port == other.source_port
            && self.dest_port == other.dest_port && self.protocol == other.protocol
            && self.priority == other.priority
    }
}

#[derive(PartialEq, Eq, Structural, Clone, Copy, Debug)]
pub enum FilterError {
    NoneAvailable,
    IdenticalFilter(usize),
}

/// The slot at `i` holds an entry whose identity matches `f`.
pub open spec fn table_matches_at(
    t: Seq<Option<FilterParameters>>,
    f: FilterParameters,
    i: int,
) -> bool {
    t[i] is Some && spec_parameters_equal(t[i].unwrap(), f)
}

/// What one insertion call does, as a relation between the table before
/// (`pre`), the table after (`post`), the candidate entry and the result:
/// a duplicate anywhere in the table is rejected with the first matching
/// index; otherwise the entry is installed in the first free slot, whose
/// index is returned; a full table is rejected. A rejected call leaves
/// every slot unchanged.
pub open spec fn check_and_add_post(
    pre: Seq<Option<FilterParameters>>,
    post: Seq<Option<FilterParameters>>,
    new_filter: FilterParameters,
    result: Result<EnableFilter, FilterError>,
) -> bool {
    match result {
        Ok(handle) => {
            &&& handle.value() < 128
            &&& pre[handle.value() as int] is None
            &&& forall|k: int| 0 <= k < handle.value() ==> pre[k] is Some
            &&& forall|k: int| 0 <= k < 128 ==> !table_matches_at(pre, new_filter, k)
            &&& post == pre.update(handle.value() as int, Some(new_filter))
        },
        Err(FilterError::IdenticalFilter(idx)) => {
            &&& 0 <= idx < 128
            &&& table_matches_at(pre, new_filter, idx as int)
            &&& forall|k: int| 0 <= k < idx ==> !table_matches_at(pre, new_filter, k)
            &&& post == pre
        },
        Err(FilterError::NoneAvailable) => {
            &&& forall|k: int| 0 <= k < 128 ==> pre[k] is Some
            &&& forall|k: int| 0 <= k < 128 ==> !table_matches_at(pre, new_filter, k)
            &&& post == pre
        },
    }
}

/// Scans the whole table once. If any occupied slot's identity matches
/// `new_filter`, rejects with the index of the first such slot; the full scan
/// guarantees that no duplicate hides behind an early free slot. Otherwise
/// installs `new_filter` in the first free slot seen and returns that index,
/// or rejects when every slot is occupied. A rejected call leaves every slot
/// unchanged.
pub fn check_and_add_filter(
    filters: &mut [Option<FilterParameters>; 128],
    new_filter: FilterParameters,
) -> (result: Result<EnableFilter, FilterError>)
    ensures
        check_and_add_post(old(filters)@, final(filters)@, new_filter, result),
{
    let mut i: usize = 0;
    let mut unused_filter: Option<usize> = None;

    while i < 128
        invariant
            i <= 128,
            *filters == *old(filters),
            forall|k: int|
                0 <= k < i ==> !table_matches_at(old(filters)@, new_filter, k),
            match unused_filter {
                Some(j) => {
                    &&& j < i
                    &&& old(filters)@[j as int] is None
                    &&& forall|k: int| 0 <= k < j ==> old(filters)@[k] is Some
                },
                None => forall|k: int| 0 <= k < i ==> old(filters)@[k] is Some,
            },
        decreases 128 - i,
    {
        match &filters[i] {
            Some(existing) => {
                if existing.parameters_equal(&new_filter) {
                    return Err(FilterError::IdenticalFilter(i));
                }
            },
            None => {
                if unused_filter.is_none() {
                    unused_filter = Some(i);
                }
            },
        }
        i += 1;
    }
    match unused_filter {
        Some(filter_idx) => {
            filters[filter_idx] = Some(new_filter);
            Ok(EnableFilter(filter_idx))
        },
        None => Err(FilterError::NoneAvailable),
    }
}

/// The spec-level shape of one successful insertion: slot `idx` was free
/// before and holds exactly `f` after, and no other slot moved.
pub open spec fn insert_ok(
    pre: Seq<Option<FilterParameters>>,
    f: FilterParameters,
    idx: int,
    post: Seq<Option<FilterParameters>>,
) -> bool {
    &&& 0 <= idx < pre.len()
    &&& pre[idx] is None
    &&& post == pre.update(idx, Some(f))
}

/// Law: a table with a free slot and no entry identity-equal to the
/// candidate accepts the insertion — the result can only be `Ok`, and the
/// entry lands in the first free slot.
pub proof fn lemma_fresh_insert_succeeds(
    pre: Seq<Option<FilterParameters>>,
    post: Seq<Option<FilterParameters>>,
    new_filter: FilterParameters,
    result: Result<EnableFilter, FilterError>,
    free: int,
)
    requires
        pre.len() == 128,
        check_and_add_post(pre, post, new_filter, result),
        0 <= free < 128,
        pre[free] is None,
        forall|k: int| 0 <= k < 128 ==> !table_matches_at(pre, new_filter, k),
    ensures
        result is Ok,
        insert_ok(pre, new_filter, result.unwrap().value() as int, post),
        result.unwrap().value() <= free,
{
    match result {
        Ok(handle) => {
        },
        Err(FilterError::IdenticalFilter(idx)) => {
            assert(table_matches_at(pre, new_filter, idx as int));
        },
        Err(FilterError::NoneAvailable) => {
            assert(pre[free] is Some);
        },
    }
}

/// Law: successive successful insertions land in distinct slots — the first
/// fills its slot, so the second, which needs a free slot, must pick another.
pub proof fn lemma_insert_indices_distinct(
    t0: Seq<Option<FilterParameters>>,
    f1: FilterParameters,
    i1: int,
    t1: Seq<Option<FilterParameters>>,
    f2: FilterParameters,
    i2: int,
    t2: Seq<Option<FilterParameters>>,
)
    requires
        insert_ok(t0, f1, i1, t1),
        insert_ok(t1, f2, i2, t2),
    ensures
        i1 != i2,
{
    assert(t1[i1] is Some);
}

} // verus!
