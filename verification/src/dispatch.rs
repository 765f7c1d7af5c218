//! Work-group counts for passes that run one unit of work per agent.

use vstd::prelude::*;

verus! {

/// Number of agents that one work group handles in the agent passes.
pub const AGENT_GROUP_SIZE: u32 = 8;

/// The least number of groups of `group_size` that together hold `count`.
pub open spec fn spec_group_count(count: int, group_size: int) -> int {
    (count + group_size - 1) / group_size
}

/// Groups needed so that every one of `count` work items falls in a group.
pub fn group_count(count: u32, group_size: u32) -> (groups: u32)
    requires
        group_size > 0,
    ensures
        groups == spec_group_count(count as int, group_size as int),
        groups * group_size >= count,
        count > 0 ==> (groups - 1) * group_size < count,
        count == 0 ==> groups == 0,
{
    let whole: u32 = count / group_size;
    let rest: u32 = count % group_size;
    proof {
        lemma_group_count(count as int, group_size as int);
    }
    if rest == 0 {
        whole
    } else {
        whole + 1
    }
}

/// Rounding the quotient up is the quotient plus one exactly when a rest is left.
pub proof fn lemma_group_count(count: int, group_size: int)
    by (nonlinear_arith)
    requires
        count >= 0,
        group_size > 0,
    ensures
        spec_group_count(count, group_size) == count / group_size + (if count % group_size == 0 {
            0int
        } else {
            1int
        }),
        spec_group_count(count, group_size) * group_size >= count,
        count > 0 ==> (spec_group_count(count, group_size) - 1) * group_size < count,
        (count / group_size) * group_size + count % group_size == count,
        count / group_size <= count,
        count % group_size != 0 ==> count / group_size < count,
{
}

} // verus!
