//! Groups the differ's per-key operation groups into batches bounded by a
//! size budget. A key's operations are never split across batches: a group
//! whose cost alone exceeds the budget becomes a batch of its own, slightly
//! exceeding the soft target rather than committing a `CreateAsset` without
//! its content.

use vstd::prelude::*;
use crate::model::{op_views, ContentSource, ContentSourceV, OpGroup, Operation, OperationV};

verus! {

/// Cost of one operation in a batch: inline content bytes plus one for the
/// operation record itself.
pub open spec fn op_cost(op: OperationV) -> nat {
    match op {
        OperationV::SetAssetContent { source: ContentSourceV::Inline(c), .. } => 1 + c.len(),
        _ => 1,
    }
}

pub open spec fn ops_cost(s: Seq<OperationV>) -> nat
    decreases s.len(),
{
    if s.len() == 0 {
        0
    } else {
        op_cost(s[0]) + ops_cost(s.drop_first())
    }
}

pub open spec fn group_cost(g: OpGroup) -> nat {
    ops_cost(op_views(g.ops@))
}

pub open spec fn groups_cost(gs: Seq<OpGroup>) -> nat
    decreases gs.len(),
{
    if gs.len() == 0 {
        0
    } else {
        group_cost(gs[0]) + groups_cost(gs.drop_first())
    }
}

/// One batch to commit: the operation groups it carries, in order.
pub struct BatchPlan {
    pub groups: Vec<OpGroup>,
}

pub open spec fn batch_cost(b: BatchPlan) -> nat {
    groups_cost(b.groups@)
}

/// The group sequence a batch list carries, in order.
pub open spec fn batch_groups_flat(batches: Seq<BatchPlan>) -> Seq<OpGroup>
    decreases batches.len(),
{
    if batches.len() == 0 {
        Seq::empty()
    } else {
        batches[0].groups@ + batch_groups_flat(batches.drop_first())
    }
}

fn op_cost_exec(op: &Operation) -> (r: Option<u64>)
    ensures
        match r {
            Some(c) => c as nat == op_cost(op@),
            None => op_cost(op@) > u64::MAX,
        },
{
    match op {
        Operation::SetAssetContent { source: ContentSource::Inline(c), .. } => (
        c.len() as u64).checked_add(1),
        _ => Some(1),
    }
}

fn ops_cost_exec(ops: &Vec<Operation>, i: usize) -> (r: Option<u64>)
    requires
        i <= ops.len(),
    ensures
        match r {
            Some(c) => c as nat == ops_cost(op_views(ops@).skip(i as int)),
            None => ops_cost(op_views(ops@).skip(i as int)) > u64::MAX,
        },
    decreases ops.len() - i,
{
    if i == ops.len() {
        proof {
            assert(op_views(ops@).skip(i as int) =~= Seq::empty());
        }
        Some(0)
    } else {
        proof {
            assert(op_views(ops@).skip(i as int).drop_first() =~= op_views(ops@).skip(
                i as int + 1,
            ));
        }
        match op_cost_exec(&ops[i]) {
            None => None,
            Some(c) => {
                match ops_cost_exec(ops, i + 1) {
                    None => None,
                    Some(rest) => c.checked_add(rest),
                }
            },
        }
    }
}

fn group_cost_exec(g: &OpGroup) -> (r: Option<u64>)
    ensures
        match r {
            Some(c) => c as nat == group_cost(*g),
            None => group_cost(*g) > u64::MAX,
        },
{
    proof {
        assert(op_views(g.ops@).skip(0) =~= op_views(g.ops@));
    }
    ops_cost_exec(&g.ops, 0)
}

/// Length of the longest prefix of `groups[i..]` whose total cost stays
/// within `budget`.
fn fit_len(groups: &Vec<OpGroup>, i: usize, budget: u64) -> (k: usize)
    requires
        i <= groups.len(),
    ensures
        i + k <= groups.len(),
        groups_cost(groups@.subrange(i as int, i + k as int)) <= budget,
        i + k < groups.len() ==> groups_cost(
            groups@.subrange(i as int, i + k + 1 as int),
        ) > budget,
    decreases groups.len() - i,
{
    if i == groups.len() {
        proof {
            assert(groups@.subrange(i as int, i as int) =~= Seq::empty());
        }
        0
    } else {
        proof {
            assert(groups@.subrange(i as int, i as int + 1) =~= seq![groups@[i as int]]);
            assert(groups@.subrange(i as int, i as int + 1).drop_first() =~= Seq::empty());
        }
        match group_cost_exec(&groups[i]) {
            None => 0,
            Some(c) => {
                if c <= budget {
                    let k2 = fit_len(groups, i + 1, budget - c);
                    proof {
                        let j = i + 1 + k2 as int;
                        assert(groups@.subrange(i as int, j)[0] == groups@[i as int]);
                        assert(groups@.subrange(i as int, j).drop_first() =~= groups@.subrange(
                            i as int + 1,
                            j,
                        ));
                        if i + 1 + k2 < groups.len() {
                            let j1 = j + 1;
                            assert(groups@.subrange(i as int, j1)[0] == groups@[i as int]);
                            assert(groups@.subrange(i as int, j1).drop_first() =~= groups@
                                .subrange(i as int + 1, j1));
                        }
                    }
                    1 + k2
                } else {
                    0
                }
            },
        }
    }
}

proof fn lemma_groups_cost_snoc(s: Seq<OpGroup>, g: OpGroup)
    ensures
        groups_cost(s.push(g)) == groups_cost(s) + group_cost(g),
    decreases s.len(),
{
    assert(s.push(g).len() == s.len() + 1);
    assert(groups_cost(s.push(g)) == group_cost(s.push(g)[0]) + groups_cost(
        s.push(g).drop_first(),
    ));
    if s.len() == 0 {
        assert(s.push(g)[0] == g);
        assert(s.push(g).drop_first() =~= Seq::<OpGroup>::empty());
        assert(groups_cost(Seq::<OpGroup>::empty()) == 0);
    } else {
        assert(s.push(g)[0] == s[0]);
        assert(s.push(g).drop_first() =~= s.drop_first().push(g));
        lemma_groups_cost_snoc(s.drop_first(), g);
        assert(groups_cost(s) == group_cost(s[0]) + groups_cost(s.drop_first()));
    }
}

/// Partitions the differ's group list, in order, into batches: the
/// concatenation of the result's group lists is exactly the input, no batch
/// is empty, every batch stays within the budget unless it holds a single
/// oversized group, and no batch could also absorb its successor's first
/// group — the batches are as full as the budget allows.
pub fn assemble_batches(groups: Vec<OpGroup>, limit: u64) -> (r: Vec<BatchPlan>)
    ensures
        batch_groups_flat(r@) == groups@,
        forall|b: int| 0 <= b < r@.len() ==> (#[trigger] r@[b]).groups@.len() > 0,
        forall|b: int|
            0 <= b < r@.len() ==> (batch_cost(#[trigger] r@[b]) <= limit || r@[b].groups@.len()
                == 1),
        forall|b: int|
            0 <= b < r@.len() - 1 ==> batch_cost(#[trigger] r@[b]) + group_cost(
                r@[b + 1].groups@[0],
            ) > limit,
    decreases groups@.len(),
{
    let mut gs = groups;
    if gs.len() == 0 {
        proof {
            assert(batch_groups_flat(Seq::<BatchPlan>::empty()) =~= gs@);
        }
        return Vec::new();
    }
    let f = fit_len(&gs, 0, limit);
    let k = if f == 0 {
        1
    } else {
        f
    };
    let ghost g0 = gs@;
    let rest = gs.split_off(k);
    let mut batches = assemble_batches(rest, limit);
    let ghost tail = batches@;
    proof {
        if f > 0 {
            assert(gs@ =~= g0.subrange(0, k as int));
        }
    }
    batches.insert(0, BatchPlan { groups: gs });
    proof {
        assert(batches@.drop_first() =~= tail);
        assert(batch_groups_flat(batches@) =~= groups@);
        if tail.len() > 0 {
            assert(batch_groups_flat(tail)[0] == tail[0].groups@[0]);
            assert(tail[0].groups@[0] == g0[k as int]);
        }
        assert forall|b: int|
            0 <= b < batches@.len() - 1 implies batch_cost(#[trigger] batches@[b]) + group_cost(
            batches@[b + 1].groups@[0],
        ) > limit by {
            if b == 0 {
                assert(batches@[1].groups@[0] == tail[0].groups@[0]);
                if f > 0 {
                    lemma_groups_cost_snoc(g0.subrange(0, k as int), g0[k as int]);
                    assert(g0.subrange(0, k as int).push(g0[k as int]) =~= g0.subrange(
                        0,
                        k + 1 as int,
                    ));
                } else {
                    assert(batch_cost(batches@[0]) == groups_cost(g0.subrange(0, 1)));
                }
            } else {
                assert(batches@[b] == tail[b - 1]);
                assert(batches@[b + 1] == tail[b]);
            }
        }
    }
    batches
}

} // verus!
