//! The search for the map-side aggregate of a physical plan.
use vstd::prelude::*;

verus! {

/// How an aggregate takes part in an aggregation of several layers.
#[derive(Clone, Copy, Debug, PartialEq, Eq, Structural)]
pub enum AggregateMode {
    Partial,
    PartialReduce,
    Final,
    FinalPartitioned,
    Single,
    SinglePartitioned,
}

/// An operator of a physical plan: its aggregate mode, where it is an aggregate, and its inputs.
#[derive(Debug)]
pub struct PlanNode {
    pub aggregate: Option<AggregateMode>,
    pub children: Vec<PlanNode>,
}

impl PlanNode {
    /// Whether this operator, not one below it, is a partial aggregate.
    pub open spec fn is_partial(self) -> bool {
        self.aggregate == Some(AggregateMode::Partial)
    }

    /// The operator that `path` leads to, a path being the child to take at each level.
    pub open spec fn node_at(self, path: Seq<usize>) -> Option<PlanNode>
        decreases path.len(),
    {
        if path.len() == 0 {
            Some(self)
        } else if path[0] < self.children@.len() {
            self.children@[path[0] as int].node_at(path.drop_first())
        } else {
            None
        }
    }

    /// Whether `path` leads to a partial aggregate.
    pub open spec fn partial_at(self, path: Seq<usize>) -> bool {
        self.node_at(path) is Some && self.node_at(path)->0.is_partial()
    }
}

/// Whether a walk that visits an operator before its inputs, and the inputs from the first to the
/// last, comes to `p` before it comes to `q`.
pub open spec fn visited_before(p: Seq<usize>, q: Seq<usize>) -> bool
    decreases p.len(),
{
    if q.len() == 0 {
        false
    } else if p.len() == 0 {
        true
    } else if p[0] != q[0] {
        p[0] < q[0]
    } else {
        visited_before(p.drop_first(), q.drop_first())
    }
}

/// The path to the first partial aggregate in the order in which a walk visits an operator before
/// its inputs and the inputs from the first to the last; `None` where the plan has none.
pub fn find_partial_aggregate(plan: &PlanNode) -> (r: Option<Vec<usize>>)
    ensures
        match r {
            Some(path) => {
                &&& plan.partial_at(path@)
                &&& forall|other: Seq<usize>| #[trigger]
                    plan.partial_at(other) && other != path@ ==> visited_before(path@, other)
            },
            None => forall|path: Seq<usize>| !#[trigger] plan.partial_at(path),
        },
        match r {
            Some(path) => plan.node_at(path@) is Some && plan.node_at(path@)->0.aggregate == Some(
                AggregateMode::Partial,
            ),
            None => forall|path: Seq<usize>|
                (#[trigger] plan.node_at(path)) is Some ==> plan.node_at(path)->0.aggregate != Some(
                    AggregateMode::Partial,
                ),
        },
    decreases plan,
{
    if let Some(mode) = plan.aggregate {
        if mode == AggregateMode::Partial {
            let path: Vec<usize> = Vec::new();
            proof {
                assert(plan.partial_at(path@));
                assert forall|other: Seq<usize>| #[trigger]
                    plan.partial_at(other) && other != path@ implies visited_before(path@, other) by {
                    if other.len() == 0 {
                        assert(other =~= path@);
                    }
                }
            }
            return Some(path);
        }
    }
    let mut i: usize = 0;
    while i < plan.children.len()
        invariant
            i <= plan.children.len(),
            !plan.is_partial(),
            forall|path: Seq<usize>|
                #![trigger plan.partial_at(path)]
                path.len() > 0 && path[0] < i ==> !plan.partial_at(path),
        decreases plan.children.len() - i,
    {
        proof {
            assert(decreases_to!(plan => plan.children@[i as int]));
        }
        match find_partial_aggregate(&plan.children[i]) {
            Some(below) => {
                let mut path: Vec<usize> = Vec::new();
                path.push(i);
                let mut k: usize = 0;
                while k < below.len()
                    invariant
                        k <= below.len(),
                        path@ == seq![i] + below@.take(k as int),
                    decreases below.len() - k,
                {
                    path.push(below[k]);
                    k += 1;
                    assert(below@.take(k as int) =~= below@.take(k - 1).push(below@[k - 1]));
                }
                proof {
                    assert(below@.take(k as int) =~= below@);
                    assert(path@.drop_first() =~= below@);
                    assert(plan.partial_at(path@));
                    assert forall|other: Seq<usize>| #[trigger]
                        plan.partial_at(other) && other != path@ implies visited_before(
                        path@,
                        other,
                    ) by {
                        if other[0] == i {
                            assert(plan.children@[i as int].partial_at(other.drop_first()));
                            if other.drop_first() == below@ {
                                assert(other =~= seq![i] + other.drop_first());
                            }
                        }
                    }
                }
                return Some(path);
            },
            None => {
                proof {
                    assert forall|path: Seq<usize>|
                        #![trigger plan.partial_at(path)]
                        path.len() > 0 && path[0] < i + 1 implies !plan.partial_at(path) by {
                        if path[0] == i {
                            assert(!plan.children@[i as int].partial_at(path.drop_first()));
                        }
                    }
                }
            },
        }
        i += 1;
    }
    proof {
        assert forall|path: Seq<usize>| (#[trigger] plan.node_at(path)) is Some implies plan.node_at(
            path,
        )->0.aggregate != Some(AggregateMode::Partial) by {
            assert(!plan.partial_at(path));
        }
    }
    None
}

/// Of two operators a walk comes to one before the other.
pub proof fn law_walk_is_an_order(p: Seq<usize>, q: Seq<usize>)
    ensures
        !(visited_before(p, q) && visited_before(q, p)),
        p != q ==> visited_before(p, q) || visited_before(q, p),
    decreases p.len(),
{
    if p.len() > 0 && q.len() > 0 && p[0] == q[0] {
        law_walk_is_an_order(p.drop_first(), q.drop_first());
        if p.drop_first() == q.drop_first() {
            assert(p =~= seq![p[0]] + p.drop_first());
            assert(q =~= seq![q[0]] + q.drop_first());
        }
    } else if p.len() == 0 && q.len() == 0 {
        assert(p =~= q);
    }
}

/// An operator is visited before everything below it.
pub proof fn law_inputs_come_later(path: Seq<usize>, below: Seq<usize>)
    requires
        below.len() > 0,
    ensures
        visited_before(path, path + below),
    decreases path.len(),
{
    if path.len() > 0 {
        assert((path + below).drop_first() =~= path.drop_first() + below);
        law_inputs_come_later(path.drop_first(), below);
    }
}

/// A plan has one first partial aggregate at most: the search has no choice.
pub proof fn law_first_partial_aggregate_is_one(plan: PlanNode, p: Seq<usize>, q: Seq<usize>)
    requires
        plan.partial_at(p),
        forall|other: Seq<usize>| #[trigger]
            plan.partial_at(other) && other != p ==> visited_before(p, other),
        plan.partial_at(q),
        forall|other: Seq<usize>| #[trigger]
            plan.partial_at(other) && other != q ==> visited_before(q, other),
    ensures
        p == q,
{
    law_walk_is_an_order(p, q);
}

/// Of two inputs of an operator, and all that is below them, the first one is visited first.
pub proof fn law_inputs_come_in_order(
    path: Seq<usize>,
    first: usize,
    below_first: Seq<usize>,
    second: usize,
    below_second: Seq<usize>,
)
    requires
        first < second,
    ensures
        visited_before(path + seq![first] + below_first, path + seq![second] + below_second),
    decreases path.len(),
{
    let p = path + seq![first] + below_first;
    let q = path + seq![second] + below_second;
    if path.len() > 0 {
        assert(p.drop_first() =~= path.drop_first() + seq![first] + below_first);
        assert(q.drop_first() =~= path.drop_first() + seq![second] + below_second);
        law_inputs_come_in_order(path.drop_first(), first, below_first, second, below_second);
    } else {
        assert(p[0] == first);
        assert(q[0] == second);
    }
}

/// A path leads through the inputs: the empty one stays, one of a single step takes an input, and
/// one path behind another goes on from where the first one leads.
pub proof fn law_paths_lead_through_inputs(
    plan: PlanNode,
    child: usize,
    path: Seq<usize>,
    further: Seq<usize>,
)
    ensures
        plan.node_at(Seq::empty()) == Some(plan),
        child < plan.children@.len() ==> plan.node_at(seq![child]) == Some(
            plan.children@[child as int],
        ),
        child >= plan.children@.len() ==> plan.node_at(seq![child]) is None,
        plan.node_at(path + further) == match plan.node_at(path) {
            Some(node) => node.node_at(further),
            None => None,
        },
    decreases path.len(),
{
    reveal_with_fuel(PlanNode::node_at, 2);
    assert(seq![child].drop_first() =~= Seq::<usize>::empty());
    if path.len() == 0 {
        assert(path + further =~= further);
    } else {
        assert((path + further).drop_first() =~= path.drop_first() + further);
        if path[0] < plan.children@.len() {
            law_paths_lead_through_inputs(
                plan.children@[path[0] as int],
                child,
                path.drop_first(),
                further,
            );
        }
    }
}

/// A path leads to a partial aggregate just where it leads to an operator whose mode is that, and
/// no other mode, whatever its inputs are.
pub proof fn law_only_partial_aggregates_are_found(plan: PlanNode, path: Seq<usize>)
    ensures
        plan.partial_at(path) <==> plan.node_at(path) is Some && plan.node_at(path)->0.aggregate
            == Some(AggregateMode::Partial),
{
}

} // verus!
