//! Grouping of slow method calls: calls whose primary stacks (the frames
//! that identify them) are equal fall into one group.
use super::collector::find_method_name;
use super::ordinal_tree::frame_label;
use crate::text::i64_to_string;
use std::collections::{HashMap, HashSet};
use vstd::prelude::*;

verus! {

broadcast use vstd::std_specs::hash::group_hash_axioms;

/// A slow call found in the samples, as the grouping reads it: the method
/// ids of the frames that identify it.
pub struct MethodCall {
    pub primary_stacks: Vec<i64>,
}

/// A feature a call can show (a Redis call, a MySQL call), recognised by
/// the methods it includes and excludes.
pub struct MethodCallFeature {
    name: String,
    desc: String,
    includes: Vec<String>,
    excludes: Vec<String>,
    methods: HashMap<i64, String>,
}

/// One method of a group's common stack, with its name and features.
#[derive(Clone)]
pub struct CallInfo {
    pub method_id: i64,
    pub full_name: String,
    pub features: Vec<String>,
}

/// A group of calls with one primary stack.
pub struct MethodCallGroup {
    group_id: i64,
    method_calls: Vec<Box<MethodCall>>,
    features: Vec<String>,
    /// The common stack of the group, one entry per method.
    pub call_stack: Vec<CallInfo>,
    /// The method ids of the common stack, for quick comparison.
    pub call_stack_ids: HashSet<i64>,
    primary_stacks: Vec<i64>,
}

impl MethodCallGroup {
    /// The group's number.
    pub closed spec fn id(&self) -> i64 {
        self.group_id
    }

    /// The primary stack shared by the group's calls.
    pub closed spec fn primary(&self) -> Seq<i64> {
        self.primary_stacks@
    }

    /// The primary stacks of the group's calls, in the order they came.
    pub closed spec fn calls(&self) -> Seq<Seq<i64>> {
        Seq::new(self.method_calls@.len(), |i: int| self.method_calls@[i].primary_stacks@)
    }

    /// The method ids of the common stack, in order.
    pub closed spec fn stack_ids(&self) -> Seq<i64> {
        Seq::new(self.call_stack@.len(), |i: int| self.call_stack@[i].method_id)
    }

    /// The method ids of the common stack, as a set.
    pub closed spec fn id_set(&self) -> Set<i64> {
        self.call_stack_ids@
    }

    /// The features of the group.
    pub closed spec fn feature_count(&self) -> nat {
        self.features@.len()
    }

    /// The names of the methods of the common stack, in order.
    pub closed spec fn stack_names(&self) -> Seq<Seq<char>> {
        Seq::new(self.call_stack@.len(), |i: int| self.call_stack@[i].full_name@)
    }

    /// Whether no method of the common stack has a name or a feature yet.
    pub closed spec fn stack_unnamed(&self) -> bool {
        forall|k: int|
            0 <= k < self.call_stack@.len() ==> #[trigger] self.call_stack@[k].full_name@.len() == 0
                && self.call_stack@[k].features@.len() == 0
    }
}

/// The first of the groups whose primary stack is `p`, if there is one.
pub open spec fn first_group_with(groups: Seq<MethodCallGroup>, p: Seq<i64>) -> Option<int> {
    if exists|i: int| 0 <= i < groups.len() && groups[i].primary() == p {
        Some(
            choose|i: int|
                0 <= i < groups.len() && groups[i].primary() == p && forall|j: int|
                    0 <= j < i ==> groups[j].primary() != p,
        )
    } else {
        None
    }
}

/// Whether no two groups share a primary stack.
pub open spec fn primaries_distinct(groups: Seq<MethodCallGroup>) -> bool {
    forall|i: int, j: int|
        0 <= i < groups.len() && 0 <= j < groups.len() && i != j ==> groups[i].primary()
            != groups[j].primary()
}

/// The analysis of slow calls: the groups found so far and the features
/// known.
pub struct MethodAnalysis {
    pub call_groups: Vec<MethodCallGroup>,
    pub features: Vec<MethodCallFeature>,
    group_id_seq: i64,
}

/// Whether `b` is `a` with a call of primary stack `p` added: to the first
/// group with that primary stack, or to a new group (numbered one past the
/// last) whose common stack is that primary stack.
pub open spec fn call_added(a: MethodAnalysis, b: MethodAnalysis, p: Seq<i64>) -> bool {
    let gs = a.groups();
    &&& b.feature_total() == a.feature_total()
    &&& match first_group_with(gs, p) {
        Some(i) => {
            &&& b.groups().len() == gs.len()
            &&& b.last_group_id() == a.last_group_id()
            &&& forall|j: int| 0 <= j < gs.len() && j != i ==> #[trigger] b.groups()[j] == gs[j]
            &&& b.groups()[i].calls() == gs[i].calls().push(p)
            &&& b.groups()[i].primary() == gs[i].primary()
            &&& b.groups()[i].id() == gs[i].id()
            &&& b.groups()[i].stack_ids() == gs[i].stack_ids()
            &&& b.groups()[i].id_set() == gs[i].id_set()
            &&& b.groups()[i].stack_names() == gs[i].stack_names()
            &&& b.groups()[i].stack_unnamed() == gs[i].stack_unnamed()
            &&& b.groups()[i].feature_count() == gs[i].feature_count()
        },
        None => {
            let g = b.groups().last();
            &&& b.groups().len() == gs.len() + 1
            &&& b.groups().take(gs.len() as int) == gs
            &&& b.last_group_id() == a.last_group_id() + 1
            &&& g.id() == b.last_group_id()
            &&& g.calls() == seq![p]
            &&& g.primary() == p
            &&& g.stack_ids() == p
            &&& g.id_set() == p.to_set()
            &&& g.feature_count() == 0
            &&& g.stack_unnamed()
        },
    }
}

/// Whether two id sequences are equal.
fn ids_equal(a: &Vec<i64>, b: &Vec<i64>) -> (r: bool)
    ensures
        r == (a@ == b@),
{
    if a.len() != b.len() {
        return false;
    }
    let mut i: usize = 0;
    while i < a.len()
        invariant
            a@.len() == b@.len(),
            i <= a@.len(),
            forall|j: int| 0 <= j < i ==> a@[j] == b@[j],
        decreases a@.len() - i,
    {
        if a[i] != b[i] {
            return false;
        }
        i = i + 1;
    }
    assert(a@ =~= b@);
    true
}

impl MethodAnalysis {
    /// The number of groups made so far.
    pub closed spec fn last_group_id(&self) -> i64 {
        self.group_id_seq
    }

    /// The groups, in the order they were made.
    pub closed spec fn groups(&self) -> Seq<MethodCallGroup> {
        self.call_groups@
    }

    /// How many features are known.
    pub closed spec fn feature_total(&self) -> nat {
        self.features@.len()
    }

    /// An analysis without groups or features.
    pub fn new() -> (r: MethodAnalysis)
        ensures
            r.groups().len() == 0,
            r.feature_total() == 0,
            r.last_group_id() == 0,
    {
        MethodAnalysis { call_groups: Vec::new(), features: Vec::new(), group_id_seq: 0 }
    }

    /// Adds a call to the first group with its primary stack, or to a new
    /// group (numbered one past the last) whose common stack is that
    /// primary stack.
    pub fn add_method_call(&mut self, method_call: Box<MethodCall>)
        requires
            old(self).last_group_id() < i64::MAX,
        ensures
            call_added(*old(self), *final(self), method_call.primary_stacks@),
            final(self).feature_total() == old(self).feature_total(),
            primaries_distinct(old(self).groups()) ==> primaries_distinct(final(self).groups()),
    {
        let ghost gs = self.call_groups@;
        let ghost p = method_call.primary_stacks@;
        let mut i: usize = 0;
        let mut found = false;
        while i < self.call_groups.len() && !found
            invariant
                self.call_groups@ == gs,
                i <= gs.len(),
                p == method_call.primary_stacks@,
                found ==> i < gs.len() && gs[i as int].primary() == p,
                forall|j: int| 0 <= j < i ==> gs[j].primary() != p,
            decreases gs.len() - i + if found { 0int } else { 1int },
        {
            if ids_equal(&self.call_groups[i].primary_stacks, &method_call.primary_stacks) {
                found = true;
            } else {
                i = i + 1;
            }
        }
        if found {
            assert(first_group_with(gs, p) == Some(i as int)) by {
                let k = choose|k: int|
                    0 <= k < gs.len() && gs[k].primary() == p && forall|j: int|
                        0 <= j < k ==> gs[j].primary() != p;
                assert(gs[i as int].primary() == p);
                if k < i {
                    assert(gs[k].primary() != p);
                } else if k > i {
                    assert(gs[i as int].primary() != p);
                }
            }
            self.call_groups[i].method_calls.push(method_call);
            proof {
                let g = self.call_groups@[i as int];
                assert(g.calls() =~= gs[i as int].calls().push(p));
                assert(g.stack_ids() =~= gs[i as int].stack_ids());
                assert(g.stack_names() =~= gs[i as int].stack_names());
                assert(g.call_stack@ == gs[i as int].call_stack@);
                assert forall|a: int| 0 <= a < gs.len() implies #[trigger] self.groups()[a].primary()
                    == gs[a].primary() by {
                    if a != i {
                        assert(self.groups()[a] == gs[a]);
                    }
                }
            }
            return;
        }
        assert(first_group_with(gs, p) is None);
        let size = method_call.primary_stacks.len();
        let mut call_stack_ids: HashSet<i64> = HashSet::with_capacity(size);
        let mut call_stack: Vec<CallInfo> = Vec::with_capacity(size);
        let mut k: usize = 0;
        while k < method_call.primary_stacks.len()
            invariant
                k <= p.len(),
                p == method_call.primary_stacks@,
                call_stack@.len() == k,
                forall|j: int| 0 <= j < k ==> #[trigger] call_stack@[j].method_id == p[j],
                forall|j: int|
                    0 <= j < k ==> #[trigger] call_stack@[j].full_name@.len() == 0
                        && call_stack@[j].features@.len() == 0,
                call_stack_ids@ == p.take(k as int).to_set(),
            decreases p.len() - k,
        {
            let method_id = method_call.primary_stacks[k];
            call_stack_ids.insert(method_id);
            call_stack.push(CallInfo { method_id, full_name: String::new(), features: Vec::new() });
            assert(p.take(k + 1) =~= p.take(k as int).push(method_id));
            assert(p.take(k + 1).to_set() =~= p.take(k as int).to_set().insert(method_id)) by {
                p.take(k as int).lemma_push_to_set_commute(method_id);
            }
            k = k + 1;
        }
        assert(p.take(p.len() as int) =~= p);
        let primary_stacks = method_call.primary_stacks.clone();
        self.group_id_seq = self.group_id_seq + 1;
        let match_group = MethodCallGroup {
            group_id: self.group_id_seq,
            method_calls: vec![method_call],
            features: Vec::new(),
            call_stack,
            call_stack_ids,
            primary_stacks,
        };
        self.call_groups.push(match_group);
        proof {
            let g = self.call_groups@.last();
            assert(g.calls() =~= seq![p]);
            assert(g.stack_ids() =~= p);
            assert(self.call_groups@.take(gs.len() as int) =~= gs);
            assert forall|a: int| 0 <= a < gs.len() implies #[trigger] self.groups()[a] == gs[a] by {
                assert(self.call_groups@.take(gs.len() as int)[a] == gs[a]);
            }
            assert(g.primary() == p);
        }
    }

    /// The groups found so far.
    pub fn get_method_groups(&self) -> (r: &[MethodCallGroup])
        ensures
            r@ == self.groups(),
    {
        self.call_groups.as_slice()
    }
}

impl MethodAnalysis {
    /// Names each method of each group's common stack: its full name when
    /// it is known, its id otherwise.
    pub fn name_call_stacks(&mut self, method_names: &Vec<(i64, String)>)
        ensures
            final(self).groups().len() == old(self).groups().len(),
            final(self).last_group_id() == old(self).last_group_id(),
            final(self).feature_total() == old(self).feature_total(),
            forall|i: int|
                0 <= i < old(self).groups().len() ==> {
                    let a = #[trigger] final(self).groups()[i];
                    let b = old(self).groups()[i];
                    &&& a.id() == b.id()
                    &&& a.primary() == b.primary()
                    &&& a.calls() == b.calls()
                    &&& a.stack_ids() == b.stack_ids()
                    &&& a.id_set() == b.id_set()
                    &&& a.feature_count() == b.feature_count()
                    &&& a.stack_names().len() == b.stack_ids().len()
                    &&& forall|k: int|
                        0 <= k < b.stack_ids().len() ==> #[trigger] a.stack_names()[k] == frame_label(
                            method_names@,
                            b.stack_ids()[k],
                        )
                },
    {
        let ghost before = self.call_groups@;
        let mut gi: usize = 0;
        while gi < self.call_groups.len()
            invariant
                gi <= self.call_groups@.len(),
                self.call_groups@.len() == before.len(),
                self.group_id_seq == old(self).group_id_seq,
                self.features == old(self).features,
                forall|i: int| gi <= i < before.len() ==> #[trigger] self.call_groups@[i] == before[i],
                forall|i: int|
                    0 <= i < gi ==> {
                        let a = #[trigger] self.call_groups@[i];
                        let b = before[i];
                        &&& a.id() == b.id()
                        &&& a.primary() == b.primary()
                        &&& a.calls() == b.calls()
                        &&& a.stack_ids() == b.stack_ids()
                        &&& a.id_set() == b.id_set()
                        &&& a.feature_count() == b.feature_count()
                        &&& a.stack_names().len() == b.stack_ids().len()
                        &&& forall|k: int|
                            0 <= k < b.stack_ids().len() ==> #[trigger] a.stack_names()[k]
                                == frame_label(method_names@, b.stack_ids()[k])
                    },
            decreases before.len() - gi,
        {
            let group = &mut self.call_groups[gi];
            let ghost g0 = *group;
            let mut k: usize = 0;
            while k < group.call_stack.len()
                invariant
                    k <= group.call_stack@.len(),
                    group.call_stack@.len() == g0.call_stack@.len(),
                    group.group_id == g0.group_id,
                    group.method_calls == g0.method_calls,
                    group.features == g0.features,
                    group.call_stack_ids == g0.call_stack_ids,
                    group.primary_stacks == g0.primary_stacks,
                    forall|j: int|
                        0 <= j < group.call_stack@.len() ==> #[trigger] group.call_stack@[j].method_id
                            == g0.call_stack@[j].method_id,
                    forall|j: int|
                        0 <= j < k ==> #[trigger] group.call_stack@[j].full_name@ == frame_label(
                            method_names@,
                            g0.call_stack@[j].method_id,
                        ),
                decreases g0.call_stack@.len() - k,
            {
                let method_id = group.call_stack[k].method_id;
                let name = match find_method_name(method_names, method_id) {
                    Some(n) => n.clone(),
                    None => i64_to_string(method_id),
                };
                group.call_stack[k].full_name = name;
                k = k + 1;
            }
            proof {
                let a = *group;
                assert(a.stack_ids() =~= g0.stack_ids());
                assert(a.calls() =~= g0.calls());
            }
            gi = gi + 1;
        }
    }
}

/// How many of the primary stack's methods are in the common stack of a
/// group.
fn get_match_count(primary_stacks: &[i64], call_stack_ids: &HashSet<i64>) -> (r: u64)
    ensures
        r == primary_stacks@.filter(|m: i64| call_stack_ids@.contains(m)).len(),
{
    let mut count: u64 = 0;
    let mut i: usize = 0;
    while i < primary_stacks.len()
        invariant
            i <= primary_stacks@.len(),
            count == primary_stacks@.take(i as int).filter(|m: i64| call_stack_ids@.contains(m)).len(),
            count <= i,
        decreases primary_stacks@.len() - i,
    {
        proof {
            reveal_with_fuel(Seq::<i64>::filter, 1);
            assert(primary_stacks@.take(i + 1).drop_last() =~= primary_stacks@.take(i as int));
        }
        if call_stack_ids.contains(&primary_stacks[i]) {
            count = count + 1;
        }
        i = i + 1;
    }
    assert(primary_stacks@.take(primary_stacks@.len() as int) =~= primary_stacks@);
    count
}

} // verus!
