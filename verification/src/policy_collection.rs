//! Policy collections: what is consulted to authorize a request.

use crate::effect::{Effect, MaybeEffect};
use crate::engine::{views_of, EngineTrait};
use crate::policy::{lemma_added_allow_is_monotonic, lemma_policy_deny_wins, Policy, PolicyView};
use crate::resource::{ResourceAbstract, ResourceView};
use vstd::prelude::*;
use vstd::seq_lib::to_multiset_contains;

verus! {

/// The policies that apply to a principal, in the order they were attached.
#[derive(Debug, PartialEq, Eq, Clone)]
pub struct PolicyCollection<Engine: EngineTrait>(pub Vec<Policy<Engine>>);

/// What a collection holds.
pub struct PolicyCollectionView<Engine: EngineTrait> {
    /// What the policies hold, in order.
    pub policies: Seq<PolicyView<Engine>>,
}

impl<Engine: EngineTrait> View for PolicyCollection<Engine> {
    type V = PolicyCollectionView<Engine>;

    open spec fn view(&self) -> PolicyCollectionView<Engine> {
        PolicyCollectionView { policies: views_of(self.0@) }
    }
}

impl<Engine: EngineTrait> PolicyCollectionView<Engine> {
    /// Some policy among the first `n` has the outcome `wanted` for the
    /// request.
    pub open spec fn some_policy_says(
        self,
        n: int,
        wanted: MaybeEffect,
        action: <Engine::Action as View>::V,
        resource: ResourceView<Engine>,
    ) -> bool {
        exists|i: int|
            0 <= i < n && (#[trigger] self.policies[i]).outcome(action, resource) == wanted
    }

    /// Some policy refuses the request.
    pub open spec fn denies(
        self,
        action: <Engine::Action as View>::V,
        resource: ResourceView<Engine>,
    ) -> bool {
        self.some_policy_says(self.policies.len() as int, MaybeEffect::Deny, action, resource)
    }

    /// Some policy permits the request.
    pub open spec fn allows(
        self,
        action: <Engine::Action as View>::V,
        resource: ResourceView<Engine>,
    ) -> bool {
        self.some_policy_says(self.policies.len() as int, MaybeEffect::Allow, action, resource)
    }

    /// The request is authorized: some policy permits it and none refuses it.
    pub open spec fn permits(
        self,
        action: <Engine::Action as View>::V,
        resource: ResourceView<Engine>,
    ) -> bool {
        self.allows(action, resource) && !self.denies(action, resource)
    }
}

impl<Engine: EngineTrait> PolicyCollection<Engine> {
    /// Attaches `policies` behind the policies that are there, in their
    /// order.
    pub fn extend(&mut self, policies: Vec<Policy<Engine>>)
        ensures
            final(self).0@ == old(self).0@ + policies@,
    {
        let mut policies = policies;
        self.0.append(&mut policies);
    }

    /// Decides whether `action` on `resource` is authorized. The policies
    /// are taken in order and the first refusal ends the evaluation. Without
    /// a policy nothing is authorized.
    pub fn validate(
        &self,
        action: &Engine::Action,
        resource: &ResourceAbstract<Engine>,
    ) -> (allowed: bool)
        ensures
            allowed == self@.permits(action@, resource@),
            self.0@.len() == 0 ==> !allowed,
    {
        let mut is_allowed = false;
        let mut i: usize = 0;
        while i < self.0.len()
            invariant
                i <= self.0@.len(),
                !self@.some_policy_says(i as int, MaybeEffect::Deny, action@, resource@),
                is_allowed == self@.some_policy_says(
                    i as int,
                    MaybeEffect::Allow,
                    action@,
                    resource@,
                ),
            decreases self.0@.len() - i,
        {
            assert(self@.policies[i as int] == self.0@[i as int]@);
            match self.0[i].matches(action, resource) {
                MaybeEffect::Allow => {
                    is_allowed = true;
                },
                MaybeEffect::Deny => {
                    return false;
                },
                MaybeEffect::NotSpecified => {},
            }
            i += 1;
        }
        is_allowed
    }
}

impl<Engine: EngineTrait> Default for PolicyCollection<Engine> {
    /// The collection without policies.
    fn default() -> (collection: Self)
        ensures
            collection.0@.len() == 0,
    {
        PolicyCollection(Vec::new())
    }
}

impl<Engine: EngineTrait> std::ops::Deref for PolicyCollection<Engine> {
    type Target = Vec<Policy<Engine>>;

    /// The policies as a list.
    fn deref(&self) -> (policies: &Vec<Policy<Engine>>)
        ensures
            *policies == self.0,
    {
        &self.0
    }
}

impl<Engine: EngineTrait> std::ops::DerefMut for PolicyCollection<Engine> {
    /// The policies as a list that can be changed.
    fn deref_mut(&mut self) -> (policies: &mut Vec<Policy<Engine>>)
        ensures
            *policies == old(self).0,
            final(self).0 == *final(policies),
    {
        &mut self.0
    }
}

/// Nothing is authorized by default: a collection without policies permits
/// no request.
pub proof fn lemma_default_deny<Engine: EngineTrait>(
    collection: PolicyCollectionView<Engine>,
    action: <Engine::Action as View>::V,
    resource: ResourceView<Engine>,
)
    requires
        collection.policies.len() == 0,
    ensures
        !collection.permits(action, resource),
{
}

/// An explicit refusal wins: where any statement of any policy refuses a
/// request it covers, the request is not authorized, however many other
/// statements permit it and wherever they stand.
pub proof fn lemma_explicit_deny_wins<Engine: EngineTrait>(
    collection: PolicyCollectionView<Engine>,
    policy_at: int,
    statement_at: int,
    action: <Engine::Action as View>::V,
    resource: ResourceView<Engine>,
)
    requires
        0 <= policy_at < collection.policies.len(),
        0 <= statement_at < collection.policies[policy_at].statements.len(),
        collection.policies[policy_at].statements[statement_at].effect == Effect::Deny,
        collection.policies[policy_at].statements[statement_at].covers(action, resource),
    ensures
        !collection.permits(action, resource),
{
    lemma_policy_deny_wins(collection.policies[policy_at], statement_at, action, resource);
}

/// The decision does not depend on the order of the policies: two
/// collections with the same policies, each as often in one as in the other,
/// authorize the same requests.
pub proof fn lemma_policy_order_irrelevant<Engine: EngineTrait>(
    first: PolicyCollectionView<Engine>,
    second: PolicyCollectionView<Engine>,
    action: <Engine::Action as View>::V,
    resource: ResourceView<Engine>,
)
    requires
        first.policies.to_multiset() == second.policies.to_multiset(),
    ensures
        first.permits(action, resource) == second.permits(action, resource),
{
    lemma_same_policies_say_same(first, second, MaybeEffect::Deny, action, resource);
    lemma_same_policies_say_same(second, first, MaybeEffect::Deny, action, resource);
    lemma_same_policies_say_same(first, second, MaybeEffect::Allow, action, resource);
    lemma_same_policies_say_same(second, first, MaybeEffect::Allow, action, resource);
}

proof fn lemma_same_policies_say_same<Engine: EngineTrait>(
    first: PolicyCollectionView<Engine>,
    second: PolicyCollectionView<Engine>,
    wanted: MaybeEffect,
    action: <Engine::Action as View>::V,
    resource: ResourceView<Engine>,
)
    requires
        first.policies.to_multiset() == second.policies.to_multiset(),
    ensures
        first.some_policy_says(first.policies.len() as int, wanted, action, resource)
            ==> second.some_policy_says(second.policies.len() as int, wanted, action, resource),
{
    if first.some_policy_says(first.policies.len() as int, wanted, action, resource) {
        let i = choose|i: int|
            0 <= i < first.policies.len() && (#[trigger] first.policies[i]).outcome(
                action,
                resource,
            ) == wanted;
        let policy = first.policies[i];
        assert(first.policies.contains(policy));
        to_multiset_contains(first.policies, policy);
        to_multiset_contains(second.policies, policy);
        let j = choose|j: int| 0 <= j < second.policies.len() && second.policies[j] == policy;
        assert(second.policies[j].outcome(action, resource) == wanted);
    }
}

/// Attaching a policy that permits the request never lifts a refusal: the
/// request is authorized afterwards exactly if no policy refused it before.
pub proof fn lemma_added_policy_is_monotonic<Engine: EngineTrait>(
    before: PolicyCollectionView<Engine>,
    after: PolicyCollectionView<Engine>,
    at: int,
    action: <Engine::Action as View>::V,
    resource: ResourceView<Engine>,
)
    requires
        0 <= at <= before.policies.len(),
        after.policies.len() == before.policies.len() + 1,
        after.policies == before.policies.insert(at, after.policies[at]),
        after.policies[at].outcome(action, resource) == MaybeEffect::Allow,
    ensures
        after.permits(action, resource) == !before.denies(action, resource),
        before.permits(action, resource) ==> after.permits(action, resource),
{
    before.policies.insert_ensures(at, after.policies[at]);
    if before.denies(action, resource) {
        let i = choose|i: int|
            0 <= i < before.policies.len() && (#[trigger] before.policies[i]).outcome(
                action,
                resource,
            ) == MaybeEffect::Deny;
        let j = if i < at {
            i
        } else {
            i + 1
        };
        assert(after.policies[j] == before.policies[i]);
        assert(after.policies[j].outcome(action, resource) == MaybeEffect::Deny);
    } else {
        if after.denies(action, resource) {
            let j = choose|j: int|
                0 <= j < after.policies.len() && (#[trigger] after.policies[j]).outcome(
                    action,
                    resource,
                ) == MaybeEffect::Deny;
            let i = if j < at {
                j
            } else {
                j - 1
            };
            assert(after.policies[j] == before.policies[i]);
            assert(before.policies[i].outcome(action, resource) == MaybeEffect::Deny);
        }
    }
}

/// Adding a permitting statement that covers the request to one policy of a
/// collection never lifts a refusal: the request is authorized afterwards
/// exactly if no policy refused it before.
pub proof fn lemma_added_statement_is_monotonic<Engine: EngineTrait>(
    before: PolicyCollectionView<Engine>,
    after: PolicyCollectionView<Engine>,
    policy_at: int,
    statement_at: int,
    action: <Engine::Action as View>::V,
    resource: ResourceView<Engine>,
)
    requires
        0 <= policy_at < before.policies.len(),
        after.policies == before.policies.update(policy_at, after.policies[policy_at]),
        0 <= statement_at <= before.policies[policy_at].statements.len(),
        after.policies[policy_at].statements.len() == before.policies[policy_at].statements.len()
            + 1,
        after.policies[policy_at].statements == before.policies[policy_at].statements.insert(
            statement_at,
            after.policies[policy_at].statements[statement_at],
        ),
        after.policies[policy_at].statements[statement_at].effect == Effect::Allow,
        after.policies[policy_at].statements[statement_at].covers(action, resource),
    ensures
        after.permits(action, resource) == !before.denies(action, resource),
        before.permits(action, resource) ==> after.permits(action, resource),
{
    lemma_added_allow_is_monotonic(
        before.policies[policy_at],
        after.policies[policy_at],
        statement_at,
        action,
        resource,
    );
    if before.denies(action, resource) {
        let i = choose|i: int|
            0 <= i < before.policies.len() && (#[trigger] before.policies[i]).outcome(
                action,
                resource,
            ) == MaybeEffect::Deny;
        assert(after.policies[i].outcome(action, resource) == MaybeEffect::Deny);
    } else {
        if after.denies(action, resource) {
            let j = choose|j: int|
                0 <= j < after.policies.len() && (#[trigger] after.policies[j]).outcome(
                    action,
                    resource,
                ) == MaybeEffect::Deny;
            assert(before.policies[j].outcome(action, resource) == MaybeEffect::Deny);
        }
        assert(after.policies[policy_at].outcome(action, resource) == MaybeEffect::Allow);
    }
}

} // verus!
