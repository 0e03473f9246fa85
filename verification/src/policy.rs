//! Policies: named lists of statements.

use crate::effect::{Effect, MaybeEffect};
use crate::engine::{views_of, EngineTrait};
use crate::resource::{ResourceAbstract, ResourceView};
use crate::statement::{Statement, StatementView};
use vstd::prelude::*;
use vstd::seq_lib::to_multiset_contains;

verus! {

/// A list of statements under an optional name. The name is for people; it
/// plays no part in a decision.
#[derive(Debug, PartialEq, Eq, Clone)]
pub struct Policy<Engine: EngineTrait> {
    /// A name to show for the policy.
    pub name: Option<String>,
    /// The rules of the policy.
    pub statements: Vec<Statement<Engine>>,
}

/// What a policy holds.
pub struct PolicyView<Engine: EngineTrait> {
    /// The characters of the name.
    pub name: Option<Seq<char>>,
    /// What the statements hold, in order.
    pub statements: Seq<StatementView<Engine>>,
}

impl<Engine: EngineTrait> View for Policy<Engine> {
    type V = PolicyView<Engine>;

    open spec fn view(&self) -> PolicyView<Engine> {
        PolicyView {
            name: match self.name {
                Some(name) => Some(name@),
                None => None,
            },
            statements: views_of(self.statements@),
        }
    }
}

impl<Engine: EngineTrait> PolicyView<Engine> {
    /// Some statement among the first `n` has the outcome `wanted` for the
    /// request.
    pub open spec fn some_statement_says(
        self,
        n: int,
        wanted: MaybeEffect,
        action: <Engine::Action as View>::V,
        resource: ResourceView<Engine>,
    ) -> bool {
        exists|i: int|
            0 <= i < n && (#[trigger] self.statements[i]).outcome(action, resource) == wanted
    }

    /// Some statement of the policy refuses the request.
    pub open spec fn denies(
        self,
        action: <Engine::Action as View>::V,
        resource: ResourceView<Engine>,
    ) -> bool {
        self.some_statement_says(self.statements.len() as int, MaybeEffect::Deny, action, resource)
    }

    /// Some statement of the policy permits the request.
    pub open spec fn allows(
        self,
        action: <Engine::Action as View>::V,
        resource: ResourceView<Engine>,
    ) -> bool {
        self.some_statement_says(self.statements.len() as int, MaybeEffect::Allow, action, resource)
    }

    /// The outcome of the policy for the request: a refusal by any statement
    /// wins over every permission.
    pub open spec fn outcome(
        self,
        action: <Engine::Action as View>::V,
        resource: ResourceView<Engine>,
    ) -> MaybeEffect {
        if self.denies(action, resource) {
            MaybeEffect::Deny
        } else if self.allows(action, resource) {
            MaybeEffect::Allow
        } else {
            MaybeEffect::NotSpecified
        }
    }
}

impl<Engine: EngineTrait> Policy<Engine> {
    /// Decides what this policy says of `action` on `resource`. The
    /// statements are taken in order and the first refusal ends the
    /// evaluation.
    pub fn matches(&self, action: &Engine::Action, resource: &ResourceAbstract<Engine>) -> (e:
        MaybeEffect)
        ensures
            e == self@.outcome(action@, resource@),
    {
        let mut is_allowed = false;
        let mut i: usize = 0;
        while i < self.statements.len()
            invariant
                i <= self.statements@.len(),
                !self@.some_statement_says(i as int, MaybeEffect::Deny, action@, resource@),
                is_allowed == self@.some_statement_says(
                    i as int,
                    MaybeEffect::Allow,
                    action@,
                    resource@,
                ),
            decreases self.statements@.len() - i,
        {
            assert(self@.statements[i as int] == self.statements@[i as int]@);
            match self.statements[i].matches(action, resource) {
                MaybeEffect::Allow => {
                    is_allowed = true;
                },
                MaybeEffect::Deny => {
                    return MaybeEffect::Deny;
                },
                MaybeEffect::NotSpecified => {},
            }
            i += 1;
        }
        if is_allowed {
            MaybeEffect::Allow
        } else {
            MaybeEffect::NotSpecified
        }
    }
}

/// A statement that refuses a request it covers makes its policy refuse the
/// request, whatever else the policy holds and wherever the statement stands.
pub proof fn lemma_policy_deny_wins<Engine: EngineTrait>(
    policy: PolicyView<Engine>,
    at: int,
    action: <Engine::Action as View>::V,
    resource: ResourceView<Engine>,
)
    requires
        0 <= at < policy.statements.len(),
        policy.statements[at].effect == Effect::Deny,
        policy.statements[at].covers(action, resource),
    ensures
        policy.outcome(action, resource) == MaybeEffect::Deny,
{
    assert(policy.statements[at].outcome(action, resource) == MaybeEffect::Deny);
}

/// The outcome of a policy does not depend on the order of its statements,
/// nor on its name: two policies with the same statements, each as often in
/// one as in the other, decide alike.
pub proof fn lemma_statement_order_irrelevant<Engine: EngineTrait>(
    first: PolicyView<Engine>,
    second: PolicyView<Engine>,
    action: <Engine::Action as View>::V,
    resource: ResourceView<Engine>,
)
    requires
        first.statements.to_multiset() == second.statements.to_multiset(),
    ensures
        first.outcome(action, resource) == second.outcome(action, resource),
{
    lemma_same_statements_say_same(first, second, MaybeEffect::Deny, action, resource);
    lemma_same_statements_say_same(second, first, MaybeEffect::Deny, action, resource);
    lemma_same_statements_say_same(first, second, MaybeEffect::Allow, action, resource);
    lemma_same_statements_say_same(second, first, MaybeEffect::Allow, action, resource);
}

proof fn lemma_same_statements_say_same<Engine: EngineTrait>(
    first: PolicyView<Engine>,
    second: PolicyView<Engine>,
    wanted: MaybeEffect,
    action: <Engine::Action as View>::V,
    resource: ResourceView<Engine>,
)
    requires
        first.statements.to_multiset() == second.statements.to_multiset(),
    ensures
        first.some_statement_says(first.statements.len() as int, wanted, action, resource)
            ==> second.some_statement_says(
            second.statements.len() as int,
            wanted,
            action,
            resource,
        ),
{
    if first.some_statement_says(first.statements.len() as int, wanted, action, resource) {
        let i = choose|i: int|
            0 <= i < first.statements.len() && (#[trigger] first.statements[i]).outcome(
                action,
                resource,
            ) == wanted;
        let statement = first.statements[i];
        assert(first.statements.contains(statement));
        to_multiset_contains(first.statements, statement);
        to_multiset_contains(second.statements, statement);
        let j = choose|j: int|
            0 <= j < second.statements.len() && second.statements[j] == statement;
        assert(second.statements[j].outcome(action, resource) == wanted);
    }
}

/// Adding a permitting statement that covers the request never lifts a
/// refusal: a policy that refused still refuses, and any other policy now
/// permits.
pub proof fn lemma_added_allow_is_monotonic<Engine: EngineTrait>(
    before: PolicyView<Engine>,
    after: PolicyView<Engine>,
    at: int,
    action: <Engine::Action as View>::V,
    resource: ResourceView<Engine>,
)
    requires
        0 <= at <= before.statements.len(),
        after.statements.len() == before.statements.len() + 1,
        after.statements == before.statements.insert(at, after.statements[at]),
        after.statements[at].effect == Effect::Allow,
        after.statements[at].covers(action, resource),
    ensures
        before.outcome(action, resource) == MaybeEffect::Deny ==> after.outcome(action, resource)
            == MaybeEffect::Deny,
        before.outcome(action, resource) != MaybeEffect::Deny ==> after.outcome(action, resource)
            == MaybeEffect::Allow,
{
    let added = after.statements[at];
    before.statements.insert_ensures(at, added);
    assert(added.outcome(action, resource) == MaybeEffect::Allow);
    if before.denies(action, resource) {
        let i = choose|i: int|
            0 <= i < before.statements.len() && (#[trigger] before.statements[i]).outcome(
                action,
                resource,
            ) == MaybeEffect::Deny;
        let j = if i < at {
            i
        } else {
            i + 1
        };
        assert(after.statements[j] == before.statements[i]);
        assert(after.statements[j].outcome(action, resource) == MaybeEffect::Deny);
    } else {
        if after.denies(action, resource) {
            let j = choose|j: int|
                0 <= j < after.statements.len() && (#[trigger] after.statements[j]).outcome(
                    action,
                    resource,
                ) == MaybeEffect::Deny;
            let i = if j < at {
                j
            } else {
                j - 1
            };
            assert(j != at);
            assert(after.statements[j] == before.statements[i]);
            assert(before.statements[i].outcome(action, resource) == MaybeEffect::Deny);
        }
    }
}

} // verus!
