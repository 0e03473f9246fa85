//! Statements: one effect for a list of actions on a list of resources.

use crate::effect::{Effect, MaybeEffect};
use crate::engine::{views_of, EngineTrait};
use crate::resource::{ResourceAbstract, ResourceView};
use crate::traits::MatchesTrait;
use vstd::prelude::*;

verus! {

/// A rule of a policy. It covers a request whose resource matches one of
/// `resources` and whose action matches one of `actions`.
#[derive(Debug, PartialEq, Eq, Clone)]
pub struct Statement<Engine: EngineTrait> {
    /// Whether the covered requests are permitted or refused.
    pub effect: Effect,
    /// The actions that the statement applies to.
    pub actions: Vec<Engine::Action>,
    /// The resources that the statement applies to.
    pub resources: Vec<ResourceAbstract<Engine>>,
}

/// What a statement holds.
pub struct StatementView<Engine: EngineTrait> {
    /// The effect of the statement.
    pub effect: Effect,
    /// What the declared actions hold, in order.
    pub actions: Seq<<Engine::Action as View>::V>,
    /// What the declared resources hold, in order.
    pub resources: Seq<ResourceView<Engine>>,
}

impl<Engine: EngineTrait> View for Statement<Engine> {
    type V = StatementView<Engine>;

    open spec fn view(&self) -> StatementView<Engine> {
        StatementView {
            effect: self.effect,
            actions: views_of(self.actions@),
            resources: views_of(self.resources@),
        }
    }
}

/// The outcome that an effect gives to a request it covers.
pub open spec fn outcome_of(effect: Effect) -> MaybeEffect {
    match effect {
        Effect::Allow => MaybeEffect::Allow,
        Effect::Deny => MaybeEffect::Deny,
    }
}

impl<Engine: EngineTrait> StatementView<Engine> {
    /// Some resource among the first `n` declared ones matches `resource`. A
    /// declared resource that cannot be compared matches nothing.
    pub open spec fn names_resource_among(self, n: int, resource: ResourceView<Engine>) -> bool {
        exists|i: int|
            0 <= i < n && (#[trigger] self.resources[i]).matches(resource) == Ok::<
                bool,
                &'static str,
            >(true)
    }

    /// Some action among the first `n` declared ones matches `action`. A
    /// declared action that cannot be compared matches nothing.
    pub open spec fn names_action_among(self, n: int, action: <Engine::Action as View>::V) -> bool {
        exists|j: int|
            0 <= j < n && Engine::Action::matches_spec(#[trigger] self.actions[j], action) == Ok::<
                bool,
                &'static str,
            >(true)
    }

    /// Some declared resource matches `resource`.
    pub open spec fn names_resource(self, resource: ResourceView<Engine>) -> bool {
        self.names_resource_among(self.resources.len() as int, resource)
    }

    /// Some declared action matches `action`.
    pub open spec fn names_action(self, action: <Engine::Action as View>::V) -> bool {
        self.names_action_among(self.actions.len() as int, action)
    }

    /// The statement applies to the request.
    pub open spec fn covers(
        self,
        action: <Engine::Action as View>::V,
        resource: ResourceView<Engine>,
    ) -> bool {
        self.names_resource(resource) && self.names_action(action)
    }

    /// The outcome of the statement for the request: its effect where it
    /// covers the request, nothing where it does not.
    pub open spec fn outcome(
        self,
        action: <Engine::Action as View>::V,
        resource: ResourceView<Engine>,
    ) -> MaybeEffect {
        if self.covers(action, resource) {
            outcome_of(self.effect)
        } else {
            MaybeEffect::NotSpecified
        }
    }
}

impl<Engine: EngineTrait> Statement<Engine> {
    /// Decides what this statement says of `action` on `resource`: its effect
    /// where it covers the request, `NotSpecified` where it does not. A deny
    /// is returned as soon as it is found.
    pub fn matches(&self, action: &Engine::Action, resource: &ResourceAbstract<Engine>) -> (e:
        MaybeEffect)
        ensures
            e == self@.outcome(action@, resource@),
    {
        let mut is_allow = false;
        let mut i: usize = 0;
        while i < self.resources.len()
            invariant
                i <= self.resources@.len(),
                is_allow == (self.effect == Effect::Allow && self@.names_resource_among(
                    i as int,
                    resource@,
                ) && self@.names_action(action@)),
                self.effect == Effect::Deny ==> !(self@.names_resource_among(i as int, resource@)
                    && self@.names_action(action@)),
            decreases self.resources@.len() - i,
        {
            let ghost allowed_before = is_allow;
            if let Ok(true) = self.resources[i].matches(resource) {
                let mut j: usize = 0;
                while j < self.actions.len()
                    invariant
                        j <= self.actions@.len(),
                        i < self.resources@.len(),
                        self@.resources[i as int].matches(resource@) == Ok::<bool, &'static str>(
                            true,
                        ),
                        allowed_before == (self.effect == Effect::Allow
                            && self@.names_resource_among(i as int, resource@)
                            && self@.names_action(action@)),
                        self.effect == Effect::Deny ==> !(self@.names_resource_among(
                            i as int,
                            resource@,
                        ) && self@.names_action(action@)),
                        is_allow == (allowed_before || (self.effect == Effect::Allow
                            && self@.names_action_among(j as int, action@))),
                        self.effect == Effect::Deny ==> !self@.names_action_among(
                            j as int,
                            action@,
                        ),
                    decreases self.actions@.len() - j,
                {
                    assert(self@.actions[j as int] == self.actions@[j as int]@);
                    if let Ok(true) = self.actions[j].matches(action) {
                        if self.effect == Effect::Deny {
                            return MaybeEffect::Deny;
                        } else if self.effect == Effect::Allow {
                            is_allow = true;
                        }
                    }
                    j += 1;
                }
            }
            i += 1;
        }
        if is_allow {
            MaybeEffect::Allow
        } else {
            MaybeEffect::NotSpecified
        }
    }
}

} // verus!
