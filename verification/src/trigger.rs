//! Triggers: reactions that fire on a ledger when a lifecycle condition
//! occurs, and the registry that holds them.

use crate::effect::Effect;
use crate::effect::GenericEffect;
use crate::effect::GenericEffectValue;
use crate::token::Ledger;
use crate::token::TokenContainer;
use crate::token::TokenType;
use std::collections::HashMap;
use vstd::prelude::*;

verus! {

/// The triggers registered for one condition, in the order in which they fire.
pub type TriggerList<T> = Vec<T>;

/// The moments at which triggers fire.
#[derive(Hash, Eq, PartialEq, Structural, Debug, Clone, Copy, PartialOrd, Ord)]
pub enum TriggerCondition {
    RoundStart,
    RoundEnd,
    TurnStart,
    TurnEnd,
}

impl TriggerCondition {
    /// Position of the condition in the declaration order.
    pub open spec fn ordinal(self) -> u8 {
        match self {
            TriggerCondition::RoundStart => 0,
            TriggerCondition::RoundEnd => 1,
            TriggerCondition::TurnStart => 2,
            TriggerCondition::TurnEnd => 3,
        }
    }

    /// The condition at a position; positions past the last give the last.
    pub open spec fn of_ordinal(i: u8) -> TriggerCondition {
        if i == 0 {
            TriggerCondition::RoundStart
        } else if i == 1 {
            TriggerCondition::RoundEnd
        } else if i == 2 {
            TriggerCondition::TurnStart
        } else {
            TriggerCondition::TurnEnd
        }
    }

    /// `ordinal` and `of_ordinal` are inverse to each other, so distinct
    /// conditions have distinct positions.
    pub proof fn lemma_ordinal_inverse()
        ensures
            forall|c: TriggerCondition| TriggerCondition::of_ordinal(#[trigger] c.ordinal()) == c,
    {
    }

    /// Position of the condition in the declaration order.
    pub fn index(&self) -> (i: u8)
        ensures
            i == self.ordinal(),
    {
        match self {
            TriggerCondition::RoundStart => 0,
            TriggerCondition::RoundEnd => 1,
            TriggerCondition::TurnStart => 2,
            TriggerCondition::TurnEnd => 3,
        }
    }
}

/// A reaction to a lifecycle condition. It reads and changes a ledger when it
/// fires, and says whether it is still alive; a registry drops the dead.
///
/// `description`, `alive` and `reaction` say what the three methods give; a
/// verified trigger defines them and is held to them. A trigger that does not
/// define them is taken to have no description, never to die and to change
/// nothing when it fires.
pub trait Triggerable {
    /// What the trigger is, in words.
    open spec fn description(&self) -> Seq<char> {
        Seq::empty()
    }

    /// Whether the trigger should stay registered.
    open spec fn alive(&self) -> bool {
        true
    }

    /// The ledger that firing on `ledger` leaves.
    open spec fn reaction(&self, ledger: Ledger) -> Ledger {
        ledger
    }

    /// What the trigger is, in words.
    fn get_description(&self) -> (text: String)
        ensures
            text@ == self.description(),
    ;

    /// Whether the trigger should stay registered.
    fn is_alive(&self) -> (alive: bool)
        ensures
            alive == self.alive(),
    ;

    /// Fires the trigger on a ledger.
    fn execute(&self, tokens: &mut TokenContainer)
        ensures
            final(tokens)@ == self.reaction(old(tokens)@),
    ;
}

/// A boxed trigger is a trigger: it does what the trigger in the box does.
impl<T: Triggerable + ?Sized> Triggerable for Box<T> {
    open spec fn description(&self) -> Seq<char> {
        (**self).description()
    }

    open spec fn alive(&self) -> bool {
        (**self).alive()
    }

    open spec fn reaction(&self, ledger: Ledger) -> Ledger {
        (**self).reaction(ledger)
    }

    fn get_description(&self) -> (text: String) {
        (**self).get_description()
    }

    fn is_alive(&self) -> (alive: bool) {
        (**self).is_alive()
    }

    fn execute(&self, tokens: &mut TokenContainer) {
        (**self).execute(tokens)
    }
}

/// The trigger that turns pending damage into lost health.
///
/// Damage lands only when at least as much `Damage` is pending as there is
/// `Health`: then that much `Health` and that much `Damage` are removed. Less
/// damage stays pending. The trigger never dies.
pub struct ApplyDamageTrigger {}

impl Triggerable for ApplyDamageTrigger {
    open spec fn description(&self) -> Seq<char> {
        "Apply damage to health"@
    }

    open spec fn alive(&self) -> bool {
        true
    }

    open spec fn reaction(&self, ledger: Ledger) -> Ledger {
        let damage = ledger.count(TokenType::Damage);
        if damage >= ledger.count(TokenType::Health) {
            ledger.remove(TokenType::Health, damage).remove(TokenType::Damage, damage)
        } else {
            ledger
        }
    }

    fn execute(&self, tokens: &mut TokenContainer) {
        let damage = tokens.get_token_count(&TokenType::Damage);
        let health = tokens.get_token_count(&TokenType::Health);

        if damage >= health {
            let remove_health_effect = GenericEffect::RemoveToken(
                GenericEffectValue::new(TokenType::Health, damage),
            );
            let remove_damage_effect = GenericEffect::RemoveToken(
                GenericEffectValue::new(TokenType::Damage, damage),
            );
            remove_health_effect.execute(tokens);
            remove_damage_effect.execute(tokens);
        }
    }

    fn get_description(&self) -> (text: String) {
        "Apply damage to health".to_string()
    }

    fn is_alive(&self) -> (alive: bool) {
        true
    }
}

/// Pending damage that has reached the health takes health and damage to
/// nothing, also where the two are equal; less damage changes nothing.
pub proof fn lemma_damage_lands_when_it_reaches_health(ledger: Ledger)
    ensures
        ledger.count(TokenType::Damage) >= ledger.count(TokenType::Health) ==> {
            &&& (ApplyDamageTrigger {  }).reaction(ledger).count(TokenType::Health) == 0
            &&& (ApplyDamageTrigger {  }).reaction(ledger).count(TokenType::Damage) == 0
        },
        ledger.count(TokenType::Damage) < ledger.count(TokenType::Health) ==> (ApplyDamageTrigger {  }).reaction(
            ledger,
        ) == ledger,
        forall|kind: TokenType|
            kind != TokenType::Health && kind != TokenType::Damage ==> (ApplyDamageTrigger {  }).reaction(
                ledger,
            ).count(kind) == ledger.count(kind),
{
}

/// The ledger that a list of triggers leaves when each fires in turn, first to last.
pub open spec fn fire_all<T: Triggerable>(triggers: Seq<T>, ledger: Ledger) -> Ledger
    decreases triggers.len(),
{
    if triggers.len() == 0 {
        ledger
    } else {
        triggers.last().reaction(fire_all(triggers.drop_last(), ledger))
    }
}

/// The triggers of a list that are alive, in their order.
pub open spec fn live<T: Triggerable>(triggers: Seq<T>) -> Seq<T>
    decreases triggers.len(),
{
    if triggers.len() == 0 {
        triggers
    } else if triggers.last().alive() {
        live(triggers.drop_last()).push(triggers.last())
    } else {
        live(triggers.drop_last())
    }
}

/// The live triggers of a list are alive and come from the list, and none
/// that is alive is left out.
pub proof fn lemma_live_holds_the_living<T: Triggerable>(triggers: Seq<T>)
    ensures
        live(triggers).len() <= triggers.len(),
        forall|i: int|
            0 <= i < live(triggers).len() ==> (#[trigger] live(triggers)[i]).alive()
                && triggers.contains(live(triggers)[i]),
        forall|i: int|
            0 <= i < triggers.len() && (#[trigger] triggers[i]).alive() ==> live(
                triggers,
            ).contains(triggers[i]),
    decreases triggers.len(),
{
    if triggers.len() > 0 {
        let rest = triggers.drop_last();
        let last = triggers.last();
        let kept = live(triggers);
        lemma_live_holds_the_living(rest);
        assert(kept == if last.alive() {
            live(rest).push(last)
        } else {
            live(rest)
        });
        assert forall|i: int| 0 <= i < kept.len() implies (#[trigger] kept[i]).alive()
            && triggers.contains(kept[i]) by {
            if i < live(rest).len() {
                let found = live(rest)[i];
                assert(found.alive() && rest.contains(found));
                let j = choose|j: int| 0 <= j < rest.len() && rest[j] == found;
                assert(triggers[j] == found);
            } else {
                assert(triggers[triggers.len() - 1] == kept[i]);
            }
        }
        assert forall|i: int| 0 <= i < triggers.len() && (#[trigger] triggers[i]).alive() implies kept.contains(
            triggers[i],
        ) by {
            if i < rest.len() {
                assert(rest[i] == triggers[i]);
                assert(live(rest).contains(rest[i]));
                let j = choose|j: int| 0 <= j < live(rest).len() && live(rest)[j] == rest[i];
                assert(kept[j] == triggers[i]);
            } else {
                assert(kept[kept.len() - 1] == triggers[i]);
            }
        }
    }
}

/// The mathematical model of a registry: for each condition that has
/// triggers, the list of them in firing order.
#[verifier::ext_equal]
pub struct Registry<T> {
    pub lists: Map<TriggerCondition, Seq<T>>,
}

impl<T: Triggerable> Registry<T> {
    /// No condition is kept with an empty list.
    pub open spec fn wf(self) -> bool {
        forall|condition: TriggerCondition| #[trigger]
            self.lists.contains_key(condition) ==> self.lists[condition].len() > 0
    }

    /// The triggers registered under a condition, in firing order.
    pub open spec fn triggers(self, condition: TriggerCondition) -> Seq<T> {
        if self.lists.contains_key(condition) {
            self.lists[condition]
        } else {
            Seq::empty()
        }
    }

    /// The registry with the triggers of a condition replaced: a condition
    /// without triggers is not kept.
    pub open spec fn with_triggers(
        self,
        condition: TriggerCondition,
        triggers: Seq<T>,
    ) -> Registry<T> {
        Registry {
            lists: if triggers.len() == 0 {
                self.lists.remove(condition)
            } else {
                self.lists.insert(condition, triggers)
            },
        }
    }

    /// The registry after `trigger` was registered under `condition`, behind
    /// the triggers that are there.
    pub open spec fn registered(self, condition: TriggerCondition, trigger: T) -> Registry<T> {
        self.with_triggers(condition, self.triggers(condition).push(trigger))
    }

    /// The ledger that firing the triggers of a condition leaves.
    pub open spec fn fired(self, condition: TriggerCondition, ledger: Ledger) -> Ledger {
        fire_all(self.triggers(condition), ledger)
    }

    /// The registry after the dead triggers of a condition were dropped.
    pub open spec fn pruned(self, condition: TriggerCondition) -> Registry<T> {
        self.with_triggers(condition, live(self.triggers(condition)))
    }

    /// Once a condition was pruned, only triggers that were alive are left
    /// under it: a trigger that was dead is gone, and the next firing of the
    /// condition is that of the live triggers alone, in their order. The other
    /// conditions keep their triggers.
    pub proof fn lemma_pruned_fire_only_the_living(self, condition: TriggerCondition, ledger: Ledger)
        requires
            self.wf(),
        ensures
            self.pruned(condition).wf(),
            self.pruned(condition).triggers(condition) == live(self.triggers(condition)),
            forall|i: int|
                0 <= i < self.pruned(condition).triggers(condition).len() ==> (
                #[trigger] self.pruned(condition).triggers(condition)[i]).alive(),
            forall|trigger: T|
                !trigger.alive() ==> !(#[trigger] self.pruned(condition).triggers(condition).contains(
                    trigger,
                )),
            self.pruned(condition).fired(condition, ledger) == fire_all(
                live(self.triggers(condition)),
                ledger,
            ),
            forall|other: TriggerCondition|
                other != condition ==> self.pruned(condition).triggers(other) == self.triggers(
                    other,
                ),
    {
        lemma_live_holds_the_living(self.triggers(condition));
        let after = self.pruned(condition);
        let kept = after.triggers(condition);
        assert forall|trigger: T| !trigger.alive() implies !(#[trigger] kept.contains(
            trigger,
        )) by {
            if kept.contains(trigger) {
                let i = choose|i: int| 0 <= i < kept.len() && kept[i] == trigger;
                assert(kept[i].alive());
            }
        }
        assert forall|c: TriggerCondition| #[trigger] after.lists.contains_key(c) implies after.lists[c].len()
            > 0 by {
            if c != condition {
                assert(self.lists.contains_key(c));
            }
        }
    }
}

/// The triggers of one actor, by the condition on which they fire.
pub struct TriggerContainer<T: Triggerable> {
    triggers: HashMap<u8, TriggerList<T>>,
}

impl<T: Triggerable> View for TriggerContainer<T> {
    type V = Registry<T>;

    closed spec fn view(&self) -> Registry<T> {
        Registry {
            lists: Map::new(
                |condition: TriggerCondition| self.triggers@.contains_key(condition.ordinal()),
                |condition: TriggerCondition| self.triggers@[condition.ordinal()]@,
            ),
        }
    }
}

/// The live triggers of a list, in their order.
fn retain_alive<T: Triggerable>(list: TriggerList<T>) -> (kept: TriggerList<T>)
    ensures
        kept@ == live(list@),
{
    let mut kept: TriggerList<T> = Vec::new();
    let ghost all = list@;
    for trigger in it: list
        invariant
            kept@ == live(it.seq().take(it.index() as int)),
            it.seq() == all,
    {
        proof {
            assert(it.seq().take(it.index() + 1).drop_last() =~= it.seq().take(it.index() as int));
        }
        if trigger.is_alive() {
            kept.push(trigger);
        }
    }
    proof {
        assert(all.take(all.len() as int) =~= all);
    }
    kept
}

impl<T: Triggerable> TriggerContainer<T> {
    /// No condition is kept with an empty list.
    #[verifier::type_invariant]
    pub open spec fn wf(&self) -> bool {
        self@.wf()
    }

    /// A registry without triggers.
    pub fn new() -> (registry: Self)
        ensures
            registry@.lists == Map::<TriggerCondition, Seq<T>>::empty(),
    {
        let registry = Self { triggers: HashMap::new() };
        assert(registry@.lists =~= Map::<TriggerCondition, Seq<T>>::empty());
        registry
    }

    /// Registers a trigger under a condition, behind the triggers that are there.
    pub fn add_trigger(&mut self, condition: TriggerCondition, trigger: T)
        ensures
            final(self)@ == old(self)@.registered(condition, trigger),
    {
        proof {
            use_type_invariant(&*self);
            TriggerCondition::lemma_ordinal_inverse();
        }
        let ghost before = self@;
        let i = condition.index();
        let mut triggers: HashMap<u8, TriggerList<T>> = HashMap::new();
        core::mem::swap(&mut self.triggers, &mut triggers);
        let mut list = match triggers.remove(&i) {
            Some(list) => list,
            None => Vec::new(),
        };
        assert(list@ == before.triggers(condition));
        list.push(trigger);
        triggers.insert(i, list);
        proof {
            let after = Registry {
                lists: Map::new(
                    |c: TriggerCondition| triggers@.contains_key(c.ordinal()),
                    |c: TriggerCondition| triggers@[c.ordinal()]@,
                ),
            };
            let expected = before.registered(condition, trigger);
            let pushed = before.triggers(condition).push(trigger);
            assert(pushed.len() > 0);
            assert(expected.lists == before.lists.insert(condition, pushed));
            assert(triggers@.contains_key(i));
            assert(triggers@[i]@ == pushed);
            assert(after.lists[condition] == expected.lists[condition]);
            assert forall|c: TriggerCondition| #[trigger]
                after.lists.contains_key(c) == expected.lists.contains_key(c) by {
                if c != condition {
                    assert(c.ordinal() != i);
                }
            }
            assert forall|c: TriggerCondition| #[trigger] after.lists.contains_key(c) implies after.lists[c]
                == expected.lists[c] by {
                if c != condition {
                    assert(c.ordinal() != i);
                }
            }
            assert(after.lists =~= expected.lists);
            assert forall|c: TriggerCondition| #[trigger] after.lists.contains_key(c) implies after.lists[c].len()
                > 0 by {
                if c != condition {
                    assert(before.lists.contains_key(c));
                }
            }
        }
        core::mem::swap(&mut self.triggers, &mut triggers);
    }

    /// Fires the triggers registered under a condition on a ledger, in the
    /// order in which they were registered. The registry stays as it is.
    pub fn execute_triggers(&self, condition: &TriggerCondition, tokens: &mut TokenContainer)
        ensures
            final(tokens)@ == self@.fired(*condition, old(tokens)@),
    {
        let i = condition.index();
        let Some(triggers) = self.triggers.get(&i) else {
            return ;
        };
        let mut next: usize = 0;
        while next < triggers.len()
            invariant
                next <= triggers.len(),
                tokens@ == fire_all(triggers@.take(next as int), old(tokens)@),
            decreases triggers.len() - next,
        {
            proof {
                assert(triggers@.take(next + 1).drop_last() =~= triggers@.take(next as int));
            }
            triggers[next].execute(tokens);
            next += 1;
        }
        proof {
            assert(triggers@.take(triggers.len() as int) =~= triggers@);
        }
    }

    /// Drops the triggers of a condition that are no longer alive. A
    /// condition left without triggers is no longer kept.
    pub fn clean(&mut self, condition: &TriggerCondition)
        ensures
            final(self)@ == old(self)@.pruned(*condition),
    {
        proof {
            use_type_invariant(&*self);
            TriggerCondition::lemma_ordinal_inverse();
            old(self)@.lemma_pruned_fire_only_the_living(
                *condition,
                Ledger { counts: Map::empty(), limits: Map::empty() },
            );
        }
        let i = condition.index();
        let mut triggers: HashMap<u8, TriggerList<T>> = HashMap::new();
        core::mem::swap(&mut self.triggers, &mut triggers);
        if let Some(list) = triggers.remove(&i) {
            let kept = retain_alive(list);
            if !kept.is_empty() {
                triggers.insert(i, kept);
            }
        }
        proof {
            let after = Registry {
                lists: Map::new(
                    |c: TriggerCondition| triggers@.contains_key(c.ordinal()),
                    |c: TriggerCondition| triggers@[c.ordinal()]@,
                ),
            };
            assert(after.lists =~= old(self)@.pruned(*condition).lists);
        }
        core::mem::swap(&mut self.triggers, &mut triggers);
    }
}

} // verus!
