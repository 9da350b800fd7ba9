//! The combat between two actors: whose turn it is, how many actions are left
//! in it, and what happens around each action.

use crate::action::agrees;
use crate::action::apply_changes;
use crate::action::apply_token_changes;
use crate::action::Action;
use crate::action::Actionable;
use crate::action::Outcome;
use crate::action::TokenChange;
use crate::token::map_of_pairs;
use crate::token::Ledger;
use crate::token::TokenType;
use crate::token::TokenContainer;
use crate::trigger::Registry;
use crate::trigger::TriggerCondition;
use crate::trigger::TriggerContainer;
use crate::trigger::Triggerable;
use rand::rngs::StdRng;
use vstd::prelude::*;

verus! {

/// One of the two sides of a combat. `First` moves first in a round.
#[derive(Debug, Clone, Copy, PartialEq, Eq, Structural)]
pub enum Side {
    First,
    Second,
}

impl Side {
    /// The other side.
    pub open spec fn flipped(self) -> Side {
        match self {
            Side::First => Side::Second,
            Side::Second => Side::First,
        }
    }

    /// The other side.
    pub fn other(self) -> (side: Side)
        ensures
            side == self.flipped(),
    {
        match self {
            Side::First => Side::Second,
            Side::Second => Side::First,
        }
    }
}

/// What an action that was consumed ended: a turn, or with it a round. A
/// round ends when the turn passes from `Second` back to `First`.
#[derive(Debug, Clone, Copy, PartialEq, Eq, Structural)]
pub enum Boundary {
    Turn,
    Round,
}

/// Whose turn it is, and how many actions are left in it: at least one.
#[derive(Debug, Clone, Copy, PartialEq, Eq, Structural)]
pub enum CombatState {
    Turn(Side, u8),
}

impl CombatState {
    /// The side whose turn it is.
    pub open spec fn side(self) -> Side {
        match self {
            CombatState::Turn(side, _) => side,
        }
    }

    /// The actions left in the turn.
    pub open spec fn remaining(self) -> nat {
        match self {
            CombatState::Turn(_, remaining) => remaining as nat,
        }
    }

    /// At least one action is left.
    pub open spec fn wf(self) -> bool {
        self.remaining() >= 1
    }

    /// The state in which a combat starts.
    pub open spec fn initial(actions_per_round: u8) -> CombatState {
        CombatState::Turn(Side::First, actions_per_round)
    }

    /// Whether consuming one action passes the turn to the other side.
    pub open spec fn passes_turn(self) -> bool {
        self.remaining() <= 1
    }

    /// The state after one action was consumed: one action less for the same
    /// side, or, after the last action of a turn, a fresh turn of the other side.
    pub open spec fn consumed(self, actions_per_round: u8) -> CombatState {
        match self {
            CombatState::Turn(side, remaining) => if remaining > 1 {
                CombatState::Turn(side, (remaining - 1) as u8)
            } else {
                CombatState::Turn(side.flipped(), actions_per_round)
            },
        }
    }

    /// What consuming one action ends: a round when the turn passes back to
    /// `First`, else a turn.
    pub open spec fn boundary(self) -> Boundary {
        if self.passes_turn() && self.side() == Side::Second {
            Boundary::Round
        } else {
            Boundary::Turn
        }
    }

    /// The state in which a combat with that many actions in a turn starts.
    pub fn start(actions_per_round: u8) -> (state: CombatState)
        requires
            actions_per_round >= 1,
        ensures
            state == CombatState::initial(actions_per_round),
            state.wf(),
    {
        CombatState::Turn(Side::First, actions_per_round)
    }

    /// Consumes one action. Returns the next state and what the action ended.
    pub fn consume_action(self, actions_per_round: u8) -> (next: (CombatState, Boundary))
        requires
            self.wf(),
            actions_per_round >= 1,
        ensures
            next.0 == self.consumed(actions_per_round),
            next.1 == self.boundary(),
            next.0.wf(),
    {
        match self {
            CombatState::Turn(side, remaining) => {
                if remaining > 1 {
                    (CombatState::Turn(side, remaining - 1), Boundary::Turn)
                } else {
                    let boundary = match side {
                        Side::First => Boundary::Turn,
                        Side::Second => Boundary::Round,
                    };
                    (CombatState::Turn(side.other(), actions_per_round), boundary)
                }
            },
        }
    }
}

/// With an action left over, consuming one keeps the side and ends a turn.
pub proof fn lemma_action_within_turn(state: CombatState, actions_per_round: u8)
    requires
        state.remaining() > 1,
    ensures
        state.consumed(actions_per_round).side() == state.side(),
        state.consumed(actions_per_round).remaining() == state.remaining() - 1,
        state.boundary() == Boundary::Turn,
{
}

/// The last action of a turn passes the turn to the other side with a full
/// count of actions; it ends a round exactly if `Second` was acting.
pub proof fn lemma_last_action_passes_turn(state: CombatState, actions_per_round: u8)
    requires
        state.remaining() == 1,
    ensures
        state.consumed(actions_per_round) == CombatState::Turn(
            state.side().flipped(),
            actions_per_round,
        ),
        state.boundary() == Boundary::Round <==> state.side() == Side::Second,
        state.boundary() == Boundary::Round <==> state.consumed(actions_per_round).side()
            == Side::First,
{
}

impl CombatState {
    /// The state after that many actions were consumed.
    pub open spec fn after_actions(self, actions_per_round: u8, actions: nat) -> CombatState
        decreases actions,
    {
        if actions == 0 {
            self
        } else {
            self.after_actions(actions_per_round, (actions - 1) as nat).consumed(actions_per_round)
        }
    }
}

/// Within a turn each action leaves one action less, and the actions that
/// are left in a turn bring the turn of the other side, with a full count.
pub proof fn lemma_turn_runs_out(state: CombatState, actions_per_round: u8, actions: nat)
    requires
        state.wf(),
        actions <= state.remaining(),
    ensures
        actions < state.remaining() ==> state.after_actions(actions_per_round, actions)
            == CombatState::Turn(state.side(), (state.remaining() - actions) as u8),
        actions == state.remaining() ==> state.after_actions(actions_per_round, actions)
            == CombatState::Turn(state.side().flipped(), actions_per_round),
    decreases actions,
{
    if actions > 0 {
        lemma_turn_runs_out(state, actions_per_round, (actions - 1) as nat);
    }
}

/// A round of two full turns brings the combat back to the state in which
/// it started: the sides alternate for ever.
pub proof fn lemma_round_returns(actions_per_round: u8)
    requires
        actions_per_round >= 1,
    ensures
        CombatState::initial(actions_per_round).after_actions(
            actions_per_round,
            2 * (actions_per_round as nat),
        ) == CombatState::initial(actions_per_round),
{
    let start = CombatState::initial(actions_per_round);
    let turn = actions_per_round as nat;
    let half = CombatState::Turn(Side::Second, actions_per_round);
    lemma_turn_runs_out(start, actions_per_round, turn);
    lemma_turn_runs_out(half, actions_per_round, turn);
    lemma_actions_add_up(start, actions_per_round, turn, turn);
}

/// Consuming actions one run after the other is consuming them all.
pub proof fn lemma_actions_add_up(state: CombatState, actions_per_round: u8, first: nat, then: nat)
    ensures
        state.after_actions(actions_per_round, first + then) == state.after_actions(
            actions_per_round,
            first,
        ).after_actions(actions_per_round, then),
    decreases then,
{
    if then > 0 {
        lemma_actions_add_up(state, actions_per_round, first, (then - 1) as nat);
        assert(first + then - 1 == first + (then - 1));
    }
}

/// The mathematical model of an actor in combat.
#[verifier::ext_equal]
pub struct ActorModel<T> {
    pub name: Seq<char>,
    pub actions: nat,
    pub ledger: Ledger,
    pub registry: Registry<T>,
}

impl<T: Triggerable> ActorModel<T> {
    /// The actor after the triggers of a condition fired on its ledger, in
    /// their order, and the dead among them were dropped.
    pub open spec fn fired(self, condition: TriggerCondition) -> ActorModel<T> {
        ActorModel {
            name: self.name,
            actions: self.actions,
            ledger: self.registry.fired(condition, self.ledger),
            registry: self.registry.pruned(condition),
        }
    }

    /// The actor after a list of changes was applied to its ledger.
    pub open spec fn changed(self, changes: Seq<TokenChange>) -> ActorModel<T> {
        ActorModel {
            name: self.name,
            actions: self.actions,
            ledger: apply_changes(self.ledger, changes),
            registry: self.registry,
        }
    }

    /// The actor with that many actions left in its turn.
    pub open spec fn with_actions(self, actions: nat) -> ActorModel<T> {
        ActorModel { name: self.name, actions, ledger: self.ledger, registry: self.registry }
    }
}

/// An actor in combat: a name, the actions left in its turn, its tokens and its triggers.
pub struct Combatant<T: Triggerable> {
    pub name: String,
    pub actions: u8,
    pub tokens: TokenContainer,
    pub triggers: TriggerContainer<T>,
}

impl<T: Triggerable> View for Combatant<T> {
    type V = ActorModel<T>;

    open spec fn view(&self) -> ActorModel<T> {
        ActorModel {
            name: self.name@,
            actions: self.actions as nat,
            ledger: self.tokens@,
            registry: self.triggers@,
        }
    }
}

impl<T: Triggerable> Combatant<T> {
    /// An actor with no actions, no tokens and no triggers, whose kinds have
    /// the capacities that `limits` lists.
    pub fn new(name: String, limits: &[(TokenType, u8)]) -> (actor: Self)
        ensures
            actor@.name == name@,
            actor@.actions == 0,
            actor@.ledger.counts == Map::<TokenType, u8>::empty(),
            actor@.ledger.limits == map_of_pairs(limits@),
            actor@.registry.lists == Map::<TriggerCondition, Seq<T>>::empty(),
    {
        Self { name, actions: 0, tokens: TokenContainer::new(limits), triggers: TriggerContainer::new() }
    }

    /// Fires the triggers of a condition on the actor's own ledger, in their
    /// order, then drops the dead among them.
    pub fn fire(&mut self, condition: TriggerCondition)
        ensures
            final(self)@ == old(self)@.fired(condition),
    {
        self.triggers.execute_triggers(&condition, &mut self.tokens);
        self.triggers.clean(&condition);
    }
}

/// The changes that an outcome holds for the acting side and for the opposing
/// side; a miss holds none.
pub open spec fn changes_of(outcome: Outcome) -> (Seq<TokenChange>, Seq<TokenChange>) {
    match outcome {
        Some((to_source, to_target)) => (to_source@, to_target@),
        None => (Seq::empty(), Seq::empty()),
    }
}

/// The mathematical model of a combat.
#[verifier::ext_equal]
pub struct CombatModel<T> {
    pub first: ActorModel<T>,
    pub second: ActorModel<T>,
    pub state: CombatState,
    pub actions_per_round: u8,
}

impl<T: Triggerable> CombatModel<T> {
    /// At least one action is left in the turn, and a turn has at least one action.
    pub open spec fn wf(self) -> bool {
        self.state.wf() && self.actions_per_round >= 1
    }

    /// The actor whose turn it is.
    pub open spec fn acting(self) -> ActorModel<T> {
        match self.state.side() {
            Side::First => self.first,
            Side::Second => self.second,
        }
    }

    /// The actor whose turn it is not.
    pub open spec fn opposing(self) -> ActorModel<T> {
        match self.state.side() {
            Side::First => self.second,
            Side::Second => self.first,
        }
    }

    /// The combat with the two actors replaced, by their roles in the turn.
    pub open spec fn with_actors(self, acting: ActorModel<T>, opposing: ActorModel<T>) -> CombatModel<T> {
        match self.state.side() {
            Side::First => CombatModel { first: acting, second: opposing, ..self },
            Side::Second => CombatModel { first: opposing, second: acting, ..self },
        }
    }

    /// The combat after the acting side's `TurnStart` triggers fired and were pruned.
    pub open spec fn turn_started(self) -> CombatModel<T> {
        self.with_actors(self.acting().fired(TriggerCondition::TurnStart), self.opposing())
    }

    /// The combat after two lists of changes were applied, the first to the
    /// acting side and the second to the opposing side.
    pub open spec fn resolved(self, changes: (Seq<TokenChange>, Seq<TokenChange>)) -> CombatModel<T> {
        self.with_actors(self.acting().changed(changes.0), self.opposing().changed(changes.1))
    }

    /// The combat after one action was consumed. The side that acted has its
    /// `TurnEnd` triggers fired and pruned, and after them, where a round
    /// ended, its `RoundEnd` triggers. The state moves on, and each actor
    /// has the actions that the new state leaves it: the side whose turn it
    /// is those of the state, the other side none.
    pub open spec fn advanced(self) -> CombatModel<T> {
        let after_turn = self.acting().fired(TriggerCondition::TurnEnd);
        let after_round = match self.state.boundary() {
            Boundary::Round => after_turn.fired(TriggerCondition::RoundEnd),
            Boundary::Turn => after_turn,
        };
        let next = self.state.consumed(self.actions_per_round);
        let (acting, opposing) = if self.state.passes_turn() {
            (after_round.with_actions(0), self.opposing().with_actions(next.remaining()))
        } else {
            (after_round.with_actions(next.remaining()), self.opposing().with_actions(0))
        };
        CombatModel { state: next, ..self.with_actors(acting, opposing) }
    }

    /// The combat after an action that was resolved to `changes` was
    /// carried through: the changes are applied, then the action is consumed.
    pub open spec fn finished(self, changes: (Seq<TokenChange>, Seq<TokenChange>)) -> CombatModel<T> {
        self.resolved(changes).advanced()
    }

    /// What `action` gives on a roll and a magnitude once the turn has started.
    pub open spec fn outcome_of(self, action: Action, roll: nat, magnitude: u8) -> Option<
        (Seq<TokenChange>, Seq<TokenChange>),
    > {
        action.outcome(
            roll,
            magnitude,
            self.turn_started().acting().ledger,
            self.turn_started().opposing().ledger,
        )
    }

    /// The combat after one whole step with `action` on a roll and a
    /// magnitude: the turn starts, the action is resolved against the
    /// ledgers as they are then, its changes are applied (none on a miss),
    /// and the action is consumed.
    pub open spec fn stepped(self, action: Action, roll: nat, magnitude: u8) -> CombatModel<T> {
        self.turn_started().finished(
            match self.outcome_of(action, roll, magnitude) {
                Some(changes) => changes,
                None => (Seq::empty(), Seq::empty()),
            },
        )
    }
}

/// A combat between two actors.
pub struct Combat<T: Triggerable> {
    first: Combatant<T>,
    second: Combatant<T>,
    state: CombatState,
    actions_per_round: u8,
}

impl<T: Triggerable> View for Combat<T> {
    type V = CombatModel<T>;

    closed spec fn view(&self) -> CombatModel<T> {
        CombatModel {
            first: self.first@,
            second: self.second@,
            state: self.state,
            actions_per_round: self.actions_per_round,
        }
    }
}

/// Applies the changes of an outcome: the first list to the acting side, the
/// second to the opposing side. A miss changes nothing.
fn apply_outcome<T: Triggerable>(acting: &mut Combatant<T>, opposing: &mut Combatant<T>, outcome: &Outcome)
    ensures
        final(acting)@ == old(acting)@.changed(changes_of(*outcome).0),
        final(opposing)@ == old(opposing)@.changed(changes_of(*outcome).1),
{
    match outcome {
        Some((to_source, to_target)) => {
            apply_token_changes(to_source.as_slice(), &mut acting.tokens);
            apply_token_changes(to_target.as_slice(), &mut opposing.tokens);
        },
        None => {},
    }
}

/// Fires what ends with an action of `acting`, and sets the actions that are
/// left to each side.
fn end_action<T: Triggerable>(
    acting: &mut Combatant<T>,
    opposing: &mut Combatant<T>,
    boundary: Boundary,
    passes_turn: bool,
    remaining: u8,
)
    ensures
        final(acting)@ == ({
            let after_turn = old(acting)@.fired(TriggerCondition::TurnEnd);
            let after_round = match boundary {
                Boundary::Round => after_turn.fired(TriggerCondition::RoundEnd),
                Boundary::Turn => after_turn,
            };
            after_round.with_actions(
                if passes_turn {
                    0
                } else {
                    remaining as nat
                },
            )
        }),
        final(opposing)@ == old(opposing)@.with_actions(
            if passes_turn {
                remaining as nat
            } else {
                0
            },
        ),
{
    acting.fire(TriggerCondition::TurnEnd);
    match boundary {
        Boundary::Round => acting.fire(TriggerCondition::RoundEnd),
        Boundary::Turn => {},
    }
    if passes_turn {
        acting.actions = 0;
        opposing.actions = remaining;
    } else {
        acting.actions = remaining;
        opposing.actions = 0;
    }
}

impl<T: Triggerable> Combat<T> {
    /// At least one action is left in the turn, and a turn has at least one action.
    pub open spec fn wf(&self) -> bool {
        self@.wf()
    }

    /// A combat of two actors that starts with the turn of `first`.
    pub fn new(first: Combatant<T>, second: Combatant<T>, actions_per_round: u8) -> (combat: Self)
        requires
            actions_per_round >= 1,
        ensures
            combat.wf(),
            combat@.first == first@.with_actions(actions_per_round as nat),
            combat@.second == second@.with_actions(0),
            combat@.state == CombatState::initial(actions_per_round),
            combat@.actions_per_round == actions_per_round,
    {
        let mut first = first;
        let mut second = second;
        first.actions = actions_per_round;
        second.actions = 0;
        Self { first, second, state: CombatState::start(actions_per_round), actions_per_round }
    }

    /// The actor that moves first in a round.
    pub fn first(&self) -> (actor: &Combatant<T>)
        ensures
            actor@ == self@.first,
    {
        &self.first
    }

    /// The actor that moves second in a round.
    pub fn second(&self) -> (actor: &Combatant<T>)
        ensures
            actor@ == self@.second,
    {
        &self.second
    }

    /// Whose turn it is and how many actions are left in it.
    pub fn state(&self) -> (state: CombatState)
        ensures
            state == self@.state,
    {
        self.state
    }

    /// How many actions a turn has.
    pub fn actions_per_round(&self) -> (actions: u8)
        ensures
            actions == self@.actions_per_round,
    {
        self.actions_per_round
    }

    /// Whether the side whose turn it is may perform `action` now.
    pub fn available(&self, action: &Action) -> (legal: bool)
        ensures
            legal == action.legal(self@.acting().ledger, self@.opposing().ledger),
    {
        match self.state {
            CombatState::Turn(Side::First, _) => action.can_perform(&self.first.tokens, &self.second.tokens),
            CombatState::Turn(Side::Second, _) => action.can_perform(&self.second.tokens, &self.first.tokens),
        }
    }

    /// Starts the turn of an action: the acting side's `TurnStart` triggers
    /// fire and are pruned.
    pub fn begin_turn(&mut self)
        ensures
            final(self)@ == old(self)@.turn_started(),
    {
        match self.state {
            CombatState::Turn(Side::First, _) => self.first.fire(TriggerCondition::TurnStart),
            CombatState::Turn(Side::Second, _) => self.second.fire(TriggerCondition::TurnStart),
        }
    }

    /// Carries an action through that was resolved to `outcome`: applies its
    /// changes, none on a miss, and consumes the action. Returns what the
    /// action ended.
    pub fn finish_action(&mut self, outcome: &Outcome) -> (boundary: Boundary)
        requires
            old(self).wf(),
        ensures
            final(self).wf(),
            final(self)@ == old(self)@.finished(changes_of(*outcome)),
            boundary == old(self)@.state.boundary(),
    {
        let (next, boundary) = self.state.consume_action(self.actions_per_round);
        let passes_turn = match self.state {
            CombatState::Turn(_, remaining) => remaining <= 1,
        };
        let remaining = match next {
            CombatState::Turn(_, remaining) => remaining,
        };
        match self.state {
            CombatState::Turn(Side::First, _) => {
                apply_outcome(&mut self.first, &mut self.second, outcome);
                end_action(&mut self.first, &mut self.second, boundary, passes_turn, remaining);
            },
            CombatState::Turn(Side::Second, _) => {
                apply_outcome(&mut self.second, &mut self.first, outcome);
                end_action(&mut self.second, &mut self.first, boundary, passes_turn, remaining);
            },
        }
        self.state = next;
        boundary
    }

    /// Takes one whole step with `action` on a roll and a magnitude that
    /// were drawn already. The action must be one that the acting side may
    /// perform. Returns whether the action hit, and what it ended.
    pub fn step_with(&mut self, action: &Action, roll: u8, magnitude: u8) -> (report: (bool, Boundary))
        requires
            old(self).wf(),
            action.legal(old(self)@.acting().ledger, old(self)@.opposing().ledger),
        ensures
            final(self).wf(),
            final(self)@ == old(self)@.stepped(*action, roll as nat, magnitude),
            report.0 == old(self)@.outcome_of(*action, roll as nat, magnitude).is_some(),
            report.1 == old(self)@.state.boundary(),
    {
        self.begin_turn();
        let outcome = match self.state {
            CombatState::Turn(Side::First, _) => action.resolve(
                roll,
                magnitude,
                &self.first.tokens,
                &self.second.tokens,
            ),
            CombatState::Turn(Side::Second, _) => action.resolve(
                roll,
                magnitude,
                &self.second.tokens,
                &self.first.tokens,
            ),
        };
        let boundary = self.finish_action(&outcome);
        (outcome.is_some(), boundary)
    }

    /// Takes one whole step with `action`, drawing from `rng` what the
    /// action draws. The action must be one that the acting side may
    /// perform. Returns whether the action hit, and what it ended.
    pub fn step(&mut self, action: &Action, rng: &mut StdRng) -> (report: (bool, Boundary))
        requires
            old(self).wf(),
            action.legal(old(self)@.acting().ledger, old(self)@.opposing().ledger),
        ensures
            final(self).wf(),
            exists|roll: u8, magnitude: u8| #[trigger]
                action.drawable(roll, magnitude) && final(self)@ == old(self)@.stepped(
                    *action,
                    roll as nat,
                    magnitude,
                ) && report.0 == old(self)@.outcome_of(*action, roll as nat, magnitude).is_some(),
            report.1 == old(self)@.state.boundary(),
    {
        self.begin_turn();
        let outcome = match self.state {
            CombatState::Turn(Side::First, _) => action.execute(rng, &self.first.tokens, &self.second.tokens),
            CombatState::Turn(Side::Second, _) => action.execute(rng, &self.second.tokens, &self.first.tokens),
        };
        let boundary = self.finish_action(&outcome);
        proof {
            let started = old(self)@.turn_started();
            let (roll, magnitude) = choose|roll: u8, magnitude: u8| #[trigger]
                action.drawable(roll, magnitude) && agrees(
                    outcome,
                    action.outcome(roll as nat, magnitude, started.acting().ledger, started.opposing().ledger),
                );
            assert(action.drawable(roll, magnitude));
        }
        (outcome.is_some(), boundary)
    }
}

} // verus!
