use rand::rngs::StdRng;
use rand::Rng;
use rand::SeedableRng;
use token_combat::action::Action;
use token_combat::action::Fixed;
use token_combat::action::Resolution;
use token_combat::action::SingleEnemy;
use token_combat::action::TokenChange;
use token_combat::combat::Boundary;
use token_combat::combat::Combat;
use token_combat::combat::CombatState;
use token_combat::combat::Combatant;
use token_combat::combat::Side;
use token_combat::token::TokenContainer;
use token_combat::token::TokenSet;
use token_combat::token::TokenType;
use token_combat::trigger::ApplyDamageTrigger;
use token_combat::trigger::TriggerCondition;
use token_combat::trigger::Triggerable;
use token_combat::ui::action_clicked;

type Fighter = Combatant<Box<dyn Triggerable>>;

const LIMITS: [(TokenType, u8); 5] = [
    (TokenType::Health, 10),
    (TokenType::Damage, 10),
    (TokenType::Stamina, 5),
    (TokenType::Weak, 9),
    (TokenType::Strong, 9),
];

/// Adds one token of a kind when it fires.
struct Mark {
    kind: TokenType,
}

impl Triggerable for Mark {
    fn get_description(&self) -> String {
        "Mark".to_string()
    }

    fn is_alive(&self) -> bool {
        true
    }

    fn execute(&self, tokens: &mut TokenContainer) {
        tokens.add_token(&self.kind, 1);
    }
}

fn fighter(name: &str, health: u8) -> Fighter {
    let mut actor: Fighter = Combatant::new(name.to_string(), &LIMITS);
    actor.tokens.add_token(&TokenType::Health, health);
    actor.triggers.add_trigger(TriggerCondition::TurnStart, Box::new(ApplyDamageTrigger {}));
    actor
}

fn wait() -> Action {
    Action::new("Wait".to_string(), vec![], vec![], Resolution::Fixed(Fixed::new(vec![], vec![])))
}

fn stab(damage: u8) -> Action {
    Action::new(
        "Stab".to_string(),
        vec![],
        vec![],
        Resolution::Opposed(SingleEnemy::new(
            TokenSet::new(),
            vec![TokenChange::Add(TokenType::Damage, damage)],
            vec![TokenChange::Add(TokenType::Strong, 1)],
        )),
    )
}

#[test]
fn states_follow_each_other_round_by_round() {
    let mut state = CombatState::start(2);
    assert_eq!(state, CombatState::Turn(Side::First, 2));
    let mut seen = vec![];
    for _ in 0..8 {
        let (next, boundary) = state.consume_action(2);
        seen.push((next, boundary));
        state = next;
    }
    let round = vec![
        (CombatState::Turn(Side::First, 1), Boundary::Turn),
        (CombatState::Turn(Side::Second, 2), Boundary::Turn),
        (CombatState::Turn(Side::Second, 1), Boundary::Turn),
        (CombatState::Turn(Side::First, 2), Boundary::Round),
    ];
    assert_eq!(seen[..4], round[..]);
    assert_eq!(seen[4..], round[..]);
}

#[test]
fn single_action_turns_alternate() {
    let state = CombatState::start(1);
    let (second, boundary) = state.consume_action(1);
    assert_eq!((second, boundary), (CombatState::Turn(Side::Second, 1), Boundary::Turn));
    let (first, boundary) = second.consume_action(1);
    assert_eq!((first, boundary), (CombatState::Turn(Side::First, 1), Boundary::Round));
}

#[test]
fn sides_flip() {
    assert_eq!(Side::First.other(), Side::Second);
    assert_eq!(Side::Second.other(), Side::First);
}

#[test]
fn combat_walks_through_the_states() {
    let mut combat = Combat::new(fighter("A", 10), fighter("B", 10), 2);
    assert_eq!(combat.state(), CombatState::Turn(Side::First, 2));
    assert_eq!(combat.actions_per_round(), 2);
    assert_eq!((combat.first().actions, combat.second().actions), (2, 0));
    let action = wait();
    assert_eq!(combat.step_with(&action, 1, 0), (true, Boundary::Turn));
    assert_eq!(combat.state(), CombatState::Turn(Side::First, 1));
    assert_eq!((combat.first().actions, combat.second().actions), (1, 0));
    assert_eq!(combat.step_with(&action, 1, 0), (true, Boundary::Turn));
    assert_eq!(combat.state(), CombatState::Turn(Side::Second, 2));
    assert_eq!((combat.first().actions, combat.second().actions), (0, 2));
    assert_eq!(combat.step_with(&action, 1, 0), (true, Boundary::Turn));
    assert_eq!(combat.state(), CombatState::Turn(Side::Second, 1));
    assert_eq!((combat.first().actions, combat.second().actions), (0, 1));
    assert_eq!(combat.step_with(&action, 1, 0), (true, Boundary::Round));
    assert_eq!(combat.state(), CombatState::Turn(Side::First, 2));
    assert_eq!((combat.first().actions, combat.second().actions), (2, 0));
}

#[test]
fn inflicted_damage_lands_only_when_it_reaches_the_health() {
    let mut combat = Combat::new(fighter("A", 10), fighter("B", 10), 1);
    assert_eq!(combat.step_with(&stab(4), 100, 0), (true, Boundary::Turn));
    // inflicted, not yet resolved
    assert_eq!(combat.second().tokens.get_token_count(&TokenType::Health), 10);
    assert_eq!(combat.second().tokens.get_token_count(&TokenType::Damage), 4);
    assert_eq!(combat.first().tokens.get_token_count(&TokenType::Strong), 1);

    // the turn of B starts: four is less than ten and stays pending
    combat.step_with(&wait(), 1, 0);
    assert_eq!(combat.second().tokens.get_token_count(&TokenType::Health), 10);
    assert_eq!(combat.second().tokens.get_token_count(&TokenType::Damage), 4);

    // more damage piles up until it reaches the health
    combat.step_with(&stab(4), 100, 0);
    combat.step_with(&wait(), 1, 0);
    assert_eq!(combat.second().tokens.get_token_count(&TokenType::Health), 10);
    assert_eq!(combat.second().tokens.get_token_count(&TokenType::Damage), 8);
    combat.step_with(&stab(4), 100, 0);
    assert_eq!(combat.second().tokens.get_token_count(&TokenType::Damage), 10);
    combat.step_with(&wait(), 1, 0);
    assert_eq!(combat.second().tokens.get_token_count(&TokenType::Health), 0);
    assert_eq!(combat.second().tokens.get_token_count(&TokenType::Damage), 0);
}

#[test]
fn damage_equal_to_health_lands_at_the_next_turn_start() {
    let mut combat = Combat::new(fighter("A", 10), fighter("B", 4), 1);
    combat.step_with(&stab(4), 100, 0);
    assert_eq!(combat.second().tokens.get_token_count(&TokenType::Health), 4);
    assert_eq!(combat.second().tokens.get_token_count(&TokenType::Damage), 4);
    combat.begin_turn();
    assert_eq!(combat.second().tokens.get_token_count(&TokenType::Health), 0);
    assert_eq!(combat.second().tokens.get_token_count(&TokenType::Damage), 0);
}

#[test]
fn miss_changes_nothing_and_uses_the_action_up() {
    let mut dodger = fighter("B", 10);
    dodger.tokens.add_token(&TokenType::Dodge, 1);
    let mut combat = Combat::new(fighter("A", 10), dodger, 2);
    assert_eq!(combat.step_with(&stab(4), 50, 0), (false, Boundary::Turn));
    assert_eq!(combat.state(), CombatState::Turn(Side::First, 1));
    assert_eq!(combat.second().tokens.get_token_count(&TokenType::Damage), 0);
    assert_eq!(combat.first().tokens.get_token_count(&TokenType::Strong), 0);
    assert_eq!(combat.step_with(&stab(4), 51, 0), (true, Boundary::Turn));
    assert_eq!(combat.second().tokens.get_token_count(&TokenType::Damage), 4);
    assert_eq!(combat.first().tokens.get_token_count(&TokenType::Strong), 1);
}

#[test]
fn step_draws_the_roll_from_the_generator() {
    let mut hit = None;
    let mut miss = None;
    for seed in 0..10000 {
        let roll: u8 = StdRng::seed_from_u64(seed).gen_range(1..=100);
        if roll == 51 && hit.is_none() {
            hit = Some(seed);
        }
        if roll == 50 && miss.is_none() {
            miss = Some(seed);
        }
    }
    let mut dodger = fighter("B", 10);
    dodger.tokens.add_token(&TokenType::Dodge, 1);
    let mut combat = Combat::new(fighter("A", 10), dodger, 2);
    let mut rng = StdRng::seed_from_u64(miss.expect("a seed that rolls 50"));
    assert_eq!(combat.step(&stab(4), &mut rng), (false, Boundary::Turn));
    assert_eq!(combat.second().tokens.get_token_count(&TokenType::Damage), 0);
    let mut rng = StdRng::seed_from_u64(hit.expect("a seed that rolls 51"));
    assert_eq!(combat.step(&stab(4), &mut rng), (true, Boundary::Turn));
    assert_eq!(combat.second().tokens.get_token_count(&TokenType::Damage), 4);
    assert_eq!(combat.state(), CombatState::Turn(Side::Second, 2));
}

#[test]
fn boundary_triggers_fire_for_the_side_that_acted() {
    let mut first = fighter("A", 10);
    first.triggers.add_trigger(TriggerCondition::TurnEnd, Box::new(Mark { kind: TokenType::Weak }));
    first.triggers.add_trigger(TriggerCondition::RoundEnd, Box::new(Mark { kind: TokenType::Strong }));
    first.triggers.add_trigger(TriggerCondition::RoundStart, Box::new(Mark { kind: TokenType::Stamina }));
    let mut second = fighter("B", 10);
    second.triggers.add_trigger(TriggerCondition::TurnEnd, Box::new(Mark { kind: TokenType::Weak }));
    second.triggers.add_trigger(TriggerCondition::RoundEnd, Box::new(Mark { kind: TokenType::Strong }));
    second.triggers.add_trigger(TriggerCondition::RoundStart, Box::new(Mark { kind: TokenType::Stamina }));
    let mut combat = Combat::new(first, second, 2);
    let counts = |combat: &Combat<Box<dyn Triggerable>>| {
        (
            combat.first().tokens.get_token_count(&TokenType::Weak),
            combat.first().tokens.get_token_count(&TokenType::Strong),
            combat.second().tokens.get_token_count(&TokenType::Weak),
            combat.second().tokens.get_token_count(&TokenType::Strong),
        )
    };
    let action = wait();
    combat.step_with(&action, 1, 0);
    assert_eq!(counts(&combat), (1, 0, 0, 0));
    combat.step_with(&action, 1, 0);
    assert_eq!(counts(&combat), (2, 0, 0, 0));
    combat.step_with(&action, 1, 0);
    assert_eq!(counts(&combat), (2, 0, 1, 0));
    combat.step_with(&action, 1, 0);
    assert_eq!(counts(&combat), (2, 0, 2, 1));
    combat.step_with(&action, 1, 0);
    assert_eq!(counts(&combat), (3, 0, 2, 1));
    // nothing fires at the start of a round
    assert_eq!(combat.first().tokens.get_token_count(&TokenType::Stamina), 0);
    assert_eq!(combat.second().tokens.get_token_count(&TokenType::Stamina), 0);
}

#[test]
fn outcome_is_applied_by_role() {
    let mut combat = Combat::new(fighter("A", 10), fighter("B", 10), 1);
    let outcome = Some((vec![TokenChange::Add(TokenType::Strong, 2)], vec![TokenChange::Add(TokenType::Weak, 3)]));
    assert_eq!(combat.finish_action(&outcome), Boundary::Turn);
    assert_eq!(combat.first().tokens.get_token_count(&TokenType::Strong), 2);
    assert_eq!(combat.second().tokens.get_token_count(&TokenType::Weak), 3);
    assert_eq!(combat.finish_action(&outcome), Boundary::Round);
    assert_eq!(combat.second().tokens.get_token_count(&TokenType::Strong), 2);
    assert_eq!(combat.first().tokens.get_token_count(&TokenType::Weak), 3);
    assert_eq!(combat.finish_action(&None), Boundary::Turn);
    assert_eq!(combat.first().tokens.get_token_count(&TokenType::Strong), 2);
    assert_eq!(combat.state(), CombatState::Turn(Side::Second, 1));
}

#[test]
fn offered_actions_follow_the_acting_side() {
    let mut first = fighter("A", 10);
    first.tokens.add_token(&TokenType::Stamina, 2);
    let mut combat = Combat::new(first, fighter("B", 10), 1);
    let shove = Action::new(
        "Shove".to_string(),
        vec![(TokenType::Stamina, 2)],
        vec![(TokenType::Health, 11)],
        Resolution::Fixed(Fixed::new(vec![TokenChange::Remove(TokenType::Stamina, 2)], vec![])),
    );
    assert!(combat.available(&shove));
    combat.step_with(&shove, 1, 0);
    assert_eq!(combat.first().tokens.get_token_count(&TokenType::Stamina), 0);
    // now B acts, who has no stamina; A holds no more than ten health
    assert!(!combat.available(&shove));
    assert!(combat.available(&wait()));
}

#[test]
fn click_chooses_a_legal_action_only() {
    let mut source = fighter("A", 10);
    let target = fighter("B", 10);
    let shove = Action::new(
        "Shove".to_string(),
        vec![(TokenType::Stamina, 2)],
        vec![(TokenType::Health, 11)],
        Resolution::Fixed(Fixed::new(vec![], vec![])),
    );
    assert!(action_clicked(true, &shove, &source, &target).is_none());
    source.tokens.add_token(&TokenType::Stamina, 2);
    assert_eq!(action_clicked(true, &shove, &source, &target).map(|a| a.get_name()), Some("Shove".to_string()));
    assert!(action_clicked(false, &shove, &source, &target).is_none());
}

#[test]
fn actor_fires_and_prunes_its_own_triggers() {
    let mut actor = fighter("B", 4);
    actor.tokens.add_token(&TokenType::Damage, 5);
    actor.fire(TriggerCondition::TurnEnd);
    assert_eq!(actor.tokens.get_token_count(&TokenType::Health), 4);
    actor.fire(TriggerCondition::TurnStart);
    assert_eq!(actor.tokens.get_token_count(&TokenType::Health), 0);
    assert_eq!(actor.tokens.get_token_count(&TokenType::Damage), 0);
    assert_eq!(actor.name, "B");
    assert_eq!(actor.actions, 0);
}
