//! Actions: what an actor can do on its turn, when it may do it, and what it changes.

use crate::token::Ledger;
use crate::token::TokenContainer;
use crate::token::TokenSet;
use crate::token::TokenType;
use rand::rngs::StdRng;
use rand::Rng;
use vstd::prelude::*;

verus! {

/// A change of one ledger: tokens of one kind added or removed.
#[derive(Clone, Copy, PartialEq, Eq, Structural, Debug)]
pub enum TokenChange {
    Add(TokenType, u8),
    Remove(TokenType, u8),
}

impl TokenChange {
    /// The ledger that the change leaves.
    pub open spec fn applied(self, ledger: Ledger) -> Ledger {
        match self {
            TokenChange::Add(kind, amount) => ledger.add(kind, amount as nat),
            TokenChange::Remove(kind, amount) => ledger.remove(kind, amount as nat),
        }
    }

    /// A change leaves a well-formed ledger well-formed.
    pub proof fn lemma_applied_wf(self, ledger: Ledger)
        requires
            ledger.wf(),
        ensures
            self.applied(ledger).wf(),
    {
        match self {
            TokenChange::Add(kind, amount) => ledger.lemma_add_within_capacity(kind, amount as nat),
            TokenChange::Remove(kind, amount) => ledger.lemma_remove_floors_at_zero(
                kind,
                amount as nat,
            ),
        }
    }
}

/// The ledger that a list of changes leaves, applied first to last.
pub open spec fn apply_changes(ledger: Ledger, changes: Seq<TokenChange>) -> Ledger
    decreases changes.len(),
{
    if changes.len() == 0 {
        ledger
    } else {
        changes.last().applied(apply_changes(ledger, changes.drop_last()))
    }
}

/// A list of changes leaves a well-formed ledger well-formed.
pub proof fn lemma_apply_changes_wf(ledger: Ledger, changes: Seq<TokenChange>)
    requires
        ledger.wf(),
    ensures
        apply_changes(ledger, changes).wf(),
    decreases changes.len(),
{
    if changes.len() > 0 {
        lemma_apply_changes_wf(ledger, changes.drop_last());
        changes.last().lemma_applied_wf(apply_changes(ledger, changes.drop_last()));
    }
}

/// Applies a list of changes to a ledger, first to last.
pub fn apply_token_changes(changes: &[TokenChange], tokens: &mut TokenContainer)
    ensures
        final(tokens)@ == apply_changes(old(tokens)@, changes@),
{
    let mut i: usize = 0;
    while i < changes.len()
        invariant
            i <= changes.len(),
            tokens@ == apply_changes(old(tokens)@, changes@.take(i as int)),
        decreases changes.len() - i,
    {
        proof {
            assert(changes@.take(i + 1).drop_last() =~= changes@.take(i as int));
        }
        match changes[i] {
            TokenChange::Add(token_type, value) => tokens.add_token(&token_type, value),
            TokenChange::Remove(token_type, value) => tokens.remove_token(&token_type, value),
        }
        i += 1;
    }
    assert(changes@.take(changes.len() as int) =~= changes@);
}

/// Whether a ledger holds, for every pair of `required`, at least that many
/// tokens of that kind. An empty list asks for nothing.
pub open spec fn thresholds_hold(required: Seq<(TokenType, u8)>, ledger: Ledger) -> bool {
    forall|i: int| 0 <= i < required.len() ==> ledger.count((#[trigger] required[i]).0) >= required[i].1
}

/// Whether a ledger holds at least the tokens that `required` lists.
pub fn thresholds_met(required: &[(TokenType, u8)], tokens: &TokenContainer) -> (met: bool)
    ensures
        met == thresholds_hold(required@, tokens@),
{
    let mut i: usize = 0;
    while i < required.len()
        invariant
            i <= required.len(),
            forall|j: int| 0 <= j < i ==> tokens@.count((#[trigger] required[j]).0) >= required[j].1,
        decreases required.len() - i,
    {
        let (kind, minimum) = required[i];
        if tokens.get_token_count(&kind) < minimum {
            return false;
        }
        i += 1;
    }
    true
}

/// `StdRng` of the rand crate, the random number generator that actions
/// draw from. Nothing is stated of what is inside it.
#[verifier::external_type_specification]
#[verifier::external_body]
pub struct ExStdRng(rand::rngs::StdRng);

/// Draws a number with `Rng::gen_range` of the rand crate, called on the
/// inclusive range from `low` to `high`. The contract is taken on trust: it
/// says that the number lies in the range, and not which number comes, nor
/// that the draw is uniform. `gen_range` panics on an empty range, so `low`
/// may not be above `high`.
#[verifier::external_body]
fn roll_between(rng: &mut StdRng, low: u8, high: u8) -> (roll: u8)
    requires
        low <= high,
    ensures
        low <= roll <= high,
{
    rng.gen_range(low..=high)
}

/// A copy of a list of changes.
fn copy_changes(changes: &Vec<TokenChange>) -> (copy: Vec<TokenChange>)
    ensures
        copy@ == changes@,
{
    let mut copy: Vec<TokenChange> = Vec::new();
    let mut i: usize = 0;
    while i < changes.len()
        invariant
            i <= changes.len(),
            copy@ == changes@.take(i as int),
        decreases changes.len() - i,
    {
        copy.push(changes[i]);
        proof {
            assert(changes@.take(i + 1) =~= changes@.take(i as int).push(changes@[i as int]));
        }
        i += 1;
    }
    assert(changes@.take(changes.len() as int) =~= changes@);
    copy
}

/// What resolving an action gives: nothing on a miss; on a hit the changes of
/// the acting side, then those of the opposing side.
pub type Outcome = Option<(Vec<TokenChange>, Vec<TokenChange>)>;

/// Whether an outcome holds the changes that `expected` lists.
pub open spec fn agrees(result: Outcome, expected: Option<(Seq<TokenChange>, Seq<TokenChange>)>) -> bool {
    match result {
        Some((to_source, to_target)) => expected == Some((to_source@, to_target@)),
        None => expected.is_none(),
    }
}

/// Something that can be resolved against the ledgers of the acting side and
/// of the opposing side, with what it draws taken from a generator.
pub trait Actionable {
    /// Resolves the action: gives the changes of the acting side and those
    /// of the opposing side, or nothing where the action missed.
    fn execute(&self, rng: &mut StdRng, source: &TokenContainer, target: &TokenContainer) -> Outcome;
}

/// Points of miss chance that a dodging target adds, and that a blind source adds.
pub const MISS_PENALTY: u8 = 50;

/// An attack on the one opponent. It can miss: a target that holds `Dodge` and
/// a source that holds `Blind` each make it miss half the time, unless the
/// attack ignores that kind.
pub struct SingleEnemy {
    ignore: TokenSet,
    changes_target: Vec<TokenChange>,
    changes_source: Vec<TokenChange>,
    damage: Option<(u8, u8)>,
}

impl SingleEnemy {
    /// The kinds that the attack ignores.
    pub closed spec fn ignored(&self) -> Set<TokenType> {
        self.ignore@
    }

    /// The changes that a hit makes to the opposing side.
    pub closed spec fn target_changes(&self) -> Seq<TokenChange> {
        self.changes_target@
    }

    /// The changes that a hit makes to the acting side.
    pub closed spec fn source_changes(&self) -> Seq<TokenChange> {
        self.changes_source@
    }

    /// The least and the most damage of a hit, where the damage varies.
    pub closed spec fn damage_range(&self) -> Option<(u8, u8)> {
        self.damage
    }

    /// The least damage is not above the most.
    #[verifier::type_invariant]
    spec fn ordered_range(&self) -> bool {
        match self.damage {
            Some((low, high)) => low <= high,
            None => true,
        }
    }

    /// The chance in a hundred that the attack misses.
    pub open spec fn miss_chance(&self, source: Ledger, target: Ledger) -> nat {
        let dodged: nat = if !self.ignored().contains(TokenType::Dodge) && target.count(
            TokenType::Dodge,
        ) > 0 {
            MISS_PENALTY as nat
        } else {
            0
        };
        let blinded: nat = if !self.ignored().contains(TokenType::Blind) && source.count(
            TokenType::Blind,
        ) > 0 {
            MISS_PENALTY as nat
        } else {
            0
        };
        dodged + blinded
    }

    /// Whether the attack hits on a roll: it misses on a roll up to its miss chance.
    pub open spec fn hits(&self, roll: nat, source: Ledger, target: Ledger) -> bool {
        roll > self.miss_chance(source, target)
    }

    /// The changes that a hit makes to the opposing side when `magnitude` was
    /// drawn as its damage: the configured changes, and after them, where the
    /// damage varies, that much `Damage`.
    pub open spec fn target_changes_with(&self, magnitude: u8) -> Seq<TokenChange> {
        if self.damage_range().is_some() {
            self.target_changes().push(TokenChange::Add(TokenType::Damage, magnitude))
        } else {
            self.target_changes()
        }
    }

    /// Whether a roll and a magnitude can be drawn for the attack: the roll
    /// lies from 1 to 100, and the magnitude in the range of the damage, where
    /// the damage varies.
    pub open spec fn drawable(&self, roll: u8, magnitude: u8) -> bool {
        &&& 1 <= roll <= 100
        &&& self.damage_range() matches Some((low, high)) ==> low <= magnitude <= high
    }

    /// What the attack gives on a roll and a magnitude.
    pub open spec fn outcome(&self, roll: nat, magnitude: u8, source: Ledger, target: Ledger) -> Option<
        (Seq<TokenChange>, Seq<TokenChange>),
    > {
        if self.hits(roll, source, target) {
            Some((self.source_changes(), self.target_changes_with(magnitude)))
        } else {
            None
        }
    }

    /// An attack without varying damage.
    pub fn new(ignore: TokenSet, changes_target: Vec<TokenChange>, changes_source: Vec<TokenChange>) -> (attack: Self)
        ensures
            attack.ignored() == ignore@,
            attack.target_changes() == changes_target@,
            attack.source_changes() == changes_source@,
            attack.damage_range().is_none(),
    {
        Self { ignore, changes_target, changes_source, damage: None }
    }

    /// The attack with damage that varies from `low` to `high`.
    pub fn with_damage(self, low: u8, high: u8) -> (attack: Self)
        requires
            low <= high,
        ensures
            attack.ignored() == self.ignored(),
            attack.target_changes() == self.target_changes(),
            attack.source_changes() == self.source_changes(),
            attack.damage_range() == Some((low, high)),
    {
        Self {
            ignore: self.ignore,
            changes_target: self.changes_target,
            changes_source: self.changes_source,
            damage: Some((low, high)),
        }
    }

    /// The chance in a hundred that the attack misses.
    pub fn get_miss_chance(&self, source: &TokenContainer, target: &TokenContainer) -> (chance: u8)
        ensures
            chance == self.miss_chance(source@, target@),
    {
        let mut miss_chance: u8 = 0;
        if !self.ignore.contains(&TokenType::Dodge) && target.get_token_count(&TokenType::Dodge) > 0 {
            miss_chance = miss_chance + MISS_PENALTY;
        }
        if !self.ignore.contains(&TokenType::Blind) && source.get_token_count(&TokenType::Blind) > 0 {
            miss_chance = miss_chance + MISS_PENALTY;
        }
        miss_chance
    }

    /// Resolves the attack on a roll and a magnitude that were drawn already.
    pub fn resolve(&self, roll: u8, magnitude: u8, source: &TokenContainer, target: &TokenContainer) -> (result: Outcome)
        ensures
            agrees(result, self.outcome(roll as nat, magnitude, source@, target@)),
    {
        if roll <= self.get_miss_chance(source, target) {
            return None;
        }
        let to_source = copy_changes(&self.changes_source);
        let mut to_target = copy_changes(&self.changes_target);
        if self.damage.is_some() {
            to_target.push(TokenChange::Add(TokenType::Damage, magnitude));
        }
        Some((to_source, to_target))
    }
}

impl Actionable for SingleEnemy {
    /// Draws a roll from 1 to 100, and on a hit, where the damage varies, a
    /// magnitude from its range, and resolves the attack on them.
    fn execute(&self, rng: &mut StdRng, source: &TokenContainer, target: &TokenContainer) -> (result: Outcome)
        ensures
            exists|roll: u8, magnitude: u8| #[trigger]
                self.drawable(roll, magnitude) && agrees(
                    result,
                    self.outcome(roll as nat, magnitude, source@, target@),
                ),
    {
        proof {
            use_type_invariant(self);
        }
        let roll = roll_between(rng, 1, 100);
        let magnitude = match self.damage {
            Some((low, high)) => if roll > self.get_miss_chance(source, target) {
                roll_between(rng, low, high)
            } else {
                low
            },
            None => 0,
        };
        let result = self.resolve(roll, magnitude, source, target);
        assert(self.drawable(roll, magnitude));
        result
    }
}

/// An action whose changes are fixed: it never misses and draws no number.
pub struct Fixed {
    changes_source: Vec<TokenChange>,
    changes_target: Vec<TokenChange>,
}

impl Fixed {
    /// The changes that the action makes to the acting side.
    pub closed spec fn source_changes(&self) -> Seq<TokenChange> {
        self.changes_source@
    }

    /// The changes that the action makes to the opposing side.
    pub closed spec fn target_changes(&self) -> Seq<TokenChange> {
        self.changes_target@
    }

    /// An action with the changes of the acting side and those of the opposing side.
    pub fn new(changes_source: Vec<TokenChange>, changes_target: Vec<TokenChange>) -> (action: Self)
        ensures
            action.source_changes() == changes_source@,
            action.target_changes() == changes_target@,
    {
        Self { changes_source, changes_target }
    }

    /// The changes of the acting side, then those of the opposing side.
    pub fn perform(&self) -> (changes: (Vec<TokenChange>, Vec<TokenChange>))
        ensures
            changes.0@ == self.source_changes(),
            changes.1@ == self.target_changes(),
    {
        (copy_changes(&self.changes_source), copy_changes(&self.changes_target))
    }
}

impl Actionable for Fixed {
    /// Gives the fixed changes and leaves the generator as it was.
    fn execute(&self, rng: &mut StdRng, source: &TokenContainer, target: &TokenContainer) -> (result: Outcome)
        ensures
            result matches Some((to_source, to_target)) && to_source@ == self.source_changes()
                && to_target@ == self.target_changes(),
            *final(rng) == *old(rng),
    {
        Some(self.perform())
    }
}

/// How an action is resolved.
pub enum Resolution {
    /// With fixed changes.
    Fixed(Fixed),
    /// As an attack that can miss.
    Opposed(SingleEnemy),
}

/// A named action with the tokens that it requires.
///
/// It may be performed when the acting side holds what the action requires of
/// the acting side, or the opposing side holds what it requires of the opposing
/// side: one of the two is enough.
pub struct Action {
    name: String,
    required_source: Vec<(TokenType, u8)>,
    required_target: Vec<(TokenType, u8)>,
    resolution: Resolution,
}

impl Action {
    /// The name of the action.
    pub closed spec fn name(&self) -> Seq<char> {
        self.name@
    }

    /// The tokens that the action requires of the acting side.
    pub closed spec fn source_thresholds(&self) -> Seq<(TokenType, u8)> {
        self.required_source@
    }

    /// The tokens that the action requires of the opposing side.
    pub closed spec fn target_thresholds(&self) -> Seq<(TokenType, u8)> {
        self.required_target@
    }

    /// How the action is resolved.
    pub closed spec fn resolution(&self) -> Resolution {
        self.resolution
    }

    /// Whether the action may be performed: one side meets what is required of it.
    pub open spec fn legal(&self, source: Ledger, target: Ledger) -> bool {
        thresholds_hold(self.source_thresholds(), source) || thresholds_hold(
            self.target_thresholds(),
            target,
        )
    }

    /// Whether a roll and a magnitude can be drawn for the action.
    pub open spec fn drawable(&self, roll: u8, magnitude: u8) -> bool {
        match self.resolution() {
            Resolution::Fixed(fixed) => true,
            Resolution::Opposed(attack) => attack.drawable(roll, magnitude),
        }
    }

    /// What the action gives on a roll and a magnitude.
    pub open spec fn outcome(&self, roll: nat, magnitude: u8, source: Ledger, target: Ledger) -> Option<
        (Seq<TokenChange>, Seq<TokenChange>),
    > {
        match self.resolution() {
            Resolution::Fixed(fixed) => Some((fixed.source_changes(), fixed.target_changes())),
            Resolution::Opposed(attack) => attack.outcome(roll, magnitude, source, target),
        }
    }

    /// An action with a name, with what it requires of the acting side and of
    /// the opposing side, and with the way it is resolved.
    pub fn new(
        name: String,
        required_source: Vec<(TokenType, u8)>,
        required_target: Vec<(TokenType, u8)>,
        resolution: Resolution,
    ) -> (action: Self)
        ensures
            action.name() == name@,
            action.source_thresholds() == required_source@,
            action.target_thresholds() == required_target@,
            action.resolution() == resolution,
    {
        Self { name, required_source, required_target, resolution }
    }

    /// The name of the action.
    pub fn get_name(&self) -> (name: String)
        ensures
            name@ == self.name(),
    {
        self.name.clone()
    }

    /// Whether the action may be performed by `source` against `target`.
    pub fn can_perform(&self, source: &TokenContainer, target: &TokenContainer) -> (legal: bool)
        ensures
            legal == self.legal(source@, target@),
    {
        thresholds_met(self.required_source.as_slice(), source) || thresholds_met(
            self.required_target.as_slice(),
            target,
        )
    }

    /// Resolves the action on a roll and a magnitude that were drawn already.
    pub fn resolve(&self, roll: u8, magnitude: u8, source: &TokenContainer, target: &TokenContainer) -> (result: Outcome)
        ensures
            agrees(result, self.outcome(roll as nat, magnitude, source@, target@)),
    {
        match &self.resolution {
            Resolution::Fixed(fixed) => Some(fixed.perform()),
            Resolution::Opposed(attack) => attack.resolve(roll, magnitude, source, target),
        }
    }
}

impl Actionable for Action {
    /// Resolves the action, drawing from the generator what its resolution draws.
    fn execute(&self, rng: &mut StdRng, source: &TokenContainer, target: &TokenContainer) -> (result: Outcome)
        ensures
            exists|roll: u8, magnitude: u8| #[trigger]
                self.drawable(roll, magnitude) && agrees(
                    result,
                    self.outcome(roll as nat, magnitude, source@, target@),
                ),
    {
        match &self.resolution {
            Resolution::Fixed(fixed) => {
                let result = Some(fixed.perform());
                assert(self.drawable(1, 0));
                result
            },
            Resolution::Opposed(attack) => {
                let result = attack.execute(rng, source, target);
                proof {
                    let (roll, magnitude) = choose|roll: u8, magnitude: u8| #[trigger]
                        attack.drawable(roll, magnitude) && agrees(
                            result,
                            attack.outcome(roll as nat, magnitude, source@, target@),
                        );
                    assert(self.drawable(roll, magnitude));
                }
                result
            },
        }
    }
}

/// Against a target without `Dodge`, from a source without `Blind`, an attack
/// hits on every roll from 1 to 100.
pub proof fn lemma_unhindered_attack_hits(attack: SingleEnemy, roll: nat, source: Ledger, target: Ledger)
    requires
        1 <= roll <= 100,
        target.count(TokenType::Dodge) == 0,
        source.count(TokenType::Blind) == 0,
    ensures
        attack.miss_chance(source, target) == 0,
        attack.hits(roll, source, target),
{
}

/// Against a dodging target that the attack does not ignore, from a source
/// that is not blind, the attack misses on rolls up to 50 and hits above.
pub proof fn lemma_dodge_misses_half(attack: SingleEnemy, roll: nat, source: Ledger, target: Ledger)
    requires
        1 <= roll <= 100,
        target.count(TokenType::Dodge) > 0,
        !attack.ignored().contains(TokenType::Dodge),
        source.count(TokenType::Blind) == 0,
    ensures
        attack.miss_chance(source, target) == 50,
        attack.hits(roll, source, target) <==> roll >= 51,
{
}

/// From a blind source that the attack does not ignore, against a target that
/// does not dodge, the attack misses on rolls up to 50 and hits above.
pub proof fn lemma_blind_misses_half(attack: SingleEnemy, roll: nat, source: Ledger, target: Ledger)
    requires
        1 <= roll <= 100,
        source.count(TokenType::Blind) > 0,
        !attack.ignored().contains(TokenType::Blind),
        target.count(TokenType::Dodge) == 0,
    ensures
        attack.miss_chance(source, target) == 50,
        attack.hits(roll, source, target) <==> roll >= 51,
{
}

/// With a dodging target and a blind source, neither ignored, the attack
/// misses on every roll from 1 to 100.
pub proof fn lemma_dodge_and_blind_always_miss(attack: SingleEnemy, roll: nat, source: Ledger, target: Ledger)
    requires
        1 <= roll <= 100,
        target.count(TokenType::Dodge) > 0,
        !attack.ignored().contains(TokenType::Dodge),
        source.count(TokenType::Blind) > 0,
        !attack.ignored().contains(TokenType::Blind),
    ensures
        attack.miss_chance(source, target) == 100,
        !attack.hits(roll, source, target),
{
}

/// A kind that the attack ignores adds nothing to the miss chance, whether
/// its tokens are there or not: the chance is that against ledgers without them.
pub proof fn lemma_ignored_kind_adds_nothing(attack: SingleEnemy, source: Ledger, target: Ledger)
    ensures
        attack.ignored().contains(TokenType::Dodge) ==> attack.miss_chance(source, target)
            == attack.miss_chance(source, target.with_count(TokenType::Dodge, 0)),
        attack.ignored().contains(TokenType::Blind) ==> attack.miss_chance(source, target)
            == attack.miss_chance(source.with_count(TokenType::Blind, 0), target),
        attack.ignored().contains(TokenType::Dodge) && attack.ignored().contains(TokenType::Blind)
            ==> attack.miss_chance(source, target) == 0,
{
}

} // verus!
