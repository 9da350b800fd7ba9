//! Tokens: the countable markers an actor carries, and the ledger that holds them.
//!
//! A ledger maps token kinds to counts, each kind capped by a capacity. Its
//! mathematical model is [`Ledger`]; the executable ledger is [`TokenContainer`].

use std::collections::BTreeMap;
use std::collections::HashSet;
use vstd::prelude::*;

verus! {

/// Capacity of a kind whose capacity was never set.
pub const DEFAULT_TOKEN_LIMIT: u8 = 1;

/// Number of token kinds.
pub const TOKEN_KINDS: u8 = 15;

/// The kinds of token. `Health` and `Stamina` are resources, the others are
/// status effects. Kinds are ordered as they are declared.
#[derive(Debug, Clone, Copy, PartialEq, Eq, Structural, PartialOrd, Ord, Hash)]
pub enum TokenType {
    Dodge,
    Blind,
    Block,
    Vulnurable,
    Daze,
    Stun,
    Weak,
    Strong,
    Stamina,
    Health,
    ExtraHealth,
    Damage,
    Unstable,
    WideOpen,
    Counter,
}

impl TokenType {
    /// Position of the kind in the declaration order.
    pub open spec fn ordinal(self) -> u8 {
        match self {
            TokenType::Dodge => 0,
            TokenType::Blind => 1,
            TokenType::Block => 2,
            TokenType::Vulnurable => 3,
            TokenType::Daze => 4,
            TokenType::Stun => 5,
            TokenType::Weak => 6,
            TokenType::Strong => 7,
            TokenType::Stamina => 8,
            TokenType::Health => 9,
            TokenType::ExtraHealth => 10,
            TokenType::Damage => 11,
            TokenType::Unstable => 12,
            TokenType::WideOpen => 13,
            TokenType::Counter => 14,
        }
    }

    /// The kind at a position; positions past the last kind give the last kind.
    pub open spec fn of_ordinal(i: u8) -> TokenType {
        if i == 0 {
            TokenType::Dodge
        } else if i == 1 {
            TokenType::Blind
        } else if i == 2 {
            TokenType::Block
        } else if i == 3 {
            TokenType::Vulnurable
        } else if i == 4 {
            TokenType::Daze
        } else if i == 5 {
            TokenType::Stun
        } else if i == 6 {
            TokenType::Weak
        } else if i == 7 {
            TokenType::Strong
        } else if i == 8 {
            TokenType::Stamina
        } else if i == 9 {
            TokenType::Health
        } else if i == 10 {
            TokenType::ExtraHealth
        } else if i == 11 {
            TokenType::Damage
        } else if i == 12 {
            TokenType::Unstable
        } else if i == 13 {
            TokenType::WideOpen
        } else {
            TokenType::Counter
        }
    }

    /// `ordinal` and `of_ordinal` are inverse to each other, so distinct
    /// kinds have distinct positions.
    pub proof fn lemma_ordinal_inverse()
        ensures
            forall|k: TokenType| TokenType::of_ordinal(#[trigger] k.ordinal()) == k,
            forall|k: TokenType| #[trigger] k.ordinal() < TOKEN_KINDS,
            forall|i: u8|
                i < TOKEN_KINDS ==> (#[trigger] TokenType::of_ordinal(i)).ordinal() == i,
    {
    }

    /// Position of the kind in the declaration order.
    pub fn index(&self) -> (i: u8)
        ensures
            i == self.ordinal(),
            i < TOKEN_KINDS,
    {
        match self {
            TokenType::Dodge => 0,
            TokenType::Blind => 1,
            TokenType::Block => 2,
            TokenType::Vulnurable => 3,
            TokenType::Daze => 4,
            TokenType::Stun => 5,
            TokenType::Weak => 6,
            TokenType::Strong => 7,
            TokenType::Stamina => 8,
            TokenType::Health => 9,
            TokenType::ExtraHealth => 10,
            TokenType::Damage => 11,
            TokenType::Unstable => 12,
            TokenType::WideOpen => 13,
            TokenType::Counter => 14,
        }
    }

    /// The kind at position `i`, if there is one.
    pub fn from_index(i: u8) -> (kind: Option<TokenType>)
        ensures
            i < TOKEN_KINDS ==> kind == Some(TokenType::of_ordinal(i)),
            i >= TOKEN_KINDS ==> kind.is_none(),
    {
        match i {
            0 => Some(TokenType::Dodge),
            1 => Some(TokenType::Blind),
            2 => Some(TokenType::Block),
            3 => Some(TokenType::Vulnurable),
            4 => Some(TokenType::Daze),
            5 => Some(TokenType::Stun),
            6 => Some(TokenType::Weak),
            7 => Some(TokenType::Strong),
            8 => Some(TokenType::Stamina),
            9 => Some(TokenType::Health),
            10 => Some(TokenType::ExtraHealth),
            11 => Some(TokenType::Damage),
            12 => Some(TokenType::Unstable),
            13 => Some(TokenType::WideOpen),
            14 => Some(TokenType::Counter),
            _ => None,
        }
    }
}

/// A finite set of token kinds.
pub struct TokenSet {
    kinds: HashSet<u8>,
}

impl View for TokenSet {
    type V = Set<TokenType>;

    closed spec fn view(&self) -> Set<TokenType> {
        Set::new(|k: TokenType| self.kinds@.contains(k.ordinal()))
    }
}

impl TokenSet {
    /// The empty set.
    pub fn new() -> (set: Self)
        ensures
            set@ == Set::<TokenType>::empty(),
    {
        let set = TokenSet { kinds: HashSet::new() };
        assert(set@ =~= Set::<TokenType>::empty());
        set
    }

    /// The set of the kinds listed in `kinds`.
    pub fn from_slice(kinds: &[TokenType]) -> (set: Self)
        ensures
            set@ == kinds@.to_set(),
    {
        let mut set = TokenSet::new();
        let mut i: usize = 0;
        while i < kinds.len()
            invariant
                i <= kinds.len(),
                set@ == kinds@.take(i as int).to_set(),
            decreases kinds.len() - i,
        {
            set.insert(kinds[i]);
            proof {
                let kind = kinds@[i as int];
                let prefix = kinds@.take(i as int);
                let next = kinds@.take(i + 1);
                assert(next =~= prefix.push(kind));
                assert forall|k: TokenType| prefix.to_set().insert(kind).contains(k) <==> next.contains(
                    k,
                ) by {
                    if k == kind {
                        assert(next[i as int] == k);
                    } else if next.contains(k) {
                        let j = choose|j: int| 0 <= j < next.len() && next[j] == k;
                        assert(prefix[j] == k);
                    } else if prefix.contains(k) {
                        let j = choose|j: int| 0 <= j < prefix.len() && prefix[j] == k;
                        assert(next[j] == k);
                    }
                }
                assert(set@ =~= next.to_set());
            }
            i += 1;
        }
        assert(kinds@.take(kinds.len() as int) =~= kinds@);
        set
    }

    /// Adds `kind` to the set. Returns whether it was new.
    pub fn insert(&mut self, kind: TokenType) -> (fresh: bool)
        ensures
            final(self)@ == old(self)@.insert(kind),
            fresh == !old(self)@.contains(kind),
    {
        let fresh = self.kinds.insert(kind.index());
        proof {
            TokenType::lemma_ordinal_inverse();
            assert(self@ =~= old(self)@.insert(kind));
        }
        fresh
    }

    /// Whether `kind` is in the set.
    pub fn contains(&self, kind: &TokenType) -> (found: bool)
        ensures
            found == self@.contains(*kind),
    {
        let i = kind.index();
        self.kinds.contains(&i)
    }
}

/// A map from token kinds to small numbers: the counts of a ledger, or its capacities.
pub struct TokensMap {
    entries: BTreeMap<u8, u8>,
}

impl View for TokensMap {
    type V = Map<TokenType, u8>;

    closed spec fn view(&self) -> Map<TokenType, u8> {
        Map::new(
            |k: TokenType| self.entries@.contains_key(k.ordinal()),
            |k: TokenType| self.entries@[k.ordinal()],
        )
    }
}

impl TokensMap {
    /// The empty map.
    pub fn new() -> (map: Self)
        ensures
            map@ == Map::<TokenType, u8>::empty(),
    {
        let map = TokensMap { entries: BTreeMap::new() };
        assert(map@ =~= Map::<TokenType, u8>::empty());
        map
    }

    /// The number stored for `kind`, if there is one.
    pub fn get(&self, kind: &TokenType) -> (found: Option<&u8>)
        ensures
            match found {
                Some(value) => self@.contains_key(*kind) && self@[*kind] == *value,
                None => !self@.contains_key(*kind),
            },
    {
        let i = kind.index();
        self.entries.get(&i)
    }

    /// Stores `value` for `kind`, replacing what was stored before.
    pub fn insert(&mut self, kind: TokenType, value: u8)
        ensures
            final(self)@ == old(self)@.insert(kind, value),
    {
        self.entries.insert(kind.index(), value);
        proof {
            TokenType::lemma_ordinal_inverse();
            assert(self@ =~= old(self)@.insert(kind, value));
        }
    }

    /// Removes the entry of `kind`, if there is one.
    pub fn remove(&mut self, kind: &TokenType)
        ensures
            final(self)@ == old(self)@.remove(*kind),
    {
        let i = kind.index();
        self.entries.remove(&i);
        proof {
            TokenType::lemma_ordinal_inverse();
            assert(self@ =~= old(self)@.remove(*kind));
        }
    }
}

/// The map that a list of pairs describes: each pair stores its number for its
/// kind, and a later pair replaces an earlier one of the same kind.
pub open spec fn map_of_pairs(pairs: Seq<(TokenType, u8)>) -> Map<TokenType, u8>
    decreases pairs.len(),
{
    if pairs.len() == 0 {
        Map::empty()
    } else {
        map_of_pairs(pairs.drop_last()).insert(pairs.last().0, pairs.last().1)
    }
}

/// A kind is in the map of a list exactly if the list names it.
pub proof fn lemma_map_of_pairs_domain(pairs: Seq<(TokenType, u8)>, kind: TokenType)
    ensures
        map_of_pairs(pairs).contains_key(kind) <==> exists|i: int|
            0 <= i < pairs.len() && (#[trigger] pairs[i]).0 == kind,
    decreases pairs.len(),
{
    if pairs.len() > 0 {
        let rest = pairs.drop_last();
        lemma_map_of_pairs_domain(rest, kind);
        if map_of_pairs(pairs).contains_key(kind) {
            if pairs.last().0 == kind {
                assert(pairs[pairs.len() - 1].0 == kind);
            } else {
                let i = choose|i: int| 0 <= i < rest.len() && (#[trigger] rest[i]).0 == kind;
                assert(pairs[i].0 == kind);
            }
        }
        if exists|i: int| 0 <= i < pairs.len() && (#[trigger] pairs[i]).0 == kind {
            let i = choose|i: int| 0 <= i < pairs.len() && (#[trigger] pairs[i]).0 == kind;
            if i < rest.len() {
                assert(rest[i].0 == kind);
            }
        }
    }
}

/// The map of a list holds for a kind the number of the last pair that names it.
pub proof fn lemma_map_of_pairs_last_wins(pairs: Seq<(TokenType, u8)>, at: int)
    requires
        0 <= at < pairs.len(),
        forall|j: int| at < j < pairs.len() ==> (#[trigger] pairs[j]).0 != pairs[at].0,
    ensures
        map_of_pairs(pairs).contains_key(pairs[at].0),
        map_of_pairs(pairs)[pairs[at].0] == pairs[at].1,
    decreases pairs.len(),
{
    let rest = pairs.drop_last();
    if at < rest.len() {
        assert(pairs[pairs.len() - 1].0 != pairs[at].0);
        assert(rest[at] == pairs[at]);
        assert forall|j: int| at < j < rest.len() implies (#[trigger] rest[j]).0 != rest[at].0 by {
            assert(rest[j] == pairs[j]);
        }
        lemma_map_of_pairs_last_wins(rest, at);
    }
}

/// Collects a list of pairs into a map; of two pairs with one kind the later stays.
pub fn vec_to_btreemap(elems: &[(TokenType, u8)]) -> (map: TokensMap)
    ensures
        map@ == map_of_pairs(elems@),
{
    let mut map = TokensMap::new();
    let mut i: usize = 0;
    while i < elems.len()
        invariant
            i <= elems.len(),
            map@ == map_of_pairs(elems@.take(i as int)),
        decreases elems.len() - i,
    {
        let (kind, value) = elems[i];
        map.insert(kind, value);
        proof {
            assert(elems@.take(i + 1).drop_last() =~= elems@.take(i as int));
        }
        i += 1;
    }
    assert(elems@.take(elems.len() as int) =~= elems@);
    map
}

/// The mathematical model of a ledger: the count stored for each kind that is
/// present, and the capacity of each kind whose capacity was set.
#[verifier::ext_equal]
pub struct Ledger {
    pub counts: Map<TokenType, u8>,
    pub limits: Map<TokenType, u8>,
}

impl Ledger {
    /// How many tokens of `kind` the ledger holds; none if the kind is absent.
    pub open spec fn count(self, kind: TokenType) -> nat {
        if self.counts.contains_key(kind) {
            self.counts[kind] as nat
        } else {
            0
        }
    }

    /// How many tokens of `kind` the ledger can hold.
    pub open spec fn capacity(self, kind: TokenType) -> nat {
        if self.limits.contains_key(kind) {
            self.limits[kind] as nat
        } else {
            DEFAULT_TOKEN_LIMIT as nat
        }
    }

    /// Every kind that is present has at least one token and no more than its capacity.
    pub open spec fn wf(self) -> bool {
        forall|kind: TokenType| #[trigger]
            self.counts.contains_key(kind) ==> 0 < self.count(kind) <= self.capacity(kind)
    }

    /// The ledger with the count of `kind` set to `n`: a kind with no tokens is absent.
    pub open spec fn with_count(self, kind: TokenType, n: nat) -> Ledger {
        Ledger {
            counts: if n == 0 {
                self.counts.remove(kind)
            } else {
                self.counts.insert(kind, n as u8)
            },
            limits: self.limits,
        }
    }

    /// The ledger after `amount` tokens of `kind` were added: the count grows
    /// by `amount`, but not past the capacity of the kind.
    pub open spec fn add(self, kind: TokenType, amount: nat) -> Ledger {
        let sum = self.count(kind) + amount;
        self.with_count(
            kind,
            if sum <= self.capacity(kind) {
                sum
            } else {
                self.capacity(kind)
            },
        )
    }

    /// The ledger after `amount` tokens of `kind` were removed: the count
    /// shrinks by `amount`, and a kind that runs out is absent.
    pub open spec fn remove(self, kind: TokenType, amount: nat) -> Ledger {
        self.with_count(
            kind,
            if self.count(kind) > amount {
                (self.count(kind) - amount) as nat
            } else {
                0
            },
        )
    }

    /// The ledger after the capacity of `kind` was set to `limit`: a count
    /// above the new capacity comes down to it.
    pub open spec fn set_capacity(self, kind: TokenType, limit: u8) -> Ledger {
        let clamped = if self.count(kind) > limit {
            self.with_count(kind, limit as nat)
        } else {
            self
        };
        Ledger { counts: clamped.counts, limits: self.limits.insert(kind, limit) }
    }

    /// Adding tokens never takes a count past the capacity of its kind, and
    /// leaves a well-formed ledger well-formed.
    pub proof fn lemma_add_within_capacity(self, kind: TokenType, amount: nat)
        requires
            self.wf(),
        ensures
            self.add(kind, amount).count(kind) <= self.capacity(kind),
            self.add(kind, amount).capacity(kind) == self.capacity(kind),
            self.add(kind, amount).count(kind) == if self.count(kind) + amount
                <= self.capacity(kind) {
                self.count(kind) + amount
            } else {
                self.capacity(kind)
            },
            forall|other: TokenType|
                other != kind ==> self.add(kind, amount).count(other) == self.count(other),
            self.add(kind, amount).wf(),
    {
        let after = self.add(kind, amount);
        assert forall|k: TokenType| #[trigger] after.counts.contains_key(k) implies 0
            < after.count(k) <= after.capacity(k) by {
            if k != kind {
                assert(self.counts.contains_key(k));
            }
        }
    }

    /// After a removal the count is what is left of it above zero, and a kind
    /// with nothing left is absent from the ledger.
    pub proof fn lemma_remove_floors_at_zero(self, kind: TokenType, amount: nat)
        requires
            self.wf(),
        ensures
            self.remove(kind, amount).count(kind) == if self.count(kind) >= amount {
                self.count(kind) - amount
            } else {
                0
            },
            self.remove(kind, amount).count(kind) == 0 ==> !self.remove(
                kind,
                amount,
            ).counts.contains_key(kind),
            forall|other: TokenType|
                other != kind ==> self.remove(kind, amount).count(other) == self.count(other),
            self.remove(kind, amount).wf(),
    {
        let after = self.remove(kind, amount);
        assert forall|k: TokenType| #[trigger] after.counts.contains_key(k) implies 0
            < after.count(k) <= after.capacity(k) by {
            assert(self.counts.contains_key(k));
        }
    }

    /// Setting a capacity below the count brings the count down to the new
    /// capacity at once; a count within the new capacity stays.
    pub proof fn lemma_capacity_clamps(self, kind: TokenType, limit: u8)
        requires
            self.wf(),
        ensures
            self.set_capacity(kind, limit).capacity(kind) == limit,
            self.count(kind) > limit ==> self.set_capacity(kind, limit).count(kind) == limit,
            self.count(kind) <= limit ==> self.set_capacity(kind, limit).count(kind)
                == self.count(kind),
            forall|other: TokenType|
                other != kind ==> self.set_capacity(kind, limit).count(other) == self.count(
                    other,
                ) && self.set_capacity(kind, limit).capacity(other) == self.capacity(other),
            self.set_capacity(kind, limit).wf(),
    {
        let after = self.set_capacity(kind, limit);
        assert forall|k: TokenType| #[trigger] after.counts.contains_key(k) implies 0
            < after.count(k) <= after.capacity(k) by {
            if k != kind {
                assert(self.counts.contains_key(k));
            } else if self.count(kind) <= limit {
                assert(self.counts.contains_key(k));
            }
        }
    }
}

/// The ledger of one actor.
pub struct TokenContainer {
    tokens: TokensMap,
    limits: TokensMap,
}

impl View for TokenContainer {
    type V = Ledger;

    closed spec fn view(&self) -> Ledger {
        Ledger { counts: self.tokens@, limits: self.limits@ }
    }
}

impl TokenContainer {
    /// Every kind that is present has at least one token and no more than its capacity.
    #[verifier::type_invariant]
    pub open spec fn wf(&self) -> bool {
        self@.wf()
    }

    /// An empty ledger with the capacities that `limits` lists. Of two
    /// capacities listed for one kind the later holds; a kind that is not
    /// listed has the default capacity.
    pub fn new(limits: &[(TokenType, u8)]) -> (ledger: Self)
        ensures
            ledger@.counts == Map::<TokenType, u8>::empty(),
            ledger@.limits == map_of_pairs(limits@),
            forall|kind: TokenType|
                (forall|i: int| 0 <= i < limits.len() ==> (#[trigger] limits[i]).0 != kind)
                    ==> #[trigger] ledger@.capacity(kind) == DEFAULT_TOKEN_LIMIT,
            forall|at: int|
                0 <= at < limits.len() && (forall|j: int|
                    at < j < limits.len() ==> (#[trigger] limits[j]).0 != limits[at].0)
                    ==> ledger@.capacity((#[trigger] limits[at]).0) == limits[at].1,
    {
        let ledger = Self { tokens: TokensMap::new(), limits: vec_to_btreemap(limits) };
        proof {
            assert forall|at: int|
                0 <= at < limits.len() && (forall|j: int|
                    at < j < limits.len() ==> (#[trigger] limits[j]).0 != limits[at].0)
                    implies ledger@.capacity((#[trigger] limits[at]).0) == limits[at].1 by {
                lemma_map_of_pairs_last_wins(limits@, at);
            }
            assert forall|kind: TokenType|
                (forall|i: int| 0 <= i < limits.len() ==> (#[trigger] limits[i]).0 != kind)
                    implies #[trigger] ledger@.capacity(kind) == DEFAULT_TOKEN_LIMIT by {
                lemma_map_of_pairs_domain(limits@, kind);
            }
        }
        ledger
    }

    /// Sets the count of a kind that has room for it. The map of counts is
    /// changed outside the ledger and put back, so that the ledger is
    /// well-formed at every step.
    fn store(&mut self, token_type: &TokenType, count: u8)
        requires
            count <= old(self)@.capacity(*token_type),
        ensures
            final(self)@ == old(self)@.with_count(*token_type, count as nat),
    {
        proof {
            use_type_invariant(&*self);
        }
        let ghost before = self@;
        let mut tokens = TokensMap::new();
        core::mem::swap(&mut self.tokens, &mut tokens);
        if count == 0 {
            tokens.remove(token_type);
        } else {
            tokens.insert(*token_type, count);
        }
        proof {
            let after = before.with_count(*token_type, count as nat);
            assert forall|k: TokenType| #[trigger] after.counts.contains_key(k) implies 0
                < after.count(k) <= after.capacity(k) by {
                if k != *token_type {
                    assert(before.counts.contains_key(k));
                }
            }
        }
        core::mem::swap(&mut self.tokens, &mut tokens);
    }

    /// Sets the capacity of a kind. A count above the new capacity comes down
    /// to it. Both maps are changed outside the ledger and put back, the
    /// capacities first, so that the ledger is well-formed at every step.
    pub fn set_token_limit(&mut self, token_type: &TokenType, limit: u8)
        ensures
            final(self)@ == old(self)@.set_capacity(*token_type, limit),
    {
        proof {
            use_type_invariant(&*self);
            self@.lemma_capacity_clamps(*token_type, limit);
        }
        let count = self.get_token_count(token_type);
        let mut tokens = TokensMap::new();
        let mut limits = TokensMap::new();
        core::mem::swap(&mut self.tokens, &mut tokens);
        core::mem::swap(&mut self.limits, &mut limits);
        limits.insert(*token_type, limit);
        if count > limit {
            if limit == 0 {
                tokens.remove(token_type);
            } else {
                tokens.insert(*token_type, limit);
            }
        }
        core::mem::swap(&mut self.limits, &mut limits);
        core::mem::swap(&mut self.tokens, &mut tokens);
    }

    /// How many tokens of a kind the ledger holds.
    pub fn get_token_count(&self, token_type: &TokenType) -> (count: u8)
        ensures
            count == self@.count(*token_type),
    {
        match self.tokens.get(token_type) {
            Some(value) => *value,
            None => 0,
        }
    }

    /// How many tokens of a kind the ledger can hold.
    pub fn get_token_limit(&self, token_type: &TokenType) -> (limit: u8)
        ensures
            limit == self@.capacity(*token_type),
    {
        match self.limits.get(token_type) {
            Some(value) => *value,
            None => DEFAULT_TOKEN_LIMIT,
        }
    }

    /// Adds tokens of a kind, up to the capacity of the kind.
    pub fn add_token(&mut self, token_type: &TokenType, value: u8)
        ensures
            final(self)@ == old(self)@.add(*token_type, value as nat),
    {
        proof {
            use_type_invariant(&*self);
        }
        let limit = self.get_token_limit(token_type);
        let count = self.get_token_count(token_type);
        let room: u8 = limit - count;
        let total: u8 = if value <= room {
            count + value
        } else {
            limit
        };
        self.store(token_type, total);
    }

    /// Removes tokens of a kind. A kind that runs out leaves the ledger.
    pub fn remove_token(&mut self, token_type: &TokenType, value: u8)
        ensures
            final(self)@ == old(self)@.remove(*token_type, value as nat),
    {
        proof {
            use_type_invariant(&*self);
        }
        let count = self.get_token_count(token_type);
        let left: u8 = if count > value {
            count - value
        } else {
            0
        };
        self.store(token_type, left);
    }

    /// The kinds that are present, in the order of the kinds, each with its count.
    pub fn entries(&self) -> (list: Vec<(TokenType, u8)>)
        ensures
            forall|i: int|
                0 <= i < list.len() ==> self@.counts.contains_key((#[trigger] list[i]).0)
                    && self@.counts[list[i].0] == list[i].1,
            forall|kind: TokenType| #[trigger]
                self@.counts.contains_key(kind) ==> exists|i: int|
                    0 <= i < list.len() && (#[trigger] list[i]).0 == kind,
            forall|i: int, j: int|
                0 <= i < j < list.len() ==> (#[trigger] list[i]).0.ordinal() < (
                #[trigger] list[j]).0.ordinal(),
    {
        let mut list: Vec<(TokenType, u8)> = Vec::new();
        let mut next: u8 = 0;
        while next < TOKEN_KINDS
            invariant
                next <= TOKEN_KINDS,
                forall|i: int|
                    0 <= i < list.len() ==> self@.counts.contains_key((#[trigger] list[i]).0)
                        && self@.counts[list[i].0] == list[i].1 && list[i].0.ordinal() < next,
                forall|kind: TokenType| #[trigger]
                    self@.counts.contains_key(kind) && kind.ordinal() < next ==> exists|i: int|
                        0 <= i < list.len() && (#[trigger] list[i]).0 == kind,
                forall|i: int, j: int|
                    0 <= i < j < list.len() ==> (#[trigger] list[i]).0.ordinal() < (
                    #[trigger] list[j]).0.ordinal(),
            decreases TOKEN_KINDS - next,
        {
            proof {
                TokenType::lemma_ordinal_inverse();
            }
            let ghost before = list@;
            if let Some(kind) = TokenType::from_index(next) {
                if let Some(value) = self.tokens.get(&kind) {
                    list.push((kind, *value));
                    proof {
                        let last = before.len() as int;
                        assert(list@[last].0 == kind);
                        assert forall|other: TokenType| #[trigger]
                            self@.counts.contains_key(other) && other.ordinal() < next
                                + 1 implies exists|i: int|
                            0 <= i < list.len() && (#[trigger] list[i]).0 == other by {
                            if other.ordinal() < next {
                                let i = choose|i: int|
                                    0 <= i < before.len() && (#[trigger] before[i]).0 == other;
                                assert(list@[i].0 == other);
                            } else {
                                assert(other == kind);
                            }
                        }
                    }
                }
            }
            next += 1;
        }
        proof {
            TokenType::lemma_ordinal_inverse();
        }
        list
    }
}

} // verus!
