//! Effects: single mutations of a ledger, described as data.

use crate::token::Ledger;
use crate::token::TokenContainer;
use crate::token::TokenType;
use vstd::prelude::*;

verus! {

/// Two lists of effects: the first for the acting side, the second for the opposing side.
pub type EffectsToPerform = (Vec<Box<dyn Effect>>, Vec<Box<dyn Effect>>);

/// Something that changes a ledger when it is carried out.
///
/// `outcome` says what `execute` leaves; a verified effect defines it and is
/// held to it.
pub trait Effect {
    /// The ledger that carrying the effect out on `ledger` leaves. An effect
    /// that does not say otherwise changes nothing.
    open spec fn outcome(&self, ledger: Ledger) -> Ledger {
        ledger
    }

    /// Carries the effect out on a ledger.
    fn execute(&self, tokens: &mut TokenContainer)
        ensures
            final(tokens)@ == self.outcome(old(tokens)@),
    ;
}

/// A kind of token and a number of tokens.
#[derive(Debug, Clone, Copy, PartialEq, Eq, Structural)]
pub struct GenericEffectValue {
    pub token: TokenType,
    pub value: u8,
}

impl GenericEffectValue {
    /// That many tokens of that kind.
    pub fn new(token: TokenType, value: u8) -> (pair: Self)
        ensures
            pair.token == token,
            pair.value == value,
    {
        Self { token, value }
    }
}

/// An effect that adds tokens of one kind to a ledger or removes them from it.
#[derive(Debug, Clone, Copy, PartialEq, Eq, Structural)]
pub enum GenericEffect {
    AddToken(GenericEffectValue),
    RemoveToken(GenericEffectValue),
}

impl Effect for GenericEffect {
    /// Adding stops at the capacity of the kind; removing stops at zero, where
    /// the kind leaves the ledger.
    open spec fn outcome(&self, ledger: Ledger) -> Ledger {
        match *self {
            GenericEffect::AddToken(tv) => ledger.add(tv.token, tv.value as nat),
            GenericEffect::RemoveToken(tv) => ledger.remove(tv.token, tv.value as nat),
        }
    }

    fn execute(&self, tokens: &mut TokenContainer) {
        match self {
            GenericEffect::AddToken(tv) => tokens.add_token(&tv.token, tv.value),
            GenericEffect::RemoveToken(tv) => tokens.remove_token(&tv.token, tv.value),
        }
    }
}

} // verus!
