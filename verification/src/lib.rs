//! Turn-based combat between two actors, resolved over tokens.
//!
//! An actor carries tokens: countable markers for its resources and its
//! states, each kind capped by a capacity ([`token`]). Actions add and remove
//! tokens ([`action`], [`effect`]), triggers react at the start and the end of
//! turns and rounds ([`trigger`]), and the combat says whose turn it is and
//! carries each action through ([`combat`], [`ui`]).
//!
//! Beside the combat stands a small spell system: actors with health and
//! buffs ([`actor`], [`damage`]), runes that spell out spells ([`magic`]) and
//! the tables of a game ([`game`]).

pub mod action;
pub mod actor;
pub mod combat;
pub mod damage;
pub mod effect;
pub mod game;
pub mod magic;
pub mod token;
pub mod trigger;
pub mod ui;
