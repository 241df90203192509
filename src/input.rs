//! The controller's buttons and actions, and what they mean to the guitar
//! judge.
use vstd::prelude::*;
use crate::guitarplaythrough::{Fret, GuitarInputAction};

verus! {

#[derive(Debug, Clone, Copy, PartialEq, Eq, Structural)]
pub enum GameButton {
    Green,
    Red,
    Yellow,
    Blue,
    Orange,
}

#[derive(Debug, Clone, Copy, PartialEq, Eq, Structural)]
pub enum GameInputAction {
    Quit,
    ButtonDown(GameButton),
    ButtonUp(GameButton),
    Strum,
}

/// The fret that a button plays: green to orange in order.
pub open spec fn fret_of(b: GameButton) -> Fret {
    match b {
        GameButton::Green => Fret::G,
        GameButton::Red => Fret::R,
        GameButton::Yellow => Fret::Y,
        GameButton::Blue => Fret::B,
        GameButton::Orange => Fret::O,
    }
}

/// The guitar action of a game action; quitting is none.
pub open spec fn guitar_action_of(a: GameInputAction) -> Option<GuitarInputAction> {
    match a {
        GameInputAction::Quit => None,
        GameInputAction::ButtonDown(b) => Some(GuitarInputAction::FretDown(fret_of(b))),
        GameInputAction::ButtonUp(b) => Some(GuitarInputAction::FretUp(fret_of(b))),
        GameInputAction::Strum => Some(GuitarInputAction::Strum),
    }
}

impl GameButton {
    pub fn to_guitar(&self) -> (r: Fret)
        ensures
            r == fret_of(*self),
    {
        match self {
            GameButton::Green => Fret::G,
            GameButton::Red => Fret::R,
            GameButton::Yellow => Fret::Y,
            GameButton::Blue => Fret::B,
            GameButton::Orange => Fret::O,
        }
    }
}

impl GameInputAction {
    pub fn to_guitar_action(&self) -> (r: Option<GuitarInputAction>)
        ensures
            r == guitar_action_of(*self),
    {
        match self {
            GameInputAction::Quit => None,
            GameInputAction::ButtonDown(button) => Some(GuitarInputAction::FretDown(button.to_guitar())),
            GameInputAction::ButtonUp(button) => Some(GuitarInputAction::FretUp(button.to_guitar())),
            GameInputAction::Strum => Some(GuitarInputAction::Strum),
        }
    }
}

} // verus!
