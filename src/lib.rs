//! Reading of `.chart` rhythm-game charts and a judge that scores guitar input
//! against the charted notes.
use vstd::prelude::*;

pub mod chart;
pub mod guitarplaythrough;
pub mod input;
pub mod text;
