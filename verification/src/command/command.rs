use vstd::prelude::*;

use super::action::Action;

verus! {

/// The name the user gave for the package or service.
#[derive(Debug, Clone)]
pub struct Target {
    pub raw: String,
}

/// An action on a target.
#[derive(Debug, Clone)]
pub struct Command {
    pub action: Action,
    pub target: Target,
}

} // verus!
