use vstd::prelude::*;

verus! {

/// Why a target was refused.
#[derive(Debug, Clone, Copy, PartialEq, Eq, Structural)]
pub enum ValidationError {
    EmptyTarget,
    WhitespaceOnlyTarget,
    LeadingOrTrailingWhitespace,
    TargetTooLong,
}

impl ValidationError {
    /// The error's name, as `Debug` writes it.
    pub open spec fn name_text(self) -> Seq<char> {
        match self {
            ValidationError::EmptyTarget => "EmptyTarget"@,
            ValidationError::WhitespaceOnlyTarget => "WhitespaceOnlyTarget"@,
            ValidationError::LeadingOrTrailingWhitespace => "LeadingOrTrailingWhitespace"@,
            ValidationError::TargetTooLong => "TargetTooLong"@,
        }
    }

    /// The error's name, as `Debug` writes it.
    pub fn name(&self) -> (s: &'static str)
        ensures
            s@ == self.name_text(),
    {
        match self {
            ValidationError::EmptyTarget => "EmptyTarget",
            ValidationError::WhitespaceOnlyTarget => "WhitespaceOnlyTarget",
            ValidationError::LeadingOrTrailingWhitespace => "LeadingOrTrailingWhitespace",
            ValidationError::TargetTooLong => "TargetTooLong",
        }
    }
}

} // verus!
