use vstd::prelude::*;

use super::error::ValidationError;
use crate::command::Command;
use crate::text::{chars_of, trim, trim_bounds};

verus! {

/// The longest target accepted, in UTF-8 bytes.
pub const MAX_TARGET_BYTES: usize = 64;

/// The length of `s` in UTF-8 bytes (`str::len`).
pub open spec fn byte_len(s: Seq<char>) -> nat {
    vstd::utf8::encode_utf8(s).len()
}

/// The verdict on a target: the first rule it breaks, in the order
/// empty, only whitespace, whitespace at either end, too long.
pub open spec fn target_verdict(target: Seq<char>) -> Result<(), ValidationError> {
    if target.len() == 0 {
        Err(ValidationError::EmptyTarget)
    } else if trim(target).len() == 0 {
        Err(ValidationError::WhitespaceOnlyTarget)
    } else if trim(target) != target {
        Err(ValidationError::LeadingOrTrailingWhitespace)
    } else if byte_len(target) > MAX_TARGET_BYTES {
        Err(ValidationError::TargetTooLong)
    } else {
        Ok(())
    }
}

pub struct Validator;

impl Validator {
    /// Checks the form of the command's target.
    pub fn validate(command: &Command) -> (r: Result<(), ValidationError>)
        ensures
            r == target_verdict(command.target.raw@),
    {
        let target = command.target.raw.as_str();
        let v = chars_of(target);
        if v.len() == 0 {
            return Err(ValidationError::EmptyTarget);
        }
        let (a, b) = trim_bounds(&v, 0, v.len());
        assert(v@.subrange(0, v@.len() as int) =~= v@);
        if a == b {
            return Err(ValidationError::WhitespaceOnlyTarget);
        }
        if a != 0 || b != v.len() {
            proof {
                if a != 0 {
                    assert(trim(v@).len() < v@.len());
                } else {
                    assert(trim(v@).len() < v@.len());
                }
            }
            return Err(ValidationError::LeadingOrTrailingWhitespace);
        }
        assert(trim(v@) == v@);
        let bytes = target.as_bytes();
        if bytes.len() > MAX_TARGET_BYTES {
            return Err(ValidationError::TargetTooLong);
        }
        Ok(())
    }
}

} // verus!
