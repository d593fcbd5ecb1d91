//! Why a registration is rejected.

use vstd::prelude::*;
use vstd::string::StringExecFns;

verus! {

/// The reason for which a name or an address is refused.
#[derive(Clone, Copy, Debug, PartialEq, Eq, Structural)]
pub enum ValidationError {
    /// The name is empty once trimmed.
    EmptyName,
    /// The trimmed name has more grapheme clusters than a name may have.
    NameTooLong,
    /// The trimmed name holds a control code or a character of the denylist.
    ForbiddenCharacter,
    /// The address does not follow the grammar of email addresses.
    InvalidEmail,
}

impl ValidationError {
    /// The text of the message that goes with this reason.
    pub open spec fn message_text(self) -> Seq<char> {
        match self {
            ValidationError::EmptyName => "the subscriber name is empty"@,
            ValidationError::NameTooLong => "the subscriber name is too long"@,
            ValidationError::ForbiddenCharacter => "the subscriber name holds a forbidden character"@,
            ValidationError::InvalidEmail => "the subscriber email is not a valid address"@,
        }
    }

    /// The message that goes with this reason.
    pub fn message(&self) -> (m: String)
        ensures
            m@ == self.message_text(),
    {
        match self {
            ValidationError::EmptyName => String::from_str("the subscriber name is empty"),
            ValidationError::NameTooLong => String::from_str("the subscriber name is too long"),
            ValidationError::ForbiddenCharacter => String::from_str(
                "the subscriber name holds a forbidden character",
            ),
            ValidationError::InvalidEmail => String::from_str(
                "the subscriber email is not a valid address",
            ),
        }
    }
}

} // verus!
