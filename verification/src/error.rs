use vstd::prelude::*;

verus! {

/// Why an operation on the registry was refused. A refused operation leaves
/// the registry as it was.
#[derive(Clone, Copy, Debug, PartialEq, Eq, Structural)]
pub enum Error {
    /// `initialize` was called on a registry that already has a configuration.
    AlreadyInitialized,
    /// The configuration was needed before `initialize` had created it.
    NotInitialized,
    /// The caller is not the principal that the operation is reserved for.
    Unauthorized,
    /// A mint named a badge that has no template in the catalog.
    BadgeTemplateNotFound,
    /// A mint named a badge that the user already holds.
    DuplicateBadge,
    /// A revoke named a badge that the user does not hold.
    BadgeNotFound,
    /// A revoke would take a holder count below zero.
    CounterUnderflow,
}

impl Error {
    /// The text of `message`, as a sequence of characters.
    pub open spec fn text(self) -> Seq<char> {
        match self {
            Error::AlreadyInitialized => "Already initialized"@,
            Error::NotInitialized => "Not initialized"@,
            Error::Unauthorized => "Caller is not authorized"@,
            Error::BadgeTemplateNotFound => "Badge type not registered"@,
            Error::DuplicateBadge => "User already has this badge"@,
            Error::BadgeNotFound => "User does not have this badge"@,
            Error::CounterUnderflow => "Holder count is already zero"@,
        }
    }

    /// A short description of the error for people to read.
    pub fn message(&self) -> (m: &'static str)
        ensures
            m@ == self.text(),
    {
        match self {
            Error::AlreadyInitialized => "Already initialized",
            Error::NotInitialized => "Not initialized",
            Error::Unauthorized => "Caller is not authorized",
            Error::BadgeTemplateNotFound => "Badge type not registered",
            Error::DuplicateBadge => "User already has this badge",
            Error::BadgeNotFound => "User does not have this badge",
            Error::CounterUnderflow => "Holder count is already zero",
        }
    }
}

} // verus!
